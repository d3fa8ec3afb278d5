use atomic_escrow::codec::{
    encode_immutables, encode_maker_order, parse_immutables, parse_maker_order,
};
use atomic_escrow::escrow_dst::EscrowDst;
use atomic_escrow::escrow_src::{EscrowSrc, MakerOrder};
use atomic_escrow::immutables::Immutables;
use atomic_escrow::merkle::{hash_pair, MerkleVerifier};
use atomic_escrow::timelock::TimeLock;
use atomic_escrow::EscrowError;
use sha3::{Digest, Keccak256};

const TOKEN_X: &str = "token-x.near";
const TOKEN_Y: &str = "token-y.near";
const MAKER: &str = "maker.near";
const TAKER: &str = "taker.near";

fn keccak_hex(bytes: &[u8]) -> String {
    hex::encode(Keccak256::digest(bytes))
}

fn sample_timelock() -> TimeLock {
    TimeLock {
        src_withdrawal: 100,
        src_public_withdrawal: 200,
        src_cancellation: 1000,
        src_public_cancellation: 1100,
        dst_withdrawal: 50,
        dst_public_withdrawal: 80,
        dst_cancellation: 500,
    }
}

fn immutables_for(root: &str, hashlock: &str, salt: &str, making: u128) -> Immutables {
    Immutables {
        salt: salt.to_string(),
        order_root_hash: root.to_string(),
        hashlock: hashlock.to_string(),
        making_token: TOKEN_X.to_string(),
        taking_token: TOKEN_Y.to_string(),
        making_amount: making,
        taking_amount: making,
        src_safty_deposit: 1,
        dst_safty_deposit: 1,
        timelock: sample_timelock(),
        maker: MAKER.to_string(),
        taker: TAKER.to_string(),
    }
}

fn maker_order_for(root: &str, total: u128, parts: u16, filled: u128) -> MakerOrder {
    MakerOrder {
        root_hash: root.to_string(),
        token: TOKEN_X.to_string(),
        total_amount: total,
        parts,
        filled_amount: filled,
        withdrawn_amount: 0,
        maker: MAKER.to_string(),
        expiration: 10_000,
    }
}

fn fund_src(src: &mut EscrowSrc, order: &MakerOrder) {
    let payload = hex::encode(encode_maker_order(order).unwrap());
    let refund = src.ft_on_transfer(
        TOKEN_X.to_string(),
        MAKER.to_string(),
        order.total_amount,
        1,
        payload,
    );
    assert_eq!(refund, 0);
}

/// Builds a sorted-pair tree over the leaves and returns the root and each
/// leaf's proof, everything hex-encoded.
fn build_tree_hex(leaves: &[Vec<u8>]) -> (String, Vec<Vec<String>>) {
    assert!(leaves.len().is_power_of_two());
    let mut proofs: Vec<Vec<String>> = vec![Vec::new(); leaves.len()];
    let mut level: Vec<Vec<u8>> = leaves.to_vec();
    let mut groups: Vec<Vec<usize>> = (0..leaves.len()).map(|i| vec![i]).collect();
    while level.len() > 1 {
        let mut next_level = Vec::new();
        let mut next_groups = Vec::new();
        for pair in 0..level.len() / 2 {
            let left = &level[2 * pair];
            let right = &level[2 * pair + 1];
            for &leaf in &groups[2 * pair] {
                proofs[leaf].push(hex::encode(right));
            }
            for &leaf in &groups[2 * pair + 1] {
                proofs[leaf].push(hex::encode(left));
            }
            next_level.push(hash_pair(left, right));
            let mut merged = groups[2 * pair].clone();
            merged.extend_from_slice(&groups[2 * pair + 1]);
            next_groups.push(merged);
        }
        level = next_level;
        groups = next_groups;
    }
    (hex::encode(level.pop().unwrap()), proofs)
}

/// Secrets, hashlocks, leaves and proofs for a multi-fill order with
/// segment indices 0 through 7.
fn multi_fill_fixture() -> (Vec<String>, Vec<String>, String, Vec<Vec<String>>) {
    let secrets: Vec<String> = (0..8u16).map(|i| format!("secret-{i}")).collect();
    let hashlocks: Vec<String> = secrets.iter().map(|s| keccak_hex(s.as_bytes())).collect();
    let leaves: Vec<Vec<u8>> = (0..8u16)
        .map(|i| {
            hex::decode(
                MerkleVerifier::indexed_secret_hash_string(i, &hashlocks[i as usize]).unwrap(),
            )
            .unwrap()
        })
        .collect();
    let (root, proofs) = build_tree_hex(&leaves);
    (secrets, hashlocks, root, proofs)
}

#[test]
fn codec_round_trips_immutables() {
    let imm = immutables_for(&keccak_hex(b"root"), &keccak_hex(b"s"), "salt-\u{00fc}", 42);
    let bytes = encode_immutables(&imm).unwrap();
    let back = parse_immutables(&bytes).unwrap();
    assert_eq!(back.salt, imm.salt);
    assert_eq!(back.order_root_hash, imm.order_root_hash);
    assert_eq!(back.hashlock, imm.hashlock);
    assert_eq!(back.making_token, imm.making_token);
    assert_eq!(back.taking_token, imm.taking_token);
    assert_eq!(back.making_amount, imm.making_amount);
    assert_eq!(back.taking_amount, imm.taking_amount);
    assert_eq!(back.src_safty_deposit, imm.src_safty_deposit);
    assert_eq!(back.dst_safty_deposit, imm.dst_safty_deposit);
    assert_eq!(back.timelock, imm.timelock);
    assert_eq!(back.maker, imm.maker);
    assert_eq!(back.taker, imm.taker);
    // Anything but exactly one whole record is rejected.
    assert!(parse_immutables(&bytes[..bytes.len() - 1]).is_none());
    let mut extended = bytes.clone();
    extended.push(0);
    assert!(parse_immutables(&extended).is_none());
}

#[test]
fn codec_round_trips_maker_order() {
    let order = maker_order_for(&keccak_hex(b"root"), 100, 4, 30);
    let bytes = encode_maker_order(&order).unwrap();
    let back = parse_maker_order(&bytes).unwrap();
    assert_eq!(back.root_hash, order.root_hash);
    assert_eq!(back.token, order.token);
    assert_eq!(back.total_amount, order.total_amount);
    assert_eq!(back.parts, order.parts);
    assert_eq!(back.filled_amount, order.filled_amount);
    assert_eq!(back.withdrawn_amount, order.withdrawn_amount);
    assert_eq!(back.maker, order.maker);
    assert_eq!(back.expiration, order.expiration);
    assert!(parse_maker_order(&bytes[1..]).is_none());
}

#[test]
fn src_funding_rejects_bad_payloads_and_mismatches() {
    let mut src = EscrowSrc::default();
    let order = maker_order_for(&keccak_hex(b"root"), 100, 1, 0);
    let payload = hex::encode(encode_maker_order(&order).unwrap());

    // Not hex at all.
    assert_eq!(
        src.ft_on_transfer(TOKEN_X.to_string(), MAKER.to_string(), 100, 1, "zz".to_string()),
        100
    );
    // Hex, but not a record.
    assert_eq!(
        src.ft_on_transfer(TOKEN_X.to_string(), MAKER.to_string(), 100, 1, "abcd".to_string()),
        100
    );
    // Wrong sender.
    assert_eq!(
        src.ft_on_transfer(TOKEN_X.to_string(), TAKER.to_string(), 100, 1, payload.clone()),
        100
    );
    // Underfunded.
    assert_eq!(
        src.ft_on_transfer(TOKEN_X.to_string(), MAKER.to_string(), 99, 1, payload.clone()),
        99
    );
    // Wrong token.
    assert_eq!(
        src.ft_on_transfer(TOKEN_Y.to_string(), MAKER.to_string(), 100, 1, payload.clone()),
        100
    );
    // Expiring within the safety margin.
    assert_eq!(
        src.ft_on_transfer(TOKEN_X.to_string(), MAKER.to_string(), 100, 9_501, payload.clone()),
        100
    );
    // Accepted at the margin, refunding the excess.
    assert_eq!(
        src.ft_on_transfer(TOKEN_X.to_string(), MAKER.to_string(), 120, 9_500, payload),
        20
    );
}

#[test]
fn single_fill_requires_matching_hashlock_and_deposit() {
    let secret = "single-secret";
    let root = keccak_hex(secret.as_bytes());
    let mut src = EscrowSrc::default();
    fund_src(&mut src, &maker_order_for(&root, 100, 1, 0));

    let imm = immutables_for(&root, &root, "salt", 100);
    assert_eq!(
        src.create_resolver_fill_order(imm.duplicate(), None, None, 2),
        Err(EscrowError::InvalidSafetyDeposit)
    );
    let unknown = immutables_for(&keccak_hex(b"other"), &root, "salt", 100);
    assert_eq!(
        src.create_resolver_fill_order(unknown, None, None, 1),
        Err(EscrowError::OrderNotFound)
    );
    let wrong_lock = immutables_for(&root, &keccak_hex(b"wrong"), "salt", 100);
    assert_eq!(
        src.create_resolver_fill_order(wrong_lock, None, None, 1),
        Err(EscrowError::InvalidHashlock)
    );
    assert_eq!(src.create_resolver_fill_order(imm, None, None, 1), Ok(()));
}

#[test]
fn multi_fill_checks_completion_index_and_proof() {
    let (_, hashlocks, root, proofs) = multi_fill_fixture();
    let mut src = EscrowSrc::default();
    fund_src(&mut src, &maker_order_for(&root, 100, 4, 0));

    let fill0 = immutables_for(&root, &hashlocks[0], "salt-0", 25);
    assert_eq!(
        src.create_resolver_fill_order(fill0.duplicate(), None, None, 1),
        Err(EscrowError::MissingIndex)
    );
    assert_eq!(
        src.create_resolver_fill_order(fill0.duplicate(), Some(1), Some(proofs[1].clone()), 1),
        Err(EscrowError::InvalidIndex)
    );
    assert_eq!(
        src.create_resolver_fill_order(fill0.duplicate(), Some(0), None, 1),
        Err(EscrowError::MissingProof)
    );
    assert_eq!(
        src.create_resolver_fill_order(fill0.duplicate(), Some(0), Some(proofs[1].clone()), 1),
        Err(EscrowError::InvalidProof)
    );
    let bad_lock = immutables_for(&root, "not-hex", "salt-0", 25);
    assert_eq!(
        src.create_resolver_fill_order(bad_lock, Some(0), Some(proofs[0].clone()), 1),
        Err(EscrowError::InvalidHex)
    );
    assert_eq!(
        src.create_resolver_fill_order(fill0, Some(0), Some(proofs[0].clone()), 1),
        Ok(())
    );

    // The next quarter lands on segment 1, then 2, then the sentinel 4.
    let fill1 = immutables_for(&root, &hashlocks[1], "salt-1", 25);
    assert_eq!(
        src.create_resolver_fill_order(fill1, Some(1), Some(proofs[1].clone()), 1),
        Ok(())
    );
    let fill2 = immutables_for(&root, &hashlocks[2], "salt-2", 25);
    assert_eq!(
        src.create_resolver_fill_order(fill2, Some(2), Some(proofs[2].clone()), 1),
        Ok(())
    );
    let last = immutables_for(&root, &hashlocks[4], "salt-3", 25);
    assert_eq!(
        src.create_resolver_fill_order(last.duplicate(), Some(3), Some(proofs[3].clone()), 1),
        Err(EscrowError::InvalidIndex)
    );
    assert_eq!(
        src.create_resolver_fill_order(last, Some(4), Some(proofs[4].clone()), 1),
        Ok(())
    );
}

#[test]
fn multi_fill_rejects_fill_below_segment_remainder() {
    let (_, hashlocks, root, proofs) = multi_fill_fixture();
    let mut src = EscrowSrc::default();

    // On a fresh order, a fill of 10 against the 25 owed in segment 0 is
    // rejected even with the right index and a valid proof.
    fund_src(&mut src, &maker_order_for(&root, 100, 4, 0));
    let small = immutables_for(&root, &hashlocks[0], "salt", 10);
    assert_eq!(
        src.create_resolver_fill_order(small, Some(0), Some(proofs[0].clone()), 1),
        Err(EscrowError::FillTooSmall)
    );

    // An order already 30 filled (5 into segment 1) still owes 20 there.
    let mut src = EscrowSrc::default();
    fund_src(&mut src, &maker_order_for(&root, 100, 4, 30));
    let small = immutables_for(&root, &hashlocks[1], "salt", 5);
    assert_eq!(
        src.create_resolver_fill_order(small, Some(1), Some(proofs[1].clone()), 1),
        Err(EscrowError::FillTooSmall)
    );
}

#[test]
fn stale_fill_is_rejected_after_competing_commit() {
    // Two resolvers both compute a fill for segment 0 of a fresh order;
    // whichever commits second is rejected by the index check.
    let (_, hashlocks, root, proofs) = multi_fill_fixture();
    let mut src = EscrowSrc::default();
    fund_src(&mut src, &maker_order_for(&root, 100, 4, 0));

    let first = immutables_for(&root, &hashlocks[0], "salt-first", 25);
    assert_eq!(
        src.create_resolver_fill_order(first, Some(0), Some(proofs[0].clone()), 1),
        Ok(())
    );
    // The competitor's index 0, computed when nothing was filled, is stale.
    let stale = immutables_for(&root, &hashlocks[0], "salt-stale", 25);
    assert_eq!(
        src.create_resolver_fill_order(stale, Some(0), Some(proofs[0].clone()), 1),
        Err(EscrowError::InvalidIndex)
    );
}

#[test]
fn fills_past_the_order_total_are_rejected() {
    // Single fill: a second full fill against an already filled order.
    let secret = "once-only";
    let root = keccak_hex(secret.as_bytes());
    let mut src = EscrowSrc::default();
    fund_src(&mut src, &maker_order_for(&root, 100, 1, 0));
    let imm = immutables_for(&root, &root, "salt-a", 100);
    assert_eq!(src.create_resolver_fill_order(imm, None, None, 1), Ok(()));
    let again = immutables_for(&root, &root, "salt-b", 100);
    assert_eq!(
        src.create_resolver_fill_order(again, None, None, 1),
        Err(EscrowError::FillTooLarge)
    );

    // A single fill larger than the order's total.
    let mut src = EscrowSrc::default();
    fund_src(&mut src, &maker_order_for(&root, 100, 1, 0));
    let too_big = immutables_for(&root, &root, "salt-c", 101);
    assert_eq!(
        src.create_resolver_fill_order(too_big, None, None, 1),
        Err(EscrowError::FillTooLarge)
    );

    // Multi fill: overfilling by one unit could otherwise reach the
    // sentinel index; it is rejected before any index arithmetic.
    let (_, hashlocks, mroot, proofs) = multi_fill_fixture();
    let mut src = EscrowSrc::default();
    fund_src(&mut src, &maker_order_for(&mroot, 100, 4, 75));
    let over = immutables_for(&mroot, &hashlocks[4], "salt-d", 26);
    assert_eq!(
        src.create_resolver_fill_order(over, Some(4), Some(proofs[4].clone()), 1),
        Err(EscrowError::FillTooLarge)
    );
}

#[test]
fn dst_funding_enforces_the_timelock_invariant() {
    let mut dst = EscrowDst::default();
    let root = keccak_hex(b"root");
    let good = immutables_for(&root, &keccak_hex(b"s"), "salt", 100);
    let payload = hex::encode(encode_immutables(&good).unwrap());
    assert_eq!(
        dst.ft_on_transfer(TAKER.to_string(), 100, payload),
        Ok(0)
    );

    // dst_cancellation == src_cancellation must reject.
    let mut equal = immutables_for(&root, &keccak_hex(b"s"), "salt-2", 100);
    equal.timelock.dst_cancellation = equal.timelock.src_cancellation;
    let payload = hex::encode(encode_immutables(&equal).unwrap());
    assert_eq!(
        dst.ft_on_transfer(TAKER.to_string(), 100, payload),
        Err(EscrowError::CancellationOrder)
    );

    // dst_cancellation > src_cancellation must reject too.
    let mut later = immutables_for(&root, &keccak_hex(b"s"), "salt-3", 100);
    later.timelock.dst_cancellation = later.timelock.src_cancellation + 1;
    let payload = hex::encode(encode_immutables(&later).unwrap());
    assert_eq!(
        dst.ft_on_transfer(TAKER.to_string(), 100, payload),
        Err(EscrowError::CancellationOrder)
    );
}

#[test]
fn dst_funding_rejects_bad_payloads_senders_and_amounts() {
    let mut dst = EscrowDst::default();
    assert_eq!(
        dst.ft_on_transfer(TAKER.to_string(), 100, "zz".to_string()),
        Err(EscrowError::InvalidHex)
    );
    assert_eq!(
        dst.ft_on_transfer(TAKER.to_string(), 100, "abcd".to_string()),
        Err(EscrowError::MalformedPayload)
    );
    let imm = immutables_for(&keccak_hex(b"root"), &keccak_hex(b"s"), "salt", 100);
    let payload = hex::encode(encode_immutables(&imm).unwrap());
    assert_eq!(
        dst.ft_on_transfer(TAKER.to_string(), 99, payload.clone()),
        Err(EscrowError::InsufficientAmount)
    );
    assert_eq!(
        dst.ft_on_transfer(MAKER.to_string(), 100, payload.clone()),
        Err(EscrowError::WrongSender)
    );
    // Excess over the making amount is refunded.
    assert_eq!(dst.ft_on_transfer(TAKER.to_string(), 130, payload), Ok(30));

    // More taking than making: enough for the taking amount but under the
    // making amount is an arithmetic rejection, never a wrap.
    let mut skewed = immutables_for(&keccak_hex(b"root"), &keccak_hex(b"s"), "salt-2", 100);
    skewed.taking_amount = 10;
    let payload = hex::encode(encode_immutables(&skewed).unwrap());
    assert_eq!(
        dst.ft_on_transfer(TAKER.to_string(), 50, payload),
        Err(EscrowError::ArithmeticOverflow)
    );
}

#[test]
fn dst_deposit_window_and_amount() {
    let mut dst = EscrowDst::default();
    let imm = immutables_for(&keccak_hex(b"root"), &keccak_hex(b"s"), "salt", 100);
    let payload = hex::encode(encode_immutables(&imm).unwrap());
    assert_eq!(dst.ft_on_transfer(TAKER.to_string(), 100, payload), Ok(0));

    // dst_withdrawal is 50: at exactly 50 the deposit window is shut.
    assert_eq!(
        dst.deposit_safty_amount(imm.duplicate(), 50, 1),
        Err(EscrowError::AfterWindow)
    );
    assert_eq!(
        dst.deposit_safty_amount(imm.duplicate(), 40, 2),
        Err(EscrowError::InvalidSafetyDeposit)
    );
    // Depositing against an unknown commitment is a silent no-op.
    let unknown = immutables_for(&keccak_hex(b"root"), &keccak_hex(b"s"), "other-salt", 100);
    assert_eq!(dst.deposit_safty_amount(unknown, 40, 1), Ok(()));
    assert_eq!(dst.deposit_safty_amount(imm, 40, 1), Ok(()));
}

#[test]
fn dst_withdraw_gates_and_pays_out() {
    let secret = "wd-secret".to_string();
    let root = keccak_hex(b"root");
    let imm = immutables_for(&root, &keccak_hex(secret.as_bytes()), "salt", 100);
    let mut dst = EscrowDst::default();
    let payload = hex::encode(encode_immutables(&imm).unwrap());
    assert_eq!(dst.ft_on_transfer(TAKER.to_string(), 100, payload), Ok(0));
    assert_eq!(dst.deposit_safty_amount(imm.duplicate(), 40, 1), Ok(()));

    assert_eq!(
        dst.withdraw(secret.clone(), imm.duplicate(), MAKER.to_string(), 100)
            .unwrap_err(),
        EscrowError::NotTaker
    );
    // At exactly dst_withdrawal (50) the private window is not yet open.
    assert_eq!(
        dst.withdraw(secret.clone(), imm.duplicate(), TAKER.to_string(), 50)
            .unwrap_err(),
        EscrowError::BeforeWindow
    );
    // At exactly dst_cancellation (500) the window is already shut.
    assert_eq!(
        dst.withdraw(secret.clone(), imm.duplicate(), TAKER.to_string(), 500)
            .unwrap_err(),
        EscrowError::AfterWindow
    );
    assert_eq!(
        dst.withdraw("wrong".to_string(), imm.duplicate(), TAKER.to_string(), 100)
            .unwrap_err(),
        EscrowError::InvalidSecret
    );
    let payout = dst
        .withdraw(secret.clone(), imm.duplicate(), TAKER.to_string(), 100)
        .unwrap();
    assert_eq!(payout.token, TOKEN_Y);
    assert_eq!(payout.receiver, MAKER);
    assert_eq!(payout.amount, 100);
    assert_eq!(payout.deposit_receiver, TAKER);
    assert_eq!(payout.deposit_amount, 1);
    // The commitment is gone afterwards.
    assert_eq!(
        dst.withdraw(secret, imm, TAKER.to_string(), 100).unwrap_err(),
        EscrowError::OrderNotFound
    );
}

#[test]
fn dst_cancel_returns_asset_and_deposit_to_caller() {
    let root = keccak_hex(b"root");
    let imm = immutables_for(&root, &keccak_hex(b"s"), "salt", 100);
    let mut dst = EscrowDst::default();
    let payload = hex::encode(encode_immutables(&imm).unwrap());
    assert_eq!(dst.ft_on_transfer(TAKER.to_string(), 100, payload), Ok(0));
    assert_eq!(dst.deposit_safty_amount(imm.duplicate(), 40, 1), Ok(()));

    assert_eq!(
        dst.cancel(imm.duplicate(), TAKER.to_string(), 500).unwrap_err(),
        EscrowError::BeforeWindow
    );
    let payout = dst.cancel(imm, TAKER.to_string(), 501).unwrap();
    assert_eq!(payout.token, TOKEN_Y);
    assert_eq!(payout.receiver, TAKER);
    assert_eq!(payout.amount, 100);
    assert_eq!(payout.deposit_receiver, TAKER);
    assert_eq!(payout.deposit_amount, 1);
}

#[test]
fn end_to_end_single_fill_swap() {
    // Maker funds a one-part order of 100 X for 100 Y; the resolver
    // commits, funds the destination, deposits the safety amount, and the
    // secret unlocks both sides in turn.
    let secret = "the-swap-secret".to_string();
    let root = keccak_hex(secret.as_bytes());
    let mut src = EscrowSrc::default();
    let mut dst = EscrowDst::default();

    fund_src(&mut src, &maker_order_for(&root, 100, 1, 0));

    let imm = immutables_for(&root, &root, "swap-salt", 100);
    assert_eq!(src.create_resolver_fill_order(imm.duplicate(), None, None, 1), Ok(()));

    let payload = hex::encode(encode_immutables(&imm).unwrap());
    assert_eq!(dst.ft_on_transfer(TAKER.to_string(), 100, payload), Ok(0));
    assert_eq!(dst.deposit_safty_amount(imm.duplicate(), 40, 1), Ok(()));

    // After dst_withdrawal (50) and before dst_cancellation (500): the
    // destination releases 100 Y to the maker and the deposit to the caller.
    let payout = dst
        .withdraw(secret.clone(), imm.duplicate(), TAKER.to_string(), 100)
        .unwrap();
    assert_eq!(payout.token, TOKEN_Y);
    assert_eq!(payout.receiver, MAKER);
    assert_eq!(payout.amount, 100);
    assert_eq!(payout.deposit_receiver, TAKER);
    assert_eq!(payout.deposit_amount, 1);

    // Then the taker withdraws on the source side with the same secret,
    // directing the asset per the withdraw-to recipient.
    let payout = src
        .withdraw_to(secret, imm, MAKER.to_string(), TAKER.to_string(), 300)
        .unwrap();
    assert_eq!(payout.token, TOKEN_X);
    assert_eq!(payout.receiver, MAKER);
    assert_eq!(payout.amount, 100);
    assert_eq!(payout.deposit_receiver, TAKER);
    assert_eq!(payout.deposit_amount, 1);
}

#[test]
fn src_withdraw_and_cancel_windows() {
    let secret = "src-secret".to_string();
    let root = keccak_hex(secret.as_bytes());
    let mut src = EscrowSrc::default();
    // Room for the three separate fills this test commits.
    fund_src(&mut src, &maker_order_for(&root, 300, 1, 0));
    let imm = immutables_for(&root, &root, "salt", 100);
    assert_eq!(src.create_resolver_fill_order(imm.duplicate(), None, None, 1), Ok(()));

    assert_eq!(
        src.withdraw(secret.clone(), imm.duplicate(), MAKER.to_string(), 300)
            .unwrap_err(),
        EscrowError::NotTaker
    );
    // At exactly src_withdrawal (100) the private window is not open yet.
    assert_eq!(
        src.withdraw(secret.clone(), imm.duplicate(), TAKER.to_string(), 100)
            .unwrap_err(),
        EscrowError::BeforeWindow
    );
    // The public window opens only after src_public_withdrawal (200).
    assert_eq!(
        src.pubic_withdraw(secret.clone(), imm.duplicate(), MAKER.to_string(), 150)
            .unwrap_err(),
        EscrowError::BeforeWindow
    );
    let payout = src
        .pubic_withdraw(secret.clone(), imm.duplicate(), MAKER.to_string(), 250)
        .unwrap();
    assert_eq!(payout.receiver, TAKER);
    assert_eq!(payout.deposit_receiver, MAKER);

    // The fill is gone; cancelling it now reports it missing.
    assert_eq!(
        src.cancel(imm.duplicate(), TAKER.to_string(), 1001).unwrap_err(),
        EscrowError::OrderNotFound
    );

    // A fresh fill can instead be cancelled after src_cancellation (1000).
    let imm2 = immutables_for(&root, &root, "salt-2", 100);
    assert_eq!(src.create_resolver_fill_order(imm2.duplicate(), None, None, 1), Ok(()));
    assert_eq!(
        src.cancel(imm2.duplicate(), TAKER.to_string(), 1000).unwrap_err(),
        EscrowError::BeforeWindow
    );
    let payout = src.cancel(imm2, TAKER.to_string(), 1001).unwrap();
    assert_eq!(payout.receiver, MAKER);
    assert_eq!(payout.token, TOKEN_X);

    // Public cancellation is open to anyone after src_public_cancellation.
    let imm3 = immutables_for(&root, &root, "salt-3", 100);
    assert_eq!(src.create_resolver_fill_order(imm3.duplicate(), None, None, 1), Ok(()));
    assert_eq!(
        src.public_cancel(imm3.duplicate(), MAKER.to_string(), 1100).unwrap_err(),
        EscrowError::BeforeWindow
    );
    let payout = src.public_cancel(imm3, MAKER.to_string(), 1101).unwrap();
    assert_eq!(payout.receiver, MAKER);
    assert_eq!(payout.deposit_receiver, MAKER);
}
