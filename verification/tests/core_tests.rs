use atomic_escrow::bytes_be::{u128_be_bytes, u16_be_bytes, u64_be_bytes};
use atomic_escrow::escrow_src::EscrowSrc;
use atomic_escrow::immutables::Immutables;
use atomic_escrow::secret::validate_secret;
use atomic_escrow::timelock::{TimeLock, _only_after, _only_before};
use atomic_escrow::EscrowError;
use sha3::{Digest, Keccak256};

fn keccak_hex(bytes: &[u8]) -> String {
    hex::encode(Keccak256::digest(bytes))
}

fn sample_timelock() -> TimeLock {
    TimeLock {
        src_withdrawal: 100,
        src_public_withdrawal: 200,
        src_cancellation: 1000,
        src_public_cancellation: 1100,
        dst_withdrawal: 50,
        dst_public_withdrawal: 80,
        dst_cancellation: 500,
    }
}

fn sample_immutables() -> Immutables {
    Immutables {
        salt: "salt-1".to_string(),
        order_root_hash: keccak_hex(b"root"),
        hashlock: keccak_hex(b"secret-1"),
        making_token: "token-x.near".to_string(),
        taking_token: "token-y.near".to_string(),
        making_amount: 100,
        taking_amount: 100,
        src_safty_deposit: 1,
        dst_safty_deposit: 1,
        timelock: sample_timelock(),
        maker: "maker.near".to_string(),
        taker: "taker.near".to_string(),
    }
}

#[test]
fn hash_is_deterministic_across_instances() {
    let a = sample_immutables();
    let b = sample_immutables();
    assert_eq!(a.hash(), b.hash());
}

#[test]
fn hash_changes_with_every_field() {
    let base = sample_immutables();
    let base_hash = base.hash();

    let mut m = sample_immutables();
    m.salt = "salt-2".to_string();
    assert_ne!(m.hash(), base_hash);

    let mut m = sample_immutables();
    m.order_root_hash = keccak_hex(b"other root");
    assert_ne!(m.hash(), base_hash);

    let mut m = sample_immutables();
    m.hashlock = keccak_hex(b"secret-2");
    assert_ne!(m.hash(), base_hash);

    let mut m = sample_immutables();
    m.making_token = "token-z.near".to_string();
    assert_ne!(m.hash(), base_hash);

    let mut m = sample_immutables();
    m.taking_token = "token-z.near".to_string();
    assert_ne!(m.hash(), base_hash);

    let mut m = sample_immutables();
    m.making_amount = 101;
    assert_ne!(m.hash(), base_hash);

    let mut m = sample_immutables();
    m.taking_amount = 101;
    assert_ne!(m.hash(), base_hash);

    let mut m = sample_immutables();
    m.src_safty_deposit = 2;
    assert_ne!(m.hash(), base_hash);

    let mut m = sample_immutables();
    m.dst_safty_deposit = 2;
    assert_ne!(m.hash(), base_hash);

    let mut m = sample_immutables();
    m.timelock.dst_withdrawal = 51;
    assert_ne!(m.hash(), base_hash);

    let mut m = sample_immutables();
    m.maker = "maker2.near".to_string();
    assert_ne!(m.hash(), base_hash);

    let mut m = sample_immutables();
    m.taker = "taker2.near".to_string();
    assert_ne!(m.hash(), base_hash);
}

#[test]
fn hash_matches_canonical_byte_image() {
    let imm = sample_immutables();
    let mut combined: Vec<u8> = Vec::new();
    combined.extend_from_slice(imm.salt.as_bytes());
    combined.extend_from_slice(imm.order_root_hash.as_bytes());
    combined.extend_from_slice(imm.hashlock.as_bytes());
    combined.extend_from_slice(imm.making_token.as_bytes());
    combined.extend_from_slice(imm.taking_token.as_bytes());
    combined.extend_from_slice(&imm.making_amount.to_be_bytes());
    combined.extend_from_slice(&imm.taking_amount.to_be_bytes());
    combined.extend_from_slice(&imm.src_safty_deposit.to_be_bytes());
    combined.extend_from_slice(&imm.dst_safty_deposit.to_be_bytes());
    combined.extend_from_slice(&imm.timelock.src_withdrawal.to_be_bytes());
    combined.extend_from_slice(&imm.timelock.src_public_withdrawal.to_be_bytes());
    combined.extend_from_slice(&imm.timelock.src_cancellation.to_be_bytes());
    combined.extend_from_slice(&imm.timelock.src_public_cancellation.to_be_bytes());
    combined.extend_from_slice(&imm.timelock.dst_withdrawal.to_be_bytes());
    combined.extend_from_slice(&imm.timelock.dst_public_withdrawal.to_be_bytes());
    combined.extend_from_slice(&imm.timelock.dst_cancellation.to_be_bytes());
    combined.extend_from_slice(imm.maker.as_bytes());
    combined.extend_from_slice(imm.taker.as_bytes());
    assert_eq!(imm.hash(), keccak_hex(&combined));
}

#[test]
fn window_boundaries_are_strict() {
    assert!(!_only_after(100, 100));
    assert!(_only_after(101, 100));
    assert!(!_only_before(100, 100));
    assert!(_only_before(99, 100));
}

#[test]
fn timelock_verify_accepts_ordered_deadlines() {
    assert!(sample_timelock().verify());
    let mut tl = sample_timelock();
    tl.dst_cancellation = tl.src_cancellation;
    assert!(!tl.verify());
    let mut tl = sample_timelock();
    tl.src_withdrawal = tl.src_public_withdrawal + 1;
    assert!(!tl.verify());
}

#[test]
fn timelock_combined_layout_is_stable() {
    let tl = sample_timelock();
    let combined = tl.get_combined();
    let mut expected: Vec<u8> = Vec::new();
    expected.extend_from_slice(&100u64.to_be_bytes());
    expected.extend_from_slice(&200u64.to_be_bytes());
    expected.extend_from_slice(&1000u64.to_be_bytes());
    expected.extend_from_slice(&1100u64.to_be_bytes());
    expected.extend_from_slice(&50u64.to_be_bytes());
    expected.extend_from_slice(&80u64.to_be_bytes());
    expected.extend_from_slice(&500u64.to_be_bytes());
    assert_eq!(combined, expected);
}

#[test]
fn big_endian_bytes_match_std() {
    assert_eq!(u16_be_bytes(0x1234), 0x1234u16.to_be_bytes().to_vec());
    assert_eq!(u64_be_bytes(0x0102030405060708), 0x0102030405060708u64.to_be_bytes().to_vec());
    assert_eq!(
        u128_be_bytes(0x0102030405060708090a0b0c0d0e0f10),
        0x0102030405060708090a0b0c0d0e0f10u128.to_be_bytes().to_vec()
    );
}

#[test]
fn valid_index_sequence_of_quarter_fills() {
    // total 100 split in 4 parts: fills of 25 land on indices 0, 1, 2, then
    // the completing fill takes the sentinel index 4, not 3.
    assert_eq!(EscrowSrc::compute_valid_index(100, 0, 25, 4), Ok(0));
    assert_eq!(EscrowSrc::compute_valid_index(100, 25, 25, 4), Ok(1));
    assert_eq!(EscrowSrc::compute_valid_index(100, 50, 25, 4), Ok(2));
    assert_eq!(EscrowSrc::compute_valid_index(100, 75, 25, 4), Ok(4));
}

#[test]
fn completion_check_boundary() {
    // On a fresh order the whole first segment of 25 is owed: a fill of 10
    // is rejected, a fill of exactly one segment passes.
    assert_eq!(EscrowSrc::completes_last_partial_fill(100, 0, 10, 4), Ok(false));
    assert_eq!(EscrowSrc::completes_last_partial_fill(100, 0, 24, 4), Ok(false));
    assert_eq!(EscrowSrc::completes_last_partial_fill(100, 0, 25, 4), Ok(true));
    // With 30 filled (5 into segment 1), the 20 still owed in that segment
    // must be covered.
    assert_eq!(EscrowSrc::completes_last_partial_fill(100, 30, 19, 4), Ok(false));
    assert_eq!(EscrowSrc::completes_last_partial_fill(100, 30, 20, 4), Ok(true));
    // At a segment boundary the next whole segment is owed.
    assert_eq!(EscrowSrc::completes_last_partial_fill(100, 25, 24, 4), Ok(false));
    assert_eq!(EscrowSrc::completes_last_partial_fill(100, 25, 25, 4), Ok(true));
}

#[test]
fn fill_arithmetic_rejects_degenerate_orders() {
    assert_eq!(
        EscrowSrc::completes_last_partial_fill(0, 0, 10, 4),
        Err(EscrowError::ZeroTotalAmount)
    );
    assert_eq!(EscrowSrc::completes_last_partial_fill(100, 0, 10, 0), Err(EscrowError::ZeroParts));
    assert_eq!(EscrowSrc::compute_valid_index(0, 0, 10, 4), Err(EscrowError::ZeroTotalAmount));
    assert_eq!(EscrowSrc::compute_valid_index(100, 0, 0, 4), Err(EscrowError::ZeroFill));
}

#[test]
fn overflowing_fill_rejects_instead_of_wrapping() {
    assert_eq!(
        EscrowSrc::compute_valid_index(100, u128::MAX, 1, 4),
        Err(EscrowError::ArithmeticOverflow)
    );
    assert_eq!(
        EscrowSrc::completes_last_partial_fill(u128::MAX, u128::MAX, 1, 4),
        Err(EscrowError::ArithmeticOverflow)
    );
    assert_eq!(
        EscrowSrc::compute_valid_index(u128::MAX, u128::MAX - 2, 1, u16::MAX),
        Err(EscrowError::ArithmeticOverflow)
    );
    // The segment-end computation is overflow-checked too.
    assert_eq!(
        EscrowSrc::completes_last_partial_fill(u128::MAX, u128::MAX, 1, 1),
        Err(EscrowError::ArithmeticOverflow)
    );
}

#[test]
fn secret_validates_against_its_own_hash() {
    for secret in ["s", "another secret", "", "unicode-\u{00e9}\u{00df}"] {
        let hashlock = keccak_hex(secret.as_bytes());
        assert!(validate_secret(secret.to_string(), hashlock));
    }
}

#[test]
fn secret_validation_ignores_0x_marker_only() {
    let hashlock = keccak_hex(b"secret-1");
    assert!(validate_secret("secret-1".to_string(), format!("0x{}", hashlock)));
    assert!(!validate_secret("secret-2".to_string(), format!("0x{}", hashlock)));
    // Byte-exact otherwise: an uppercase hashlock does not match.
    assert!(!validate_secret("secret-1".to_string(), hashlock.to_uppercase()));
    // Only a single leading marker is ignored.
    assert!(!validate_secret("secret-1".to_string(), format!("0x0x{}", hashlock)));
}
