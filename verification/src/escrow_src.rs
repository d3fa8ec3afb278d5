//! The source-side escrow: the maker order book and the fill engine.
//!
//! Makers fund orders through the funding hook; resolvers commit fills
//! against them, whole or in segments authenticated by Merkle proofs, and
//! later withdraw or cancel each fill inside its time window.  The segment
//! index and remainder formulas double as the synchronization mechanism
//! between racing resolvers: once a competing fill covering a whole segment
//! has committed, a fill whose index was computed against the stale
//! `filled_amount` is rejected rather than silently overlapping.

use vstd::prelude::*;

verus! {

use vstd::hash_map::StringHashMap;
use vstd::arithmetic::div_mod::{
    lemma_fundamental_div_mod,
    lemma_mod_division_less_than_divisor,
    lemma_multiply_divide_lt,
    lemma_div_pos_is_pos,
    lemma_div_non_zero,
    lemma_div_plus_one,
    lemma_div_is_ordered,
};
use vstd::arithmetic::mul::{
    lemma_mul_inequality,
    lemma_mul_strict_inequality,
};
use crate::EscrowError;
use crate::Payout;
use crate::PayoutV;
use crate::immutables::{Immutables, ImmutablesV, spec_immutables_hash};
use crate::timelock::{spec_after, spec_before, _only_after, _only_before};
use crate::secret::{spec_validate_secret, validate_secret};
use crate::hashing::{spec_hex_str_bytes, spec_hex_of, hex_decode};
use crate::codec::{spec_parse_maker_order, parse_maker_order};
use crate::merkle::{
    MerkleVerifier,
    spec_hex_item,
    spec_all_items_hex,
    spec_decoded_items,
    spec_str_views,
    spec_indexed_leaf,
    spec_fold_proof,
};

/// A maker's order on the source ledger.
#[derive(Clone, Debug)]
pub struct MakerOrder {
    /// Hashlock for a single-fill order, or the Merkle root over per-segment
    /// hashlocks for a multi-fill order.
    pub root_hash: String,
    /// Token the maker deposited.
    pub token: String,
    /// Total amount the maker deposited.
    pub total_amount: u128,
    /// Number of segments the order is divided into (at least 1).
    pub parts: u16,
    /// Amount committed by accepted fills so far; only ever grows.
    pub filled_amount: u128,
    /// Amount already settled out of the fills.
    pub withdrawn_amount: u128,
    /// Maker account.
    pub maker: String,
    /// Timestamp beyond which the order may no longer be funded.
    pub expiration: u64,
}

/// The mathematical image of a [`MakerOrder`].
pub ghost struct MakerOrderV {
    pub root_hash: Seq<char>,
    pub token: Seq<char>,
    pub total_amount: u128,
    pub parts: u16,
    pub filled_amount: u128,
    pub withdrawn_amount: u128,
    pub maker: Seq<char>,
    pub expiration: u64,
}

impl View for MakerOrder {
    type V = MakerOrderV;

    open spec fn view(&self) -> MakerOrderV {
        MakerOrderV {
            root_hash: self.root_hash@,
            token: self.token@,
            total_amount: self.total_amount,
            parts: self.parts,
            filled_amount: self.filled_amount,
            withdrawn_amount: self.withdrawn_amount,
            maker: self.maker@,
            expiration: self.expiration,
        }
    }
}

/// One resolver commitment against a maker order, stored under the
/// commitment's content hash.
#[derive(Clone, Debug)]
pub struct ResolverOrderFill {
    pub immutables: Immutables,
}

/// The segment index a partially filled order currently sits in.
pub open spec fn spec_segment_index(total: int, filled: int, parts: int) -> int {
    (filled * parts) / total
}

/// The amount still owed to finish the segment currently being filled: the
/// distance from the committed amount up to the end of that segment, and
/// zero when the committed amount already stands at or past that end.
pub open spec fn spec_segment_remainder(total: int, filled: int, parts: int) -> int {
    let segment_end = (total / parts) * (spec_segment_index(total, filled, parts) + 1);
    if segment_end >= filled {
        segment_end - filled
    } else {
        0
    }
}

/// Whether a fill covers the remainder of the current segment.
pub open spec fn spec_completes_fill(total: int, filled: int, making: int, parts: int) -> bool {
    making >= spec_segment_remainder(total, filled, parts)
}

/// The exact outcome of the completion check, error cases included.
pub open spec fn spec_completes_result(total: u128, filled: u128, making: u128, parts: u16) -> Result<
    bool,
    EscrowError,
> {
    if parts == 0 {
        Err(EscrowError::ZeroParts)
    } else if total == 0 {
        Err(EscrowError::ZeroTotalAmount)
    } else if (filled as int) * (parts as int) > u128::MAX {
        Err(EscrowError::ArithmeticOverflow)
    } else if ((total as int) / (parts as int)) * (spec_segment_index(
        total as int,
        filled as int,
        parts as int,
    ) + 1) > u128::MAX {
        Err(EscrowError::ArithmeticOverflow)
    } else {
        Ok(spec_completes_fill(total as int, filled as int, making as int, parts as int))
    }
}

/// The valid segment index for a fill: the sentinel `parts` when the fill
/// completes the order, else the index of the segment the fill ends in.
pub open spec fn spec_valid_index(total: int, filled: int, making: int, parts: int) -> int {
    if filled + making == total {
        parts
    } else {
        ((filled + making - 1) * parts) / total
    }
}

/// The exact outcome of the index computation, error cases included: any
/// intermediate value out of range rejects instead of wrapping.
pub open spec fn spec_valid_index_result(total: u128, filled: u128, making: u128, parts: u16) -> Result<
    u16,
    EscrowError,
> {
    let cf = (filled as int) + (making as int);
    if total == 0 {
        Err(EscrowError::ZeroTotalAmount)
    } else if cf > u128::MAX {
        Err(EscrowError::ArithmeticOverflow)
    } else if cf == 0 {
        Err(EscrowError::ZeroFill)
    } else if cf == total {
        Ok(parts)
    } else if (cf - 1) * (parts as int) > u128::MAX {
        Err(EscrowError::ArithmeticOverflow)
    } else if ((cf - 1) * (parts as int)) / (total as int) > u16::MAX {
        Err(EscrowError::ArithmeticOverflow)
    } else {
        Ok((((cf - 1) * (parts as int)) / (total as int)) as u16)
    }
}

/// When a fill leaves the order incomplete, its valid index lies strictly
/// below `parts`, so every incomplete fill points at a real segment and the
/// sentinel index is reserved for the completing fill.
pub proof fn lemma_valid_index_below_parts(total: int, filled: int, making: int, parts: int)
    requires
        0 < parts,
        0 <= filled,
        0 <= making,
        0 < filled + making < total,
    ensures
        0 <= spec_valid_index(total, filled, making, parts) < parts,
{
    let cf = filled + making;
    lemma_mul_strict_inequality(cf - 1, total, parts);
    lemma_multiply_divide_lt((cf - 1) * parts, total, parts);
    lemma_div_pos_is_pos((cf - 1) * parts, total);
    assert((cf - 1) * parts >= 0) by (nonlinear_arith)
        requires
            cf >= 1,
            parts > 0,
    ;
}

/// Racing fills are self-rejecting when the order divides evenly into
/// segments: once a competing fill covering at least one whole segment has
/// committed, a fill whose index was computed against the old committed
/// amount no longer matches the valid index, so it must be recomputed
/// against the fresh state instead of silently overlapping a segment.
pub proof fn lemma_stale_fill_rejects(total: int, filled: int, making: int, extra: int, parts: int)
    requires
        0 < parts,
        0 < total / parts,
        total == parts * (total / parts),
        0 <= filled,
        1 <= making,
        total / parts <= extra,
        filled + extra + making <= total,
    ensures
        spec_valid_index(total, filled + extra, making, parts) != spec_valid_index(
            total,
            filled,
            making,
            parts,
        ),
{
    let s = total / parts;
    let cf = filled + making;
    let cf2 = filled + extra + making;
    assert(cf < total);
    if cf2 == total {
        lemma_valid_index_below_parts(total, filled, making, parts);
    } else {
        let num1 = (cf - 1) * parts;
        let num2 = (cf2 - 1) * parts;
        lemma_mul_inequality(s, extra, parts);
        assert(s * parts == total) by (nonlinear_arith)
            requires
                total == parts * s,
        ;
        assert(num2 == num1 + extra * parts) by (nonlinear_arith)
            requires
                num1 == (cf - 1) * parts,
                num2 == (cf2 - 1) * parts,
                cf2 == cf + extra,
        ;
        assert(num2 >= num1 + total);
        lemma_div_plus_one(num1, total);
        lemma_div_is_ordered(num1 + total, num2, total);
        assert(num2 / total > num1 / total);
    }
}

/// The order book and fill book of the source escrow.
pub struct EscrowSrc {
    /// Orders placed by makers, keyed by the order's root hash; an entry is
    /// conceptually open until fully filled and settled.
    pub makers_orders: StringHashMap<MakerOrder>,
    /// Fill commitments placed by resolvers, keyed by the commitment's
    /// content hash; an entry is removed on withdrawal or cancellation.
    pub resolver_orders: StringHashMap<ResolverOrderFill>,
}

impl EscrowSrc {
    /// The order book, at the level of record images.
    pub open spec fn spec_makers(self) -> Map<Seq<char>, MakerOrderV> {
        self.makers_orders@.map_values(|o: MakerOrder| o@)
    }

    /// The fill book, at the level of record images.
    pub open spec fn spec_fills(self) -> Map<Seq<char>, ImmutablesV> {
        self.resolver_orders@.map_values(|f: ResolverOrderFill| f.immutables@)
    }
}

impl Default for EscrowSrc {
    /// An escrow with no orders and no fills.
    fn default() -> (r: Self)
        ensures
            r.spec_makers() == Map::<Seq<char>, MakerOrderV>::empty(),
            r.spec_fills() == Map::<Seq<char>, ImmutablesV>::empty(),
    {
        let r = EscrowSrc { makers_orders: StringHashMap::new(), resolver_orders: StringHashMap::new() };
        proof {
            assert(r.spec_makers() =~= Map::<Seq<char>, MakerOrderV>::empty());
            assert(r.spec_fills() =~= Map::<Seq<char>, ImmutablesV>::empty());
        }
        r
    }
}

/// The maker order a funding payload carries, when it is well-formed hex
/// around a well-formed record.
pub open spec fn spec_decode_maker_order(msg: Seq<char>) -> Option<MakerOrderV> {
    match spec_hex_str_bytes(msg) {
        Some(b) => spec_parse_maker_order(b),
        None => None,
    }
}

/// Whether the source escrow accepts a funding transfer for order `o`: the
/// declared maker sent it, the declared token carried it, it covers the
/// order's total, and the order does not expire within the safety margin.
pub open spec fn spec_src_fund_accepts(
    o: MakerOrderV,
    token: Seq<char>,
    sender: Seq<char>,
    amount: u128,
    now: u64,
) -> bool {
    &&& o.maker == sender
    &&& o.token == token
    &&& amount >= o.total_amount
    &&& o.expiration >= now + 500
}

/// The proof step of a multi-fill commitment: the leaf built from the
/// supplied index and the commitment's hashlock must verify against the
/// order root under the supplied proof.
pub open spec fn spec_proof_check(i: u16, imm: ImmutablesV, p: Vec<String>) -> Result<
    (),
    EscrowError,
> {
    match spec_hex_item(imm.hashlock) {
        None => Err(EscrowError::InvalidHex),
        Some(hb) => {
            let leaf = spec_hex_of(spec_indexed_leaf(i, hb));
            if spec_hex_item(leaf) is None || spec_hex_item(imm.order_root_hash) is None
                || !spec_all_items_hex(spec_str_views(p@)) {
                Err(EscrowError::InvalidHex)
            } else if spec_fold_proof(
                spec_hex_item(leaf).unwrap(),
                spec_decoded_items(spec_str_views(p@)),
            ) != spec_hex_item(imm.order_root_hash).unwrap() {
                Err(EscrowError::InvalidProof)
            } else {
                Ok(())
            }
        },
    }
}

/// The checks a multi-fill commitment must pass: completion, index, proof.
pub open spec fn spec_multi_fill_check(
    o: MakerOrderV,
    imm: ImmutablesV,
    idx: Option<u16>,
    merkle_proof: Option<Vec<String>>,
) -> Result<(), EscrowError> {
    match spec_completes_result(o.total_amount, o.filled_amount, imm.making_amount, o.parts) {
        Err(e) => Err(e),
        Ok(c) => if !c {
            Err(EscrowError::FillTooSmall)
        } else {
            match idx {
                None => Err(EscrowError::MissingIndex),
                Some(i) => match spec_valid_index_result(
                    o.total_amount,
                    o.filled_amount,
                    imm.making_amount,
                    o.parts,
                ) {
                    Err(e) => Err(e),
                    Ok(vi) => if i != vi {
                        Err(EscrowError::InvalidIndex)
                    } else {
                        match merkle_proof {
                            None => Err(EscrowError::MissingProof),
                            Some(p) => spec_proof_check(i, imm, p),
                        }
                    },
                },
            }
        },
    }
}

/// The full admission check for a resolver fill commitment.
pub open spec fn spec_create_fill_check(
    makers: Map<Seq<char>, MakerOrderV>,
    imm: ImmutablesV,
    idx: Option<u16>,
    merkle_proof: Option<Vec<String>>,
    attached_deposit: u128,
) -> Result<(), EscrowError> {
    if attached_deposit != imm.src_safty_deposit {
        Err(EscrowError::InvalidSafetyDeposit)
    } else if !makers.contains_key(imm.order_root_hash) {
        Err(EscrowError::OrderNotFound)
    } else {
        let o = makers[imm.order_root_hash];
        if (o.filled_amount as int) + (imm.making_amount as int) > o.total_amount {
            Err(EscrowError::FillTooLarge)
        } else if o.parts > 1 {
            spec_multi_fill_check(o, imm, idx, merkle_proof)
        } else if imm.hashlock != o.root_hash {
            Err(EscrowError::InvalidHashlock)
        } else {
            Ok(())
        }
    }
}

/// The private-withdrawal check for one fill: the taker, inside the private
/// window, with the right secret, against a stored fill.  On success the
/// committed asset goes to `recipient` and the source safety deposit back
/// to the caller.
pub open spec fn spec_src_withdraw_check(
    fills: Map<Seq<char>, ImmutablesV>,
    imm: ImmutablesV,
    secret: Seq<char>,
    caller: Seq<char>,
    now: u64,
    recipient: Seq<char>,
) -> Result<PayoutV, EscrowError> {
    if caller != imm.taker {
        Err(EscrowError::NotTaker)
    } else if !spec_after(now, imm.timelock.src_withdrawal) {
        Err(EscrowError::BeforeWindow)
    } else if !spec_before(now, imm.timelock.src_cancellation) {
        Err(EscrowError::AfterWindow)
    } else if !spec_validate_secret(secret, imm.hashlock) {
        Err(EscrowError::InvalidSecret)
    } else if !fills.contains_key(spec_immutables_hash(imm)) {
        Err(EscrowError::OrderNotFound)
    } else {
        Ok(
            PayoutV {
                token: imm.making_token,
                receiver: recipient,
                amount: imm.making_amount,
                deposit_receiver: caller,
                deposit_amount: imm.src_safty_deposit,
            },
        )
    }
}

/// The public-withdrawal check: anyone, inside the public window, with the
/// right secret.  The asset goes to the taker, the deposit to the caller.
pub open spec fn spec_src_public_withdraw_check(
    fills: Map<Seq<char>, ImmutablesV>,
    imm: ImmutablesV,
    secret: Seq<char>,
    caller: Seq<char>,
    now: u64,
) -> Result<PayoutV, EscrowError> {
    if !spec_after(now, imm.timelock.src_public_withdrawal) {
        Err(EscrowError::BeforeWindow)
    } else if !spec_before(now, imm.timelock.src_cancellation) {
        Err(EscrowError::AfterWindow)
    } else if !spec_validate_secret(secret, imm.hashlock) {
        Err(EscrowError::InvalidSecret)
    } else if !fills.contains_key(spec_immutables_hash(imm)) {
        Err(EscrowError::OrderNotFound)
    } else {
        Ok(
            PayoutV {
                token: imm.making_token,
                receiver: imm.taker,
                amount: imm.making_amount,
                deposit_receiver: caller,
                deposit_amount: imm.src_safty_deposit,
            },
        )
    }
}

/// The cancellation check: the committed asset returns to the maker, the
/// deposit to the cancelling caller.  `private` demands the taker and the
/// private deadline; otherwise anyone after the public deadline.
pub open spec fn spec_src_cancel_check(
    fills: Map<Seq<char>, ImmutablesV>,
    imm: ImmutablesV,
    caller: Seq<char>,
    now: u64,
    private: bool,
) -> Result<PayoutV, EscrowError> {
    if private && caller != imm.taker {
        Err(EscrowError::NotTaker)
    } else if !spec_after(
        now,
        if private {
            imm.timelock.src_cancellation
        } else {
            imm.timelock.src_public_cancellation
        },
    ) {
        Err(EscrowError::BeforeWindow)
    } else if !fills.contains_key(spec_immutables_hash(imm)) {
        Err(EscrowError::OrderNotFound)
    } else {
        Ok(
            PayoutV {
                token: imm.making_token,
                receiver: imm.maker,
                amount: imm.making_amount,
                deposit_receiver: caller,
                deposit_amount: imm.src_safty_deposit,
            },
        )
    }
}

impl EscrowSrc {
    /// The completion check for a partial fill: the requested amount must
    /// cover the remainder of the segment currently being filled, so that
    /// no accepted fill leaves a segment's secret reusable for a smaller
    /// amount.
    pub fn completes_last_partial_fill(
        total_amount: u128,
        filled_amount: u128,
        making_amount: u128,
        parts: u16,
    ) -> (r: Result<bool, EscrowError>)
        ensures
            r == spec_completes_result(total_amount, filled_amount, making_amount, parts),
    {
        if parts == 0 {
            return Err(EscrowError::ZeroParts);
        }
        if total_amount == 0 {
            return Err(EscrowError::ZeroTotalAmount);
        }
        let p: u128 = parts as u128;
        let cap = u128::MAX / p;
        proof {
            lemma_fundamental_div_mod(u128::MAX as int, p as int);
            lemma_mod_division_less_than_divisor(u128::MAX as int, p as int);
        }
        let ghost m = (u128::MAX as int) % (p as int);
        if filled_amount > cap {
            proof {
                assert((filled_amount as int) * (p as int) > u128::MAX) by (nonlinear_arith)
                    requires
                        filled_amount as int >= cap as int + 1,
                        u128::MAX as int == (p as int) * (cap as int) + m,
                        0 <= m < (p as int),
                        p as int > 0,
                ;
            }
            return Err(EscrowError::ArithmeticOverflow);
        }
        proof {
            assert((filled_amount as int) * (p as int) <= u128::MAX) by (nonlinear_arith)
                requires
                    filled_amount as int <= cap as int,
                    u128::MAX as int == (p as int) * (cap as int) + m,
                    0 <= m,
                    p as int > 0,
                    filled_amount as int >= 0,
            ;
        }
        let x = (filled_amount * p) / total_amount;
        let segment_size = total_amount / p;
        let segment_end: u128;
        if segment_size == 0 {
            segment_end = 0;
        } else {
            let cap2 = u128::MAX / segment_size;
            proof {
                lemma_fundamental_div_mod(u128::MAX as int, segment_size as int);
                lemma_mod_division_less_than_divisor(u128::MAX as int, segment_size as int);
                lemma_div_non_zero(u128::MAX as int, segment_size as int);
            }
            let ghost m2 = (u128::MAX as int) % (segment_size as int);
            if x > cap2 - 1 {
                proof {
                    assert((segment_size as int) * (x as int + 1) > u128::MAX) by (nonlinear_arith)
                        requires
                            x as int + 1 >= cap2 as int + 1,
                            u128::MAX as int == (segment_size as int) * (cap2 as int) + m2,
                            0 <= m2 < (segment_size as int),
                            segment_size as int > 0,
                    ;
                }
                return Err(EscrowError::ArithmeticOverflow);
            }
            proof {
                assert((segment_size as int) * (x as int + 1) <= u128::MAX) by (nonlinear_arith)
                    requires
                        x as int + 1 <= cap2 as int,
                        u128::MAX as int == (segment_size as int) * (cap2 as int) + m2,
                        0 <= m2,
                        segment_size as int > 0,
                        x as int + 1 >= 0,
                ;
            }
            segment_end = segment_size * (x + 1);
        }
        let remaining = if segment_end >= filled_amount {
            segment_end - filled_amount
        } else {
            0
        };
        Ok(making_amount >= remaining)
    }

    /// The valid index for a fill, rejecting any out-of-range intermediate
    /// value instead of wrapping.
    pub fn compute_valid_index(
        total_amount: u128,
        filled_amount: u128,
        making_amount: u128,
        parts: u16,
    ) -> (r: Result<u16, EscrowError>)
        ensures
            r == spec_valid_index_result(total_amount, filled_amount, making_amount, parts),
    {
        if total_amount == 0 {
            return Err(EscrowError::ZeroTotalAmount);
        }
        if filled_amount > u128::MAX - making_amount {
            return Err(EscrowError::ArithmeticOverflow);
        }
        let cf = filled_amount + making_amount;
        if cf == 0 {
            return Err(EscrowError::ZeroFill);
        }
        if cf == total_amount {
            return Ok(parts);
        }
        let p: u128 = parts as u128;
        let prod: u128;
        if p == 0 {
            prod = 0;
        } else {
            let cap = u128::MAX / p;
            proof {
                lemma_fundamental_div_mod(u128::MAX as int, p as int);
                lemma_mod_division_less_than_divisor(u128::MAX as int, p as int);
            }
            let ghost m = (u128::MAX as int) % (p as int);
            if cf - 1 > cap {
                proof {
                    assert((cf as int - 1) * (p as int) > u128::MAX) by (nonlinear_arith)
                        requires
                            cf as int - 1 >= cap as int + 1,
                            u128::MAX as int == (p as int) * (cap as int) + m,
                            0 <= m < (p as int),
                            p as int > 0,
                    ;
                }
                return Err(EscrowError::ArithmeticOverflow);
            }
            proof {
                assert((cf as int - 1) * (p as int) <= u128::MAX) by (nonlinear_arith)
                    requires
                        cf as int - 1 <= cap as int,
                        u128::MAX as int == (p as int) * (cap as int) + m,
                        0 <= m,
                        p as int > 0,
                        cf as int - 1 >= 0,
                ;
            }
            prod = (cf - 1) * p;
        }
        let index = prod / total_amount;
        if index > u16::MAX as u128 {
            return Err(EscrowError::ArithmeticOverflow);
        }
        Ok(index as u16)
    }

    /// Funding hook for the source escrow: called when the maker's asset
    /// arrives carrying a hex-encoded maker order record.  Returns the
    /// portion of `amount` to refund to the sender — everything when the
    /// payload is rejected, the excess over the order's total when the
    /// order is accepted and stored.
    pub fn ft_on_transfer(
        &mut self,
        token_id: String,
        sender_id: String,
        amount: u128,
        now: u64,
        msg: String,
    ) -> (refund: u128)
        ensures
            final(self).spec_fills() == old(self).spec_fills(),
            (match spec_decode_maker_order(msg@) {
                Some(o) => if spec_src_fund_accepts(o, token_id@, sender_id@, amount, now) {
                    refund == amount - o.total_amount && final(self).spec_makers() == old(
                        self,
                    ).spec_makers().insert(o.root_hash, o)
                } else {
                    refund == amount && final(self).spec_makers() == old(self).spec_makers()
                },
                None => refund == amount && final(self).spec_makers() == old(self).spec_makers(),
            }),
    {
        let bytes = match hex_decode(msg.as_str().as_bytes()) {
            Some(b) => b,
            None => {
                return amount;
            },
        };
        let order = match parse_maker_order(bytes.as_slice()) {
            Some(o) => o,
            None => {
                return amount;
            },
        };
        if order.maker != sender_id {
            return amount;
        }
        if amount < order.total_amount {
            return amount;
        }
        if order.token != token_id {
            return amount;
        }
        if now > u64::MAX - 500 || order.expiration < now + 500 {
            return amount;
        }
        let refund = amount - order.total_amount;
        let key = order.root_hash.clone();
        let ghost ov = order@;
        self.makers_orders.insert(key, order);
        proof {
            assert(final(self).spec_makers() =~= old(self).spec_makers().insert(ov.root_hash, ov));
            assert(final(self).spec_fills() =~= old(self).spec_fills());
        }
        refund
    }

    /// Admits one resolver fill commitment, paid for with the source-side
    /// safety deposit.  On success the commitment is stored under its
    /// content hash and the order's filled amount grows by the committed
    /// amount.
    pub fn create_resolver_fill_order(
        &mut self,
        immutables: Immutables,
        idx: Option<u16>,
        merkle_proof: Option<Vec<String>>,
        attached_deposit: u128,
    ) -> (r: Result<(), EscrowError>)
        ensures
            r == spec_create_fill_check(
                old(self).spec_makers(),
                immutables@,
                idx,
                merkle_proof,
                attached_deposit,
            ),
            r is Err ==> final(self).spec_makers() == old(self).spec_makers()
                && final(self).spec_fills() == old(self).spec_fills(),
            r is Ok ==> ({
                let o = old(self).spec_makers()[immutables@.order_root_hash];
                &&& final(self).spec_fills() == old(self).spec_fills().insert(
                    spec_immutables_hash(immutables@),
                    immutables@,
                )
                &&& final(self).spec_makers() == old(self).spec_makers().insert(
                    immutables@.order_root_hash,
                    MakerOrderV {
                        filled_amount: (o.filled_amount + immutables@.making_amount) as u128,
                        ..o
                    },
                )
            }),
    {
        if attached_deposit != immutables.src_safty_deposit {
            return Err(EscrowError::InvalidSafetyDeposit);
        }
        let (total_amount, filled_amount, parts, hashlock_matches) = match self.makers_orders.get(
            immutables.order_root_hash.as_str(),
        ) {
            Some(o) => (
                o.total_amount,
                o.filled_amount,
                o.parts,
                immutables.hashlock == o.root_hash,
            ),
            None => {
                return Err(EscrowError::OrderNotFound);
            },
        };
        if filled_amount > total_amount || immutables.making_amount > total_amount - filled_amount {
            return Err(EscrowError::FillTooLarge);
        }
        if parts > 1 {
            let covers = match Self::completes_last_partial_fill(
                total_amount,
                filled_amount,
                immutables.making_amount,
                parts,
            ) {
                Ok(c) => c,
                Err(e) => {
                    return Err(e);
                },
            };
            if !covers {
                return Err(EscrowError::FillTooSmall);
            }
            let i = match idx {
                Some(i) => i,
                None => {
                    return Err(EscrowError::MissingIndex);
                },
            };
            let vi = match Self::compute_valid_index(
                total_amount,
                filled_amount,
                immutables.making_amount,
                parts,
            ) {
                Ok(v) => v,
                Err(e) => {
                    return Err(e);
                },
            };
            if i != vi {
                return Err(EscrowError::InvalidIndex);
            }
            let mp = match merkle_proof {
                Some(p) => p,
                None => {
                    return Err(EscrowError::MissingProof);
                },
            };
            let leaf = match MerkleVerifier::indexed_secret_hash_string(
                i,
                immutables.hashlock.as_str(),
            ) {
                Some(l) => l,
                None => {
                    return Err(EscrowError::InvalidHex);
                },
            };
            match MerkleVerifier::verify(leaf.as_str(), mp, immutables.order_root_hash.as_str()) {
                None => {
                    return Err(EscrowError::InvalidHex);
                },
                Some(false) => {
                    return Err(EscrowError::InvalidProof);
                },
                Some(true) => {},
            }
        } else {
            if !hashlock_matches {
                return Err(EscrowError::InvalidHashlock);
            }
        }
        let new_filled = filled_amount + immutables.making_amount;
        let root_key = immutables.order_root_hash.clone();
        let updated = match self.makers_orders.get(root_key.as_str()) {
            Some(o) => MakerOrder {
                root_hash: o.root_hash.clone(),
                token: o.token.clone(),
                total_amount: o.total_amount,
                parts: o.parts,
                filled_amount: new_filled,
                withdrawn_amount: o.withdrawn_amount,
                maker: o.maker.clone(),
                expiration: o.expiration,
            },
            None => {
                proof {
                    assert(false);
                }
                return Err(EscrowError::OrderNotFound);
            },
        };
        let key = immutables.hash();
        let ghost imm_v = immutables@;
        let ghost uv = updated@;
        self.resolver_orders.insert(key, ResolverOrderFill { immutables });
        self.makers_orders.insert(root_key, updated);
        proof {
            assert(final(self).spec_fills() =~= old(self).spec_fills().insert(
                spec_immutables_hash(imm_v),
                imm_v,
            ));
            assert(final(self).spec_makers() =~= old(self).spec_makers().insert(
                imm_v.order_root_hash,
                uv,
            ));
        }
        Ok(())
    }

    /// Private withdrawal of one fill by its taker: releases the maker's
    /// committed asset to the taker and returns the safety deposit to the
    /// caller.
    pub fn withdraw(
        &mut self,
        secret: String,
        immutables: Immutables,
        caller: String,
        now: u64,
    ) -> (r: Result<Payout, EscrowError>)
        ensures
            crate::spec_payout_result_view(r) == spec_src_withdraw_check(
                old(self).spec_fills(),
                immutables@,
                secret@,
                caller@,
                now,
                immutables@.taker,
            ),
            final(self).spec_makers() == old(self).spec_makers(),
            r is Ok ==> final(self).spec_fills() == old(self).spec_fills().remove(
                spec_immutables_hash(immutables@),
            ),
            r is Err ==> final(self).spec_fills() == old(self).spec_fills(),
    {
        if caller != immutables.taker {
            return Err(EscrowError::NotTaker);
        }
        if !_only_after(now, immutables.timelock.src_withdrawal) {
            return Err(EscrowError::BeforeWindow);
        }
        if !_only_before(now, immutables.timelock.src_cancellation) {
            return Err(EscrowError::AfterWindow);
        }
        if !validate_secret(secret, immutables.hashlock.clone()) {
            return Err(EscrowError::InvalidSecret);
        }
        let key = immutables.hash();
        if !self.resolver_orders.contains_key(key.as_str()) {
            return Err(EscrowError::OrderNotFound);
        }
        self.resolver_orders.remove(key.as_str());
        proof {
            assert(final(self).spec_fills() =~= old(self).spec_fills().remove(
                spec_immutables_hash(immutables@),
            ));
        }
        Ok(
            Payout {
                token: immutables.making_token,
                receiver: immutables.taker,
                amount: immutables.making_amount,
                deposit_receiver: caller,
                deposit_amount: immutables.src_safty_deposit,
            },
        )
    }

    /// Private withdrawal with an explicit recipient for the asset.
    pub fn withdraw_to(
        &mut self,
        secret: String,
        immutables: Immutables,
        recipient: String,
        caller: String,
        now: u64,
    ) -> (r: Result<Payout, EscrowError>)
        ensures
            crate::spec_payout_result_view(r) == spec_src_withdraw_check(
                old(self).spec_fills(),
                immutables@,
                secret@,
                caller@,
                now,
                recipient@,
            ),
            final(self).spec_makers() == old(self).spec_makers(),
            r is Ok ==> final(self).spec_fills() == old(self).spec_fills().remove(
                spec_immutables_hash(immutables@),
            ),
            r is Err ==> final(self).spec_fills() == old(self).spec_fills(),
    {
        if caller != immutables.taker {
            return Err(EscrowError::NotTaker);
        }
        if !_only_after(now, immutables.timelock.src_withdrawal) {
            return Err(EscrowError::BeforeWindow);
        }
        if !_only_before(now, immutables.timelock.src_cancellation) {
            return Err(EscrowError::AfterWindow);
        }
        if !validate_secret(secret, immutables.hashlock.clone()) {
            return Err(EscrowError::InvalidSecret);
        }
        let key = immutables.hash();
        if !self.resolver_orders.contains_key(key.as_str()) {
            return Err(EscrowError::OrderNotFound);
        }
        self.resolver_orders.remove(key.as_str());
        proof {
            assert(final(self).spec_fills() =~= old(self).spec_fills().remove(
                spec_immutables_hash(immutables@),
            ));
        }
        Ok(
            Payout {
                token: immutables.making_token,
                receiver: recipient,
                amount: immutables.making_amount,
                deposit_receiver: caller,
                deposit_amount: immutables.src_safty_deposit,
            },
        )
    }

    /// Public withdrawal: anyone may trigger it inside the public window;
    /// the asset still goes to the taker, the deposit to the caller.
    pub fn pubic_withdraw(
        &mut self,
        secret: String,
        immutables: Immutables,
        caller: String,
        now: u64,
    ) -> (r: Result<Payout, EscrowError>)
        ensures
            crate::spec_payout_result_view(r) == spec_src_public_withdraw_check(
                old(self).spec_fills(),
                immutables@,
                secret@,
                caller@,
                now,
            ),
            final(self).spec_makers() == old(self).spec_makers(),
            r is Ok ==> final(self).spec_fills() == old(self).spec_fills().remove(
                spec_immutables_hash(immutables@),
            ),
            r is Err ==> final(self).spec_fills() == old(self).spec_fills(),
    {
        if !_only_after(now, immutables.timelock.src_public_withdrawal) {
            return Err(EscrowError::BeforeWindow);
        }
        if !_only_before(now, immutables.timelock.src_cancellation) {
            return Err(EscrowError::AfterWindow);
        }
        if !validate_secret(secret, immutables.hashlock.clone()) {
            return Err(EscrowError::InvalidSecret);
        }
        let key = immutables.hash();
        if !self.resolver_orders.contains_key(key.as_str()) {
            return Err(EscrowError::OrderNotFound);
        }
        self.resolver_orders.remove(key.as_str());
        proof {
            assert(final(self).spec_fills() =~= old(self).spec_fills().remove(
                spec_immutables_hash(immutables@),
            ));
        }
        Ok(
            Payout {
                token: immutables.making_token,
                receiver: immutables.taker,
                amount: immutables.making_amount,
                deposit_receiver: caller,
                deposit_amount: immutables.src_safty_deposit,
            },
        )
    }

    /// Private cancellation by the taker: the committed asset returns to
    /// the maker, the deposit to the caller.
    pub fn cancel(&mut self, immutables: Immutables, caller: String, now: u64) -> (r: Result<
        Payout,
        EscrowError,
    >)
        ensures
            crate::spec_payout_result_view(r) == spec_src_cancel_check(
                old(self).spec_fills(),
                immutables@,
                caller@,
                now,
                true,
            ),
            final(self).spec_makers() == old(self).spec_makers(),
            r is Ok ==> final(self).spec_fills() == old(self).spec_fills().remove(
                spec_immutables_hash(immutables@),
            ),
            r is Err ==> final(self).spec_fills() == old(self).spec_fills(),
    {
        if caller != immutables.taker {
            return Err(EscrowError::NotTaker);
        }
        if !_only_after(now, immutables.timelock.src_cancellation) {
            return Err(EscrowError::BeforeWindow);
        }
        let key = immutables.hash();
        if !self.resolver_orders.contains_key(key.as_str()) {
            return Err(EscrowError::OrderNotFound);
        }
        self.resolver_orders.remove(key.as_str());
        proof {
            assert(final(self).spec_fills() =~= old(self).spec_fills().remove(
                spec_immutables_hash(immutables@),
            ));
        }
        Ok(
            Payout {
                token: immutables.making_token,
                receiver: immutables.maker,
                amount: immutables.making_amount,
                deposit_receiver: caller,
                deposit_amount: immutables.src_safty_deposit,
            },
        )
    }

    /// Public cancellation: anyone, after the public cancellation deadline.
    pub fn public_cancel(&mut self, immutables: Immutables, caller: String, now: u64) -> (r: Result<
        Payout,
        EscrowError,
    >)
        ensures
            crate::spec_payout_result_view(r) == spec_src_cancel_check(
                old(self).spec_fills(),
                immutables@,
                caller@,
                now,
                false,
            ),
            final(self).spec_makers() == old(self).spec_makers(),
            r is Ok ==> final(self).spec_fills() == old(self).spec_fills().remove(
                spec_immutables_hash(immutables@),
            ),
            r is Err ==> final(self).spec_fills() == old(self).spec_fills(),
    {
        if !_only_after(now, immutables.timelock.src_public_cancellation) {
            return Err(EscrowError::BeforeWindow);
        }
        let key = immutables.hash();
        if !self.resolver_orders.contains_key(key.as_str()) {
            return Err(EscrowError::OrderNotFound);
        }
        self.resolver_orders.remove(key.as_str());
        proof {
            assert(final(self).spec_fills() =~= old(self).spec_fills().remove(
                spec_immutables_hash(immutables@),
            ));
        }
        Ok(
            Payout {
                token: immutables.making_token,
                receiver: immutables.maker,
                amount: immutables.making_amount,
                deposit_receiver: caller,
                deposit_amount: immutables.src_safty_deposit,
            },
        )
    }
}

} // verus!
