//! The immutable identity of one resolver commitment, and its content hash.
//!
//! Both escrows key their state by the hash of this record, computed
//! independently on each ledger.  Equal field values must therefore produce
//! equal hashes wherever the hash is recomputed: the hash is a function of
//! the canonical byte image of the fields, nothing else.

use vstd::prelude::*;

verus! {

use vstd::utf8::encode_utf8;
use crate::bytes_be::spec_u128_be;
use crate::bytes_be::u128_be_bytes;
use crate::hashing::{keccak_of, keccak256, spec_hex_of, hex_encode};
use crate::timelock::TimeLock;

/// The fixed parameters of one resolver commitment.
#[derive(Clone, Debug)]
pub struct Immutables {
    /// Random string distinguishing otherwise identical orders.
    pub salt: String,
    /// Root hash of the maker order this commitment fills.
    pub order_root_hash: String,
    /// Hashlock of this part of the order fill.
    pub hashlock: String,
    /// Token the maker offers.
    pub making_token: String,
    /// Token the maker wants.
    pub taking_token: String,
    /// Amount of the making token this commitment covers.
    pub making_amount: u128,
    /// Amount of the taking token owed in exchange.
    pub taking_amount: u128,
    /// Safety deposit posted on the source ledger.
    pub src_safty_deposit: u128,
    /// Safety deposit posted on the destination ledger.
    pub dst_safty_deposit: u128,
    /// The deadlines gating every operation on this commitment.
    pub timelock: TimeLock,
    /// Maker account.
    pub maker: String,
    /// Taker account.
    pub taker: String,
}

/// The mathematical image of an [`Immutables`] record.
pub ghost struct ImmutablesV {
    pub salt: Seq<char>,
    pub order_root_hash: Seq<char>,
    pub hashlock: Seq<char>,
    pub making_token: Seq<char>,
    pub taking_token: Seq<char>,
    pub making_amount: u128,
    pub taking_amount: u128,
    pub src_safty_deposit: u128,
    pub dst_safty_deposit: u128,
    pub timelock: TimeLock,
    pub maker: Seq<char>,
    pub taker: Seq<char>,
}

impl View for Immutables {
    type V = ImmutablesV;

    open spec fn view(&self) -> ImmutablesV {
        ImmutablesV {
            salt: self.salt@,
            order_root_hash: self.order_root_hash@,
            hashlock: self.hashlock@,
            making_token: self.making_token@,
            taking_token: self.taking_token@,
            making_amount: self.making_amount,
            taking_amount: self.taking_amount,
            src_safty_deposit: self.src_safty_deposit,
            dst_safty_deposit: self.dst_safty_deposit,
            timelock: self.timelock,
            maker: self.maker@,
            taker: self.taker@,
        }
    }
}

impl ImmutablesV {
    /// The commitment invariant: both amounts are positive, and the
    /// destination side must resolve strictly before the source side can be
    /// cancelled, so a resolver who already delivered is never left exposed.
    pub open spec fn spec_valid(self) -> bool {
        &&& self.making_amount > 0
        &&& self.taking_amount > 0
        &&& self.timelock.dst_cancellation < self.timelock.src_cancellation
    }
}

/// The canonical byte image of a commitment: every field's bytes in
/// declaration order — strings as UTF-8, amounts as big-endian 128-bit
/// values, the deadlines as their own canonical image.
pub open spec fn spec_immutables_bytes(v: ImmutablesV) -> Seq<u8> {
    encode_utf8(v.salt) + encode_utf8(v.order_root_hash) + encode_utf8(v.hashlock) + encode_utf8(
        v.making_token,
    ) + encode_utf8(v.taking_token) + spec_u128_be(v.making_amount) + spec_u128_be(v.taking_amount)
        + spec_u128_be(v.src_safty_deposit) + spec_u128_be(v.dst_safty_deposit)
        + v.timelock.spec_combined() + encode_utf8(v.maker) + encode_utf8(v.taker)
}

/// The content hash of a commitment: the Keccak-256 digest of its canonical
/// byte image, in lowercase hex.
pub open spec fn spec_immutables_hash(v: ImmutablesV) -> Seq<char> {
    spec_hex_of(keccak_of(spec_immutables_bytes(v)))
}

impl Immutables {
    /// Checks the commitment invariant.
    pub fn validate(&self) -> (r: bool)
        ensures
            r == self@.spec_valid(),
    {
        self.making_amount > 0 && self.taking_amount > 0 && self.timelock.dst_cancellation
            < self.timelock.src_cancellation
    }

    /// A copy with the same field values, and so the same content hash.
    pub fn duplicate(&self) -> (r: Immutables)
        ensures
            r@ == self@,
    {
        Immutables {
            salt: self.salt.clone(),
            order_root_hash: self.order_root_hash.clone(),
            hashlock: self.hashlock.clone(),
            making_token: self.making_token.clone(),
            taking_token: self.taking_token.clone(),
            making_amount: self.making_amount,
            taking_amount: self.taking_amount,
            src_safty_deposit: self.src_safty_deposit,
            dst_safty_deposit: self.dst_safty_deposit,
            timelock: self.timelock,
            maker: self.maker.clone(),
            taker: self.taker.clone(),
        }
    }

    /// Computes the content hash under which both escrows store this
    /// commitment's state.
    pub fn hash(&self) -> (r: String)
        ensures
            r@ == spec_immutables_hash(self@),
    {
        let mut combined: Vec<u8> = Vec::new();
        combined.extend_from_slice(self.salt.as_str().as_bytes());
        combined.extend_from_slice(self.order_root_hash.as_str().as_bytes());
        combined.extend_from_slice(self.hashlock.as_str().as_bytes());
        combined.extend_from_slice(self.making_token.as_str().as_bytes());
        combined.extend_from_slice(self.taking_token.as_str().as_bytes());
        let a0 = u128_be_bytes(self.making_amount);
        combined.extend_from_slice(a0.as_slice());
        let a1 = u128_be_bytes(self.taking_amount);
        combined.extend_from_slice(a1.as_slice());
        let a2 = u128_be_bytes(self.src_safty_deposit);
        combined.extend_from_slice(a2.as_slice());
        let a3 = u128_be_bytes(self.dst_safty_deposit);
        combined.extend_from_slice(a3.as_slice());
        let tl = self.timelock.get_combined();
        combined.extend_from_slice(tl.as_slice());
        combined.extend_from_slice(self.maker.as_str().as_bytes());
        combined.extend_from_slice(self.taker.as_str().as_bytes());
        proof {
            assert(combined@ =~= spec_immutables_bytes(self@));
        }
        let digest = keccak256(combined.as_slice());
        hex_encode(digest.as_slice())
    }
}

/// Hash determinism: two commitments with identical field values hash
/// identically, whichever escrow computes the hash.
pub proof fn lemma_hash_deterministic(a: &Immutables, b: &Immutables)
    requires
        a@ == b@,
    ensures
        spec_immutables_hash(a@) == spec_immutables_hash(b@),
{
}

} // verus!
