//! Core of a cross-chain atomic-swap escrow protocol.
//!
//! A maker commits an asset on a source ledger, a resolver commits the
//! counter-asset on a destination ledger, and the swap completes only if a
//! shared secret is revealed inside ledger-specific time windows.  The crate
//! holds the shared escrow state machines: canonical order hashing,
//! timelock-window gating, Merkle-proof-based partial-fill indexing, and the
//! record encodings that correlate state across the two ledgers.

use vstd::prelude::*;

pub mod bytes_be;
pub mod codec;
pub mod escrow_dst;
pub mod escrow_src;
pub mod hashing;
pub mod immutables;
pub mod merkle;
pub mod secret;
pub mod timelock;
pub mod transfer;

verus! {

/// Reason a state-changing escrow operation rejects its input.
///
/// Every rejection is synchronous: the operation leaves the escrow state
/// exactly as it found it.
#[derive(Clone, Copy, Debug, PartialEq, Eq, Structural)]
pub enum EscrowError {
    /// The attached deposit differs from the safety deposit the commitment names.
    InvalidSafetyDeposit,
    /// No maker order (or resolver commitment) is stored under the given key.
    OrderNotFound,
    /// A partial fill does not cover the remainder of the current segment.
    FillTooSmall,
    /// A fill that would push the order's committed amount past its total.
    FillTooLarge,
    /// A multi-fill commitment arrived without a segment index.
    MissingIndex,
    /// The supplied segment index differs from the computed valid index.
    InvalidIndex,
    /// A multi-fill commitment arrived without a Merkle proof.
    MissingProof,
    /// The Merkle proof does not tie the segment's hashlock to the order root.
    InvalidProof,
    /// A single-fill commitment's hashlock differs from the order's root hash.
    InvalidHashlock,
    /// A hex-encoded argument is not valid hexadecimal.
    InvalidHex,
    /// An amount or index computation would exceed the numeric range.
    ArithmeticOverflow,
    /// The order's total amount is zero, so segment arithmetic is undefined.
    ZeroTotalAmount,
    /// Only the committed taker may perform this operation.
    NotTaker,
    /// The eligibility window for this operation has not opened yet.
    BeforeWindow,
    /// The eligibility window for this operation has already closed.
    AfterWindow,
    /// The revealed secret does not hash to the commitment's hashlock.
    InvalidSecret,
    /// The funding transfer's sender is not the party the record declares.
    WrongSender,
    /// The funding transfer carries less than the amount the record requires.
    InsufficientAmount,
    /// The destination cancellation deadline does not precede the source one.
    CancellationOrder,
    /// The order is divided into zero parts, so segment arithmetic is undefined.
    ZeroParts,
    /// A fill that leaves the total committed amount at zero.
    ZeroFill,
    /// A payload decoded to bytes but is not a well-formed record.
    MalformedPayload,
}

/// The transfers an accepted withdrawal or cancellation instructs the caller
/// to perform: one asset transfer through the token-transfer collaborator,
/// and one safety-deposit refund in the ledger's native unit.
#[derive(Clone, Debug)]
pub struct Payout {
    /// The asset to move.
    pub token: String,
    /// Recipient of the asset.
    pub receiver: String,
    /// Amount of the asset to move.
    pub amount: u128,
    /// Recipient of the safety-deposit refund.
    pub deposit_receiver: String,
    /// Amount of the safety-deposit refund.
    pub deposit_amount: u128,
}

/// The mathematical image of a [`Payout`].
pub ghost struct PayoutV {
    pub token: Seq<char>,
    pub receiver: Seq<char>,
    pub amount: u128,
    pub deposit_receiver: Seq<char>,
    pub deposit_amount: u128,
}

impl View for Payout {
    type V = PayoutV;

    open spec fn view(&self) -> PayoutV {
        PayoutV {
            token: self.token@,
            receiver: self.receiver@,
            amount: self.amount,
            deposit_receiver: self.deposit_receiver@,
            deposit_amount: self.deposit_amount,
        }
    }
}

/// A payout result at the level of record images.
pub open spec fn spec_payout_result_view(r: Result<Payout, EscrowError>) -> Result<
    PayoutV,
    EscrowError,
> {
    match r {
        Ok(p) => Ok(p@),
        Err(e) => Err(e),
    }
}

} // verus!
