//! The seven deadlines that gate every escrow operation.
//!
//! Each side of the swap has private and public windows for withdrawal and
//! cancellation.  All window checks are strict comparisons against ledger
//! time, so the exact boundary timestamp belongs to neither adjoining
//! window.

use vstd::prelude::*;

verus! {

use crate::bytes_be::{spec_u64_be, u64_be_bytes};

/// Seven ordered deadlines for one resolver commitment, each a ledger
/// timestamp.
#[derive(Clone, Copy, Debug, PartialEq, Eq, Structural)]
pub struct TimeLock {
    pub src_withdrawal: u64,
    pub src_public_withdrawal: u64,
    pub src_cancellation: u64,
    pub src_public_cancellation: u64,
    pub dst_withdrawal: u64,
    pub dst_public_withdrawal: u64,
    pub dst_cancellation: u64,
}

/// Strictly after a deadline: the deadline instant itself does not count.
pub open spec fn spec_after(now: u64, t: u64) -> bool {
    now > t
}

/// Strictly before a deadline: the deadline instant itself does not count.
pub open spec fn spec_before(now: u64, t: u64) -> bool {
    now < t
}

/// A withdrawal window: open strictly after `opening`, shut strictly before
/// `cancellation`.
pub open spec fn spec_withdraw_window(now: u64, opening: u64, cancellation: u64) -> bool {
    spec_after(now, opening) && spec_before(now, cancellation)
}

/// A cancellation window: open strictly after its deadline, forever.
pub open spec fn spec_cancel_window(now: u64, cancellation: u64) -> bool {
    spec_after(now, cancellation)
}

/// Whether ledger time `now` lies strictly after the deadline `timestamp`.
pub fn _only_after(now: u64, timestamp: u64) -> (r: bool)
    ensures
        r == spec_after(now, timestamp),
{
    now > timestamp
}

/// Whether ledger time `now` lies strictly before the deadline `timestamp`.
pub fn _only_before(now: u64, timestamp: u64) -> (r: bool)
    ensures
        r == spec_before(now, timestamp),
{
    now < timestamp
}

impl TimeLock {
    /// Deadlines in a usable order: on each side withdrawal precedes public
    /// withdrawal precedes cancellation, and the destination side must
    /// resolve strictly before the source side can be cancelled.
    pub open spec fn spec_well_ordered(self) -> bool {
        &&& self.src_withdrawal <= self.src_public_withdrawal
        &&& self.src_public_withdrawal <= self.src_cancellation
        &&& self.src_cancellation <= self.src_public_cancellation
        &&& self.dst_withdrawal <= self.dst_public_withdrawal
        &&& self.dst_public_withdrawal <= self.dst_cancellation
        &&& self.dst_cancellation < self.src_cancellation
    }

    /// Checks that the deadlines are in a usable order.
    pub fn verify(&self) -> (r: bool)
        ensures
            r == self.spec_well_ordered(),
    {
        self.src_withdrawal <= self.src_public_withdrawal
            && self.src_public_withdrawal <= self.src_cancellation
            && self.src_cancellation <= self.src_public_cancellation
            && self.dst_withdrawal <= self.dst_public_withdrawal
            && self.dst_public_withdrawal <= self.dst_cancellation
            && self.dst_cancellation < self.src_cancellation
    }

    /// The canonical byte image of the deadlines: the seven timestamps as
    /// big-endian 64-bit values, in declaration order.
    pub open spec fn spec_combined(self) -> Seq<u8> {
        spec_u64_be(self.src_withdrawal) + spec_u64_be(self.src_public_withdrawal) + spec_u64_be(
            self.src_cancellation,
        ) + spec_u64_be(self.src_public_cancellation) + spec_u64_be(self.dst_withdrawal)
            + spec_u64_be(self.dst_public_withdrawal) + spec_u64_be(self.dst_cancellation)
    }

    /// Serializes the deadlines into their canonical byte image.
    pub fn get_combined(&self) -> (r: Vec<u8>)
        ensures
            r@ == self.spec_combined(),
    {
        let mut combined: Vec<u8> = Vec::new();
        let b0 = u64_be_bytes(self.src_withdrawal);
        combined.extend_from_slice(b0.as_slice());
        let b1 = u64_be_bytes(self.src_public_withdrawal);
        combined.extend_from_slice(b1.as_slice());
        let b2 = u64_be_bytes(self.src_cancellation);
        combined.extend_from_slice(b2.as_slice());
        let b3 = u64_be_bytes(self.src_public_cancellation);
        combined.extend_from_slice(b3.as_slice());
        let b4 = u64_be_bytes(self.dst_withdrawal);
        combined.extend_from_slice(b4.as_slice());
        let b5 = u64_be_bytes(self.dst_public_withdrawal);
        combined.extend_from_slice(b5.as_slice());
        let b6 = u64_be_bytes(self.dst_cancellation);
        combined.extend_from_slice(b6.as_slice());
        combined
    }
}

/// Window strictness: the boundary timestamp belongs to neither window.  At
/// exactly the opening deadline a withdrawal window is not yet open, and at
/// exactly the cancellation deadline the cancellation window is not yet open
/// either, while the withdrawal window is already shut.
pub proof fn lemma_window_strictness(opening: u64, cancellation: u64)
    ensures
        !spec_withdraw_window(opening, opening, cancellation),
        !spec_cancel_window(cancellation, cancellation),
        !spec_withdraw_window(cancellation, opening, cancellation),
{
}

} // verus!
