//! The decision core of the registration-aware token transfer.
//!
//! Releasing an asset goes through the token contract in up to three
//! asynchronous steps: query whether the receiver is registered, register
//! it for a fixed fee when it is not, then transfer.  The host performs the
//! outside calls and feeds each outcome back; this module fixes which step
//! follows which outcome, and that either failure aborts the enclosing
//! call.

use vstd::prelude::*;

verus! {

/// Metadata a fungible token reports about itself.
#[derive(Clone, Debug)]
pub struct TokenMetadata {
    pub spec_version: String,
    pub name: String,
    pub symbol: String,
    pub icon: Option<String>,
    pub reference: Option<String>,
    pub reference_hash: Option<String>,
    pub decimals: u8,
}

/// A receiver's storage registration with a token contract.
#[derive(Clone, Copy, Debug, PartialEq, Eq, Structural)]
pub struct StorageBalance {
    pub total: u128,
    pub available: u128,
}

/// The next step of a registration-aware transfer.
#[derive(Clone, Copy, Debug, PartialEq, Eq, Structural)]
pub enum TransferStep {
    /// The receiver is registered: transfer the amount directly.
    Transfer,
    /// The receiver is not registered: pay the registration fee and
    /// register it, then wait for that outcome.
    RegisterThenTransfer,
    /// The outside step failed: abort the enclosing call, rolling back its
    /// bookkeeping.
    Abort,
}

/// Decides the step after the registration query.  `None` means the query
/// itself failed; `Some(None)` means the receiver is not registered;
/// `Some(Some(_))` means it is.
pub fn on_check_storage(storage_query: Option<Option<StorageBalance>>) -> (r: TransferStep)
    ensures
        r == (match storage_query {
            Some(Some(_b)) => TransferStep::Transfer,
            Some(None) => TransferStep::RegisterThenTransfer,
            None => TransferStep::Abort,
        }),
{
    match storage_query {
        Some(Some(_b)) => TransferStep::Transfer,
        Some(None) => TransferStep::RegisterThenTransfer,
        None => TransferStep::Abort,
    }
}

/// Decides the step after a registration attempt: transfer on success,
/// abort on failure.
pub fn on_storage_deposit(deposit_succeeded: bool) -> (r: TransferStep)
    ensures
        r == (if deposit_succeeded {
            TransferStep::Transfer
        } else {
            TransferStep::Abort
        }),
{
    if deposit_succeeded {
        TransferStep::Transfer
    } else {
        TransferStep::Abort
    }
}

} // verus!
