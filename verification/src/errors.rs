//! Error taxonomy of the stream core and of the custody ledger it drives.

use vstd::prelude::*;

verus! {

/// Errors reported by the stream lifecycle operations.
#[derive(Clone, Copy, Debug, PartialEq, Eq, Structural)]
pub enum StreamError {
    /// The caller's identity does not match the role the operation requires.
    Unauthorized,
    /// A creation was requested with `limit < step`.
    LimitTooLow,
    /// A tick would push `rate * step` past `limit`.
    StepLimitExceeded,
    /// Settlement was computed on a record with `rate * step > limit`.
    InvariantViolation,
    /// The ledger rejected the funding transfer for lack of funds.
    InsufficientFunds,
    /// The operation referenced a missing or already closed record or account.
    InvalidState,
}

/// Errors reported by the custody ledger.
#[derive(Clone, Copy, Debug, PartialEq, Eq, Structural)]
pub enum LedgerError {
    /// A referenced custody account does not exist.
    MissingAccount,
    /// The presented authority does not control the debited account.
    Unauthorized,
    /// The debited account holds less than the requested amount.
    InsufficientFunds,
    /// An account with a nonzero balance cannot be closed.
    NonZeroBalance,
    /// An account with this identifier already exists.
    DuplicateAccount,
    /// Opening the account would push the custodied total past `u64::MAX`.
    SupplyExceeded,
}

/// How a ledger failure surfaces to the caller of a stream operation.
pub open spec fn stream_error_of(e: LedgerError) -> StreamError {
    match e {
        LedgerError::MissingAccount => StreamError::InvalidState,
        LedgerError::Unauthorized => StreamError::Unauthorized,
        LedgerError::InsufficientFunds => StreamError::InsufficientFunds,
        LedgerError::NonZeroBalance => StreamError::InvariantViolation,
        LedgerError::DuplicateAccount => StreamError::InvalidState,
        LedgerError::SupplyExceeded => StreamError::InvariantViolation,
    }
}

/// Surfaces a ledger failure as the corresponding stream error.
pub fn stream_error_from_ledger(e: LedgerError) -> (r: StreamError)
    ensures
        r == stream_error_of(e),
{
    match e {
        LedgerError::MissingAccount => StreamError::InvalidState,
        LedgerError::Unauthorized => StreamError::Unauthorized,
        LedgerError::InsufficientFunds => StreamError::InsufficientFunds,
        LedgerError::NonZeroBalance => StreamError::InvariantViolation,
        LedgerError::DuplicateAccount => StreamError::InvalidState,
        LedgerError::SupplyExceeded => StreamError::InvariantViolation,
    }
}

} // verus!
