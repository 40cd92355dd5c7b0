//! The error taxonomy of the vesting lifecycle.

use vstd::prelude::*;

verus! {

/// Everything a lifecycle operation can refuse to do, and why.
///
/// Every error aborts the operation with zero side effects: a failed
/// call never mutates the grant record or moves value.
#[derive(Clone, Copy, PartialEq, Eq, Structural, Debug)]
pub enum TokenVestingError {
    /// The schedule parameters fail validation, the two parties are not
    /// distinct, or a grant already exists for the identity pair.
    InvalidParams,
    /// The caller is not the stored principal for the operation.
    NotAuthorized,
    /// The operation names a missing grant record.
    NotInitialized,
    /// The grant is terminal: it has already been revoked.
    AlreadyRevoked,
    /// Advancing the issued amount would overflow (defensive: the
    /// custody invariant keeps this unreachable).
    ArithmeticOverflow,
    /// The transfer collaborator refused to move value, e.g. the
    /// employer lacks funds at initialization.
    TransferFailed,
}

} // verus!
