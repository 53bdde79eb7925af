//! Errors that contract calls are answered with.

use vstd::prelude::*;

verus! {

/// Why a contract call was refused.
#[derive(Clone, Copy, Debug, PartialEq, Eq, Structural)]
pub enum ErrorCode {
    /// The session has used up its operation quota.
    SessionOperationLimitExceeded,
}

} // verus!
