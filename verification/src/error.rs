//! The ways a call can fail.

use cosmwasm_std::StdError;
use vstd::prelude::*;

verus! {

/// Why a call was turned down.
#[derive(Debug, PartialEq)]
pub enum ContractError {
    /// The storage holds something that cannot be read back. The host's
    /// error is passed on as it came.
    Std(StdError),
    /// A reset was asked for by someone other than the owner.
    Unauthorized,
    /// A measurement came less than a day after the last accepted one.
    Limit,
    /// Nothing is recorded under the key that was asked for. `kind` is the
    /// host's description of what was missing.
    NotFound { kind: String },
    /// The host's validator turned the identity down.
    InvalidIdentity(StdError),
    /// The counter already stands at the largest value it can hold.
    Overflow,
}

} // verus!
