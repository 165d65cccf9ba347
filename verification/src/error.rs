//! The reasons for which an operation is refused.

use vstd::prelude::*;

verus! {

/// Why an operation was refused. A refused operation changes nothing.
#[derive(Clone, Copy, Debug, PartialEq, Eq, Structural)]
pub enum Error {
    /// An amount was zero, or otherwise outside what the operation accepts.
    InvalidAmount,
    /// A burn or a transfer asked for more than the account holds in reserve.
    InsufficientReserve,
    /// A withdrawal from an empty reserve.
    NoReserve,
    /// A reward withdrawal with no reward accrued.
    NoReward,
    /// A privileged operation whose caller is not the parent account.
    Unauthorized,
    /// A result that does not fit the width of the value that holds it.
    ArithmeticOverflow,
    /// A derived account name that is not a valid account identifier.
    InvalidAccountId,
    /// An attached deposit that does not cover what the call costs.
    InsufficientDeposit,
}

} // verus!
