use vstd::prelude::*;

verus! {

/// The complete error taxonomy of the escrow core. Every operation is
/// all-or-nothing: whenever one of these is returned, no state has changed
/// and no value has moved.
#[derive(Clone, Copy, Debug, PartialEq, Eq, Structural)]
pub enum ErrorCode {
    /// A goal record already exists for the (creator, identifier) pair.
    DuplicateGoal,
    /// The identifier is empty or longer than the storage key limit.
    InvalidIdentifier,
    /// A contribution of zero value was requested.
    InvalidAmount,
    /// The contributor's balance does not cover the requested amount.
    InsufficientBalance,
    /// The collected total would exceed the representable range.
    ArithmeticOverflow,
    /// The caller is not the creator of the goal.
    Unauthorized,
    /// The collected total has not reached the goal's target yet.
    TargetNotReached,
}

} // verus!
