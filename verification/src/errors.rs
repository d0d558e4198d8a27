use vstd::prelude::*;

verus! {

/// Why an operation on an offering was refused.
///
/// Every validation failure maps to exactly one of these kinds; a failing
/// call terminates with no partial state change.
#[derive(Clone, Copy, Debug, PartialEq, Eq, Structural)]
pub enum Error {
    /// Bad constructor arguments, or a pre-live window that is not in the future.
    InvalidParameter,
    /// A purchase of zero or negative shares, or a non-positive deposit.
    InvalidAmount,
    /// The offering (or its revenue record) does not exist.
    NotFound,
    /// A non-creator attempted to deposit revenue.
    Unauthorized,
    /// A purchase after the sale window closed.
    WindowClosed,
    /// A purchase of more shares than remain.
    InsufficientSupply,
    /// A claim by an account that owns no shares.
    NoShares,
    /// A claim whose computed amount is zero.
    NothingToClaim,
}

} // verus!
