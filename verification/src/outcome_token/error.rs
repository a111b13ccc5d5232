//! Error codes of the outcome token.

use vstd::prelude::*;

verus! {

/// Errors returned by the outcome-token contract.
#[derive(Clone, Copy, Debug, PartialEq, Eq, PartialOrd, Ord, Structural, Hash)]
pub enum ContractError {
    /// `initialize` has already been called.
    AlreadyInitialized,
    /// The caller is not the admin.
    Unauthorized,
    /// The amount is zero or negative.
    InvalidAmount,
    /// A balance or a supply would exceed the largest `i128`.
    Overflow,
    /// The holder has fewer tokens than the amount to burn.
    InsufficientBalance,
}

} // verus!
