//! Error codes of the treasury.

use vstd::prelude::*;

verus! {

/// Error codes for the treasury contract.
///
/// Ranges of codes:
/// - amount / balance errors: 20–29
/// - validation errors: 30–39
/// - authorization errors: 40–49
/// - arithmetic errors: 60–69
#[derive(Clone, Copy, Debug, PartialEq, Eq, PartialOrd, Ord, Structural, Hash)]
pub enum TreasuryError {
    /// The treasury does not hold enough of the token to satisfy the withdrawal.
    InsufficientBalance,
    /// The fee amount or the withdrawn amount is zero or negative.
    InvalidAmount,
    /// The treasury has not been initialized yet.
    NotInitialized,
    /// `collect_fee` was invoked by an address that is not the registered market contract.
    CallerNotMarket,
    /// The caller is not the treasury admin.
    Unauthorized,
    /// `initialize` has already been called.
    AlreadyInitialized,
    /// An arithmetic operation overflowed.
    ArithmeticOverflow,
}

impl TreasuryError {
    /// The stable numeric code of the error.
    pub open spec fn spec_code(self) -> u32 {
        match self {
            TreasuryError::InsufficientBalance => 21,
            TreasuryError::InvalidAmount => 31,
            TreasuryError::NotInitialized => 33,
            TreasuryError::CallerNotMarket => 40,
            TreasuryError::Unauthorized => 41,
            TreasuryError::AlreadyInitialized => 42,
            TreasuryError::ArithmeticOverflow => 60,
        }
    }

    /// The stable numeric code of the error, as reported to callers.
    pub fn code(&self) -> (r: u32)
        ensures
            r == self.spec_code(),
    {
        match self {
            TreasuryError::InsufficientBalance => 21,
            TreasuryError::InvalidAmount => 31,
            TreasuryError::NotInitialized => 33,
            TreasuryError::CallerNotMarket => 40,
            TreasuryError::Unauthorized => 41,
            TreasuryError::AlreadyInitialized => 42,
            TreasuryError::ArithmeticOverflow => 60,
        }
    }
}

} // verus!
