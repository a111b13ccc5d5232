//! Error codes of the market contract.

use vstd::prelude::*;

verus! {

/// Error codes of the market contract.
///
/// Codes are grouped by category: market errors 1–9, position errors 10–19,
/// oracle errors 20–29, validation errors 30–39, authorization errors 40–49,
/// token errors 50–59, arithmetic errors 60–69, upgrade errors 70–79 and
/// resolution errors 80–89. Variants are declared in the order of their codes.
#[derive(Clone, Copy, Debug, PartialEq, Eq, PartialOrd, Ord, Structural, Hash)]
pub enum ContractError {
    /// The requested market does not exist in storage.
    MarketNotFound,
    /// The market has already been resolved; each market is resolved once.
    MarketAlreadyResolved,
    /// Settlement was attempted before the market was resolved.
    MarketNotResolved,
    /// The market has passed its end time and no longer trades.
    MarketExpired,
    /// The market is not active (it is resolved or canceled).
    MarketNotActive,
    /// The user does not have enough unlocked collateral.
    InsufficientCollateral,
    /// The position has already been paid out.
    PositionAlreadySettled,
    /// The user has no position in the market.
    NoPositionFound,
    /// A share amount is invalid (e.g. would go negative).
    InvalidShareAmount,
    /// The oracle signature (or proof) did not verify.
    InvalidSignature,
    /// The caller is not the market's oracle.
    UnauthorizedOracle,
    /// The resolution outcome is invalid.
    InvalidOutcome,
    /// The price oracle returned no price for the asset.
    OraclePriceUnavailable,
    /// A price or rate is out of its valid range.
    InvalidPrice,
    /// A quantity or amount is not positive.
    InvalidQuantity,
    /// A timestamp is invalid (e.g. an end time in the past).
    InvalidTimestamp,
    /// The market question is empty or too long.
    InvalidQuestion,
    /// The caller is not authorized to perform this action.
    Unauthorized,
    /// The caller is not the contract admin.
    NotAdmin,
    /// The contract has already been initialized.
    AlreadyInitialized,
    /// No admin transfer is pending.
    NoPendingAdmin,
    /// A token transfer failed.
    TokenTransferFailed,
    /// An arithmetic operation overflowed.
    ArithmeticOverflow,
    /// The storage layout version does not match the contract's; a migration is required.
    UpgradeRequired,
    /// A resolution contract is registered but no finalized candidate exists for the market.
    ResolutionNotFinalized,
}

impl ContractError {
    /// The stable numeric code of the error.
    pub open spec fn spec_code(self) -> u32 {
        match self {
            ContractError::MarketNotFound => 1,
            ContractError::MarketAlreadyResolved => 2,
            ContractError::MarketNotResolved => 3,
            ContractError::MarketExpired => 4,
            ContractError::MarketNotActive => 5,
            ContractError::InsufficientCollateral => 10,
            ContractError::PositionAlreadySettled => 11,
            ContractError::NoPositionFound => 12,
            ContractError::InvalidShareAmount => 13,
            ContractError::InvalidSignature => 20,
            ContractError::UnauthorizedOracle => 21,
            ContractError::InvalidOutcome => 22,
            ContractError::OraclePriceUnavailable => 23,
            ContractError::InvalidPrice => 30,
            ContractError::InvalidQuantity => 31,
            ContractError::InvalidTimestamp => 32,
            ContractError::InvalidQuestion => 33,
            ContractError::Unauthorized => 40,
            ContractError::NotAdmin => 41,
            ContractError::AlreadyInitialized => 42,
            ContractError::NoPendingAdmin => 43,
            ContractError::TokenTransferFailed => 50,
            ContractError::ArithmeticOverflow => 60,
            ContractError::UpgradeRequired => 70,
            ContractError::ResolutionNotFinalized => 80,
        }
    }

    /// The stable numeric code of the error, as reported to callers.
    pub fn code(&self) -> (r: u32)
        ensures
            r == self.spec_code(),
    {
        match self {
            ContractError::MarketNotFound => 1,
            ContractError::MarketAlreadyResolved => 2,
            ContractError::MarketNotResolved => 3,
            ContractError::MarketExpired => 4,
            ContractError::MarketNotActive => 5,
            ContractError::InsufficientCollateral => 10,
            ContractError::PositionAlreadySettled => 11,
            ContractError::NoPositionFound => 12,
            ContractError::InvalidShareAmount => 13,
            ContractError::InvalidSignature => 20,
            ContractError::UnauthorizedOracle => 21,
            ContractError::InvalidOutcome => 22,
            ContractError::OraclePriceUnavailable => 23,
            ContractError::InvalidPrice => 30,
            ContractError::InvalidQuantity => 31,
            ContractError::InvalidTimestamp => 32,
            ContractError::InvalidQuestion => 33,
            ContractError::Unauthorized => 40,
            ContractError::NotAdmin => 41,
            ContractError::AlreadyInitialized => 42,
            ContractError::NoPendingAdmin => 43,
            ContractError::TokenTransferFailed => 50,
            ContractError::ArithmeticOverflow => 60,
            ContractError::UpgradeRequired => 70,
            ContractError::ResolutionNotFinalized => 80,
        }
    }
}

} // verus!
