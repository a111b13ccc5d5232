//! Plain data of the outcome token.

use vstd::prelude::*;

use crate::address::Address;
use crate::table::KeyEq;

verus! {

/// The side of a binary market that a token represents.
#[derive(Clone, Copy, Debug, PartialEq, Eq, Structural, Hash)]
pub enum TokenKind {
    Yes,
    No,
}

/// The contract's configuration: its admin and the only market contract
/// allowed to mint and burn.
#[derive(Clone, Copy, Debug, PartialEq, Eq, Structural, Hash)]
pub struct OutcomeTokenConfig {
    pub admin: Address,
    pub market_contract: Address,
}

/// The storage key of a holder's balance: market, holder and side.
#[derive(Clone, Copy, Debug, PartialEq, Eq, Structural, Hash)]
pub struct BalanceKey {
    pub market_id: u32,
    pub user: Address,
    pub kind: TokenKind,
}

/// The storage key of a supply: market and side.
#[derive(Clone, Copy, Debug, PartialEq, Eq, Structural, Hash)]
pub struct SupplyKey {
    pub market_id: u32,
    pub kind: TokenKind,
}

impl KeyEq for BalanceKey {
    fn key_eq(&self, other: &Self) -> (r: bool) {
        *self == *other
    }
}

impl KeyEq for SupplyKey {
    fn key_eq(&self, other: &Self) -> (r: bool) {
        *self == *other
    }
}

} // verus!
