//! Plain data of the market contract.

use vstd::prelude::*;

use crate::address::Address;
use crate::table::KeyEq;

verus! {

/// The states of a prediction market.
#[derive(Clone, Copy, Debug, PartialEq, Eq, Structural, Hash)]
pub enum MarketStatus {
    Active,
    Resolved,
    Canceled,
}

/// The oracle adapter used to verify a market's outcome when it is resolved.
#[derive(Clone, Copy, Debug, PartialEq, Eq, Structural, Hash)]
pub enum AdapterType {
    Ed25519,
    Reflector,
    Pyth,
}

/// Everything recorded about a market.
#[derive(Debug, PartialEq, Eq)]
pub struct Market {
    pub id: u32,
    pub question: String,
    pub end_time: u64,
    /// The oracle's 32-byte Ed25519 public key.
    pub oracle_pubkey: [u8; 32],
    pub status: MarketStatus,
    pub result: Option<bool>,
    pub creator: Address,
    pub created_at: u64,
    pub collateral_token: Address,
    /// Current market price in basis points (0–10_000).
    pub price_bps: i128,
    /// Who resolved the market (set once it is resolved).
    pub resolver: Option<Address>,
    /// When the market was resolved (set once it is resolved).
    pub resolved_at: Option<u64>,
    /// The oracle adapter used to resolve the market.
    pub adapter_type: AdapterType,
}

impl Clone for Market {
    fn clone(&self) -> (r: Self)
        ensures
            r == *self,
    {
        Market {
            id: self.id,
            question: self.question.clone(),
            end_time: self.end_time,
            oracle_pubkey: self.oracle_pubkey,
            status: self.status,
            result: self.result,
            creator: self.creator,
            created_at: self.created_at,
            collateral_token: self.collateral_token,
            price_bps: self.price_bps,
            resolver: self.resolver,
            resolved_at: self.resolved_at,
            adapter_type: self.adapter_type,
        }
    }
}

/// A user's shares and collateral in a market.
#[derive(Clone, Copy, Debug, PartialEq, Eq, Structural, Hash)]
pub struct Position {
    pub market_id: u32,
    pub user: Address,
    pub yes_shares: i128,
    pub no_shares: i128,
    /// Collateral required to back the current YES/NO shares.
    pub locked_collateral: i128,
    /// Collateral deposited by the user in this market, less what was withdrawn.
    pub total_deposited: i128,
    pub is_settled: bool,
}

impl Position {
    /// An empty position of `user` in `market_id`, for a user with no
    /// recorded position.
    pub fn new_empty(market_id: u32, user: Address) -> (p: Self)
        ensures
            p == (Position {
                market_id,
                user,
                yes_shares: 0,
                no_shares: 0,
                locked_collateral: 0,
                total_deposited: 0,
                is_settled: false,
            }),
    {
        Position {
            market_id,
            user,
            yes_shares: 0,
            no_shares: 0,
            locked_collateral: 0,
            total_deposited: 0,
            is_settled: false,
        }
    }
}

/// The storage key of a position: market and user.
#[derive(Clone, Copy, Debug, PartialEq, Eq, Structural, Hash)]
pub struct PositionKey {
    pub market_id: u32,
    pub user: Address,
}

impl KeyEq for PositionKey {
    fn key_eq(&self, other: &Self) -> (r: bool) {
        *self == *other
    }
}

/// A movement of `amount` of `token` from the market contract to `to`,
/// performed by the host after a successful operation.
#[derive(Clone, Copy, Debug, PartialEq, Eq, Structural, Hash)]
pub struct TokenTransfer {
    pub token: Address,
    pub to: Address,
    pub amount: i128,
}

} // verus!
