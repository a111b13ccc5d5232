//! Settlement of positions in resolved markets.
//!
//! A resolved market pays each position its winning shares: the YES shares
//! when YES won, the NO shares when NO won. A position is settled at most
//! once. The host authorizes the user, transfers the payout and publishes
//! the `PositionSettled` event.

use vstd::prelude::*;

use super::error::ContractError;
use super::storage::{position_wf, MarketStorage, MarketView};
use super::types::{Market, MarketStatus, Position, PositionKey, TokenTransfer};
use crate::address::Address;

verus! {

/// The payout of `position` when the market's outcome is `outcome`
/// (`true`: YES won).
pub open spec fn payout_of(position: Position, outcome: bool) -> i128 {
    if outcome {
        position.yes_shares
    } else {
        position.no_shares
    }
}

/// The outcome of the eligibility check of `position` in `market`.
pub open spec fn eligibility(position: Position, market: Market) -> Result<(), ContractError> {
    if market.status != MarketStatus::Resolved {
        Err(ContractError::MarketNotResolved)
    } else if position.is_settled {
        Err(ContractError::PositionAlreadySettled)
    } else {
        Ok(())
    }
}

/// The outcome of settling `position` in `market`: the payout, or the error.
pub open spec fn settlement_outcome(position: Position, market: Market) -> Result<i128, ContractError> {
    if eligibility(position, market) is Err {
        Err(eligibility(position, market)->Err_0)
    } else if market.result is None {
        Err(ContractError::MarketNotResolved)
    } else if payout_of(position, market.result->0) < 0 {
        Err(ContractError::InvalidQuantity)
    } else {
        Ok(payout_of(position, market.result->0))
    }
}

/// The payout for a position given the market outcome (`true`: YES won), in
/// stroops (1 USDC = 10^7 stroops).
pub fn calculate_payout(position: &Position, outcome: bool) -> (r: i128)
    ensures
        r == payout_of(*position, outcome),
{
    if outcome {
        position.yes_shares
    } else {
        position.no_shares
    }
}

/// Checks that a position may be settled: fails with `MarketNotResolved`
/// unless the market is resolved, then with `PositionAlreadySettled` if the
/// position was settled before.
pub fn validate_settlement_eligibility(position: &Position, market: &Market) -> (r: Result<
    (),
    ContractError,
>)
    ensures
        r == eligibility(*position, *market),
{
    if market.status != MarketStatus::Resolved {
        return Err(ContractError::MarketNotResolved);
    }
    if position.is_settled {
        return Err(ContractError::PositionAlreadySettled);
    }
    Ok(())
}

/// Fails with `InvalidQuantity` when the payout is negative.
pub fn validate_payout(payout: i128) -> (r: Result<(), ContractError>)
    ensures
        r is Ok <==> payout >= 0,
        r is Err ==> r == Err::<(), ContractError>(ContractError::InvalidQuantity),
{
    if payout < 0 {
        return Err(ContractError::InvalidQuantity);
    }
    Ok(())
}

/// Settles `position` in `market` and returns its payout: checks
/// eligibility, computes the payout from the market's result, checks that
/// it is not negative, and marks the position settled. On an error the
/// position is unchanged.
pub fn execute_settlement(position: &mut Position, market: &Market) -> (r: Result<i128, ContractError>)
    ensures
        r == settlement_outcome(*old(position), *market),
        r is Err ==> *final(position) == *old(position),
        r is Ok ==> *final(position) == (Position { is_settled: true, ..*old(position) }),
{
    validate_settlement_eligibility(position, market)?;
    let outcome = match market.result {
        Some(o) => o,
        None => {
            return Err(ContractError::MarketNotResolved);
        },
    };
    let payout = calculate_payout(position, outcome);
    validate_payout(payout)?;
    position.is_settled = true;
    Ok(payout)
}

/// What a successful settlement hands back to the host: the payout, the
/// transfer to make (none for a zero payout), and the settlement time.
#[derive(Clone, Copy, Debug, PartialEq, Eq, Structural)]
pub struct SettlementReceipt {
    pub payout: i128,
    pub transfer: Option<TokenTransfer>,
    pub settled_at: u64,
}

/// The outcome of `settle_position` on storage `v`: the error, if any.
pub open spec fn settle_check(v: MarketView, user: Address, market_id: u32) -> Result<
    i128,
    ContractError,
> {
    if !v.version_ok() {
        Err(ContractError::UpgradeRequired)
    } else if v.market(market_id) is None {
        Err(ContractError::MarketNotFound)
    } else if v.position(market_id, user) is None {
        Err(ContractError::NoPositionFound)
    } else {
        settlement_outcome(v.position(market_id, user)->0, v.market(market_id)->0)
    }
}

/// Settles `user`'s position in market `market_id` at time `now`.
///
/// Fails with `UpgradeRequired`, `MarketNotFound`, `NoPositionFound`,
/// `MarketNotResolved`, `PositionAlreadySettled` or `InvalidQuantity`, in
/// that order of checking; then storage is unchanged. On success the
/// position is stored as settled and the receipt carries the payout and,
/// when it is positive, the transfer of that amount of the market's
/// collateral token to `user`.
pub fn settle_position(storage: &mut MarketStorage, user: &Address, market_id: u32, now: u64) -> (r:
    Result<SettlementReceipt, ContractError>)
    requires
        old(storage).inv(),
    ensures
        final(storage).inv(),
        r is Err ==> final(storage)@ == old(storage)@,
        r is Err <==> settle_check(old(storage)@, *user, market_id) is Err,
        r is Err ==> r->Err_0 == settle_check(old(storage)@, *user, market_id)->Err_0,
        r is Ok ==> {
            let payout = settle_check(old(storage)@, *user, market_id)->Ok_0;
            let market = old(storage)@.market(market_id)->0;
            let position = old(storage)@.position(market_id, *user)->0;
            &&& r->Ok_0.payout == payout
            &&& r->Ok_0.settled_at == now
            &&& r->Ok_0.transfer == if payout > 0 {
                Some(TokenTransfer { token: market.collateral_token, to: *user, amount: payout })
            } else {
                None
            }
            &&& final(storage)@ == MarketView {
                positions: old(storage)@.positions.insert(
                    PositionKey { market_id, user: *user },
                    Position { is_settled: true, ..position },
                ),
                ..old(storage)@
            }
        },
{
    let market = match storage.get_market(market_id)? {
        Some(m) => m,
        None => {
            return Err(ContractError::MarketNotFound);
        },
    };
    let mut position = match storage.get_position(market_id, user)? {
        Some(p) => p,
        None => {
            return Err(ContractError::NoPositionFound);
        },
    };
    proof {
        storage.lemma_positions_wf();
        assert(old(storage)@.positions.contains_key(PositionKey { market_id, user: *user }));
        assert(position_wf(position));
    }
    let payout = execute_settlement(&mut position, &market)?;
    storage.set_position(market_id, user, &position)?;
    let transfer = if payout > 0 {
        Some(TokenTransfer { token: market.collateral_token, to: *user, amount: payout })
    } else {
        None
    };
    Ok(SettlementReceipt { payout, transfer, settled_at: now })
}

/// What the position would receive if settled now: `None` while the market
/// has no result.
pub fn calculate_potential_payout(position: &Position, market: &Market) -> (r: Option<i128>)
    ensures
        r == match market.result {
            Some(outcome) => Some(payout_of(*position, outcome)),
            None => None,
        },
{
    match market.result {
        Some(outcome) => Some(calculate_payout(position, outcome)),
        None => None,
    }
}

/// `(winning_shares, losing_shares, total_payout)` of a market whose shares
/// total `total_yes_shares` YES and `total_no_shares` NO, when the outcome is
/// `outcome`.
pub open spec fn settlement_stats(total_yes_shares: i128, total_no_shares: i128, outcome: bool) -> (
    i128,
    i128,
    i128,
) {
    if outcome {
        (total_yes_shares, total_no_shares, total_yes_shares)
    } else {
        (total_no_shares, total_yes_shares, total_no_shares)
    }
}

/// Settlement statistics of a market: `(winning_shares, losing_shares,
/// total_payout)` for the given totals of YES and NO shares and outcome.
pub fn calculate_market_settlement_stats(total_yes_shares: i128, total_no_shares: i128, outcome: bool) -> (r: (
    i128,
    i128,
    i128,
))
    ensures
        r == settlement_stats(total_yes_shares, total_no_shares, outcome),
{
    if outcome {
        (total_yes_shares, total_no_shares, total_yes_shares)
    } else {
        (total_no_shares, total_yes_shares, total_no_shares)
    }
}

/// A position is settled at most once: settling a position that a
/// settlement has just marked fails with `PositionAlreadySettled`.
pub proof fn lemma_settlement_happens_once(position: Position, market: Market)
    requires
        settlement_outcome(position, market) is Ok,
    ensures
        settlement_outcome(Position { is_settled: true, ..position }, market) == Err::<
            i128,
            ContractError,
        >(ContractError::PositionAlreadySettled),
{
}

/// The settlement statistics agree with the payouts: the total payout is
/// what a position holding all of the market's shares would be paid, that is
/// the winning side's shares, and the winning and losing shares together are
/// all of the shares.
pub proof fn lemma_settlement_stats_partition(all_shares: Position, outcome: bool)
    ensures
        ({
            let (winning, losing, total_payout) = settlement_stats(
                all_shares.yes_shares,
                all_shares.no_shares,
                outcome,
            );
            &&& total_payout == payout_of(all_shares, outcome)
            &&& total_payout == winning
            &&& winning + losing == all_shares.yes_shares + all_shares.no_shares
        }),
{
}

/// A settlement pays the winning side's shares and nothing else: for an
/// unsettled position in a resolved market with a result, it succeeds
/// exactly when the winning share count is not negative, and then pays the
/// YES shares when YES won and the NO shares when NO won, whatever the
/// losing side holds.
pub proof fn lemma_settlement_pays_winning_shares(position: Position, market: Market, losing: i128)
    requires
        market.status == MarketStatus::Resolved,
        !position.is_settled,
        market.result is Some,
    ensures
        market.result == Some(true) ==> {
            &&& settlement_outcome(position, market) is Ok <==> position.yes_shares >= 0
            &&& settlement_outcome(position, market) is Ok ==> settlement_outcome(position, market)
                == Ok::<i128, ContractError>(position.yes_shares)
            &&& settlement_outcome(Position { no_shares: losing, ..position }, market)
                == settlement_outcome(position, market)
        },
        market.result == Some(false) ==> {
            &&& settlement_outcome(position, market) is Ok <==> position.no_shares >= 0
            &&& settlement_outcome(position, market) is Ok ==> settlement_outcome(position, market)
                == Ok::<i128, ContractError>(position.no_shares)
            &&& settlement_outcome(Position { yes_shares: losing, ..position }, market)
                == settlement_outcome(position, market)
        },
{
}

} // verus!
