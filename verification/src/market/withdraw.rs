//! Withdrawal of unused collateral from a market.
//!
//! A position's `locked_collateral` is what backs its YES/NO shares at the
//! price they were bought at; it is kept up to date by trading and is the
//! single source of truth here. A user may withdraw what remains of the
//! deposit once the protocol fee on the withdrawal and the locked collateral
//! are set aside. The fee is deducted from the deposit on top of the amount,
//! so the user receives exactly the amount asked for.

use vstd::prelude::*;

use super::error::ContractError;
use super::storage::{position_wf, MarketStorage, MarketView};
use super::types::{MarketStatus, Position, PositionKey, TokenTransfer};
use super::validation::{
    calculate_fee,
    fee_on,
    validate_collateral_amount,
    validate_fee_rate_bps,
    BPS_DENOMINATOR,
};
use crate::address::Address;
use crate::treasury::storage::TreasuryView;
use crate::treasury::{after_collect, capped_sum, collect_fee_check};

verus! {

/// The fee on a withdrawal and the collateral available to withdraw.
#[derive(Clone, Copy, Debug, PartialEq, Eq, Structural)]
pub struct WithdrawQuote {
    /// The protocol fee on the requested amount.
    pub fee_amount: i128,
    /// The deposit less the fee and the locked collateral (never negative).
    pub available: i128,
}

/// The fee on withdrawing `amount` at `fee_rate_bps` (none at a zero rate).
pub open spec fn withdrawal_fee(amount: i128, fee_rate_bps: i128) -> int {
    if fee_rate_bps > 0 {
        fee_on(amount as int, fee_rate_bps as int)
    } else {
        0
    }
}

/// The quote for withdrawing `amount` from `position` at `fee_rate_bps`.
pub open spec fn quote_outcome(position: Position, fee_rate_bps: i128, amount: i128) -> Result<
    WithdrawQuote,
    ContractError,
> {
    if !(0 <= fee_rate_bps <= BPS_DENOMINATOR) {
        Err(ContractError::InvalidPrice)
    } else if fee_rate_bps > 0 && amount * fee_rate_bps > i128::MAX {
        Err(ContractError::ArithmeticOverflow)
    } else {
        let fee = withdrawal_fee(amount, fee_rate_bps);
        let after_fee = position.total_deposited - fee;
        Ok(
            WithdrawQuote {
                fee_amount: fee as i128,
                available: if after_fee > position.locked_collateral {
                    (after_fee - position.locked_collateral) as i128
                } else {
                    0
                },
            },
        )
    }
}

/// Computes the fee on withdrawing `amount` from `position` and the
/// collateral available once the fee and the locked collateral are set
/// aside. Fails with `InvalidPrice` for a fee rate outside 0–10_000 bps and
/// with `ArithmeticOverflow` when the fee cannot be computed.
pub fn quote_withdrawal(position: &Position, fee_rate_bps: i128, amount: i128) -> (r: Result<
    WithdrawQuote,
    ContractError,
>)
    requires
        position_wf(*position),
        amount > 0,
    ensures
        r == quote_outcome(*position, fee_rate_bps, amount),
        r is Ok ==> 0 <= r->Ok_0.fee_amount <= amount,
{
    validate_fee_rate_bps(fee_rate_bps)?;
    let fee_amount = if fee_rate_bps > 0 {
        calculate_fee(amount, fee_rate_bps)?
    } else {
        0
    };
    proof {
        if fee_rate_bps > 0 {
            assert(0 <= amount * fee_rate_bps <= amount * BPS_DENOMINATOR) by (nonlinear_arith)
                requires
                    amount > 0,
                    0 < fee_rate_bps <= BPS_DENOMINATOR,
            ;
        }
    }
    let total_deposited_after_fee = match position.total_deposited.checked_sub(fee_amount) {
        Some(t) => t,
        None => {
            return Err(ContractError::ArithmeticOverflow);
        },
    };
    let required_lock = position.locked_collateral;
    let available = if total_deposited_after_fee > required_lock {
        total_deposited_after_fee - required_lock
    } else {
        0
    };
    Ok(WithdrawQuote { fee_amount, available })
}

/// What a successful withdrawal hands back to the host.
#[derive(Clone, Copy, Debug, PartialEq, Eq, Structural)]
pub struct WithdrawReceipt {
    /// The fee and the collateral that was available.
    pub quote: WithdrawQuote,
    /// The position's deposit after the withdrawal.
    pub new_total: i128,
    /// The requested amount of collateral, to the user.
    pub payout: TokenTransfer,
    /// The fee, to the registered treasury (which then records it through
    /// its `collect_fee`); none for a zero fee or without a treasury, in
    /// which case the fee stays with the market contract.
    pub fee_transfer: Option<TokenTransfer>,
}

/// The position a withdrawal works on: the stored one, or an empty one.
pub open spec fn position_or_empty(v: MarketView, market_id: u32, user: Address) -> Position {
    match v.position(market_id, user) {
        Some(p) => p,
        None => Position {
            market_id,
            user,
            yes_shares: 0,
            no_shares: 0,
            locked_collateral: 0,
            total_deposited: 0,
            is_settled: false,
        },
    }
}

/// The outcome of withdrawing `amount` for `user` from `market_id` on
/// storage `v`: the receipt, or the error.
pub open spec fn withdraw_outcome(v: MarketView, user: Address, market_id: u32, amount: i128) -> Result<
    WithdrawReceipt,
    ContractError,
> {
    let position = position_or_empty(v, market_id, user);
    let quote = quote_outcome(position, v.fee_rate(), amount);
    if amount <= 0 {
        Err(ContractError::InvalidQuantity)
    } else if !v.version_ok() {
        Err(ContractError::UpgradeRequired)
    } else if v.market(market_id) is None {
        Err(ContractError::MarketNotFound)
    } else if v.market(market_id)->0.status != MarketStatus::Active {
        Err(ContractError::MarketNotActive)
    } else if position.total_deposited == 0 {
        Err(ContractError::InsufficientCollateral)
    } else if quote is Err {
        Err(quote->Err_0)
    } else if amount > quote->Ok_0.available {
        Err(ContractError::InsufficientCollateral)
    } else {
        let q = quote->Ok_0;
        let token = v.market(market_id)->0.collateral_token;
        Ok(
            WithdrawReceipt {
                quote: q,
                new_total: (position.total_deposited - amount - q.fee_amount) as i128,
                payout: TokenTransfer { token, to: user, amount },
                fee_transfer: if q.fee_amount > 0 && v.treasury is Some {
                    Some(TokenTransfer { token, to: v.treasury->0, amount: q.fee_amount })
                } else {
                    None
                },
            },
        )
    }
}

/// Withdraws `amount` of unused collateral for `user` from market
/// `market_id`.
///
/// Fails, in this order of checking, with `InvalidQuantity` (amount not
/// positive), `UpgradeRequired`, `MarketNotFound`, `MarketNotActive`
/// (resolved or canceled), `InsufficientCollateral` (nothing deposited),
/// `InvalidPrice` (fee rate out of range), `ArithmeticOverflow`, or
/// `InsufficientCollateral` (amount above what is available after the fee
/// and the locked collateral); then storage is unchanged. On success the
/// deposit shrinks by the amount plus the fee and the receipt says what to
/// transfer: the amount to the user, and the fee to the treasury when one is
/// registered.
pub fn withdraw_unused_collateral(
    storage: &mut MarketStorage,
    user: &Address,
    market_id: u32,
    amount: i128,
) -> (r: Result<WithdrawReceipt, ContractError>)
    requires
        old(storage).inv(),
    ensures
        final(storage).inv(),
        r == withdraw_outcome(old(storage)@, *user, market_id, amount),
        r is Err ==> final(storage)@ == old(storage)@,
        r is Ok ==> final(storage)@ == (MarketView {
            positions: old(storage)@.positions.insert(
                PositionKey { market_id, user: *user },
                Position {
                    total_deposited: r->Ok_0.new_total,
                    ..position_or_empty(old(storage)@, market_id, *user)
                },
            ),
            ..old(storage)@
        }),
{
    validate_collateral_amount(amount)?;
    let market = match storage.get_market(market_id)? {
        Some(m) => m,
        None => {
            return Err(ContractError::MarketNotFound);
        },
    };
    if market.status != MarketStatus::Active {
        return Err(ContractError::MarketNotActive);
    }
    let mut position = match storage.get_position(market_id, user)? {
        Some(p) => p,
        None => Position::new_empty(market_id, *user),
    };
    proof {
        storage.lemma_positions_wf();
        if old(storage)@.positions.contains_key(PositionKey { market_id, user: *user }) {
            assert(position_wf(position));
        }
    }
    if position.total_deposited == 0 {
        return Err(ContractError::InsufficientCollateral);
    }
    let fee_rate_bps = storage.get_fee_rate_bps();
    let quote = quote_withdrawal(&position, fee_rate_bps, amount)?;
    if amount > quote.available {
        return Err(ContractError::InsufficientCollateral);
    }
    let fee_amount = quote.fee_amount;
    let fee_transfer = if fee_amount > 0 {
        match storage.get_treasury() {
            Some(treasury) => Some(
                TokenTransfer { token: market.collateral_token, to: treasury, amount: fee_amount },
            ),
            None => None,
        }
    } else {
        None
    };
    let total_deducted = match amount.checked_add(fee_amount) {
        Some(t) => t,
        None => {
            return Err(ContractError::ArithmeticOverflow);
        },
    };
    let new_total = match position.total_deposited.checked_sub(total_deducted) {
        Some(t) => t,
        None => {
            return Err(ContractError::ArithmeticOverflow);
        },
    };
    position.total_deposited = new_total;
    storage.set_position(market_id, user, &position)?;
    let payout = TokenTransfer { token: market.collateral_token, to: *user, amount };
    Ok(WithdrawReceipt { quote, new_total, payout, fee_transfer })
}

/// A successful withdrawal never takes more than was available: the amount
/// is at most the available collateral, the deposit shrinks by exactly the
/// amount plus the fee, and the locked collateral stays covered.
pub proof fn lemma_withdraw_within_available(
    v: MarketView,
    user: Address,
    market_id: u32,
    amount: i128,
)
    requires
        v.positions_wf(),
        withdraw_outcome(v, user, market_id, amount) is Ok,
    ensures
        ({
            let receipt = withdraw_outcome(v, user, market_id, amount)->Ok_0;
            let position = position_or_empty(v, market_id, user);
            &&& 0 < amount <= receipt.quote.available
            &&& receipt.new_total == position.total_deposited - amount - receipt.quote.fee_amount
            &&& position.locked_collateral <= receipt.new_total
            &&& receipt.payout.amount == amount
        }),
{
    let position = position_or_empty(v, market_id, user);
    if v.positions.contains_key(PositionKey { market_id, user }) {
        assert(position_wf(position));
    }
    let fee_rate_bps = v.fee_rate();
    if fee_rate_bps > 0 {
        assert(0 <= amount * fee_rate_bps) by (nonlinear_arith)
            requires
                amount > 0,
                fee_rate_bps > 0,
        ;
    }
}

/// A fee that a withdrawal routes to the treasury is one that the treasury
/// records: it is the positive fee of the withdrawal, in the market's
/// collateral token, sent to the registered treasury; an initialized
/// treasury that has the market contract registered accepts it from that
/// contract, and its custodied balance of the token grows by the fee (up to
/// the largest `i128`).
pub proof fn lemma_routed_fee_is_collected(
    v: MarketView,
    user: Address,
    market_id: u32,
    amount: i128,
    treasury: TreasuryView,
    market_contract: Address,
)
    requires
        withdraw_outcome(v, user, market_id, amount) is Ok,
        withdraw_outcome(v, user, market_id, amount)->Ok_0.fee_transfer is Some,
        treasury.admin is Some,
        treasury.authorized_market == Some(market_contract),
    ensures
        ({
            let receipt = withdraw_outcome(v, user, market_id, amount)->Ok_0;
            let fee = receipt.fee_transfer->0;
            &&& fee.amount == receipt.quote.fee_amount
            &&& fee.amount > 0
            &&& fee.token == v.market(market_id)->0.collateral_token
            &&& v.treasury == Some(fee.to)
            &&& collect_fee_check(treasury, market_contract, fee.amount) is Ok
            &&& after_collect(treasury, fee.token, fee.amount).balance_of(fee.token) == capped_sum(
                treasury.balance_of(fee.token),
                fee.amount as int,
            )
        }),
{
}

/// The collateral available to withdraw is the deposit less the fee and the
/// stored locked collateral, whatever the share counts: a quote does not
/// depend on the YES and NO shares, and its available amount is
/// `max(0, total_deposited - fee - locked_collateral)`.
pub proof fn lemma_quote_trusts_stored_lock(
    position: Position,
    fee_rate_bps: i128,
    amount: i128,
    yes_shares: i128,
    no_shares: i128,
)
    requires
        position_wf(position),
        amount > 0,
    ensures
        quote_outcome(Position { yes_shares, no_shares, ..position }, fee_rate_bps, amount)
            == quote_outcome(position, fee_rate_bps, amount),
        quote_outcome(position, fee_rate_bps, amount) is Ok ==> {
            let q = quote_outcome(position, fee_rate_bps, amount)->Ok_0;
            let rest = position.total_deposited - q.fee_amount - position.locked_collateral;
            &&& rest <= 0 ==> q.available == 0
            &&& rest > 0 ==> q.available == rest
        },
{
    if 0 < fee_rate_bps <= BPS_DENOMINATOR {
        assert(0 <= amount * fee_rate_bps) by (nonlinear_arith)
            requires
                amount > 0,
                fee_rate_bps > 0,
        ;
        assert(amount * fee_rate_bps / 10_000 <= amount) by (nonlinear_arith)
            requires
                amount > 0,
                0 < fee_rate_bps <= 10_000,
        ;
    }
}

/// A withdrawal from an active market succeeds exactly when the amount is
/// at most the deposit less the fee (`amount * rate / 10_000`) and the
/// stored locked collateral; it then pays the amount, charges that fee, and
/// leaves the deposit less the amount and the fee.
pub proof fn lemma_withdraw_succeeds_up_to_available(
    v: MarketView,
    user: Address,
    market_id: u32,
    amount: i128,
)
    requires
        v.positions_wf(),
        v.version_ok(),
        v.market(market_id) is Some,
        v.market(market_id)->0.status == MarketStatus::Active,
        amount > 0,
        0 <= v.fee_rate() <= 10_000,
        amount * v.fee_rate() <= i128::MAX,
    ensures
        ({
            let position = position_or_empty(v, market_id, user);
            let fee = amount * v.fee_rate() / 10_000;
            let r = withdraw_outcome(v, user, market_id, amount);
            &&& r is Ok <==> amount <= position.total_deposited - fee - position.locked_collateral
            &&& r is Ok ==> {
                &&& r->Ok_0.quote.fee_amount == fee
                &&& r->Ok_0.quote.available == position.total_deposited - fee
                    - position.locked_collateral
                &&& r->Ok_0.payout.amount == amount
                &&& r->Ok_0.payout.to == user
                &&& r->Ok_0.new_total == position.total_deposited - amount - fee
            }
        }),
{
    let position = position_or_empty(v, market_id, user);
    if v.positions.contains_key(PositionKey { market_id, user }) {
        assert(position_wf(position));
    }
    let rate = v.fee_rate();
    assert(0 <= amount * rate) by (nonlinear_arith)
        requires
            amount > 0,
            rate >= 0,
    ;
    assert(amount * rate / 10_000 <= amount) by (nonlinear_arith)
        requires
            amount > 0,
            0 <= rate <= 10_000,
    ;
    if rate == 0 {
        assert(amount * rate == 0) by (nonlinear_arith)
            requires
                rate == 0,
        ;
    }
}

} // verus!
