//! Input validation and fee arithmetic.

use vstd::prelude::*;

use super::error::ContractError;

verus! {

/// The denominator of basis points: 10_000 bps = 100%.
pub const BPS_DENOMINATOR: i128 = 10_000;

/// `x / d` rounded toward zero, as machine division rounds.
pub open spec fn div_toward_zero(x: int, d: int) -> int {
    if x >= 0 {
        x / d
    } else {
        -((-x) / d)
    }
}

/// The protocol fee on `amount` at `fee_rate_bps` basis points:
/// `amount * fee_rate_bps / 10_000`, rounded toward zero.
pub open spec fn fee_on(amount: int, fee_rate_bps: int) -> int {
    div_toward_zero(amount * fee_rate_bps, BPS_DENOMINATOR as int)
}

/// Fails with `InvalidQuantity` unless `value` is positive.
pub fn validate_input_guard(value: i128) -> (r: Result<(), ContractError>)
    ensures
        r is Ok <==> value > 0,
        r is Err ==> r == Err::<(), ContractError>(ContractError::InvalidQuantity),
{
    if value <= 0 {
        return Err(ContractError::InvalidQuantity);
    }
    Ok(())
}

/// Fails with `InvalidQuantity` unless the collateral `amount` is positive.
pub fn validate_collateral_amount(amount: i128) -> (r: Result<(), ContractError>)
    ensures
        r is Ok <==> amount > 0,
        r is Err ==> r == Err::<(), ContractError>(ContractError::InvalidQuantity),
{
    validate_input_guard(amount)
}

/// Fails with `InvalidPrice` unless the fee rate lies in 0–10_000 basis points.
pub fn validate_fee_rate_bps(fee_rate_bps: i128) -> (r: Result<(), ContractError>)
    ensures
        r is Ok <==> 0 <= fee_rate_bps <= BPS_DENOMINATOR,
        r is Err ==> r == Err::<(), ContractError>(ContractError::InvalidPrice),
{
    if fee_rate_bps < 0 || fee_rate_bps > BPS_DENOMINATOR {
        return Err(ContractError::InvalidPrice);
    }
    Ok(())
}

/// The fee on `amount` at `fee_rate_bps` basis points. Fails with
/// `ArithmeticOverflow` when `amount * fee_rate_bps` does not fit an `i128`.
pub fn calculate_fee(amount: i128, fee_rate_bps: i128) -> (r: Result<i128, ContractError>)
    ensures
        r is Err <==> !(i128::MIN <= amount * fee_rate_bps <= i128::MAX),
        r is Err ==> r == Err::<i128, ContractError>(ContractError::ArithmeticOverflow),
        r is Ok ==> r == Ok::<i128, ContractError>(fee_on(amount as int, fee_rate_bps as int) as i128),
{
    match amount.checked_mul(fee_rate_bps) {
        Some(product) => Ok(product / BPS_DENOMINATOR),
        None => Err(ContractError::ArithmeticOverflow),
    }
}

} // verus!
