use vatix::address::Address;
use vatix::treasury::{TreasuryContract, TreasuryError};

struct Setup {
    admin: Address,
    market: Address,
    token: Address,
    client: TreasuryContract,
}

fn setup() -> Setup {
    let admin = Address::account(1);
    let market = Address::contract(2);
    let token = Address::contract(3);
    let mut client = TreasuryContract::new();
    client.initialize(admin, market).unwrap();
    Setup { admin, market, token, client }
}

#[test]
fn discriminants_are_stable() {
    assert_eq!(TreasuryError::InsufficientBalance.code(), 21);
    assert_eq!(TreasuryError::InvalidAmount.code(), 31);
    assert_eq!(TreasuryError::NotInitialized.code(), 33);
    assert_eq!(TreasuryError::CallerNotMarket.code(), 40);
    assert_eq!(TreasuryError::Unauthorized.code(), 41);
    assert_eq!(TreasuryError::AlreadyInitialized.code(), 42);
    assert_eq!(TreasuryError::ArithmeticOverflow.code(), 60);
}

#[test]
fn initialize_stores_admin_and_market() {
    let s = setup();
    assert_eq!(s.client.admin(), s.admin);
    assert_eq!(s.client.market_contract(), s.market);
    assert_eq!(s.client.token_balance(s.token), 0);
    assert_eq!(s.client.get_cumulative_fees(s.token), 0);
}

#[test]
fn initialize_can_only_be_called_once() {
    let mut s = setup();
    let other = Address::account(9);
    assert_eq!(s.client.initialize(other, s.market), Err(TreasuryError::AlreadyInitialized));
    assert_eq!(s.client.admin(), s.admin);
}

#[test]
fn collect_fee_updates_balance_and_cumulative() {
    let mut s = setup();
    s.client.collect_fee(s.market, s.token, 1, 50_000).unwrap();
    assert_eq!(s.client.token_balance(s.token), 50_000);
    assert_eq!(s.client.get_cumulative_fees(s.token), 50_000);
}

#[test]
fn collect_fee_accumulates_across_calls() {
    let mut s = setup();
    s.client.collect_fee(s.market, s.token, 1, 100_000).unwrap();
    s.client.collect_fee(s.market, s.token, 2, 200_000).unwrap();
    assert_eq!(s.client.token_balance(s.token), 300_000);
    assert_eq!(s.client.get_cumulative_fees(s.token), 300_000);
}

#[test]
fn collect_fee_accumulates_across_tokens() {
    let mut s = setup();
    let token2 = Address::contract(30);
    s.client.collect_fee(s.market, s.token, 1, 100_000).unwrap();
    s.client.collect_fee(s.market, token2, 1, 200_000).unwrap();
    assert_eq!(s.client.token_balance(s.token), 100_000);
    assert_eq!(s.client.token_balance(token2), 200_000);
    assert_eq!(s.client.get_cumulative_fees(s.token), 100_000);
    assert_eq!(s.client.get_cumulative_fees(token2), 200_000);
    assert_eq!(s.client.total_collected(), 300_000);
}

#[test]
fn collect_fee_rejects_unauthorized_caller() {
    let mut s = setup();
    let rogue = Address::account(66);
    assert_eq!(
        s.client.collect_fee(rogue, s.token, 1, 50_000),
        Err(TreasuryError::CallerNotMarket)
    );
}

#[test]
fn collect_fee_rejects_zero_amount() {
    let mut s = setup();
    assert_eq!(s.client.collect_fee(s.market, s.token, 1, 0), Err(TreasuryError::InvalidAmount));
}

#[test]
fn collect_fee_rejects_negative_amount() {
    let mut s = setup();
    assert_eq!(s.client.collect_fee(s.market, s.token, 1, -1), Err(TreasuryError::InvalidAmount));
}

#[test]
fn collect_fee_errors_when_not_initialized() {
    let mut client = TreasuryContract::new();
    let market = Address::contract(2);
    let token = Address::contract(3);
    assert_eq!(client.collect_fee(market, token, 1, 1_000), Err(TreasuryError::NotInitialized));
}

#[test]
fn collect_fee_saturates_at_the_largest_amount() {
    let mut s = setup();
    s.client.collect_fee(s.market, s.token, 1, i128::MAX - 5).unwrap();
    s.client.collect_fee(s.market, s.token, 1, 10).unwrap();
    assert_eq!(s.client.token_balance(s.token), i128::MAX);
    assert_eq!(s.client.get_cumulative_fees(s.token), i128::MAX);
    assert_eq!(s.client.total_collected(), i128::MAX);
}

#[test]
fn withdraw_fees_transfers_to_recipient() {
    let mut s = setup();
    s.client.collect_fee(s.market, s.token, 1, 500_000).unwrap();
    let recipient = Address::account(40);
    s.client.withdraw_fees(s.admin, s.token, recipient, 200_000).unwrap();
    assert_eq!(s.client.token_balance(s.token), 300_000);
    assert_eq!(s.client.get_cumulative_fees(s.token), 500_000);
}

#[test]
fn withdraw_fees_rejects_non_admin() {
    let mut s = setup();
    s.client.collect_fee(s.market, s.token, 1, 500_000).unwrap();
    let imposter = Address::account(41);
    let recipient = Address::account(42);
    assert_eq!(
        s.client.withdraw_fees(imposter, s.token, recipient, 100_000),
        Err(TreasuryError::Unauthorized)
    );
}

#[test]
fn withdraw_fees_rejects_zero_amount() {
    let mut s = setup();
    assert_eq!(
        s.client.withdraw_fees(s.admin, s.token, s.admin, 0),
        Err(TreasuryError::InvalidAmount)
    );
}

#[test]
fn withdraw_fees_rejects_insufficient_balance() {
    let mut s = setup();
    assert_eq!(
        s.client.withdraw_fees(s.admin, s.token, s.admin, 1),
        Err(TreasuryError::InsufficientBalance)
    );
}

#[test]
fn withdraw_fees_errors_when_not_initialized() {
    let mut client = TreasuryContract::new();
    let admin = Address::account(1);
    let token = Address::contract(3);
    assert_eq!(
        client.withdraw_fees(admin, token, admin, 1_000),
        Err(TreasuryError::NotInitialized)
    );
}

#[test]
fn cumulative_stays_high_after_withdrawal() {
    let mut s = setup();
    s.client.collect_fee(s.market, s.token, 1, 300_000).unwrap();
    let recipient = Address::account(43);
    s.client.withdraw_fees(s.admin, s.token, recipient, 300_000).unwrap();
    assert_eq!(s.client.token_balance(s.token), 0);
    assert_eq!(s.client.get_cumulative_fees(s.token), 300_000);
}

#[test]
fn set_market_contract_updates_address() {
    let mut s = setup();
    let new_market = Address::contract(20);
    s.client.set_market_contract(s.admin, new_market).unwrap();
    assert_eq!(s.client.market_contract(), new_market);
}

#[test]
fn set_market_contract_rejects_non_admin() {
    let mut s = setup();
    let rando = Address::account(44);
    let new_market = Address::contract(20);
    assert_eq!(
        s.client.set_market_contract(rando, new_market),
        Err(TreasuryError::Unauthorized)
    );
}

#[test]
fn old_market_cannot_collect_fee_after_rotation() {
    let mut s = setup();
    let new_market = Address::contract(20);
    s.client.set_market_contract(s.admin, new_market).unwrap();
    assert_eq!(
        s.client.collect_fee(s.market, s.token, 1, 100),
        Err(TreasuryError::CallerNotMarket)
    );
    s.client.collect_fee(new_market, s.token, 1, 100).unwrap();
    assert_eq!(s.client.get_cumulative_fees(s.token), 100);
}

#[test]
fn uninitialized_treasury_reports_no_admin() {
    let client = TreasuryContract::new();
    assert!(!client.is_initialized());
}
