use proptest::strategy::{Just, Strategy};
use proptest::test_runner::{TestCaseError, TestRunner};
use vatix::address::Address;
use vatix::market::error::ContractError;
use vatix::market::storage::MarketStorage;
use vatix::market::types::{AdapterType, Market, MarketStatus, Position, TokenTransfer};
use vatix::market::withdraw::{quote_withdrawal, withdraw_unused_collateral, WithdrawQuote};

fn create_test_market(market_id: u32, collateral_token: Address) -> Market {
    Market {
        id: market_id,
        question: String::from("Will it rain tomorrow?"),
        end_time: 1000,
        oracle_pubkey: [0u8; 32],
        status: MarketStatus::Active,
        result: None,
        creator: Address::account(99),
        created_at: 0,
        collateral_token,
        price_bps: 5_000,
        resolver: None,
        resolved_at: None,
        adapter_type: AdapterType::Ed25519,
    }
}

fn position(user: Address, yes: i128, locked: i128, deposited: i128) -> Position {
    Position {
        market_id: 1,
        user,
        yes_shares: yes,
        no_shares: 0,
        locked_collateral: locked,
        total_deposited: deposited,
        is_settled: false,
    }
}

fn setup(pos: Option<Position>, fee_rate_bps: Option<i128>) -> (MarketStorage, Address, Address) {
    let user = Address::account(1);
    let token = Address::contract(2);
    let mut storage = MarketStorage::new();
    storage.set_version();
    storage.set_market(1, &create_test_market(1, token)).unwrap();
    if let Some(p) = pos {
        storage.set_position(1, &user, &Position { user, ..p }).unwrap();
    }
    if let Some(f) = fee_rate_bps {
        storage.set_fee_rate_bps(f);
    }
    (storage, user, token)
}

#[test]
fn test_withdraw_validates_zero_amount() {
    let (mut storage, user, _) = setup(None, None);
    assert_eq!(
        withdraw_unused_collateral(&mut storage, &user, 1, 0),
        Err(ContractError::InvalidQuantity)
    );
}

#[test]
fn test_withdraw_validates_negative_amount() {
    let (mut storage, user, _) = setup(None, None);
    assert_eq!(
        withdraw_unused_collateral(&mut storage, &user, 1, -100),
        Err(ContractError::InvalidQuantity)
    );
}

#[test]
fn test_withdraw_validates_market_not_found() {
    let (mut storage, user, _) = setup(None, None);
    assert_eq!(
        withdraw_unused_collateral(&mut storage, &user, 999, 1000),
        Err(ContractError::MarketNotFound)
    );
}

#[test]
fn test_withdraw_validates_market_not_active_resolved() {
    let (mut storage, user, token) = setup(None, None);
    let mut market = create_test_market(1, token);
    market.status = MarketStatus::Resolved;
    market.result = Some(true);
    storage.set_market(1, &market).unwrap();
    assert_eq!(
        withdraw_unused_collateral(&mut storage, &user, 1, 100),
        Err(ContractError::MarketNotActive)
    );
}

#[test]
fn test_withdraw_validates_insufficient_collateral() {
    let user = Address::account(1);
    let (mut storage, user, _) = setup(Some(position(user, 100, 50, 100)), None);
    assert_eq!(
        withdraw_unused_collateral(&mut storage, &user, 1, 60),
        Err(ContractError::InsufficientCollateral)
    );
}

#[test]
fn test_withdraw_zero_deposited_rejected() {
    let user = Address::account(1);
    let (mut storage, user, _) = setup(Some(position(user, 0, 0, 0)), None);
    assert_eq!(
        withdraw_unused_collateral(&mut storage, &user, 1, 1),
        Err(ContractError::InsufficientCollateral)
    );
}

#[test]
fn test_withdraw_no_position_insufficient_collateral() {
    let (mut storage, user, _) = setup(None, None);
    assert_eq!(
        withdraw_unused_collateral(&mut storage, &user, 1, 1),
        Err(ContractError::InsufficientCollateral)
    );
}

#[test]
fn test_withdraw_available_vs_locked() {
    let user = Address::account(1);
    let (mut storage, user, _) = setup(Some(position(user, 120, 60, 100)), None);
    assert_eq!(
        withdraw_unused_collateral(&mut storage, &user, 1, 41),
        Err(ContractError::InsufficientCollateral)
    );
}

#[test]
fn test_withdraw_success_updates_position_and_transfers() {
    let user = Address::account(1);
    let (mut storage, user, token) = setup(Some(position(user, 0, 0, 100)), None);
    let receipt = withdraw_unused_collateral(&mut storage, &user, 1, 40).unwrap();
    assert_eq!(receipt.payout, TokenTransfer { token, to: user, amount: 40 });
    let updated = storage.get_position(1, &user).unwrap().unwrap();
    assert_eq!(updated.total_deposited, 60);
}

#[test]
fn test_withdraw_fee_zero_bps() {
    let user = Address::account(1);
    let (mut storage, user, _) = setup(Some(position(user, 0, 0, 100)), Some(0));
    let receipt = withdraw_unused_collateral(&mut storage, &user, 1, 40).unwrap();
    assert_eq!(receipt.quote.fee_amount, 0);
    let updated = storage.get_position(1, &user).unwrap().unwrap();
    assert_eq!(updated.total_deposited, 60);
}

#[test]
fn test_withdraw_fee_max_bps() {
    let user = Address::account(1);
    let (mut storage, user, _) = setup(Some(position(user, 0, 0, 100)), Some(10_000));
    let receipt = withdraw_unused_collateral(&mut storage, &user, 1, 50).unwrap();
    assert_eq!(receipt.quote.fee_amount, 50);
    let updated = storage.get_position(1, &user).unwrap().unwrap();
    assert_eq!(updated.total_deposited, 0);
}

#[test]
fn test_withdraw_fee_insufficient_after_fee() {
    let user = Address::account(1);
    let (mut storage, user, _) = setup(Some(position(user, 0, 50, 100)), Some(1000));
    assert_eq!(
        withdraw_unused_collateral(&mut storage, &user, 1, 48),
        Err(ContractError::InsufficientCollateral)
    );
}

#[test]
fn test_withdraw_fee_holds_in_contract_when_no_treasury() {
    let user = Address::account(1);
    let (mut storage, user, token) = setup(Some(position(user, 0, 0, 100)), Some(1000));
    let receipt = withdraw_unused_collateral(&mut storage, &user, 1, 40).unwrap();
    let updated = storage.get_position(1, &user).unwrap().unwrap();
    assert_eq!(updated.total_deposited, 56);
    assert_eq!(receipt.payout, TokenTransfer { token, to: user, amount: 40 });
    assert_eq!(receipt.quote.fee_amount, 4);
    assert_eq!(receipt.fee_transfer, None);
}

#[test]
fn test_withdraw_fee_routes_to_treasury() {
    let user = Address::account(1);
    let (mut storage, user, token) = setup(Some(position(user, 0, 0, 100)), Some(1000));
    let treasury = Address::contract(50);
    storage.set_treasury(&Some(treasury));
    let receipt = withdraw_unused_collateral(&mut storage, &user, 1, 40).unwrap();
    let updated = storage.get_position(1, &user).unwrap().unwrap();
    assert_eq!(updated.total_deposited, 56);
    assert_eq!(receipt.payout.amount, 40);
    assert_eq!(receipt.fee_transfer, Some(TokenTransfer { token, to: treasury, amount: 4 }));
}

#[test]
fn withdraw_rejects_out_of_range_fee_rate() {
    let user = Address::account(1);
    let (mut storage, user, _) = setup(Some(position(user, 0, 0, 100)), Some(10_001));
    assert_eq!(
        withdraw_unused_collateral(&mut storage, &user, 1, 10),
        Err(ContractError::InvalidPrice)
    );
}

#[test]
fn quote_sets_aside_fee_and_lock() {
    let user = Address::account(1);
    let p = position(user, 0, 50, 100);
    assert_eq!(
        quote_withdrawal(&p, 1000, 48),
        Ok(WithdrawQuote { fee_amount: 4, available: 46 })
    );
    let locked_everything = position(user, 0, 100, 100);
    assert_eq!(
        quote_withdrawal(&locked_everything, 1000, 10),
        Ok(WithdrawQuote { fee_amount: 1, available: 0 })
    );
}

#[test]
fn prop_withdraw_never_exceeds_available() {
    let strategy = (0i128..=10_000_000i128).prop_flat_map(|deposited| {
        (
            0i128..=1_000_000i128,
            0i128..=1_000_000i128,
            0i128..=deposited,
            Just(deposited),
            1i128..=(deposited + 1),
        )
    });
    let mut runner = TestRunner::default();
    runner
        .run(&strategy, |(yes_shares, no_shares, locked, deposited, amount)| {
            let user = Address::account(1);
            let p = Position {
                market_id: 1,
                user,
                yes_shares,
                no_shares,
                locked_collateral: locked,
                total_deposited: deposited,
                is_settled: false,
            };
            let (mut storage, user, _) = setup(Some(p), None);
            let available = if deposited > locked { deposited - locked } else { 0 };
            let result = withdraw_unused_collateral(&mut storage, &user, 1, amount);
            if amount > available && result.is_ok() {
                return Err(TestCaseError::fail(format!(
                    "expected error: amount={amount} > available={available}"
                )));
            }
            Ok(())
        })
        .unwrap();
}

#[test]
fn prop_successful_withdraw_decrements_deposited() {
    let strategy = (1i128..=10_000_000i128, 1i128..=10_000_000i128)
        .prop_filter("amount within deposit", |(deposited, amount)| amount <= deposited);
    let mut runner = TestRunner::default();
    runner
        .run(&strategy, |(deposited, amount)| {
            let user = Address::account(1);
            let (mut storage, user, _) = setup(Some(position(user, 0, 0, deposited)), None);
            let result = withdraw_unused_collateral(&mut storage, &user, 1, amount);
            if result.is_err() {
                return Err(TestCaseError::fail("withdrawal within the deposit failed"));
            }
            let updated = storage.get_position(1, &user).unwrap().unwrap();
            if updated.total_deposited != deposited - amount {
                return Err(TestCaseError::fail("deposit not decreased by the amount"));
            }
            Ok(())
        })
        .unwrap();
}
