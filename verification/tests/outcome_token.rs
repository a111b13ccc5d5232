use vatix::address::Address;
use vatix::outcome_token::types::TokenKind;
use vatix::outcome_token::{ContractError, OutcomeTokenContract};

fn setup() -> (OutcomeTokenContract, Address, Address) {
    let mut client = OutcomeTokenContract::new();
    let admin = Address::account(1);
    let market_contract = Address::contract(2);
    client.initialize(admin, market_contract).unwrap();
    (client, admin, market_contract)
}

#[test]
fn initialize_stores_config() {
    let (client, admin, market_contract) = setup();
    let config = client.get_config();
    assert_eq!(config.admin, admin);
    assert_eq!(config.market_contract, market_contract);
}

#[test]
fn initialize_twice_is_rejected() {
    let (mut client, admin, market_contract) = setup();
    assert_eq!(client.initialize(admin, market_contract), Err(ContractError::AlreadyInitialized));
}

#[test]
fn mint_increases_balance_and_supply() {
    let (mut client, _admin, _market) = setup();
    let user = Address::account(5);
    client.mint(1, user, TokenKind::Yes, 500).unwrap();
    assert_eq!(client.balance(1, user, TokenKind::Yes), 500);
    assert_eq!(client.total_supply(1, TokenKind::Yes), 500);
    assert_eq!(client.balance(1, user, TokenKind::No), 0);
}

#[test]
fn mint_accumulates_across_calls() {
    let (mut client, _admin, _market) = setup();
    let user = Address::account(5);
    client.mint(1, user, TokenKind::No, 200).unwrap();
    client.mint(1, user, TokenKind::No, 300).unwrap();
    assert_eq!(client.balance(1, user, TokenKind::No), 500);
    assert_eq!(client.total_supply(1, TokenKind::No), 500);
}

#[test]
fn mint_zero_amount_is_rejected() {
    let (mut client, _admin, _market) = setup();
    let user = Address::account(5);
    assert_eq!(client.mint(1, user, TokenKind::Yes, 0), Err(ContractError::InvalidAmount));
}

#[test]
fn mint_yes_and_no_are_independent() {
    let (mut client, _admin, _market) = setup();
    let user = Address::account(5);
    client.mint(1, user, TokenKind::Yes, 100).unwrap();
    client.mint(1, user, TokenKind::No, 200).unwrap();
    assert_eq!(client.balance(1, user, TokenKind::Yes), 100);
    assert_eq!(client.balance(1, user, TokenKind::No), 200);
    assert_eq!(client.total_supply(1, TokenKind::Yes), 100);
    assert_eq!(client.total_supply(1, TokenKind::No), 200);
}

#[test]
fn burn_decreases_balance_and_supply() {
    let (mut client, _admin, _market) = setup();
    let user = Address::account(5);
    client.mint(1, user, TokenKind::Yes, 1000).unwrap();
    client.burn(1, user, TokenKind::Yes, 400).unwrap();
    assert_eq!(client.balance(1, user, TokenKind::Yes), 600);
    assert_eq!(client.total_supply(1, TokenKind::Yes), 600);
}

#[test]
fn burn_insufficient_balance_is_rejected() {
    let (mut client, _admin, _market) = setup();
    let user = Address::account(5);
    client.mint(1, user, TokenKind::No, 100).unwrap();
    assert_eq!(client.burn(1, user, TokenKind::No, 101), Err(ContractError::InsufficientBalance));
}

#[test]
fn burn_zero_amount_is_rejected() {
    let (mut client, _admin, _market) = setup();
    let user = Address::account(5);
    assert_eq!(client.burn(1, user, TokenKind::Yes, 0), Err(ContractError::InvalidAmount));
}

#[test]
fn burn_full_balance_brings_to_zero() {
    let (mut client, _admin, _market) = setup();
    let user = Address::account(5);
    client.mint(2, user, TokenKind::Yes, 300).unwrap();
    client.burn(2, user, TokenKind::Yes, 300).unwrap();
    assert_eq!(client.balance(2, user, TokenKind::Yes), 0);
    assert_eq!(client.total_supply(2, TokenKind::Yes), 0);
}

#[test]
fn balances_are_isolated_across_markets() {
    let (mut client, _admin, _market) = setup();
    let user = Address::account(5);
    client.mint(1, user, TokenKind::Yes, 100).unwrap();
    client.mint(2, user, TokenKind::Yes, 200).unwrap();
    assert_eq!(client.balance(1, user, TokenKind::Yes), 100);
    assert_eq!(client.balance(2, user, TokenKind::Yes), 200);
    assert_eq!(client.total_supply(1, TokenKind::Yes), 100);
    assert_eq!(client.total_supply(2, TokenKind::Yes), 200);
}

#[test]
fn admin_can_update_market_contract() {
    let (mut client, admin, _old_market) = setup();
    let new_market = Address::contract(9);
    client.set_market_contract(admin, new_market).unwrap();
    assert_eq!(client.get_config().market_contract, new_market);
}

#[test]
fn non_admin_cannot_update_market_contract() {
    let (mut client, _admin, _market) = setup();
    let stranger = Address::account(8);
    let new_market = Address::contract(9);
    assert_eq!(client.set_market_contract(stranger, new_market), Err(ContractError::Unauthorized));
}

#[test]
fn decimals_returns_seven() {
    let (client, _, _) = setup();
    assert_eq!(client.decimals(), 7u32);
}

#[test]
fn supply_is_the_sum_over_holders() {
    let (mut client, _admin, _market) = setup();
    let alice = Address::account(5);
    let bob = Address::account(6);
    client.mint(3, alice, TokenKind::Yes, 100).unwrap();
    client.mint(3, bob, TokenKind::Yes, 250).unwrap();
    client.burn(3, alice, TokenKind::Yes, 40).unwrap();
    assert_eq!(
        client.total_supply(3, TokenKind::Yes),
        client.balance(3, alice, TokenKind::Yes) + client.balance(3, bob, TokenKind::Yes)
    );
    assert_eq!(client.total_supply(3, TokenKind::Yes), 310);
}

#[test]
fn mint_overflow_is_rejected_and_changes_nothing() {
    let (mut client, _admin, _market) = setup();
    let alice = Address::account(5);
    let bob = Address::account(6);
    client.mint(4, alice, TokenKind::No, i128::MAX - 1).unwrap();
    assert_eq!(client.mint(4, bob, TokenKind::No, 2), Err(ContractError::Overflow));
    assert_eq!(client.balance(4, bob, TokenKind::No), 0);
    assert_eq!(client.mint(4, alice, TokenKind::No, 2), Err(ContractError::Overflow));
    assert_eq!(client.total_supply(4, TokenKind::No), i128::MAX - 1);
}

#[test]
fn burning_what_was_minted_restores_balances() {
    let (mut client, _admin, _market) = setup();
    let user = Address::account(5);
    client.mint(1, user, TokenKind::Yes, 70).unwrap();
    client.burn(1, user, TokenKind::Yes, 70).unwrap();
    assert_eq!(client.balance(1, user, TokenKind::Yes), 0);
    assert_eq!(client.total_supply(1, TokenKind::Yes), 0);
}
