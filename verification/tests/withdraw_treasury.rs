//! The withdrawal fee path through a registered treasury, with the host's
//! part (token balances, the `collect_fee` call) played by the test.

use std::collections::HashMap;

use vatix::address::Address;
use vatix::market::storage::MarketStorage;
use vatix::market::types::{AdapterType, Market, MarketStatus, Position, TokenTransfer};
use vatix::market::withdraw::withdraw_unused_collateral;
use vatix::treasury::{TreasuryContract, TreasuryError};

const STROOPS_PER_USDC: i128 = 10_000_000;

struct Host {
    market_addr: Address,
    treasury_addr: Address,
    admin: Address,
    token: Address,
    storage: MarketStorage,
    treasury: TreasuryContract,
    balances: HashMap<(Address, Address), i128>,
}

impl Host {
    fn new(fee_bps: Option<i128>, with_treasury: bool) -> Host {
        let admin = Address::account(1);
        let market_addr = Address::contract(2);
        let treasury_addr = Address::contract(3);
        let token = Address::contract(4);
        let mut storage = MarketStorage::new();
        storage.set_admin(&admin);
        storage.set_version();
        if let Some(f) = fee_bps {
            storage.set_fee_rate_bps(f);
        }
        let mut treasury = TreasuryContract::new();
        treasury.initialize(admin, market_addr).unwrap();
        if with_treasury {
            storage.set_treasury(&Some(treasury_addr));
        }
        let market = Market {
            id: 1,
            question: String::from("Will it rain tomorrow?"),
            end_time: 86_400,
            oracle_pubkey: [1u8; 32],
            status: MarketStatus::Active,
            result: None,
            creator: admin,
            created_at: 0,
            collateral_token: token,
            price_bps: 5_000,
            resolver: None,
            resolved_at: None,
            adapter_type: AdapterType::Ed25519,
        };
        storage.set_market(1, &market).unwrap();
        Host { market_addr, treasury_addr, admin, token, storage, treasury, balances: HashMap::new() }
    }

    fn balance(&self, holder: Address) -> i128 {
        *self.balances.get(&(self.token, holder)).unwrap_or(&0)
    }

    fn pay(&mut self, from: Address, t: TokenTransfer) {
        *self.balances.entry((t.token, from)).or_insert(0) -= t.amount;
        *self.balances.entry((t.token, t.to)).or_insert(0) += t.amount;
    }

    fn deposit(&mut self, user: Address, amount: i128) {
        let position = Position {
            market_id: 1,
            user,
            yes_shares: 0,
            no_shares: 0,
            locked_collateral: 0,
            total_deposited: amount,
            is_settled: false,
        };
        self.storage.set_position(1, &user, &position).unwrap();
        *self.balances.entry((self.token, self.market_addr)).or_insert(0) += amount;
    }

    fn withdraw(&mut self, user: Address, amount: i128) {
        let receipt = withdraw_unused_collateral(&mut self.storage, &user, 1, amount).unwrap();
        if let Some(fee) = receipt.fee_transfer {
            self.pay(self.market_addr, fee);
            self.treasury
                .collect_fee(self.market_addr, fee.token, 1, fee.amount)
                .unwrap();
        }
        self.pay(self.market_addr, receipt.payout);
    }

    fn withdraw_fees(&mut self, caller: Address, to: Address, amount: i128) -> Result<(), TreasuryError> {
        self.treasury.withdraw_fees(caller, self.token, to, amount)?;
        let t = TokenTransfer { token: self.token, to, amount };
        self.pay(self.treasury_addr, t);
        Ok(())
    }
}

fn fee_for(amount: i128, bps: i128) -> i128 {
    amount * bps / 10_000
}

#[test]
fn withdraw_routes_half_percent_fee_to_treasury() {
    let mut host = Host::new(Some(50), true);
    let user = Address::account(10);
    host.deposit(user, 100 * STROOPS_PER_USDC);
    let withdraw_amount = 50 * STROOPS_PER_USDC;
    host.withdraw(user, withdraw_amount);
    let expected_fee = fee_for(withdraw_amount, 50);
    assert_eq!(host.balance(user), withdraw_amount, "user receives exactly the requested amount");
    assert_eq!(host.treasury.token_balance(host.token), expected_fee, "treasury holds the 50 bps fee");
    assert_eq!(host.treasury.total_collected(), expected_fee, "cumulative counter updated");
    assert_eq!(host.balance(host.treasury_addr), expected_fee);
}

#[test]
fn multiple_withdrawals_accumulate_fees() {
    let mut host = Host::new(Some(50), true);
    let user = Address::account(10);
    host.deposit(user, 500 * STROOPS_PER_USDC);
    let w1 = 100 * STROOPS_PER_USDC;
    let w2 = 200 * STROOPS_PER_USDC;
    host.withdraw(user, w1);
    host.withdraw(user, w2);
    let total_fee = fee_for(w1, 50) + fee_for(w2, 50);
    assert_eq!(host.treasury.total_collected(), total_fee);
    assert_eq!(host.treasury.token_balance(host.token), total_fee);
}

#[test]
fn withdraw_without_treasury_sends_full_amount_to_user() {
    let mut host = Host::new(None, false);
    let user = Address::account(10);
    let deposit = 50 * STROOPS_PER_USDC;
    host.deposit(user, deposit);
    host.withdraw(user, deposit);
    assert_eq!(host.balance(user), deposit, "no treasury → user receives 100% with no fee deducted");
}

#[test]
fn admin_can_drain_treasury_and_cumulative_stays_unchanged() {
    let mut host = Host::new(Some(50), true);
    let user = Address::account(10);
    host.deposit(user, 200 * STROOPS_PER_USDC);
    let withdraw_amount = 100 * STROOPS_PER_USDC;
    host.withdraw(user, withdraw_amount);
    let collected = fee_for(withdraw_amount, 50);
    let fee_recipient = Address::account(20);
    let admin = host.admin;
    host.withdraw_fees(admin, fee_recipient, collected).unwrap();
    assert_eq!(host.treasury.token_balance(host.token), 0, "live balance drained after admin withdrawal");
    assert_eq!(host.treasury.total_collected(), collected, "cumulative counter is monotone");
    assert_eq!(host.balance(fee_recipient), collected, "fee recipient holds the withdrawn amount");
}

#[test]
fn non_admin_cannot_withdraw_treasury_fees() {
    let mut host = Host::new(Some(50), true);
    let imposter = Address::account(30);
    assert_eq!(host.withdraw_fees(imposter, imposter, 1), Err(TreasuryError::Unauthorized));
}

#[test]
fn mock_sac_fee_flows_to_treasury() {
    let mut host = Host::new(Some(100), true);
    let user = Address::account(10);
    host.deposit(user, 500 * STROOPS_PER_USDC);
    let withdraw_amount = 200 * STROOPS_PER_USDC;
    host.withdraw(user, withdraw_amount);
    let expected_fee = fee_for(withdraw_amount, 100);
    assert_eq!(host.balance(user), withdraw_amount, "user gets exactly the withdrawal amount");
    assert_eq!(host.treasury.token_balance(host.token), expected_fee);
    assert_eq!(host.treasury.total_collected(), expected_fee);
}

#[test]
fn mock_sac_multiple_withdrawals_accumulate() {
    let mut host = Host::new(Some(100), true);
    let user = Address::account(10);
    host.deposit(user, 1000 * STROOPS_PER_USDC);
    let w1 = 100 * STROOPS_PER_USDC;
    let w2 = 300 * STROOPS_PER_USDC;
    let w3 = 200 * STROOPS_PER_USDC;
    host.withdraw(user, w1);
    host.withdraw(user, w2);
    host.withdraw(user, w3);
    let total_fee = fee_for(w1, 100) + fee_for(w2, 100) + fee_for(w3, 100);
    assert_eq!(host.treasury.token_balance(host.token), total_fee);
    assert_eq!(host.treasury.total_collected(), total_fee);
}

#[test]
fn admin_withdraws_mock_sac_fees() {
    let mut host = Host::new(Some(100), true);
    let user = Address::account(10);
    host.deposit(user, 200 * STROOPS_PER_USDC);
    let withdraw_amount = 100 * STROOPS_PER_USDC;
    host.withdraw(user, withdraw_amount);
    let collected = fee_for(withdraw_amount, 100);
    let fee_recipient = Address::account(20);
    let admin = host.admin;
    host.withdraw_fees(admin, fee_recipient, collected).unwrap();
    assert_eq!(host.treasury.token_balance(host.token), 0);
    assert_eq!(host.balance(fee_recipient), collected);
    assert_eq!(host.treasury.total_collected(), collected);
}

#[test]
fn zero_fee_rate_no_sac_fee_deducted() {
    let mut host = Host::new(None, false);
    let user = Address::account(10);
    host.deposit(user, 100 * STROOPS_PER_USDC);
    let withdraw_amount = 80 * STROOPS_PER_USDC;
    host.withdraw(user, withdraw_amount);
    assert_eq!(host.balance(user), withdraw_amount, "no fee deducted when fee_rate_bps is 0");
}

#[test]
fn market_contract_keeps_the_fee_without_a_treasury() {
    let mut host = Host::new(Some(100), false);
    let user = Address::account(10);
    let deposit = 100 * STROOPS_PER_USDC;
    host.deposit(user, deposit);
    let withdraw_amount = 50 * STROOPS_PER_USDC;
    host.withdraw(user, withdraw_amount);
    assert_eq!(host.balance(user), withdraw_amount);
    assert_eq!(host.balance(host.market_addr), deposit - withdraw_amount);
    assert_eq!(host.treasury.token_balance(host.token), 0);
    let position = host.storage.get_position(1, &user).unwrap().unwrap();
    assert_eq!(position.total_deposited, deposit - withdraw_amount - fee_for(withdraw_amount, 100));
}
