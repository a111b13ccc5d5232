//! Outcome tokens: fungible YES/NO share tokens of each market.
//!
//! Only the registered market contract may mint and burn; the host checks
//! its authorization before calling [`OutcomeTokenContract::mint`] or
//! [`OutcomeTokenContract::burn`]. The supply of each (market, side) pair is
//! always the sum of the balances of all holders on that side of that market.

pub mod error;
pub mod types;

use vstd::prelude::*;

use crate::address::Address;
use crate::table::{
    lemma_insert_all_unique,
    lemma_sum_bounds,
    lemma_sum_prefix_le,
    lemma_sum_push,
    lemma_sum_take,
    lemma_sum_update,
    lemma_sum_zero,
    map_amount,
    seq_has_key,
    seq_insert_all,
    seq_key_index,
    seq_keys_unique,
    seq_sum_where,
    seq_to_map,
    Table,
};
pub use error::ContractError;
use types::{BalanceKey, OutcomeTokenConfig, SupplyKey, TokenKind};

verus! {

/// The number of decimal places of every outcome token: 7, as for Stellar
/// asset contracts (1 token = 10_000_000 stroops).
pub const DECIMALS: u32 = 7;

/// The abstract state of the outcome-token contract.
pub struct OutcomeTokenView {
    pub config: Option<OutcomeTokenConfig>,
    pub balances: Map<BalanceKey, i128>,
    pub supplies: Map<SupplyKey, i128>,
}

impl OutcomeTokenView {
    /// The balance of `user` on side `kind` of market `market_id`.
    pub open spec fn balance_of(self, market_id: u32, user: Address, kind: TokenKind) -> int {
        map_amount(self.balances, BalanceKey { market_id, user, kind })
    }

    /// The outstanding supply of side `kind` of market `market_id`.
    pub open spec fn supply_of(self, market_id: u32, kind: TokenKind) -> int {
        map_amount(self.supplies, SupplyKey { market_id, kind })
    }
}

/// The balance keys counted in the supply `sk`: same market, same side.
pub open spec fn on_side(sk: SupplyKey) -> spec_fn(BalanceKey) -> bool {
    |bk: BalanceKey| bk.market_id == sk.market_id && bk.kind == sk.kind
}

/// The outcome of `mint` on `v`: which error, if any.
pub open spec fn mint_check(
    v: OutcomeTokenView,
    market_id: u32,
    user: Address,
    kind: TokenKind,
    amount: i128,
) -> Result<(), ContractError> {
    if amount <= 0 {
        Err(ContractError::InvalidAmount)
    } else if v.balance_of(market_id, user, kind) + amount > i128::MAX {
        Err(ContractError::Overflow)
    } else if v.supply_of(market_id, kind) + amount > i128::MAX {
        Err(ContractError::Overflow)
    } else {
        Ok(())
    }
}

/// The state after `amount` tokens of `kind` are minted for `user` in `market_id`.
pub open spec fn after_mint(
    v: OutcomeTokenView,
    market_id: u32,
    user: Address,
    kind: TokenKind,
    amount: i128,
) -> OutcomeTokenView {
    OutcomeTokenView {
        balances: v.balances.insert(
            BalanceKey { market_id, user, kind },
            (v.balance_of(market_id, user, kind) + amount) as i128,
        ),
        supplies: v.supplies.insert(
            SupplyKey { market_id, kind },
            (v.supply_of(market_id, kind) + amount) as i128,
        ),
        ..v
    }
}

/// The outcome of `burn` on `v`: which error, if any.
pub open spec fn burn_check(
    v: OutcomeTokenView,
    market_id: u32,
    user: Address,
    kind: TokenKind,
    amount: i128,
) -> Result<(), ContractError> {
    if amount <= 0 {
        Err(ContractError::InvalidAmount)
    } else if v.balance_of(market_id, user, kind) < amount {
        Err(ContractError::InsufficientBalance)
    } else {
        Ok(())
    }
}

/// The state after `amount` tokens of `kind` are burned from `user` in `market_id`.
pub open spec fn after_burn(
    v: OutcomeTokenView,
    market_id: u32,
    user: Address,
    kind: TokenKind,
    amount: i128,
) -> OutcomeTokenView {
    OutcomeTokenView {
        balances: v.balances.insert(
            BalanceKey { market_id, user, kind },
            (v.balance_of(market_id, user, kind) - amount) as i128,
        ),
        supplies: v.supplies.insert(
            SupplyKey { market_id, kind },
            (v.supply_of(market_id, kind) - amount) as i128,
        ),
        ..v
    }
}

/// The contract's storage in a form that can be saved and loaded.
pub struct OutcomeTokenSnapshot {
    pub config: Option<OutcomeTokenConfig>,
    pub balances: Vec<(BalanceKey, i128)>,
    pub supplies: Vec<(SupplyKey, i128)>,
}

/// The state that a snapshot describes (a later entry for a key overrides
/// an earlier one).
pub open spec fn token_snapshot_view(s: OutcomeTokenSnapshot) -> OutcomeTokenView {
    OutcomeTokenView {
        config: s.config,
        balances: seq_insert_all(s.balances@),
        supplies: seq_insert_all(s.supplies@),
    }
}

/// Whether a snapshot's balances are non-negative and each supply is the
/// sum of the balances listed on its market and side.
pub open spec fn holdings_consistent(s: OutcomeTokenSnapshot) -> bool {
    &&& forall|i: int| 0 <= i < s.balances@.len() ==> #[trigger] s.balances@[i].1 >= 0
    &&& forall|sk: SupplyKey| #[trigger]
        map_amount(seq_insert_all(s.supplies@), sk) == seq_sum_where(s.balances@, on_side(sk))
}

/// The outcome-token contract's state and entry points.
pub struct OutcomeTokenContract {
    config: Option<OutcomeTokenConfig>,
    balances: Table<BalanceKey, i128>,
    supplies: Table<SupplyKey, i128>,
}

impl View for OutcomeTokenContract {
    type V = OutcomeTokenView;

    closed spec fn view(&self) -> OutcomeTokenView {
        OutcomeTokenView {
            config: self.config,
            balances: self.balances.view(),
            supplies: self.supplies.view(),
        }
    }
}

impl OutcomeTokenContract {
    /// The stored balances, one entry per holder, market and side.
    pub closed spec fn balance_entries(&self) -> Seq<(BalanceKey, i128)> {
        self.balances.entries()
    }

    /// The contract's invariant: balances are non-negative, and every supply
    /// is the sum of the balances on its market and side.
    pub closed spec fn inv(&self) -> bool {
        &&& self.balances.wf()
        &&& self.supplies.wf()
        &&& forall|i: int|
            0 <= i < self.balances.entries().len() ==> #[trigger] self.balances.entries()[i].1 >= 0
        &&& forall|sk: SupplyKey| #[trigger]
            map_amount(self.supplies.view(), sk) == seq_sum_where(
                self.balances.entries(),
                on_side(sk),
            )
    }

    /// Every supply is the sum of the balances of all holders on its market
    /// and side: the balance entries denote exactly the balances, one entry
    /// per key, and each amount is non-negative.
    pub proof fn lemma_supply_is_sum_of_balances(&self)
        requires
            self.inv(),
        ensures
            seq_keys_unique(self.balance_entries()),
            self@.balances == seq_to_map(self.balance_entries()),
            forall|market_id: u32, kind: TokenKind| #[trigger]
                self@.supply_of(market_id, kind) == seq_sum_where(
                    self.balance_entries(),
                    on_side(SupplyKey { market_id, kind }),
                ),
            forall|market_id: u32, user: Address, kind: TokenKind| #[trigger]
                self@.balance_of(market_id, user, kind) >= 0,
    {
        self.balances.lemma_view();
        assert forall|market_id: u32, user: Address, kind: TokenKind| #[trigger]
            self@.balance_of(market_id, user, kind) >= 0 by {
            let bk = BalanceKey { market_id, user, kind };
            if self@.balances.contains_key(bk) {
                let i = seq_key_index(self.balances.entries(), bk);
                assert(self.balances.entries()[i].1 >= 0);
            }
        }
        assert forall|market_id: u32, kind: TokenKind| #[trigger]
            self@.supply_of(market_id, kind) == seq_sum_where(
                self.balance_entries(),
                on_side(SupplyKey { market_id, kind }),
            ) by {
            assert(map_amount(self.supplies.view(), SupplyKey { market_id, kind }) == seq_sum_where(
                self.balances.entries(),
                on_side(SupplyKey { market_id, kind }),
            ));
        }
    }

    /// Whether the balances are non-negative and every supply is the sum of
    /// the balances on its market and side.
    fn check_holdings(&self) -> (r: bool)
        requires
            self.balances.wf(),
            self.supplies.wf(),
        ensures
            r == self.inv(),
    {
        let ghost entries = self.balances.entries();
        proof {
            self.balances.lemma_entries();
            self.supplies.lemma_entries();
        }
        let n = self.balances.len();
        let mut i: usize = 0;
        while i < n
            invariant
                self.balances.wf(),
                entries == self.balances.entries(),
                n == entries.len(),
                i <= n,
                forall|j: int| 0 <= j < i ==> #[trigger] entries[j].1 >= 0,
            decreases n - i,
        {
            let (_, b) = *self.balances.entry(i);
            if b < 0 {
                return false;
            }
            i = i + 1;
        }
        let mut i: usize = 0;
        while i < n
            invariant
                self.balances.wf(),
                self.supplies.wf(),
                entries == self.balances.entries(),
                n == entries.len(),
                i <= n,
                forall|j: int| 0 <= j < n ==> #[trigger] entries[j].1 >= 0,
                forall|j: int|
                    0 <= j < i && #[trigger] entries[j].1 > 0 ==> self.supplies.view().contains_key(
                        SupplyKey { market_id: entries[j].0.market_id, kind: entries[j].0.kind },
                    ),
            decreases n - i,
        {
            let (bk, b) = *self.balances.entry(i);
            if b > 0 && !self.supplies.contains_key(&SupplyKey { market_id: bk.market_id, kind: bk.kind }) {
                proof {
                    let sk = SupplyKey { market_id: bk.market_id, kind: bk.kind };
                    lemma_sum_bounds(entries, on_side(sk));
                    assert(on_side(sk)(entries[i as int].0));
                    assert(map_amount(self.supplies.view(), sk) != seq_sum_where(entries, on_side(sk)));
                }
                return false;
            }
            i = i + 1;
        }
        let m = self.supplies.len();
        let mut k: usize = 0;
        while k < m
            invariant
                self.balances.wf(),
                self.supplies.wf(),
                entries == self.balances.entries(),
                n == entries.len(),
                m == self.supplies.entries().len(),
                k <= m,
                forall|j: int| 0 <= j < n ==> #[trigger] entries[j].1 >= 0,
                forall|j: int|
                    0 <= j < k ==> #[trigger] map_amount(
                        self.supplies.view(),
                        self.supplies.entries()[j].0,
                    ) == seq_sum_where(entries, on_side(self.supplies.entries()[j].0)),
            decreases m - k,
        {
            let (sk, supply) = *self.supplies.entry(k);
            proof {
                self.supplies.lemma_entries();
                assert(self.supplies.entries()[k as int] == (sk, supply));
                assert(self.supplies.view().contains_key(self.supplies.entries()[k as int].0));
                assert(map_amount(self.supplies.view(), sk) == supply);
            }
            let mut sum: i128 = 0;
            let mut j: usize = 0;
            while j < n
                invariant
                    self.balances.wf(),
                    entries == self.balances.entries(),
                    n == entries.len(),
                    j <= n,
                    forall|l: int| 0 <= l < n ==> #[trigger] entries[l].1 >= 0,
                    sum == seq_sum_where(entries.take(j as int), on_side(sk)),
                    map_amount(self.supplies.view(), sk) == supply,
                decreases n - j,
            {
                let (bk, b) = *self.balances.entry(j);
                proof {
                    lemma_sum_take(entries, j as int, on_side(sk));
                }
                if bk.market_id == sk.market_id && bk.kind == sk.kind {
                    sum = match sum.checked_add(b) {
                        Some(t) => t,
                        None => {
                            proof {
                                lemma_sum_prefix_le(entries, j + 1, on_side(sk));
                            }
                            return false;
                        },
                    };
                }
                j = j + 1;
            }
            proof {
                assert(entries.take(n as int) =~= entries);
            }
            if sum != supply {
                return false;
            }
            k = k + 1;
        }
        proof {
            assert forall|sk: SupplyKey| #[trigger]
                map_amount(self.supplies.view(), sk) == seq_sum_where(entries, on_side(sk)) by {
                if self.supplies.view().contains_key(sk) {
                    let j = choose|j: int|
                        0 <= j < self.supplies.entries().len() && #[trigger] self.supplies.entries()[j].0
                            == sk;
                } else {
                    assert forall|l: int| 0 <= l < n && on_side(sk)(#[trigger] entries[l].0) implies entries[l].1
                        == 0 by {
                        if entries[l].1 > 0 {
                            assert(self.supplies.view().contains_key(
                                SupplyKey { market_id: entries[l].0.market_id, kind: entries[l].0.kind },
                            ));
                            assert(SupplyKey { market_id: entries[l].0.market_id, kind: entries[l].0.kind }
                                == sk);
                        }
                    }
                    lemma_sum_zero(entries, on_side(sk));
                }
            }
        }
        true
    }

    /// A snapshot of the contract's storage, to be saved by the host.
    pub fn snapshot(&self) -> (r: OutcomeTokenSnapshot)
        requires
            self.inv(),
        ensures
            token_snapshot_view(r) == self@,
            seq_keys_unique(r.balances@),
            seq_keys_unique(r.supplies@),
            holdings_consistent(r),
    {
        let r = OutcomeTokenSnapshot {
            config: self.config,
            balances: self.balances.to_vec(),
            supplies: self.supplies.to_vec(),
        };
        proof {
            self.balances.lemma_view();
            self.supplies.lemma_view();
            lemma_insert_all_unique(self.balances.entries());
            lemma_insert_all_unique(self.supplies.entries());
        }
        r
    }

    /// The contract whose storage `snapshot` describes, provided its
    /// balances are non-negative and each supply is the sum of the balances
    /// on its market and side; `None` otherwise. A snapshot with repeated
    /// keys is judged on the storage it describes.
    pub fn restore(snapshot: OutcomeTokenSnapshot) -> (r: Option<Self>)
        ensures
            r matches Some(c) ==> c.inv() && c@ == token_snapshot_view(snapshot),
            seq_keys_unique(snapshot.balances@) && seq_keys_unique(snapshot.supplies@) ==> (r is Some
                <==> holdings_consistent(snapshot)),
    {
        let ghost s = snapshot;
        let c = OutcomeTokenContract {
            config: snapshot.config,
            balances: Table::from_vec(snapshot.balances),
            supplies: Table::from_vec(snapshot.supplies),
        };
        proof {
            if seq_keys_unique(s.balances@) && seq_keys_unique(s.supplies@) {
                c.supplies.lemma_view();
                lemma_insert_all_unique(s.supplies@);
            }
        }
        if c.check_holdings() {
            Some(c)
        } else {
            None
        }
    }

    /// A freshly deployed contract: unconfigured, no tokens.
    pub fn new() -> (c: Self)
        ensures
            c.inv(),
            c@.config is None,
            c@.balances == Map::<BalanceKey, i128>::empty(),
            c@.supplies == Map::<SupplyKey, i128>::empty(),
    {
        let c = OutcomeTokenContract { config: None, balances: Table::new(), supplies: Table::new() };
        assert forall|sk: SupplyKey| #[trigger]
            map_amount(c.supplies.view(), sk) == seq_sum_where(c.balances.entries(), on_side(sk)) by {}
        c
    }

    /// Registers the admin and the sole market contract allowed to mint and
    /// burn. Fails with `AlreadyInitialized` once configured.
    pub fn initialize(&mut self, admin: Address, market_contract: Address) -> (r: Result<
        (),
        ContractError,
    >)
        requires
            old(self).inv(),
        ensures
            final(self).inv(),
            r is Err <==> old(self)@.config is Some,
            r is Err ==> r == Err::<(), ContractError>(ContractError::AlreadyInitialized),
            r is Err ==> final(self)@ == old(self)@,
            r is Ok ==> final(self)@ == (OutcomeTokenView {
                config: Some(OutcomeTokenConfig { admin, market_contract }),
                ..old(self)@
            }),
    {
        if self.config.is_some() {
            return Err(ContractError::AlreadyInitialized);
        }
        self.config = Some(OutcomeTokenConfig { admin, market_contract });
        Ok(())
    }

    /// The configuration. The contract must be initialized.
    pub fn get_config(&self) -> (r: OutcomeTokenConfig)
        requires
            self@.config is Some,
        ensures
            self@.config == Some(r),
    {
        self.config.unwrap()
    }

    /// Replaces the market contract allowed to mint and burn. Only the stored
    /// admin may do so: fails with `Unauthorized` otherwise. The contract
    /// must be initialized.
    pub fn set_market_contract(&mut self, admin: Address, market_contract: Address) -> (r: Result<
        (),
        ContractError,
    >)
        requires
            old(self).inv(),
            old(self)@.config is Some,
        ensures
            final(self).inv(),
            r is Err <==> old(self)@.config.unwrap().admin != admin,
            r is Err ==> r == Err::<(), ContractError>(ContractError::Unauthorized),
            r is Err ==> final(self)@ == old(self)@,
            r is Ok ==> final(self)@ == (OutcomeTokenView {
                config: Some(OutcomeTokenConfig { admin, market_contract }),
                ..old(self)@
            }),
    {
        let config = self.config.unwrap();
        if admin != config.admin {
            return Err(ContractError::Unauthorized);
        }
        self.config = Some(OutcomeTokenConfig { admin: config.admin, market_contract });
        Ok(())
    }

    fn stored_balance(&self, key: &BalanceKey) -> (r: i128)
        requires
            self.balances.wf(),
        ensures
            r == map_amount(self.balances.view(), *key),
    {
        match self.balances.get(key) {
            Some(v) => *v,
            None => 0,
        }
    }

    fn stored_supply(&self, key: &SupplyKey) -> (r: i128)
        requires
            self.supplies.wf(),
        ensures
            r == map_amount(self.supplies.view(), *key),
    {
        match self.supplies.get(key) {
            Some(v) => *v,
            None => 0,
        }
    }

    /// Stores `new_balance` for `bk` and `new_supply` for the supply of its
    /// market and side, where both change by the same `delta`.
    fn store_change(
        &mut self,
        bk: BalanceKey,
        new_balance: i128,
        new_supply: i128,
        Ghost(delta): Ghost<int>,
    )
        requires
            old(self).inv(),
            new_balance >= 0,
            new_balance == map_amount(old(self).balances.view(), bk) + delta,
            new_supply == map_amount(
                old(self).supplies.view(),
                SupplyKey { market_id: bk.market_id, kind: bk.kind },
            ) + delta,
        ensures
            final(self).inv(),
            final(self).config == old(self).config,
            final(self).balances.view() == old(self).balances.view().insert(bk, new_balance),
            final(self).supplies.view() == old(self).supplies.view().insert(
                SupplyKey { market_id: bk.market_id, kind: bk.kind },
                new_supply,
            ),
    {
        let sk = SupplyKey { market_id: bk.market_id, kind: bk.kind };
        let ghost old_entries = self.balances.entries();
        proof {
            self.balances.lemma_view();
        }
        self.balances.insert(bk, new_balance);
        self.supplies.insert(sk, new_supply);
        proof {
            let new_entries = self.balances.entries();
            if seq_has_key(old_entries, bk) {
                let i = seq_key_index(old_entries, bk);
                assert(old_entries[i].0 == bk);
                assert forall|j: int| 0 <= j < new_entries.len() implies #[trigger] new_entries[j].1
                    >= 0 by {
                    if j != i {
                        assert(new_entries[j] == old_entries[j]);
                    }
                }
                assert forall|sk2: SupplyKey| #[trigger]
                    map_amount(self.supplies.view(), sk2) == seq_sum_where(
                        new_entries,
                        on_side(sk2),
                    ) by {
                    lemma_sum_update(old_entries, i, new_balance, on_side(sk2));
                    assert(map_amount(old(self).supplies.view(), sk2) == seq_sum_where(
                        old_entries,
                        on_side(sk2),
                    ));
                }
            } else {
                assert forall|j: int| 0 <= j < new_entries.len() implies #[trigger] new_entries[j].1
                    >= 0 by {
                    if j < old_entries.len() {
                        assert(new_entries[j] == old_entries[j]);
                    }
                }
                assert forall|sk2: SupplyKey| #[trigger]
                    map_amount(self.supplies.view(), sk2) == seq_sum_where(
                        new_entries,
                        on_side(sk2),
                    ) by {
                    lemma_sum_push(old_entries, (bk, new_balance), on_side(sk2));
                    assert(map_amount(old(self).supplies.view(), sk2) == seq_sum_where(
                        old_entries,
                        on_side(sk2),
                    ));
                }
            }
        }
    }

    /// Mints `amount` tokens of `kind` for `user` in `market_id`.
    ///
    /// Fails with `InvalidAmount` when `amount` is not positive, and with
    /// `Overflow` when the balance or the supply would exceed the largest
    /// `i128`; then nothing changes. On success the balance and the supply
    /// each grow by `amount`. The contract must be initialized unless the
    /// amount is rejected first.
    pub fn mint(&mut self, market_id: u32, user: Address, kind: TokenKind, amount: i128) -> (r:
        Result<(), ContractError>)
        requires
            old(self).inv(),
            amount <= 0 || old(self)@.config is Some,
        ensures
            final(self).inv(),
            r == mint_check(old(self)@, market_id, user, kind, amount),
            r is Err ==> final(self)@ == old(self)@,
            r is Ok ==> final(self)@ == after_mint(old(self)@, market_id, user, kind, amount),
    {
        if amount <= 0 {
            return Err(ContractError::InvalidAmount);
        }
        let bk = BalanceKey { market_id, user, kind };
        let sk = SupplyKey { market_id, kind };
        let balance = self.stored_balance(&bk);
        let new_balance = match balance.checked_add(amount) {
            Some(b) => b,
            None => {
                return Err(ContractError::Overflow);
            },
        };
        let supply = self.stored_supply(&sk);
        // A supply overflow rejects the whole call, so nothing is stored
        // before both sums are known.
        let new_supply = match supply.checked_add(amount) {
            Some(s) => s,
            None => {
                return Err(ContractError::Overflow);
            },
        };
        proof {
            self.balances.lemma_view();
            if self.balances.view().contains_key(bk) {
                let i = seq_key_index(self.balances.entries(), bk);
                assert(self.balances.entries()[i].1 >= 0);
            }
        }
        self.store_change(bk, new_balance, new_supply, Ghost(amount as int));
        Ok(())
    }

    /// Burns `amount` tokens of `kind` from `user` in `market_id`.
    ///
    /// Fails with `InvalidAmount` when `amount` is not positive, and with
    /// `InsufficientBalance` when the user holds fewer than `amount`; then
    /// nothing changes. On success the balance and the supply each shrink by
    /// `amount`. The contract must be initialized unless the amount is
    /// rejected first.
    pub fn burn(&mut self, market_id: u32, user: Address, kind: TokenKind, amount: i128) -> (r:
        Result<(), ContractError>)
        requires
            old(self).inv(),
            amount <= 0 || old(self)@.config is Some,
        ensures
            final(self).inv(),
            r == burn_check(old(self)@, market_id, user, kind, amount),
            r is Err ==> final(self)@ == old(self)@,
            r is Ok ==> final(self)@ == after_burn(old(self)@, market_id, user, kind, amount),
    {
        if amount <= 0 {
            return Err(ContractError::InvalidAmount);
        }
        let bk = BalanceKey { market_id, user, kind };
        let sk = SupplyKey { market_id, kind };
        let balance = self.stored_balance(&bk);
        if balance < amount {
            return Err(ContractError::InsufficientBalance);
        }
        let new_balance = balance - amount;
        let supply = self.stored_supply(&sk);
        proof {
            self.balances.lemma_view();
            let entries = self.balances.entries();
            lemma_sum_bounds(entries, on_side(sk));
            assert(map_amount(self.supplies.view(), sk) == seq_sum_where(entries, on_side(sk)));
            if self.balances.view().contains_key(bk) {
                let i = seq_key_index(entries, bk);
                assert(entries[i].0 == bk);
                assert(on_side(sk)(entries[i].0));
            }
        }
        let new_supply = supply - amount;
        self.store_change(bk, new_balance, new_supply, Ghost(-(amount as int)));
        Ok(())
    }

    /// The balance of `user` on side `kind` of `market_id`.
    pub fn balance(&self, market_id: u32, user: Address, kind: TokenKind) -> (r: i128)
        requires
            self.inv(),
        ensures
            r == self@.balance_of(market_id, user, kind),
    {
        self.stored_balance(&BalanceKey { market_id, user, kind })
    }

    /// The outstanding supply of side `kind` of `market_id`.
    pub fn total_supply(&self, market_id: u32, kind: TokenKind) -> (r: i128)
        requires
            self.inv(),
        ensures
            r == self@.supply_of(market_id, kind),
    {
        self.stored_supply(&SupplyKey { market_id, kind })
    }

    /// The number of decimal places of the tokens.
    pub fn decimals(&self) -> (r: u32)
        ensures
            r == DECIMALS,
    {
        DECIMALS
    }
}

/// Burning what was just minted restores every balance and every supply.
pub proof fn lemma_burn_undoes_mint(
    v: OutcomeTokenView,
    market_id: u32,
    user: Address,
    kind: TokenKind,
    amount: i128,
)
    requires
        v.balance_of(market_id, user, kind) >= 0,
        mint_check(v, market_id, user, kind, amount) is Ok,
    ensures
        burn_check(after_mint(v, market_id, user, kind, amount), market_id, user, kind, amount) is Ok,
        ({
            let w = after_burn(
                after_mint(v, market_id, user, kind, amount),
                market_id,
                user,
                kind,
                amount,
            );
            &&& forall|m: u32, u: Address, k: TokenKind| #[trigger]
                w.balance_of(m, u, k) == v.balance_of(m, u, k)
            &&& forall|m: u32, k: TokenKind| #[trigger] w.supply_of(m, k) == v.supply_of(m, k)
            &&& w.config == v.config
        }),
{
    let w = after_burn(after_mint(v, market_id, user, kind, amount), market_id, user, kind, amount);
    assert forall|m: u32, u: Address, k: TokenKind| #[trigger]
        w.balance_of(m, u, k) == v.balance_of(m, u, k) by {
        if (BalanceKey { market_id: m, user: u, kind: k }) != (BalanceKey { market_id, user, kind }) {
        }
    }
    assert forall|m: u32, k: TokenKind| #[trigger] w.supply_of(m, k) == v.supply_of(m, k) by {
        if (SupplyKey { market_id: m, kind: k }) != (SupplyKey { market_id, kind }) {
        }
    }
}

} // verus!
