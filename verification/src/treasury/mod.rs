//! The treasury: collects and custodies protocol fees.
//!
//! Only the registered market contract may deposit fees through
//! [`TreasuryContract::collect_fee`]; the admin controls withdrawals and the
//! rotation of the market contract. Per token the treasury keeps the current
//! custodied balance, which withdrawals decrease, and the fees ever
//! collected, which never decrease; it also keeps the fees ever collected
//! across all tokens.
//!
//! Authorization of the caller (`require_auth`), the token transfers and the
//! events are the host's part: the functions here decide and update state,
//! and the caller of a successful `withdraw_fees` moves `amount` of `token`
//! from the treasury to `to`.

pub mod error;
pub mod storage;

use vstd::prelude::*;

use crate::address::Address;
pub use error::TreasuryError;
use storage::{snapshot_view, TreasurySnapshot, TreasuryStorage, TreasuryView};

verus! {

/// `a + f`, capped at the largest `i128`.
pub open spec fn capped_sum(a: int, f: int) -> int {
    if a + f > i128::MAX {
        i128::MAX as int
    } else {
        a + f
    }
}

/// What every reachable treasury state satisfies: an initialized treasury
/// has a market contract, and per token the custodied balance is
/// non-negative, at most the fees ever collected in that token, which are at
/// most the fees ever collected across all tokens.
pub open spec fn ledger_inv(v: TreasuryView) -> bool {
    &&& v.admin is Some ==> v.authorized_market is Some
    &&& forall|t: Address|
        #![trigger v.balance_of(t)]
        #![trigger v.cumulative_of(t)]
        0 <= v.balance_of(t) <= v.cumulative_of(t) <= v.total()
}

/// The fees ever collected never decrease, per token or in total.
pub open spec fn collected_monotone(before: TreasuryView, after: TreasuryView) -> bool {
    &&& forall|t: Address| #[trigger] before.cumulative_of(t) <= after.cumulative_of(t)
    &&& before.total() <= after.total()
}

/// The outcome of `collect_fee` on `v`: which error, if any.
pub open spec fn collect_fee_check(v: TreasuryView, caller: Address, fee_amount: i128) -> Result<
    (),
    TreasuryError,
> {
    if v.admin is None {
        Err(TreasuryError::NotInitialized)
    } else if v.authorized_market != Some(caller) {
        Err(TreasuryError::CallerNotMarket)
    } else if fee_amount <= 0 {
        Err(TreasuryError::InvalidAmount)
    } else {
        Ok(())
    }
}

/// The treasury after recording a fee of `fee_amount` in `token`.
pub open spec fn after_collect(v: TreasuryView, token: Address, fee_amount: i128) -> TreasuryView {
    TreasuryView {
        token_balance: v.token_balance.insert(
            token,
            capped_sum(v.balance_of(token), fee_amount as int) as i128,
        ),
        cumulative_fees: v.cumulative_fees.insert(
            token,
            capped_sum(v.cumulative_of(token), fee_amount as int) as i128,
        ),
        total_collected: Some(capped_sum(v.total(), fee_amount as int) as i128),
        ..v
    }
}

/// The outcome of `withdraw_fees` on `v`: which error, if any.
pub open spec fn withdraw_fees_check(
    v: TreasuryView,
    caller: Address,
    token: Address,
    amount: i128,
) -> Result<(), TreasuryError> {
    if v.admin is None {
        Err(TreasuryError::NotInitialized)
    } else if v.admin != Some(caller) {
        Err(TreasuryError::Unauthorized)
    } else if amount <= 0 {
        Err(TreasuryError::InvalidAmount)
    } else if amount > v.balance_of(token) {
        Err(TreasuryError::InsufficientBalance)
    } else {
        Ok(())
    }
}

/// The outcome of an admin-only operation on `v`: which error, if any.
pub open spec fn admin_check(v: TreasuryView, caller: Address) -> Result<(), TreasuryError> {
    if v.admin is None {
        Err(TreasuryError::NotInitialized)
    } else if v.admin != Some(caller) {
        Err(TreasuryError::Unauthorized)
    } else {
        Ok(())
    }
}

/// Changing only the admin or the market contract of an initialized-consistent
/// state keeps the per-token part of [`ledger_inv`].
proof fn lemma_inv_amounts_unchanged(before: TreasuryView, after: TreasuryView)
    requires
        ledger_inv(before),
        after.token_balance == before.token_balance,
        after.cumulative_fees == before.cumulative_fees,
        after.total_collected == before.total_collected,
        after.admin is Some ==> after.authorized_market is Some,
    ensures
        ledger_inv(after),
{
    assert forall|t: Address|
        #![trigger after.balance_of(t)]
        #![trigger after.cumulative_of(t)]
        0 <= after.balance_of(t) <= after.cumulative_of(t) <= after.total() by {
        assert(0 <= before.balance_of(t) <= before.cumulative_of(t) <= before.total());
    }
}

/// Saving a treasury and loading the snapshot gives it back: a snapshot that
/// describes a reachable treasury's storage satisfies the ledger invariant,
/// so `restore` accepts it and reproduces exactly that storage.
pub proof fn lemma_snapshot_round_trip(c: &TreasuryContract, s: TreasurySnapshot)
    requires
        c.inv(),
        snapshot_view(s) == c@,
    ensures
        ledger_inv(snapshot_view(s)),
{
    c.lemma_ledger();
}

/// The treasury contract's state and entry points.
pub struct TreasuryContract {
    storage: TreasuryStorage,
}

impl View for TreasuryContract {
    type V = TreasuryView;

    closed spec fn view(&self) -> TreasuryView {
        self.storage@
    }
}

impl TreasuryContract {
    /// The contract's invariant: well-formed storage satisfying [`ledger_inv`].
    pub closed spec fn inv(&self) -> bool {
        self.storage.wf() && ledger_inv(self.storage@)
    }

    /// Every treasury state reached through these entry points satisfies the
    /// ledger invariant: per token, 0 ≤ custodied balance ≤ fees collected
    /// in the token ≤ fees collected in total.
    pub proof fn lemma_ledger(&self)
        requires
            self.inv(),
        ensures
            ledger_inv(self@),
    {
    }

    /// A freshly deployed treasury: uninitialized, holding nothing.
    pub fn new() -> (c: Self)
        ensures
            c.inv(),
            c@.admin is None,
            c@.authorized_market is None,
            c@.token_balance == Map::<Address, i128>::empty(),
            c@.cumulative_fees == Map::<Address, i128>::empty(),
            c@.total_collected is None,
    {
        TreasuryContract { storage: TreasuryStorage::new() }
    }

    /// Bootstraps the treasury: sets the admin and registers the market
    /// contract permitted to call `collect_fee`. Fails with
    /// `AlreadyInitialized` once an admin is set.
    pub fn initialize(&mut self, admin: Address, market_contract: Address) -> (r: Result<
        (),
        TreasuryError,
    >)
        requires
            old(self).inv(),
        ensures
            final(self).inv(),
            r is Err <==> old(self)@.admin is Some,
            r is Err ==> r == Err::<(), TreasuryError>(TreasuryError::AlreadyInitialized),
            r is Err ==> final(self)@ == old(self)@,
            r is Ok ==> final(self)@ == (TreasuryView {
                admin: Some(admin),
                authorized_market: Some(market_contract),
                ..old(self)@
            }),
            collected_monotone(old(self)@, final(self)@),
    {
        if self.storage.has_admin() {
            return Err(TreasuryError::AlreadyInitialized);
        }
        let ghost before = self@;
        self.storage.set_admin(&admin);
        self.storage.set_authorized_market(&market_contract);
        proof {
            lemma_inv_amounts_unchanged(before, self@);
        }
        Ok(())
    }

    /// Records a protocol fee of `fee_amount` in `token`, deposited by the
    /// market contract `caller` for market `market_id`.
    ///
    /// Fails with `NotInitialized`, `CallerNotMarket` or `InvalidAmount`, in
    /// that order of checking. On success the custodied balance of `token`,
    /// the fees collected in `token` and the fees collected in total each grow
    /// by `fee_amount`, capped at the largest `i128`.
    pub fn collect_fee(
        &mut self,
        caller: Address,
        token: Address,
        market_id: u32,
        fee_amount: i128,
    ) -> (r: Result<(), TreasuryError>)
        requires
            old(self).inv(),
        ensures
            final(self).inv(),
            r == collect_fee_check(old(self)@, caller, fee_amount),
            r is Err ==> final(self)@ == old(self)@,
            r is Ok ==> final(self)@ == after_collect(old(self)@, token, fee_amount),
            collected_monotone(old(self)@, final(self)@),
    {
        if !self.storage.has_admin() {
            return Err(TreasuryError::NotInitialized);
        }
        let market_contract = self.storage.get_authorized_market();
        if caller != market_contract {
            return Err(TreasuryError::CallerNotMarket);
        }
        if fee_amount <= 0 {
            return Err(TreasuryError::InvalidAmount);
        }
        let ghost before = self@;

        let prev_balance = self.storage.get_token_balance(&token);
        let new_balance = prev_balance.checked_add(fee_amount).unwrap_or(i128::MAX);
        self.storage.set_token_balance(&token, new_balance);

        let prev_cumulative = self.storage.get_cumulative_fees(&token);
        let new_cumulative = prev_cumulative.checked_add(fee_amount).unwrap_or(i128::MAX);
        self.storage.set_cumulative_fees(&token, new_cumulative);

        let prev_total = self.storage.get_total_collected();
        let new_total = prev_total.checked_add(fee_amount).unwrap_or(i128::MAX);
        self.storage.set_total_collected(new_total);

        proof {
            let after = self@;
            assert(after == after_collect(before, token, fee_amount));
            assert forall|t: Address|
                #![trigger after.balance_of(t)]
                #![trigger after.cumulative_of(t)]
                0 <= after.balance_of(t) <= after.cumulative_of(t) <= after.total() by {
                assert(0 <= before.balance_of(t) <= before.cumulative_of(t) <= before.total());
            }
            assert forall|t: Address| #[trigger] before.cumulative_of(t) <= after.cumulative_of(
                t,
            ) by {
                assert(0 <= before.balance_of(t) <= before.cumulative_of(t) <= before.total());
            }
        }
        Ok(())
    }

    /// Withdraws `amount` of accumulated `token` fees to `to`.
    ///
    /// Fails with `NotInitialized`, `Unauthorized` (the caller is not the
    /// admin), `InvalidAmount` or `InsufficientBalance`, in that order of
    /// checking. On success the custodied balance of `token` decreases by
    /// `amount`, the fees collected are untouched, and the caller moves
    /// `amount` of `token` from the treasury to `to`.
    pub fn withdraw_fees(&mut self, caller: Address, token: Address, to: Address, amount: i128) -> (r:
        Result<(), TreasuryError>)
        requires
            old(self).inv(),
        ensures
            final(self).inv(),
            r == withdraw_fees_check(old(self)@, caller, token, amount),
            r is Err ==> final(self)@ == old(self)@,
            r is Ok ==> final(self)@ == (TreasuryView {
                token_balance: old(self)@.token_balance.insert(
                    token,
                    (old(self)@.balance_of(token) - amount) as i128,
                ),
                ..old(self)@
            }),
            collected_monotone(old(self)@, final(self)@),
    {
        if !self.storage.has_admin() {
            return Err(TreasuryError::NotInitialized);
        }
        let admin = self.storage.get_admin();
        if caller != admin {
            return Err(TreasuryError::Unauthorized);
        }
        if amount <= 0 {
            return Err(TreasuryError::InvalidAmount);
        }
        let balance = self.storage.get_token_balance(&token);
        if amount > balance {
            return Err(TreasuryError::InsufficientBalance);
        }
        let ghost before = self@;
        let remaining = balance - amount;
        self.storage.set_token_balance(&token, remaining);
        proof {
            let after = self@;
            assert forall|t: Address|
                #![trigger after.balance_of(t)]
                #![trigger after.cumulative_of(t)]
                0 <= after.balance_of(t) <= after.cumulative_of(t) <= after.total() by {
                assert(0 <= before.balance_of(t) <= before.cumulative_of(t) <= before.total());
            }
            assert forall|t: Address| #[trigger] before.cumulative_of(t) <= after.cumulative_of(
                t,
            ) by {}
        }
        Ok(())
    }

    /// Rotates the registered market contract (e.g. after an upgrade). Only
    /// the admin may do so: fails with `NotInitialized` or `Unauthorized`.
    pub fn set_market_contract(&mut self, caller: Address, new_market_contract: Address) -> (r:
        Result<(), TreasuryError>)
        requires
            old(self).inv(),
        ensures
            final(self).inv(),
            r == admin_check(old(self)@, caller),
            r is Err ==> final(self)@ == old(self)@,
            r is Ok ==> final(self)@ == (TreasuryView {
                authorized_market: Some(new_market_contract),
                ..old(self)@
            }),
            collected_monotone(old(self)@, final(self)@),
    {
        if !self.storage.has_admin() {
            return Err(TreasuryError::NotInitialized);
        }
        let admin = self.storage.get_admin();
        if caller != admin {
            return Err(TreasuryError::Unauthorized);
        }
        let ghost before = self@;
        self.storage.set_authorized_market(&new_market_contract);
        proof {
            lemma_inv_amounts_unchanged(before, self@);
        }
        Ok(())
    }

    /// A snapshot of the treasury's storage, to be saved by the host.
    pub fn snapshot(&self) -> (r: TreasurySnapshot)
        requires
            self.inv(),
        ensures
            snapshot_view(r) == self@,
    {
        self.storage.to_snapshot()
    }

    /// The treasury whose storage `snapshot` describes, provided that
    /// storage satisfies the ledger invariant; `None` otherwise.
    pub fn restore(snapshot: TreasurySnapshot) -> (r: Option<Self>)
        ensures
            r is Some <==> ledger_inv(snapshot_view(snapshot)),
            r matches Some(c) ==> c.inv() && c@ == snapshot_view(snapshot),
    {
        let storage = TreasuryStorage::from_snapshot(snapshot);
        if storage.check_ledger() {
            Some(TreasuryContract { storage })
        } else {
            None
        }
    }

    /// Whether the treasury has been initialized.
    pub fn is_initialized(&self) -> (r: bool)
        ensures
            r == self@.admin is Some,
    {
        self.storage.has_admin()
    }

    /// The admin. The treasury must be initialized.
    pub fn admin(&self) -> (r: Address)
        requires
            self@.admin is Some,
        ensures
            self@.admin == Some(r),
    {
        self.storage.get_admin()
    }

    /// The registered market contract. The treasury must be initialized.
    pub fn market_contract(&self) -> (r: Address)
        requires
            self.inv(),
            self@.admin is Some,
        ensures
            self@.authorized_market == Some(r),
    {
        self.storage.get_authorized_market()
    }

    /// The current custodied balance of `token` (decreases on withdrawal).
    pub fn token_balance(&self, token: Address) -> (r: i128)
        requires
            self.inv(),
        ensures
            r == self@.balance_of(token),
    {
        self.storage.get_token_balance(&token)
    }

    /// The fees collected in `token` since deployment; never decreases.
    pub fn get_cumulative_fees(&self, token: Address) -> (r: i128)
        requires
            self.inv(),
        ensures
            r == self@.cumulative_of(token),
    {
        self.storage.get_cumulative_fees(&token)
    }

    /// The fees collected across all tokens since deployment; never decreases.
    pub fn total_collected(&self) -> (r: i128)
        ensures
            r == self@.total(),
    {
        self.storage.get_total_collected()
    }
}

} // verus!
