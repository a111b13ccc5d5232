//! Persistent storage of the treasury.

use vstd::prelude::*;

use super::ledger_inv;
use crate::address::Address;
use crate::table::{lemma_insert_all_unique, seq_insert_all, Table};

verus! {

/// The amount that `m` records for `k`, zero when nothing is recorded.
pub open spec fn amount_in(m: Map<Address, i128>, k: Address) -> int {
    if m.contains_key(k) {
        m[k] as int
    } else {
        0
    }
}

/// The abstract contents of the treasury's storage.
pub struct TreasuryView {
    /// The admin, once the treasury is initialized.
    pub admin: Option<Address>,
    /// The market contract allowed to deposit fees.
    pub authorized_market: Option<Address>,
    /// The custodied balance of each token (decreases on withdrawal).
    pub token_balance: Map<Address, i128>,
    /// The fees ever collected in each token (never decreases).
    pub cumulative_fees: Map<Address, i128>,
    /// The fees ever collected across all tokens, when recorded.
    pub total_collected: Option<i128>,
}

impl TreasuryView {
    /// The custodied balance of `token`.
    pub open spec fn balance_of(self, token: Address) -> int {
        amount_in(self.token_balance, token)
    }

    /// The fees ever collected in `token`.
    pub open spec fn cumulative_of(self, token: Address) -> int {
        amount_in(self.cumulative_fees, token)
    }

    /// The fees ever collected across all tokens.
    pub open spec fn total(self) -> int {
        match self.total_collected {
            Some(t) => t as int,
            None => 0,
        }
    }
}

/// The treasury's storage in a form that can be saved and loaded: the
/// single slots, and the per-token slots as lists of `(token, amount)`.
pub struct TreasurySnapshot {
    pub admin: Option<Address>,
    pub authorized_market: Option<Address>,
    pub token_balance: Vec<(Address, i128)>,
    pub cumulative_fees: Vec<(Address, i128)>,
    pub total_collected: Option<i128>,
}

/// The storage contents that a snapshot describes (a later entry for a token
/// overrides an earlier one).
pub open spec fn snapshot_view(s: TreasurySnapshot) -> TreasuryView {
    TreasuryView {
        admin: s.admin,
        authorized_market: s.authorized_market,
        token_balance: seq_insert_all(s.token_balance@),
        cumulative_fees: seq_insert_all(s.cumulative_fees@),
        total_collected: s.total_collected,
    }
}

/// The treasury's storage slots.
pub struct TreasuryStorage {
    admin: Option<Address>,
    authorized_market: Option<Address>,
    token_balance: Table<Address, i128>,
    cumulative_fees: Table<Address, i128>,
    total_collected: Option<i128>,
}

impl View for TreasuryStorage {
    type V = TreasuryView;

    closed spec fn view(&self) -> TreasuryView {
        TreasuryView {
            admin: self.admin,
            authorized_market: self.authorized_market,
            token_balance: self.token_balance.view(),
            cumulative_fees: self.cumulative_fees.view(),
            total_collected: self.total_collected,
        }
    }
}

impl TreasuryStorage {
    /// The storage's well-formedness.
    pub closed spec fn wf(&self) -> bool {
        self.token_balance.wf() && self.cumulative_fees.wf()
    }

    /// Storage holding what `snapshot` describes.
    pub fn from_snapshot(snapshot: TreasurySnapshot) -> (s: Self)
        ensures
            s.wf(),
            s@ == snapshot_view(snapshot),
    {
        TreasuryStorage {
            admin: snapshot.admin,
            authorized_market: snapshot.authorized_market,
            token_balance: Table::from_vec(snapshot.token_balance),
            cumulative_fees: Table::from_vec(snapshot.cumulative_fees),
            total_collected: snapshot.total_collected,
        }
    }

    /// A snapshot describing this storage.
    pub fn to_snapshot(&self) -> (r: TreasurySnapshot)
        requires
            self.wf(),
        ensures
            snapshot_view(r) == self@,
    {
        let r = TreasurySnapshot {
            admin: self.admin,
            authorized_market: self.authorized_market,
            token_balance: self.token_balance.to_vec(),
            cumulative_fees: self.cumulative_fees.to_vec(),
            total_collected: self.total_collected,
        };
        proof {
            self.token_balance.lemma_view();
            self.cumulative_fees.lemma_view();
            lemma_insert_all_unique(self.token_balance.entries());
            lemma_insert_all_unique(self.cumulative_fees.entries());
        }
        r
    }

    /// Whether the storage satisfies the treasury's ledger invariant.
    pub fn check_ledger(&self) -> (r: bool)
        requires
            self.wf(),
        ensures
            r == ledger_inv(self@),
    {
        let ghost v = self@;
        proof {
            self.token_balance.lemma_entries();
            self.cumulative_fees.lemma_entries();
        }
        if self.admin.is_some() && self.authorized_market.is_none() {
            return false;
        }
        let total = self.get_total_collected();
        if total < 0 {
            proof {
                let t = Address { contract: false, hi: 0, lo: 0 };
                assert(!(0 <= v.balance_of(t) <= v.cumulative_of(t) <= v.total()));
            }
            return false;
        }
        let n = self.token_balance.len();
        let mut i: usize = 0;
        while i < n
            invariant
                self.wf(),
                v == self@,
                n == self.token_balance.entries().len(),
                i <= n,
                total == v.total(),
                forall|j: int|
                    0 <= j < i ==> {
                        let t = #[trigger] self.token_balance.entries()[j].0;
                        0 <= v.balance_of(t) <= v.cumulative_of(t) <= v.total()
                    },
            decreases n - i,
        {
            let (t, b) = *self.token_balance.entry(i);
            let c = self.get_cumulative_fees(&t);
            if b < 0 || b > c || c > total {
                proof {
                    self.token_balance.lemma_entries();
                    assert(v.token_balance.contains_key(t));
                    assert(!(0 <= v.balance_of(t) <= v.cumulative_of(t) <= v.total()));
                }
                return false;
            }
            proof {
                self.token_balance.lemma_entries();
            }
            i = i + 1;
        }
        let m = self.cumulative_fees.len();
        let mut k: usize = 0;
        while k < m
            invariant
                self.wf(),
                v == self@,
                m == self.cumulative_fees.entries().len(),
                k <= m,
                total == v.total(),
                forall|j: int|
                    0 <= j < k ==> {
                        let t = #[trigger] self.cumulative_fees.entries()[j].0;
                        0 <= v.cumulative_of(t) <= v.total()
                    },
            decreases m - k,
        {
            let (t, c) = *self.cumulative_fees.entry(k);
            if c < 0 || c > total {
                proof {
                    self.cumulative_fees.lemma_entries();
                    assert(v.cumulative_fees.contains_key(t));
                    assert(!(0 <= v.balance_of(t) <= v.cumulative_of(t) <= v.total()));
                }
                return false;
            }
            proof {
                self.cumulative_fees.lemma_entries();
            }
            k = k + 1;
        }
        proof {
            assert forall|t: Address|
                #![trigger v.balance_of(t)]
                #![trigger v.cumulative_of(t)]
                0 <= v.balance_of(t) <= v.cumulative_of(t) <= v.total() by {
                if v.token_balance.contains_key(t) {
                    let j = choose|j: int|
                        0 <= j < self.token_balance.entries().len()
                            && #[trigger] self.token_balance.entries()[j].0 == t;
                } else if v.cumulative_fees.contains_key(t) {
                    let j = choose|j: int|
                        0 <= j < self.cumulative_fees.entries().len()
                            && #[trigger] self.cumulative_fees.entries()[j].0 == t;
                }
            }
        }
        true
    }

    /// Empty storage, as on a fresh deployment.
    pub fn new() -> (s: Self)
        ensures
            s.wf(),
            s@.admin is None,
            s@.authorized_market is None,
            s@.token_balance == Map::<Address, i128>::empty(),
            s@.cumulative_fees == Map::<Address, i128>::empty(),
            s@.total_collected is None,
    {
        TreasuryStorage {
            admin: None,
            authorized_market: None,
            token_balance: Table::new(),
            cumulative_fees: Table::new(),
            total_collected: None,
        }
    }

    /// Whether the admin slot is populated.
    pub fn has_admin(&self) -> (r: bool)
        ensures
            r == self@.admin is Some,
    {
        self.admin.is_some()
    }

    /// The admin.
    pub fn get_admin(&self) -> (r: Address)
        requires
            self@.admin is Some,
        ensures
            self@.admin == Some(r),
    {
        self.admin.unwrap()
    }

    /// Stores the admin.
    pub fn set_admin(&mut self, admin: &Address)
        ensures
            final(self)@ == (TreasuryView { admin: Some(*admin), ..old(self)@ }),
            final(self).wf() == old(self).wf(),
    {
        self.admin = Some(*admin);
    }

    /// The market contract allowed to deposit fees.
    pub fn get_authorized_market(&self) -> (r: Address)
        requires
            self@.authorized_market is Some,
        ensures
            self@.authorized_market == Some(r),
    {
        self.authorized_market.unwrap()
    }

    /// Stores the market contract allowed to deposit fees.
    pub fn set_authorized_market(&mut self, market: &Address)
        ensures
            final(self)@ == (TreasuryView { authorized_market: Some(*market), ..old(self)@ }),
            final(self).wf() == old(self).wf(),
    {
        self.authorized_market = Some(*market);
    }

    /// The custodied balance of `token`, zero when none is recorded.
    pub fn get_token_balance(&self, token: &Address) -> (r: i128)
        requires
            self.wf(),
        ensures
            r == self@.balance_of(*token),
    {
        match self.token_balance.get(token) {
            Some(v) => *v,
            None => 0,
        }
    }

    /// Records the custodied balance of `token`.
    pub fn set_token_balance(&mut self, token: &Address, amount: i128)
        requires
            old(self).wf(),
        ensures
            final(self).wf(),
            final(self)@ == (TreasuryView {
                token_balance: old(self)@.token_balance.insert(*token, amount),
                ..old(self)@
            }),
    {
        self.token_balance.insert(*token, amount);
    }

    /// The fees ever collected in `token`, zero when none is recorded.
    pub fn get_cumulative_fees(&self, token: &Address) -> (r: i128)
        requires
            self.wf(),
        ensures
            r == self@.cumulative_of(*token),
    {
        match self.cumulative_fees.get(token) {
            Some(v) => *v,
            None => 0,
        }
    }

    /// Records the fees ever collected in `token`.
    pub fn set_cumulative_fees(&mut self, token: &Address, amount: i128)
        requires
            old(self).wf(),
        ensures
            final(self).wf(),
            final(self)@ == (TreasuryView {
                cumulative_fees: old(self)@.cumulative_fees.insert(*token, amount),
                ..old(self)@
            }),
    {
        self.cumulative_fees.insert(*token, amount);
    }

    /// The fees ever collected across all tokens, zero when none is recorded.
    pub fn get_total_collected(&self) -> (r: i128)
        ensures
            r == self@.total(),
    {
        match self.total_collected {
            Some(t) => t,
            None => 0,
        }
    }

    /// Records the fees ever collected across all tokens.
    pub fn set_total_collected(&mut self, amount: i128)
        ensures
            final(self)@ == (TreasuryView { total_collected: Some(amount), ..old(self)@ }),
            final(self).wf() == old(self).wf(),
    {
        self.total_collected = Some(amount);
    }
}

} // verus!
