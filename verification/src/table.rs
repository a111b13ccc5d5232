//! A small keyed table backed by a vector of entries.
//!
//! Contract storage in this crate is modelled by `Table`s: each entry is a
//! `(key, value)` pair and no key occurs twice. The abstract view of a table
//! is a `Map` from keys to values.

use vstd::prelude::*;

verus! {

/// Keys whose executable equality coincides with mathematical equality.
pub trait KeyEq: Copy {
    fn key_eq(&self, other: &Self) -> (r: bool)
        ensures
            r == (*self == *other),
    ;
}

impl KeyEq for u32 {
    fn key_eq(&self, other: &Self) -> (r: bool) {
        *self == *other
    }
}

/// A finite map kept as a vector of `(key, value)` entries with distinct keys.
pub struct Table<K, V> {
    entries: Vec<(K, V)>,
}

/// Whether some entry of `s` has key `k`.
pub open spec fn seq_has_key<K, V>(s: Seq<(K, V)>, k: K) -> bool {
    exists|i: int| 0 <= i < s.len() && #[trigger] s[i].0 == k
}

/// The index of the entry of `s` whose key is `k` (meaningful when there is one).
pub open spec fn seq_key_index<K, V>(s: Seq<(K, V)>, k: K) -> int {
    choose|i: int| 0 <= i < s.len() && #[trigger] s[i].0 == k
}

/// No two entries of `s` share a key.
pub open spec fn seq_keys_unique<K, V>(s: Seq<(K, V)>) -> bool {
    forall|i: int, j: int| 0 <= i < s.len() && 0 <= j < s.len() && #[trigger] s[i].0 == #[trigger] s[j].0 ==> i == j
}

/// The map that a sequence of entries with distinct keys denotes.
pub open spec fn seq_to_map<K, V>(s: Seq<(K, V)>) -> Map<K, V> {
    Map::new(|k: K| seq_has_key(s, k), |k: K| s[seq_key_index(s, k)].1)
}

proof fn lemma_index_is_unique<K, V>(s: Seq<(K, V)>, i: int)
    requires
        seq_keys_unique(s),
        0 <= i < s.len(),
    ensures
        seq_has_key(s, s[i].0),
        seq_key_index(s, s[i].0) == i,
{
    let k = s[i].0;
    assert(seq_has_key(s, k));
    let j = seq_key_index(s, k);
    assert(s[j].0 == k);
}

proof fn lemma_update_entry<K, V>(s: Seq<(K, V)>, i: int, v: V)
    requires
        seq_keys_unique(s),
        0 <= i < s.len(),
    ensures
        seq_keys_unique(s.update(i, (s[i].0, v))),
        seq_to_map(s.update(i, (s[i].0, v))) == seq_to_map(s).insert(s[i].0, v),
{
    let k = s[i].0;
    let t = s.update(i, (k, v));
    assert(seq_keys_unique(t)) by {
        assert forall|a: int, b: int| 0 <= a < t.len() && 0 <= b < t.len() && #[trigger] t[a].0 == #[trigger] t[b].0 implies a == b by {
            assert(s[a].0 == t[a].0);
            assert(s[b].0 == t[b].0);
        }
    }
    assert forall|k2: K| #[trigger] seq_has_key(t, k2) == seq_has_key(s, k2) by {
        if seq_has_key(t, k2) {
            let a = choose|a: int| 0 <= a < t.len() && #[trigger] t[a].0 == k2;
            assert(s[a].0 == k2);
        }
        if seq_has_key(s, k2) {
            let a = choose|a: int| 0 <= a < s.len() && #[trigger] s[a].0 == k2;
            assert(t[a].0 == k2);
        }
    }
    lemma_index_is_unique(t, i);
    assert forall|k2: K| seq_has_key(t, k2) && k2 != k implies #[trigger] t[seq_key_index(t, k2)].1 == s[seq_key_index(
        s,
        k2,
    )].1 by {
        let a = seq_key_index(t, k2);
        assert(t[a].0 == k2);
        assert(a != i);
        lemma_index_is_unique(s, a);
        assert(s[a].0 == k2);
    }
    assert(seq_to_map(t) =~= seq_to_map(s).insert(k, v));
}

proof fn lemma_push_entry<K, V>(s: Seq<(K, V)>, k: K, v: V)
    requires
        seq_keys_unique(s),
        !seq_has_key(s, k),
    ensures
        seq_keys_unique(s.push((k, v))),
        seq_to_map(s.push((k, v))) == seq_to_map(s).insert(k, v),
{
    let t = s.push((k, v));
    let n = s.len() as int;
    assert(seq_keys_unique(t)) by {
        assert forall|a: int, b: int| 0 <= a < t.len() && 0 <= b < t.len() && #[trigger] t[a].0 == #[trigger] t[b].0 implies a == b by {
            if a < n && b < n {
                assert(s[a].0 == t[a].0);
                assert(s[b].0 == t[b].0);
            } else if a < n {
                assert(s[a].0 == k);
            } else if b < n {
                assert(s[b].0 == k);
            }
        }
    }
    assert forall|k2: K| #[trigger] seq_has_key(t, k2) == (seq_has_key(s, k2) || k2 == k) by {
        if seq_has_key(t, k2) {
            let a = choose|a: int| 0 <= a < t.len() && #[trigger] t[a].0 == k2;
            if a < n {
                assert(s[a].0 == k2);
            }
        }
        if seq_has_key(s, k2) {
            let a = choose|a: int| 0 <= a < s.len() && #[trigger] s[a].0 == k2;
            assert(t[a].0 == k2);
        }
        if k2 == k {
            assert(t[n].0 == k);
        }
    }
    lemma_index_is_unique(t, n);
    assert forall|k2: K| seq_has_key(t, k2) && k2 != k implies #[trigger] t[seq_key_index(t, k2)].1 == s[seq_key_index(
        s,
        k2,
    )].1 by {
        let a = seq_key_index(t, k2);
        assert(t[a].0 == k2);
        assert(a != n);
        lemma_index_is_unique(s, a);
        assert(s[a].0 == k2);
    }
    assert(seq_to_map(t) =~= seq_to_map(s).insert(k, v));
}

/// The sum of the amounts of the entries of `s` whose keys satisfy `p`.
pub open spec fn seq_sum_where<K>(s: Seq<(K, i128)>, p: spec_fn(K) -> bool) -> int
    decreases s.len(),
{
    if s.len() == 0 {
        0
    } else {
        seq_sum_where(s.drop_last(), p) + if p(s.last().0) {
            s.last().1 as int
        } else {
            0
        }
    }
}

/// Appending an entry adds its amount to the sum when its key satisfies `p`.
pub proof fn lemma_sum_push<K>(s: Seq<(K, i128)>, e: (K, i128), p: spec_fn(K) -> bool)
    ensures
        seq_sum_where(s.push(e), p) == seq_sum_where(s, p) + if p(e.0) {
            e.1 as int
        } else {
            0
        },
{
    assert(s.push(e).drop_last() =~= s);
}

/// Replacing the amount of an entry changes the sum by the difference when
/// the entry's key satisfies `p`.
pub proof fn lemma_sum_update<K>(s: Seq<(K, i128)>, i: int, v: i128, p: spec_fn(K) -> bool)
    requires
        0 <= i < s.len(),
    ensures
        seq_sum_where(s.update(i, (s[i].0, v)), p) == seq_sum_where(s, p) + if p(s[i].0) {
            v as int - s[i].1 as int
        } else {
            0
        },
    decreases s.len(),
{
    let t = s.update(i, (s[i].0, v));
    if i == s.len() - 1 {
        assert(t.drop_last() =~= s.drop_last());
    } else {
        lemma_sum_update(s.drop_last(), i, v, p);
        assert(t.drop_last() =~= s.drop_last().update(i, (s[i].0, v)));
    }
}

/// The amount that `m` records for `k`, zero when nothing is recorded.
pub open spec fn map_amount<K>(m: Map<K, i128>, k: K) -> int {
    if m.contains_key(k) {
        m[k] as int
    } else {
        0
    }
}

/// With non-negative amounts, a sum is non-negative and at least the amount
/// of every entry that it counts.
pub proof fn lemma_sum_bounds<K>(s: Seq<(K, i128)>, p: spec_fn(K) -> bool)
    requires
        forall|j: int| 0 <= j < s.len() ==> #[trigger] s[j].1 >= 0,
    ensures
        seq_sum_where(s, p) >= 0,
        forall|j: int| 0 <= j < s.len() && p(#[trigger] s[j].0) ==> seq_sum_where(s, p) >= s[j].1,
    decreases s.len(),
{
    if s.len() > 0 {
        let t = s.drop_last();
        assert forall|j: int| 0 <= j < t.len() implies #[trigger] t[j].1 >= 0 by {
            assert(t[j] == s[j]);
        }
        lemma_sum_bounds(t, p);
        assert forall|j: int| 0 <= j < s.len() && p(#[trigger] s[j].0) implies seq_sum_where(s, p)
            >= s[j].1 by {
            if j < s.len() - 1 {
                assert(t[j] == s[j]);
            }
        }
    }
}

/// The sum over the first `j + 1` entries is the sum over the first `j`
/// plus the amount of entry `j` when its key satisfies `p`.
pub proof fn lemma_sum_take<K>(s: Seq<(K, i128)>, j: int, p: spec_fn(K) -> bool)
    requires
        0 <= j < s.len(),
    ensures
        seq_sum_where(s.take(j + 1), p) == seq_sum_where(s.take(j), p) + if p(s[j].0) {
            s[j].1 as int
        } else {
            0
        },
{
    assert(s.take(j + 1).drop_last() =~= s.take(j));
}

/// With non-negative amounts, the sum over a prefix is at most the sum
/// over all entries.
pub proof fn lemma_sum_prefix_le<K>(s: Seq<(K, i128)>, j: int, p: spec_fn(K) -> bool)
    requires
        0 <= j <= s.len(),
        forall|i: int| 0 <= i < s.len() ==> #[trigger] s[i].1 >= 0,
    ensures
        seq_sum_where(s.take(j), p) <= seq_sum_where(s, p),
    decreases s.len() - j,
{
    if j < s.len() {
        lemma_sum_take(s, j, p);
        lemma_sum_prefix_le(s, j + 1, p);
    } else {
        assert(s.take(j) =~= s);
    }
}

/// A sum in which every counted entry is zero is zero.
pub proof fn lemma_sum_zero<K>(s: Seq<(K, i128)>, p: spec_fn(K) -> bool)
    requires
        forall|i: int| 0 <= i < s.len() && p(#[trigger] s[i].0) ==> s[i].1 == 0,
    ensures
        seq_sum_where(s, p) == 0,
    decreases s.len(),
{
    if s.len() > 0 {
        let t = s.drop_last();
        assert forall|i: int| 0 <= i < t.len() && p(#[trigger] t[i].0) implies t[i].1 == 0 by {
            assert(t[i] == s[i]);
        }
        lemma_sum_zero(t, p);
    }
}

/// The map that inserting the entries of `s` one after another into an
/// empty map yields (a later entry overrides an earlier one with its key).
pub open spec fn seq_insert_all<K, V>(s: Seq<(K, V)>) -> Map<K, V>
    decreases s.len(),
{
    if s.len() == 0 {
        Map::empty()
    } else {
        seq_insert_all(s.drop_last()).insert(s.last().0, s.last().1)
    }
}

/// For entries with distinct keys, inserting them one after another yields
/// the map that they denote.
pub proof fn lemma_insert_all_unique<K, V>(s: Seq<(K, V)>)
    requires
        seq_keys_unique(s),
    ensures
        seq_insert_all(s) == seq_to_map(s),
    decreases s.len(),
{
    if s.len() > 0 {
        let t = s.drop_last();
        let e = s.last();
        assert(seq_keys_unique(t)) by {
            assert forall|a: int, b: int|
                0 <= a < t.len() && 0 <= b < t.len() && #[trigger] t[a].0 == #[trigger] t[b].0 implies a
                == b by {
                assert(s[a].0 == t[a].0);
                assert(s[b].0 == t[b].0);
            }
        }
        lemma_insert_all_unique(t);
        assert(!seq_has_key(t, e.0)) by {
            if seq_has_key(t, e.0) {
                let a = choose|a: int| 0 <= a < t.len() && #[trigger] t[a].0 == e.0;
                assert(s[a].0 == s[s.len() - 1].0);
            }
        }
        lemma_push_entry(t, e.0, e.1);
        assert(t.push(e) =~= s);
    }
}

impl<K: KeyEq, V: Copy> Table<K, V> {
    /// A copy of the entries, in storage order.
    pub fn to_vec(&self) -> (r: Vec<(K, V)>)
        ensures
            r@ == self.entries(),
    {
        let mut r: Vec<(K, V)> = Vec::new();
        let n = self.entries.len();
        let mut i: usize = 0;
        while i < n
            invariant
                n == self.entries@.len(),
                i <= n,
                r@ == self.entries@.take(i as int),
            decreases n - i,
        {
            r.push(self.entries[i]);
            proof {
                assert(self.entries@.take(i + 1) =~= self.entries@.take(i as int).push(self.entries@[i as int]));
            }
            i = i + 1;
        }
        proof {
            assert(self.entries@.take(n as int) =~= self.entries@);
        }
        r
    }
}

impl<K: KeyEq, V> Table<K, V> {
    /// The entries, in storage order.
    pub closed spec fn entries(&self) -> Seq<(K, V)> {
        self.entries@
    }

    /// The table's well-formedness: no key occurs twice.
    pub closed spec fn wf(&self) -> bool {
        seq_keys_unique(self.entries@)
    }

    /// The abstract contents of the table.
    pub closed spec fn view(&self) -> Map<K, V> {
        seq_to_map(self.entries@)
    }

    /// An empty table.
    pub fn new() -> (t: Self)
        ensures
            t.wf(),
            t.view() == Map::<K, V>::empty(),
            t.entries() == Seq::<(K, V)>::empty(),
    {
        let t = Table { entries: Vec::new() };
        assert(t.view() =~= Map::<K, V>::empty());
        t
    }

    /// The position of the entry with key `k`, if there is one.
    fn find(&self, k: &K) -> (r: Option<usize>)
        requires
            self.wf(),
        ensures
            match r {
                Some(i) => i < self.entries@.len() && self.entries@[i as int].0 == *k
                    && seq_key_index(self.entries@, *k) == i,
                None => !self.view().contains_key(*k),
            },
    {
        let n = self.entries.len();
        let mut i: usize = 0;
        while i < n
            invariant
                n == self.entries@.len(),
                i <= n,
                self.wf(),
                forall|j: int| 0 <= j < i ==> self.entries@[j].0 != *k,
            decreases n - i,
        {
            if self.entries[i].0.key_eq(k) {
                proof {
                    lemma_index_is_unique(self.entries@, i as int);
                }
                return Some(i);
            }
            i = i + 1;
        }
        None
    }

    /// Whether the table holds an entry for `k`.
    pub fn contains_key(&self, k: &K) -> (r: bool)
        requires
            self.wf(),
        ensures
            r == self.view().contains_key(*k),
    {
        match self.find(k) {
            Some(i) => {
                proof {
                    lemma_index_is_unique(self.entries@, i as int);
                }
                true
            },
            None => false,
        }
    }

    /// The value stored under `k`, if any.
    pub fn get(&self, k: &K) -> (r: Option<&V>)
        requires
            self.wf(),
        ensures
            r == (if self.view().contains_key(*k) {
                Some(&self.view()[*k])
            } else {
                None
            }),
    {
        match self.find(k) {
            Some(i) => {
                proof {
                    lemma_index_is_unique(self.entries@, i as int);
                }
                Some(&self.entries[i].1)
            },
            None => None,
        }
    }

    /// The number of entries.
    pub fn len(&self) -> (r: usize)
        ensures
            r == self.entries().len(),
    {
        self.entries.len()
    }

    /// The entry at position `i`.
    pub fn entry(&self, i: usize) -> (r: &(K, V))
        requires
            i < self.entries().len(),
        ensures
            *r == self.entries()[i as int],
    {
        &self.entries[i]
    }

    /// The table obtained by inserting the entries of `v` in order.
    pub fn from_vec(v: Vec<(K, V)>) -> (t: Self)
        ensures
            t.wf(),
            t.view() == seq_insert_all(v@),
            seq_keys_unique(v@) ==> t.entries() == v@,
    {
        let mut t = Table::new();
        let mut rest = v;
        let ghost all = rest@;
        let ghost mut k: int = 0;
        while rest.len() > 0
            invariant
                t.wf(),
                0 <= k <= all.len(),
                rest@ == all.skip(k),
                t.view() == seq_insert_all(all.take(k)),
                seq_keys_unique(all) ==> t.entries() == all.take(k),
            decreases rest.len(),
        {
            let e = rest.remove(0);
            proof {
                assert(all.take(k + 1).drop_last() =~= all.take(k));
                assert(all.take(k + 1).last() == e);
                assert(rest@ =~= all.skip(k + 1));
                if seq_keys_unique(all) {
                    assert(e == all[k]);
                    if seq_has_key(t.entries(), e.0) {
                        let a = choose|a: int| 0 <= a < t.entries().len() && #[trigger] t.entries()[a].0 == e.0;
                        assert(all[a].0 == all[k].0);
                    }
                    assert(all.take(k + 1) =~= all.take(k).push(e));
                }
                k = k + 1;
            }
            t.insert(e.0, e.1);
        }
        proof {
            assert(all.take(k) =~= all);
        }
        t
    }

    /// Each entry is in the view, with its value; each key of the view comes
    /// from an entry.
    pub proof fn lemma_entries(&self)
        requires
            self.wf(),
        ensures
            forall|i: int|
                0 <= i < self.entries().len() ==> #[trigger] self.view().contains_key(
                    self.entries()[i].0,
                ) && self.view()[self.entries()[i].0] == self.entries()[i].1,
            forall|k: K| #[trigger]
                self.view().contains_key(k) ==> exists|i: int|
                    0 <= i < self.entries().len() && #[trigger] self.entries()[i].0 == k,
    {
        assert forall|i: int| 0 <= i < self.entries().len() implies #[trigger] self.view().contains_key(
            self.entries()[i].0,
        ) && self.view()[self.entries()[i].0] == self.entries()[i].1 by {
            lemma_index_is_unique(self.entries@, i);
        }
        assert forall|k: K| #[trigger] self.view().contains_key(k) implies exists|i: int|
            0 <= i < self.entries().len() && #[trigger] self.entries()[i].0 == k by {
            assert(seq_has_key(self.entries@, k));
            let i = choose|i: int| 0 <= i < self.entries@.len() && #[trigger] self.entries@[i].0 == k;
            assert(self.entries()[i].0 == k);
        }
    }

    /// The view is the map that the entries denote.
    pub proof fn lemma_view(&self)
        ensures
            self.view() == seq_to_map(self.entries()),
            self.wf() == seq_keys_unique(self.entries()),
    {
    }

    /// Stores `v` under `k`, replacing any earlier value.
    pub fn insert(&mut self, k: K, v: V)
        requires
            old(self).wf(),
        ensures
            final(self).wf(),
            final(self).view() == old(self).view().insert(k, v),
            final(self).entries() == (if seq_has_key(old(self).entries(), k) {
                old(self).entries().update(seq_key_index(old(self).entries(), k), (k, v))
            } else {
                old(self).entries().push((k, v))
            }),
    {
        match self.find(&k) {
            Some(i) => {
                proof {
                    lemma_update_entry(self.entries@, i as int, v);
                }
                self.entries.set(i, (k, v));
            },
            None => {
                proof {
                    assert(!seq_has_key(self.entries@, k));
                    lemma_push_entry(self.entries@, k, v);
                }
                self.entries.push((k, v));
            },
        }
    }
}

} // verus!
