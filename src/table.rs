//! A sparse table from keys to amounts: a key that is absent reads as zero,
//! and no entry ever holds zero.
use vstd::prelude::*;

use crate::account::AccountId;

verus! {

/// A key of an amount table: it can be compared for equality and copied.
pub trait TableKey: Sized {
    fn same_key(&self, other: &Self) -> (r: bool)
        ensures
            r == (*self == *other),
    ;

    fn duplicate(&self) -> (r: Self)
        ensures
            r == *self,
    ;
}

impl TableKey for AccountId {
    fn same_key(&self, other: &Self) -> (r: bool) {
        self.same(other)
    }

    fn duplicate(&self) -> (r: Self) {
        *self
    }
}

impl TableKey for (AccountId, AccountId) {
    fn same_key(&self, other: &Self) -> (r: bool) {
        self.0.same(&other.0) && self.1.same(&other.1)
    }

    fn duplicate(&self) -> (r: Self) {
        (self.0, self.1)
    }
}

/// The amount that `m` records for `k`, zero where it records none.
pub open spec fn amount_of<K>(m: Map<K, u128>, k: K) -> u128 {
    if m.dom().contains(k) {
        m[k]
    } else {
        0
    }
}

/// What `m` becomes when `k` is given the amount `v`: zero removes the entry.
pub open spec fn with_amount<K>(m: Map<K, u128>, k: K, v: u128) -> Map<K, u128> {
    if v == 0 {
        m.remove(k)
    } else {
        m.insert(k, v)
    }
}

/// The sum of all amounts that a finite map holds.
pub open spec fn map_sum<K>(m: Map<K, u128>) -> int
    decreases m.dom().len(),
{
    if m.dom().finite() && m.dom().len() > 0 {
        let k = m.dom().choose();
        proof {
            assert(m.remove(k).dom() =~= m.dom().remove(k));
        }
        m[k] as int + map_sum(m.remove(k))
    } else {
        0
    }
}

/// Every entry of a map holds a positive amount.
pub open spec fn no_zero_amounts<K>(m: Map<K, u128>) -> bool {
    forall|k: K| #[trigger] m.dom().contains(k) ==> m[k] > 0
}

/// The map that a list of entries stands for; a later entry wins over an earlier one.
pub open spec fn entries_map<K>(s: Seq<(K, u128)>) -> Map<K, u128>
    decreases s.len(),
{
    if s.len() == 0 {
        Map::empty()
    } else {
        entries_map(s.drop_last()).insert(s.last().0, s.last().1)
    }
}

/// No two entries of the list share a key.
pub open spec fn distinct_keys<K>(s: Seq<(K, u128)>) -> bool {
    forall|i: int, j: int| 0 <= i < j < s.len() ==> #[trigger] s[i].0 != #[trigger] s[j].0
}

proof fn lemma_entries_dom<K>(s: Seq<(K, u128)>)
    ensures
        entries_map(s).dom().finite(),
        forall|k: K|
            #[trigger] entries_map(s).dom().contains(k) <==> exists|i: int|
                0 <= i < s.len() && s[i].0 == k,
    decreases s.len(),
{
    if s.len() > 0 {
        let p = s.drop_last();
        lemma_entries_dom(p);
        assert forall|k: K| #[trigger]
            entries_map(s).dom().contains(k) <==> exists|i: int|
                0 <= i < s.len() && s[i].0 == k by {
            if entries_map(s).dom().contains(k) {
                if k == s.last().0 {
                    assert(s[s.len() - 1].0 == k);
                } else {
                    let i = choose|i: int| 0 <= i < p.len() && p[i].0 == k;
                    assert(s[i].0 == k);
                }
            }
            if exists|i: int| 0 <= i < s.len() && s[i].0 == k {
                let i = choose|i: int| 0 <= i < s.len() && s[i].0 == k;
                if i < s.len() - 1 {
                    assert(p[i].0 == k);
                }
            }
        }
    }
}

proof fn lemma_entries_value<K>(s: Seq<(K, u128)>, i: int)
    requires
        distinct_keys(s),
        0 <= i < s.len(),
    ensures
        entries_map(s).dom().contains(s[i].0),
        entries_map(s)[s[i].0] == s[i].1,
    decreases s.len(),
{
    if i < s.len() - 1 {
        let p = s.drop_last();
        assert(p[i] == s[i]);
        assert(distinct_keys(p)) by {
            assert forall|a: int, b: int| 0 <= a < b < p.len() implies #[trigger] p[a].0
                != #[trigger] p[b].0 by {
                assert(p[a] == s[a] && p[b] == s[b]);
            }
        }
        lemma_entries_value(p, i);
        assert(s[i].0 != s[s.len() - 1].0);
    }
}

/// Facts about the map of a well-formed list of entries.
pub proof fn lemma_entries_view<K>(s: Seq<(K, u128)>)
    requires
        distinct_keys(s),
    ensures
        entries_map(s).dom().finite(),
        forall|k: K|
            #[trigger] entries_map(s).dom().contains(k) <==> exists|i: int|
                0 <= i < s.len() && s[i].0 == k,
        forall|i: int|
            0 <= i < s.len() ==> #[trigger] entries_map(s)[s[i].0] == s[i].1,
{
    lemma_entries_dom(s);
    assert forall|i: int| 0 <= i < s.len() implies #[trigger] entries_map(s)[s[i].0] == s[i].1 by {
        lemma_entries_value(s, i);
    }
}

/// Removing one amount from a finite map takes it off the sum.
pub proof fn lemma_map_sum_remove<K>(m: Map<K, u128>, k: K)
    requires
        m.dom().finite(),
        m.dom().contains(k),
    ensures
        map_sum(m) == m[k] + map_sum(m.remove(k)),
    decreases m.dom().len(),
{
    let c = m.dom().choose();
    assert(m.dom().contains(c));
    if c != k {
        let mc = m.remove(c);
        let mk = m.remove(k);
        assert(mc.dom() =~= m.dom().remove(c));
        assert(mk.dom() =~= m.dom().remove(k));
        lemma_map_sum_remove(mc, k);
        lemma_map_sum_remove(mk, c);
        assert(mc.remove(k) =~= mk.remove(c));
    }
}

/// Giving `k` the amount `v` changes the sum by the difference to its old amount.
pub proof fn lemma_map_sum_with<K>(m: Map<K, u128>, k: K, v: u128)
    requires
        m.dom().finite(),
    ensures
        with_amount(m, k, v).dom().finite(),
        map_sum(with_amount(m, k, v)) == map_sum(m) - amount_of(m, k) + v,
{
    let r = m.remove(k);
    assert(r.dom() =~= m.dom().remove(k));
    if m.dom().contains(k) {
        lemma_map_sum_remove(m, k);
    } else {
        assert(r =~= m);
    }
    if v != 0 {
        let n = m.insert(k, v);
        assert(n.remove(k) =~= r);
        lemma_map_sum_remove(n, k);
    }
}

/// A sum of amounts is never negative.
pub proof fn lemma_map_sum_nonneg<K>(m: Map<K, u128>)
    ensures
        map_sum(m) >= 0,
    decreases m.dom().len(),
{
    if m.dom().finite() && m.dom().len() > 0 {
        let k = m.dom().choose();
        assert(m.remove(k).dom() =~= m.dom().remove(k));
        lemma_map_sum_nonneg(m.remove(k));
    }
}

/// No single amount exceeds the sum of a finite map.
pub proof fn lemma_amount_le_sum<K>(m: Map<K, u128>, k: K)
    requires
        m.dom().finite(),
    ensures
        amount_of(m, k) <= map_sum(m),
{
    lemma_map_sum_nonneg(m);
    if m.dom().contains(k) {
        lemma_map_sum_remove(m, k);
        lemma_map_sum_nonneg(m.remove(k));
    }
}

/// Giving a key an amount keeps a map free of zero entries.
pub proof fn lemma_with_amount_positive<K>(m: Map<K, u128>, k: K, v: u128)
    requires
        no_zero_amounts(m),
    ensures
        no_zero_amounts(with_amount(m, k, v)),
{
}

/// A list of entries that a table can hold: distinct keys, positive amounts.
pub open spec fn valid_entries<K>(s: Seq<(K, u128)>) -> bool {
    &&& distinct_keys(s)
    &&& forall|i: int| 0 <= i < s.len() ==> #[trigger] s[i].1 > 0
}

/// The sum of the amounts of a list of entries.
pub open spec fn entries_sum<K>(s: Seq<(K, u128)>) -> int
    decreases s.len(),
{
    if s.len() == 0 {
        0
    } else {
        entries_sum(s.drop_last()) + s.last().1
    }
}

/// A prefix of a list of entries sums to no more than the whole list.
pub proof fn lemma_entries_sum_prefix<K>(s: Seq<(K, u128)>, n: int)
    requires
        0 <= n <= s.len(),
    ensures
        entries_sum(s.take(n)) <= entries_sum(s),
    decreases s.len(),
{
    if n == s.len() {
        assert(s.take(n) =~= s);
    } else {
        lemma_entries_sum_prefix(s.drop_last(), n);
        assert(s.drop_last().take(n) =~= s.take(n));
    }
}

/// The entries of a valid list sum to the sum of the map they stand for.
pub proof fn lemma_entries_sum<K>(s: Seq<(K, u128)>)
    requires
        valid_entries(s),
    ensures
        entries_sum(s) == map_sum(entries_map(s)),
    decreases s.len(),
{
    if s.len() == 0 {
        assert(entries_map(s).dom() =~= Set::<K>::empty());
    } else {
        let p = s.drop_last();
        assert(valid_entries(p)) by {
            assert forall|a: int, b: int| 0 <= a < b < p.len() implies #[trigger] p[a].0
                != #[trigger] p[b].0 by {
                assert(p[a] == s[a] && p[b] == s[b]);
            }
            assert forall|i: int| 0 <= i < p.len() implies #[trigger] p[i].1 > 0 by {
                assert(p[i] == s[i]);
            }
        }
        lemma_entries_sum(p);
        lemma_entries_dom(p);
        assert(!entries_map(p).dom().contains(s.last().0)) by {
            if entries_map(p).dom().contains(s.last().0) {
                let i = choose|i: int| 0 <= i < p.len() && p[i].0 == s.last().0;
                assert(s[i].0 == s[s.len() - 1].0);
            }
        }
        lemma_map_sum_with(entries_map(p), s.last().0, s.last().1);
    }
}

/// One more entry of a list: what it adds to the map and to the sum of a prefix.
pub proof fn lemma_prefix_grows<K>(s: Seq<(K, u128)>, i: int)
    requires
        0 <= i < s.len(),
    ensures
        entries_map(s.take(i + 1)) == entries_map(s.take(i)).insert(s[i].0, s[i].1),
        entries_sum(s.take(i + 1)) == entries_sum(s.take(i)) + s[i].1,
{
    assert(s.take(i + 1).drop_last() =~= s.take(i));
}

/// A valid prefix stays valid when the next entry is positive and has a new key.
pub proof fn lemma_valid_prefix_grows<K>(s: Seq<(K, u128)>, i: int)
    requires
        0 <= i < s.len(),
        valid_entries(s.take(i)),
        s[i].1 > 0,
        !entries_map(s.take(i)).dom().contains(s[i].0),
    ensures
        valid_entries(s.take(i + 1)),
{
    let p = s.take(i);
    let q = s.take(i + 1);
    lemma_entries_dom(p);
    assert forall|a: int, b: int| 0 <= a < b < q.len() implies #[trigger] q[a].0
        != #[trigger] q[b].0 by {
        if b == i {
            assert(p[a].0 == q[a].0);
        } else {
            assert(p[a] == q[a] && p[b] == q[b]);
        }
    }
    assert forall|j: int| 0 <= j < q.len() implies #[trigger] q[j].1 > 0 by {
        if j < i {
            assert(p[j] == q[j]);
        }
    }
}

/// A list is not valid where an entry is zero or repeats a key of an earlier one.
pub proof fn lemma_invalid_at<K>(s: Seq<(K, u128)>, i: int)
    requires
        0 <= i < s.len(),
        s[i].1 == 0 || entries_map(s.take(i)).dom().contains(s[i].0),
    ensures
        !valid_entries(s),
{
    if s[i].1 != 0 {
        lemma_entries_dom(s.take(i));
        let j = choose|j: int| 0 <= j < i && s.take(i)[j].0 == s[i].0;
        assert(s[j].0 == s[i].0);
    }
}

/// A table of positive amounts, kept as a list of entries with distinct keys.
pub struct AmountTable<K> {
    entries: Vec<(K, u128)>,
}

impl<K> View for AmountTable<K> {
    type V = Map<K, u128>;

    closed spec fn view(&self) -> Map<K, u128> {
        entries_map(self.entries@)
    }
}

impl<K: TableKey> AmountTable<K> {
    /// The entries have distinct keys and positive amounts.
    pub closed spec fn wf(&self) -> bool {
        &&& distinct_keys(self.entries@)
        &&& forall|i: int| 0 <= i < self.entries@.len() ==> #[trigger] self.entries@[i].1 > 0
    }

    pub fn new() -> (t: Self)
        ensures
            t.wf(),
            t@ == Map::<K, u128>::empty(),
    {
        AmountTable { entries: Vec::new() }
    }

    fn find(&self, k: &K) -> (r: Option<usize>)
        ensures
            match r {
                Some(i) => i < self.entries@.len() && self.entries@[i as int].0 == *k,
                None => forall|i: int| 0 <= i < self.entries@.len() ==> self.entries@[i].0 != *k,
            },
    {
        let mut i: usize = 0;
        while i < self.entries.len()
            invariant
                i <= self.entries@.len(),
                forall|j: int| 0 <= j < i ==> self.entries@[j].0 != *k,
            decreases self.entries@.len() - i,
        {
            if self.entries[i].0.same_key(k) {
                return Some(i);
            }
            i = i + 1;
        }
        None
    }

    /// The entries of the table, each key once.
    pub fn entries(&self) -> (r: Vec<(K, u128)>)
        requires
            self.wf(),
        ensures
            valid_entries(r@),
            entries_map(r@) == self@,
    {
        let mut r: Vec<(K, u128)> = Vec::new();
        let mut i: usize = 0;
        while i < self.entries.len()
            invariant
                i <= self.entries@.len(),
                r@ == self.entries@.take(i as int),
            decreases self.entries@.len() - i,
        {
            let e = &self.entries[i];
            r.push((e.0.duplicate(), e.1));
            i = i + 1;
            assert(r@ =~= self.entries@.take(i as int));
        }
        assert(self.entries@.take(i as int) =~= self.entries@);
        r
    }

    /// The table holds an entry for `k`.
    pub fn contains(&self, k: &K) -> (r: bool)
        requires
            self.wf(),
        ensures
            r == self@.dom().contains(*k),
    {
        proof {
            lemma_entries_view(self.entries@);
        }
        self.find(k).is_some()
    }

    /// The amount recorded for `k`, zero where there is none.
    pub fn get(&self, k: &K) -> (r: u128)
        requires
            self.wf(),
        ensures
            r == amount_of(self@, *k),
    {
        proof {
            lemma_entries_view(self.entries@);
        }
        match self.find(k) {
            Some(i) => self.entries[i].1,
            None => 0,
        }
    }

    /// Records `v` for `k`; zero removes the entry.
    pub fn set(&mut self, k: K, v: u128)
        requires
            old(self).wf(),
        ensures
            final(self).wf(),
            final(self)@ == with_amount(old(self)@, k, v),
    {
        let ghost s = self.entries@;
        proof {
            lemma_entries_view(s);
        }
        match self.find(&k) {
            Some(i) => {
                if v == 0 {
                    self.entries.remove(i);
                    let ghost t = self.entries@;
                    assert(distinct_keys(t)) by {
                        assert forall|a: int, b: int| 0 <= a < b < t.len() implies #[trigger] t[a].0
                            != #[trigger] t[b].0 by {
                            let a0 = if a < i { a } else { a + 1 };
                            let b0 = if b < i { b } else { b + 1 };
                            assert(t[a] == s[a0] && t[b] == s[b0]);
                        }
                    }
                    proof {
                        lemma_entries_view(t);
                        assert forall|kk: K| #[trigger]
                            entries_map(t).dom().contains(kk) <==> entries_map(s).remove(
                                k,
                            ).dom().contains(kk) by {
                            if entries_map(t).dom().contains(kk) {
                                let j = choose|j: int| 0 <= j < t.len() && t[j].0 == kk;
                                let j0 = if j < i { j } else { j + 1 };
                                assert(s[j0].0 == kk);
                            }
                            if entries_map(s).remove(k).dom().contains(kk) {
                                let j = choose|j: int| 0 <= j < s.len() && s[j].0 == kk;
                                assert(j != i);
                                let j1 = if j < i { j } else { j - 1 };
                                assert(t[j1].0 == kk);
                            }
                        }
                        assert forall|kk: K| #[trigger]
                            entries_map(t).dom().contains(kk) implies entries_map(t)[kk]
                            == entries_map(s)[kk] by {
                            let j = choose|j: int| 0 <= j < t.len() && t[j].0 == kk;
                            let j0 = if j < i { j } else { j + 1 };
                            assert(t[j] == s[j0]);
                        }
                        assert(entries_map(t) =~= entries_map(s).remove(k));
                    }
                } else {
                    self.entries.set(i, (k, v));
                    let ghost t = self.entries@;
                    assert(distinct_keys(t)) by {
                        assert forall|a: int, b: int| 0 <= a < b < t.len() implies #[trigger] t[a].0
                            != #[trigger] t[b].0 by {
                            assert(t[a].0 == s[a].0 && t[b].0 == s[b].0);
                        }
                    }
                    proof {
                        lemma_entries_view(t);
                        assert forall|kk: K| #[trigger]
                            entries_map(t).dom().contains(kk) <==> entries_map(s).insert(
                                k,
                                v,
                            ).dom().contains(kk) by {
                            if entries_map(t).dom().contains(kk) {
                                let j = choose|j: int| 0 <= j < t.len() && t[j].0 == kk;
                                assert(s[j].0 == kk);
                            }
                            if entries_map(s).dom().contains(kk) {
                                let j = choose|j: int| 0 <= j < s.len() && s[j].0 == kk;
                                assert(t[j].0 == kk);
                            }
                            assert(t[i as int].0 == k);
                        }
                        assert forall|kk: K| #[trigger]
                            entries_map(t).dom().contains(kk) implies entries_map(t)[kk]
                            == entries_map(s).insert(k, v)[kk] by {
                            let j = choose|j: int| 0 <= j < t.len() && t[j].0 == kk;
                            if j != i {
                                assert(t[j] == s[j]);
                            }
                        }
                        assert(entries_map(t) =~= entries_map(s).insert(k, v));
                    }
                }
            },
            None => {
                if v == 0 {
                    assert(entries_map(s).remove(k) =~= entries_map(s));
                } else {
                    self.entries.push((k, v));
                    let ghost t = self.entries@;
                    assert(t.drop_last() =~= s);
                    assert(distinct_keys(t)) by {
                        assert forall|a: int, b: int| 0 <= a < b < t.len() implies #[trigger] t[a].0
                            != #[trigger] t[b].0 by {
                            assert(t[a] == s[a]);
                            if b < s.len() {
                                assert(t[b] == s[b]);
                            }
                        }
                    }
                }
            },
        }
    }
}

} // verus!
