//! Small keyed tables: entries in insertion order, no key twice.
use crate::text::same;
use vstd::prelude::*;

verus! {

// ---- entries and the map they stand for ----

pub open spec fn has_key<K, T>(s: Seq<(K, T)>, k: K) -> bool {
    exists|i: int| 0 <= i < s.len() && (#[trigger] s[i]).0 == k
}

pub open spec fn position<K, T>(s: Seq<(K, T)>, k: K) -> int {
    choose|i: int| 0 <= i < s.len() && (#[trigger] s[i]).0 == k
}

pub open spec fn distinct_keys<K, T>(s: Seq<(K, T)>) -> bool {
    forall|i: int, j: int|
        0 <= i < j < s.len() ==> (#[trigger] s[i]).0 != (#[trigger] s[j]).0
}

/// The map that a list of entries stands for.
pub open spec fn as_map<K, T>(s: Seq<(K, T)>) -> Map<K, T> {
    Map::new(|k: K| has_key(s, k), |k: K| s[position(s, k)].1)
}

/// The entries of a map whose values satisfy a predicate.
pub open spec fn kept<K, T>(m: Map<K, T>, keep: spec_fn(T) -> bool) -> Map<K, T> {
    Map::new(|k: K| m.contains_key(k) && keep(m[k]), |k: K| m[k])
}

pub proof fn lemma_entry<K, T>(s: Seq<(K, T)>, i: int)
    requires
        distinct_keys(s),
        0 <= i < s.len(),
    ensures
        as_map(s).contains_key(s[i].0),
        as_map(s)[s[i].0] == s[i].1,
        position(s, s[i].0) == i,
{
    assert(has_key(s, s[i].0));
    let p = position(s, s[i].0);
    assert(0 <= p < s.len() && s[p].0 == s[i].0);
    if p < i {
        assert(s[p].0 != s[i].0);
    } else if i < p {
        assert(s[i].0 != s[p].0);
    }
}

pub proof fn lemma_push<K, T>(s: Seq<(K, T)>, e: (K, T))
    requires
        distinct_keys(s),
        !has_key(s, e.0),
    ensures
        distinct_keys(s.push(e)),
        as_map(s.push(e)) == as_map(s).insert(e.0, e.1),
{
    let t = s.push(e);
    assert forall|i: int, j: int| 0 <= i < j < t.len() implies (#[trigger] t[i]).0 != (
    #[trigger] t[j]).0 by {
        if j == s.len() {
            assert(s[i].0 != e.0);
        } else {
            assert(s[i].0 != s[j].0);
        }
    }
    assert forall|k: K| as_map(t).contains_key(k) == as_map(s).insert(e.0, e.1).contains_key(
        k,
    ) by {
        if has_key(s, k) {
            assert(t[position(s, k)] == s[position(s, k)]);
            assert(has_key(t, k));
        }
        if k == e.0 {
            assert(t[s.len() as int].0 == k);
            assert(has_key(t, k));
        }
        if has_key(t, k) {
            let p = position(t, k);
            if p < s.len() {
                assert(s[p].0 == k);
            }
        }
    }
    assert forall|k: K| as_map(t).contains_key(k) implies as_map(t)[k] == as_map(s).insert(
        e.0,
        e.1,
    )[k] by {
        let p = position(t, k);
        lemma_entry(t, p);
        if p < s.len() {
            lemma_entry(s, p);
        }
    }
    assert(as_map(t) =~= as_map(s).insert(e.0, e.1));
}

pub proof fn lemma_update<K, T>(s: Seq<(K, T)>, i: int, v: T)
    requires
        distinct_keys(s),
        0 <= i < s.len(),
    ensures
        distinct_keys(s.update(i, (s[i].0, v))),
        as_map(s.update(i, (s[i].0, v))) == as_map(s).insert(s[i].0, v),
{
    let t = s.update(i, (s[i].0, v));
    assert(forall|j: int| 0 <= j < t.len() ==> (#[trigger] t[j]).0 == s[j].0);
    assert forall|k: K| as_map(t).contains_key(k) == as_map(s).insert(s[i].0, v).contains_key(
        k,
    ) by {
        if has_key(s, k) {
            assert(t[position(s, k)].0 == k);
        }
        if has_key(t, k) {
            assert(s[position(t, k)].0 == k);
        }
        lemma_entry(s, i);
    }
    assert forall|k: K| as_map(t).contains_key(k) implies as_map(t)[k] == as_map(s).insert(
        s[i].0,
        v,
    )[k] by {
        let p = position(t, k);
        lemma_entry(t, p);
        lemma_entry(s, p);
    }
    assert(as_map(t) =~= as_map(s).insert(s[i].0, v));
}

pub proof fn lemma_remove<K, T>(s: Seq<(K, T)>, i: int)
    requires
        distinct_keys(s),
        0 <= i < s.len(),
    ensures
        distinct_keys(s.remove(i)),
        as_map(s.remove(i)) == as_map(s).remove(s[i].0),
{
    let t = s.remove(i);
    assert forall|a: int, b: int| 0 <= a < b < t.len() implies (#[trigger] t[a]).0 != (
    #[trigger] t[b]).0 by {
        let x = if a < i {
            a
        } else {
            a + 1
        };
        let y = if b < i {
            b
        } else {
            b + 1
        };
        assert(t[a] == s[x]);
        assert(t[b] == s[y]);
        assert(s[x].0 != s[y].0);
    }
    assert forall|k: K| as_map(t).contains_key(k) == as_map(s).remove(s[i].0).contains_key(
        k,
    ) by {
        if has_key(t, k) {
            let p = position(t, k);
            let x = if p < i {
                p
            } else {
                p + 1
            };
            assert(t[p] == s[x]);
            assert(has_key(s, k));
            lemma_entry(s, x);
            lemma_entry(s, i);
        }
        if has_key(s, k) && k != s[i].0 {
            let p = position(s, k);
            let x = if p < i {
                p
            } else {
                p - 1
            };
            assert(t[x] == s[p]);
            assert(has_key(t, k));
        }
    }
    assert forall|k: K| as_map(t).contains_key(k) implies as_map(t)[k] == as_map(s).remove(
        s[i].0,
    )[k] by {
        let p = position(t, k);
        let x = if p < i {
            p
        } else {
            p + 1
        };
        assert(t[p] == s[x]);
        lemma_entry(t, p);
        lemma_entry(s, x);
    }
    assert(as_map(t) =~= as_map(s).remove(s[i].0));
}

pub proof fn lemma_size<K, T>(s: Seq<(K, T)>)
    requires
        distinct_keys(s),
    ensures
        as_map(s).dom().finite(),
        as_map(s).len() == s.len(),
    decreases s.len(),
{
    if s.len() == 0 {
        assert(as_map(s) =~= Map::<K, T>::empty());
    } else {
        let front = s.drop_last();
        assert(forall|i: int| 0 <= i < front.len() ==> front[i] == s[i]);
        assert(distinct_keys(front)) by {
            assert forall|i: int, j: int| 0 <= i < j < front.len() implies (#[trigger] front[i]).0
                != (#[trigger] front[j]).0 by {
                assert(s[i].0 != s[j].0);
            }
        }
        lemma_size(front);
        assert(!has_key(front, s.last().0)) by {
            if has_key(front, s.last().0) {
                let p = position(front, s.last().0);
                assert(s[p].0 != s[s.len() - 1].0);
            }
        }
        lemma_push(front, s.last());
        assert(front.push(s.last()) =~= s);
    }
}

// ---- the table ----

/// What a table can be keyed by.
pub trait TableKey: View + Sized {
    /// Whether two keys are the same.
    fn same_key(&self, other: &Self) -> (r: bool)
        ensures
            r == (self@ == other@),
    ;
}

impl TableKey for String {
    fn same_key(&self, other: &Self) -> (r: bool) {
        same(self.as_str(), other.as_str())
    }
}

impl TableKey for u64 {
    fn same_key(&self, other: &Self) -> (r: bool) {
        *self == *other
    }
}

impl TableKey for i64 {
    fn same_key(&self, other: &Self) -> (r: bool) {
        *self == *other
    }
}

/// A keyed table.
#[derive(Debug)]
pub struct Table<K, V> {
    pub entries: Vec<(K, V)>,
}

/// An entry with its key and value seen mathematically.
pub open spec fn seen<K: View, V: View>(e: (K, V)) -> (K::V, V::V) {
    (e.0@, e.1@)
}

impl<K: TableKey, V: View> Table<K, V> {
    /// The entries in order.
    pub open spec fn list(&self) -> Seq<(K::V, V::V)> {
        self.entries@.map_values(|e: (K, V)| seen(e))
    }

    /// No key stands twice.
    pub open spec fn wf(&self) -> bool {
        distinct_keys(self.list())
    }

    pub fn new() -> (r: Table<K, V>)
        ensures
            r.wf(),
            r@ == Map::<K::V, V::V>::empty(),
    {
        let r = Table { entries: Vec::new() };
        assert(r@ =~= Map::<K::V, V::V>::empty());
        r
    }

    pub fn len(&self) -> (r: usize)
        requires
            self.wf(),
        ensures
            self@.dom().finite(),
            r == self@.len(),
    {
        proof {
            lemma_size(self.list());
        }
        self.entries.len()
    }

    /// Where a key stands.
    pub fn find(&self, key: &K) -> (r: Option<usize>)
        requires
            self.wf(),
        ensures
            match r {
                Some(i) => i < self.entries@.len() && self.list()[i as int].0 == key@
                    && self@.contains_key(key@) && self@[key@] == self.entries@[i as int].1@,
                None => !self@.contains_key(key@),
            },
    {
        let mut i: usize = 0;
        while i < self.entries.len()
            invariant
                self.wf(),
                i <= self.entries@.len(),
                forall|j: int| 0 <= j < i ==> (#[trigger] self.list()[j]).0 != key@,
            decreases self.entries@.len() - i,
        {
            assert(self.list()[i as int] == seen(self.entries@[i as int]));
            if self.entries[i].0.same_key(key) {
                proof {
                    lemma_entry(self.list(), i as int);
                }
                return Some(i);
            }
            i = i + 1;
        }
        None
    }

    pub fn contains_key(&self, key: &K) -> (r: bool)
        requires
            self.wf(),
        ensures
            r == self@.contains_key(key@),
    {
        self.find(key).is_some()
    }

    pub fn get(&self, key: &K) -> (r: Option<&V>)
        requires
            self.wf(),
        ensures
            match r {
                Some(v) => self@.contains_key(key@) && v@ == self@[key@],
                None => !self@.contains_key(key@),
            },
    {
        match self.find(key) {
            Some(i) => Some(&self.entries[i].1),
            None => None,
        }
    }

    /// Sets the value of a key; a former value gives way.
    pub fn insert(&mut self, key: K, value: V)
        requires
            old(self).wf(),
        ensures
            final(self).wf(),
            final(self)@ == old(self)@.insert(key@, value@),
    {
        let ghost before = self.list();
        match self.find(&key) {
            Some(i) => {
                let ghost v = value@;
                self.entries[i].1 = value;
                proof {
                    lemma_update(before, i as int, v);
                    assert(self.list() =~= before.update(i as int, (before[i as int].0, v)));
                }
            },
            None => {
                let ghost e = (key@, value@);
                proof {
                    assert(!has_key(before, key@));
                    lemma_push(before, e);
                }
                self.entries.push((key, value));
                proof {
                    assert(self.list() =~= before.push(e));
                }
            },
        }
    }

    /// Removes a key and hands back its value.
    pub fn remove(&mut self, key: &K) -> (r: Option<V>)
        requires
            old(self).wf(),
        ensures
            final(self).wf(),
            final(self)@ == old(self)@.remove(key@),
            match r {
                Some(v) => old(self)@.contains_key(key@) && v@ == old(self)@[key@],
                None => !old(self)@.contains_key(key@),
            },
    {
        let ghost before = self.list();
        match self.find(key) {
            Some(i) => {
                let ghost all = self.entries@;
                let (_, value) = self.entries.remove(i);
                proof {
                    lemma_remove(before, i as int);
                    assert(self.entries@ =~= all.remove(i as int));
                    assert(self.list() =~= before.remove(i as int));
                }
                Some(value)
            },
            None => {
                assert(self@.remove(key@) =~= self@);
                None
            },
        }
    }

    /// Keeps the entries marked in `keep`, which are those whose value satisfies
    /// `p`; returns how many went.
    pub(crate) fn retain(&mut self, keep: &Vec<bool>, Ghost(p): Ghost<spec_fn(V::V) -> bool>) -> (r:
        usize)
        requires
            old(self).wf(),
            keep@.len() == old(self).entries@.len(),
            forall|i: int|
                0 <= i < keep@.len() ==> #[trigger] keep@[i] == p(old(self).list()[i].1),
        ensures
            final(self).wf(),
            final(self)@ == kept(old(self)@, p),
            old(self)@.dom().finite(),
            final(self)@.dom().finite(),
            r == old(self)@.len() - final(self)@.len(),
    {
        let ghost before = self.list();
        proof {
            lemma_size(before);
        }
        let total: usize = self.entries.len();
        let mut i: usize = 0;
        let mut gone: usize = 0;
        while i < self.entries.len()
            invariant
                self.wf(),
                distinct_keys(before),
                keep@.len() == before.len(),
                forall|j: int| 0 <= j < keep@.len() ==> #[trigger] keep@[j] == p(before[j].1),
                i <= self.entries@.len(),
                gone + self.entries@.len() == before.len(),
                total == before.len(),
                forall|j: int| 0 <= j < i ==> p((#[trigger] self.list()[j]).1),
                forall|j: int|
                    i <= j < self.list().len() ==> (#[trigger] self.list()[j]) == before[j + gone],
                forall|j: int|
                    0 <= j < self.list().len() ==> #[trigger] as_map(before).contains_pair(
                        self.list()[j].0,
                        self.list()[j].1,
                    ),
                forall|k: K::V| #[trigger]
                    as_map(before).contains_key(k) && p(as_map(before)[k]) ==> as_map(
                        self.list(),
                    ).contains_key(k),
            decreases self.entries@.len() - i,
        {
            let ghost was = self.list();
            let ghost all = self.entries@;
            proof {
                assert(was[i as int] == before[i + gone]);
                lemma_entry(was, i as int);
                assert(as_map(before).contains_pair(was[i as int].0, was[i as int].1));
            }
            if keep[i + gone] {
                i = i + 1;
            } else {
                self.entries.remove(i);
                gone = gone + 1;
                proof {
                    lemma_remove(was, i as int);
                    assert(self.entries@ =~= all.remove(i as int));
                    assert(self.list() =~= was.remove(i as int));
                    assert forall|j: int| 0 <= j < self.list().len() implies #[trigger] as_map(
                        before,
                    ).contains_pair(self.list()[j].0, self.list()[j].1) by {
                        let x = if j < i {
                            j
                        } else {
                            j + 1
                        };
                        assert(self.list()[j] == was[x]);
                        assert(as_map(before).contains_pair(was[x].0, was[x].1));
                    }
                    assert forall|j: int| 0 <= j < i implies p((#[trigger] self.list()[j]).1) by {
                        assert(self.list()[j] == was[j]);
                    }
                    assert forall|j: int| i <= j < self.list().len() implies (
                    #[trigger] self.list()[j]) == before[j + gone] by {
                        assert(self.list()[j] == was[j + 1]);
                    }
                }
            }
        }
        proof {
            let now = self.list();
            lemma_size(now);
            assert forall|k: K::V| as_map(now).contains_key(k) == kept(
                as_map(before),
                p,
            ).contains_key(k) by {
                if has_key(now, k) {
                    let q = position(now, k);
                    assert(as_map(before).contains_pair(now[q].0, now[q].1));
                    assert(p(now[q].1));
                }
            }
            assert forall|k: K::V| as_map(now).contains_key(k) implies as_map(now)[k] == kept(
                as_map(before),
                p,
            )[k] by {
                let q = position(now, k);
                lemma_entry(now, q);
                assert(as_map(before).contains_pair(now[q].0, now[q].1));
            }
            assert(as_map(now) =~= kept(as_map(before), p));
        }
        gone
    }
}

impl<K: TableKey, V: View> View for Table<K, V> {
    type V = Map<K::V, V::V>;

    open spec fn view(&self) -> Map<K::V, V::V> {
        as_map(self.list())
    }
}

} // verus!
