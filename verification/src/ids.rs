//! A table of values under 128-bit identifiers, one entry per identifier,
//! kept in the order in which identifiers first arrived.

use vstd::prelude::*;

verus! {

/// Whether no two entries share a key.
pub open spec fn unique_ids<V>(s: Seq<(u128, V)>) -> bool {
    forall|i: int, j: int| 0 <= i < j < s.len() ==> s[i].0 != s[j].0
}

/// Whether an entry has key `k`.
pub open spec fn has_id<V>(s: Seq<(u128, V)>, k: u128) -> bool {
    exists|i: int| 0 <= i < s.len() && s[i].0 == k
}

/// Position of the entry with key `k`.
pub open spec fn id_position<V>(s: Seq<(u128, V)>, k: u128) -> int {
    choose|i: int| 0 <= i < s.len() && s[i].0 == k
}

/// The value under key `k`.
pub open spec fn value_at_id<V>(s: Seq<(u128, V)>, k: u128) -> V {
    s[id_position(s, k)].1
}

/// `s` with `v` stored under `k`: in place of the entry with that key, or
/// added at the end.
pub open spec fn id_upserted<V>(s: Seq<(u128, V)>, k: u128, v: V) -> Seq<(u128, V)> {
    if has_id(s, k) {
        s.update(id_position(s, k), (k, v))
    } else {
        s.push((k, v))
    }
}

/// `s` without the entry with key `k`.
pub open spec fn without_id<V>(s: Seq<(u128, V)>, k: u128) -> Seq<(u128, V)> {
    if has_id(s, k) {
        s.remove(id_position(s, k))
    } else {
        s
    }
}

/// The entry with key `k` sits at the one position `i` that holds it.
pub proof fn lemma_id_position<V>(s: Seq<(u128, V)>, k: u128, i: int)
    requires
        unique_ids(s),
        0 <= i < s.len(),
        s[i].0 == k,
    ensures
        has_id(s, k),
        id_position(s, k) == i,
{
    let p = id_position(s, k);
    assert(s[i].0 == k);
    if p < i {
        assert(s[p].0 != s[i].0);
    } else if p > i {
        assert(s[i].0 != s[p].0);
    }
}

/// Storing under a key keeps the keys distinct.
pub proof fn lemma_id_upserted_unique<V>(s: Seq<(u128, V)>, k: u128, v: V)
    requires
        unique_ids(s),
    ensures
        unique_ids(id_upserted(s, k, v)),
        has_id(id_upserted(s, k, v), k),
        value_at_id(id_upserted(s, k, v), k) == v,
        forall|q: u128| q != k ==> (has_id(id_upserted(s, k, v), q) == has_id(s, q)),
        forall|q: u128| q != k && has_id(s, q) ==> value_at_id(id_upserted(s, k, v), q) == value_at_id(s, q),
{
    let t = id_upserted(s, k, v);
    if has_id(s, k) {
        let p = id_position(s, k);
        assert forall|a: int, b: int| 0 <= a < b < t.len() implies t[a].0 != t[b].0 by {
            assert(s[a].0 != s[b].0);
            if a == p {
                assert(s[p].0 == k);
            }
            if b == p {
                assert(s[p].0 == k);
            }
        }
        lemma_id_position(t, k, p);
        assert forall|q: u128| q != k && has_id(s, q) implies has_id(t, q) && value_at_id(t, q) == value_at_id(s, q) by {
            let i = id_position(s, q);
            lemma_id_position(s, q, i);
            assert(i != p);
            assert(t[i] == s[i]);
            lemma_id_position(t, q, i);
        }
        assert forall|q: u128| q != k && has_id(t, q) implies has_id(s, q) by {
            let i = id_position(t, q);
            assert(t[i].0 == q);
            assert(i != p);
            assert(s[i] == t[i]);
        }
    } else {
        assert forall|a: int, b: int| 0 <= a < b < t.len() implies t[a].0 != t[b].0 by {
            if b == s.len() {
                assert(s[a].0 != k);
            } else {
                assert(s[a].0 != s[b].0);
            }
        }
        lemma_id_position(t, k, s.len() as int);
        assert forall|q: u128| q != k && has_id(s, q) implies has_id(t, q) && value_at_id(t, q) == value_at_id(s, q) by {
            let i = id_position(s, q);
            lemma_id_position(s, q, i);
            assert(t[i] == s[i]);
            lemma_id_position(t, q, i);
        }
        assert forall|q: u128| q != k && has_id(t, q) implies has_id(s, q) by {
            let i = id_position(t, q);
            assert(t[i].0 == q);
            assert(i < s.len());
            assert(s[i] == t[i]);
        }
    }
}

/// Removing a key keeps the keys distinct and leaves the other entries.
pub proof fn lemma_without_id_unique<V>(s: Seq<(u128, V)>, k: u128)
    requires
        unique_ids(s),
    ensures
        unique_ids(without_id(s, k)),
        !has_id(without_id(s, k), k),
        forall|q: u128| q != k ==> (has_id(without_id(s, k), q) == has_id(s, q)),
        forall|q: u128| q != k && has_id(s, q) ==> value_at_id(without_id(s, k), q) == value_at_id(s, q),
{
    let t = without_id(s, k);
    if has_id(s, k) {
        let p = id_position(s, k);
        let idx = |a: int| if a < p { a } else { a + 1 };
        assert forall|a: int, b: int| 0 <= a < b < t.len() implies t[a].0 != t[b].0 by {
            assert(t[a] == s[idx(a)] && t[b] == s[idx(b)]);
            assert(s[idx(a)].0 != s[idx(b)].0);
        }
        assert forall|q: u128| q != k && has_id(s, q) implies has_id(t, q) && value_at_id(t, q) == value_at_id(s, q) by {
            let i = id_position(s, q);
            lemma_id_position(s, q, i);
            assert(i != p);
            let j = if i < p { i } else { i - 1 };
            assert(t[j] == s[i]);
            lemma_id_position(t, q, j);
        }
        assert forall|q: u128| has_id(t, q) implies q != k && has_id(s, q) by {
            let j = id_position(t, q);
            assert(t[j] == s[idx(j)]);
            if q == k {
                lemma_id_position(s, k, idx(j));
            }
        }
    }
}

/// Values under identifiers.
#[derive(Debug)]
pub struct IdTable<V> {
    entries: Vec<(u128, V)>,
}

impl<V> IdTable<V> {
    /// The entries, in the order their keys arrived.
    pub closed spec fn entries(&self) -> Seq<(u128, V)> {
        self.entries@
    }

    /// No two entries share a key.
    pub open spec fn well_formed(&self) -> bool {
        unique_ids(self.entries())
    }

    /// Whether key `k` is present.
    pub open spec fn contains(&self, k: u128) -> bool {
        has_id(self.entries(), k)
    }

    /// The value under key `k`.
    pub open spec fn value(&self, k: u128) -> V {
        value_at_id(self.entries(), k)
    }

    /// An empty table.
    pub fn new() -> (t: Self)
        ensures
            t.well_formed(),
            t.entries() == Seq::<(u128, V)>::empty(),
    {
        IdTable { entries: Vec::new() }
    }

    /// Number of entries.
    pub fn len(&self) -> (n: usize)
        ensures
            n == self.entries().len(),
    {
        self.entries.len()
    }

    /// Position of the entry with key `key`.
    pub fn find(&self, key: u128) -> (r: Option<usize>)
        requires
            self.well_formed(),
        ensures
            match r {
                Some(i) => i < self.entries().len() && self.entries()[i as int].0 == key && self.contains(key)
                    && id_position(self.entries(), key) == i,
                None => !self.contains(key),
            },
    {
        let mut i: usize = 0;
        while i < self.entries.len()
            invariant
                i <= self.entries@.len(),
                unique_ids(self.entries@),
                forall|j: int| 0 <= j < i ==> self.entries@[j].0 != key,
            decreases self.entries@.len() - i,
        {
            if self.entries[i].0 == key {
                proof {
                    lemma_id_position(self.entries@, key, i as int);
                }
                return Some(i);
            }
            i = i + 1;
        }
        None
    }

    /// The entry at position `i`.
    pub fn entry_at(&self, i: usize) -> (e: &(u128, V))
        requires
            i < self.entries().len(),
        ensures
            *e == self.entries()[i as int],
    {
        &self.entries[i]
    }

    /// The value under `key`, if present.
    pub fn get(&self, key: u128) -> (r: Option<&V>)
        requires
            self.well_formed(),
        ensures
            self.contains(key) ==> r == Some(&self.value(key)),
            !self.contains(key) ==> r is None,
    {
        match self.find(key) {
            Some(i) => Some(&self.entries[i].1),
            None => None,
        }
    }

    /// Stores `v` under `key`, in place of a value already there.
    pub fn insert(&mut self, key: u128, v: V)
        requires
            old(self).well_formed(),
        ensures
            final(self).well_formed(),
            final(self).entries() == id_upserted(old(self).entries(), key, v),
    {
        proof {
            lemma_id_upserted_unique(self.entries@, key, v);
        }
        match self.find(key) {
            Some(i) => {
                self.entries.set(i, (key, v));
            },
            None => {
                self.entries.push((key, v));
            },
        }
    }

    /// Replaces the value at position `i`.
    pub fn set_value_at(&mut self, i: usize, v: V)
        requires
            old(self).well_formed(),
            i < old(self).entries().len(),
        ensures
            final(self).well_formed(),
            final(self).entries() == old(self).entries().update(i as int, (old(self).entries()[i as int].0, v)),
    {
        let ghost s = self.entries@;
        let (k, _) = self.entries.remove(i);
        self.entries.insert(i, (k, v));
        proof {
            assert(self.entries@ =~= s.update(i as int, (s[i as int].0, v)));
            let t = self.entries@;
            assert forall|a: int, b: int| 0 <= a < b < t.len() implies t[a].0 != t[b].0 by {
                assert(t[a].0 == s[a].0 && t[b].0 == s[b].0);
            }
        }
    }

    /// The value at position `i`, to be changed in place.
    pub fn value_mut_at(&mut self, i: usize) -> (r: &mut V)
        requires
            old(self).well_formed(),
            i < old(self).entries().len(),
        ensures
            *r == old(self).entries()[i as int].1,
            final(self).entries() == old(self).entries().update(i as int, (old(self).entries()[i as int].0, *final(r))),
            final(self).well_formed(),
    {
        &mut self.entries[i].1
    }

    /// Takes out the entry at position `i`.
    pub fn remove_at(&mut self, i: usize) -> (e: (u128, V))
        requires
            old(self).well_formed(),
            i < old(self).entries().len(),
        ensures
            final(self).well_formed(),
            e == old(self).entries()[i as int],
            final(self).entries() == old(self).entries().remove(i as int),
            final(self).entries() == without_id(old(self).entries(), e.0),
    {
        let ghost s = self.entries@;
        proof {
            lemma_id_position(s, s[i as int].0, i as int);
            lemma_without_id_unique(s, s[i as int].0);
        }
        self.entries.remove(i)
    }

    /// Takes out the value under `key`, if present.
    pub fn remove(&mut self, key: u128) -> (r: Option<V>)
        requires
            old(self).well_formed(),
        ensures
            final(self).well_formed(),
            final(self).entries() == without_id(old(self).entries(), key),
            old(self).contains(key) ==> r == Some(old(self).value(key)),
            !old(self).contains(key) ==> r is None,
    {
        match self.find(key) {
            Some(i) => {
                let (_, v) = self.remove_at(i);
                Some(v)
            },
            None => None,
        }
    }

    /// Removes every entry.
    pub fn clear(&mut self)
        ensures
            final(self).well_formed(),
            final(self).entries() == Seq::<(u128, V)>::empty(),
    {
        self.entries.clear();
    }
}

impl IdTable<u64> {
    /// An equal copy of a table of counts.
    pub fn duplicate(&self) -> (t: Self)
        ensures
            t.entries() == self.entries(),
    {
        let mut out: Vec<(u128, u64)> = Vec::new();
        let mut i: usize = 0;
        while i < self.entries.len()
            invariant
                i <= self.entries@.len(),
                out@ == self.entries@.take(i as int),
            decreases self.entries@.len() - i,
        {
            out.push(self.entries[i]);
            proof {
                assert(out@ =~= self.entries@.take(i as int + 1));
            }
            i = i + 1;
        }
        proof {
            assert(self.entries@.take(self.entries@.len() as int) =~= self.entries@);
        }
        IdTable { entries: out }
    }
}

} // verus!
