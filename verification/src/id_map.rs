//! A map from numeric identifiers to records that keeps its entries in
//! ascending order of identifier.

use vstd::prelude::*;
use crate::assoc::{distinct_keys, map_of, position_of};

verus! {

/// Whether the keys of `entries` strictly ascend.
pub open spec fn ascending<T>(entries: Seq<(u64, T)>) -> bool {
    forall|i: int, j: int| 0 <= i < j < entries.len() ==> entries[i].0 < entries[j].0
}

/// Keys that ascend are distinct.
pub proof fn lemma_ascending_distinct<T>(entries: Seq<(u64, T)>)
    requires
        ascending(entries),
    ensures
        distinct_keys(entries),
{
    assert forall|i: int, j: int| 0 <= i < j < entries.len() implies (#[trigger] entries[i]).0 != (
    #[trigger] entries[j]).0 by {
        assert(entries[i].0 < entries[j].0);
    }
}

/// With ascending keys, each entry is found under its own key.
pub proof fn lemma_map_of<T>(entries: Seq<(u64, T)>)
    requires
        ascending(entries),
    ensures
        forall|i: int|
            0 <= i < entries.len() ==> map_of(entries).contains_key((#[trigger] entries[i]).0)
                && map_of(entries)[entries[i].0] == entries[i].1,
        forall|key: u64| #[trigger]
            map_of(entries).contains_key(key) ==> 0 <= position_of(entries, key) < entries.len()
                && entries[position_of(entries, key)].0 == key,
{
    lemma_ascending_distinct(entries);
    crate::assoc::lemma_map_of(entries);
}

/// Replacing the value of one entry stores the new value under that
/// entry's key, and the keys ascend as before.
pub proof fn lemma_map_of_update<T>(entries: Seq<(u64, T)>, at: int, value: T)
    requires
        ascending(entries),
        0 <= at < entries.len(),
    ensures
        ascending(entries.update(at, (entries[at].0, value))),
        map_of(entries.update(at, (entries[at].0, value))) == map_of(entries).insert(
            entries[at].0,
            value,
        ),
{
    let after = entries.update(at, (entries[at].0, value));
    assert forall|i: int, j: int| 0 <= i < j < after.len() implies after[i].0 < after[j].0 by {
        assert(after[i].0 == entries[i].0);
        assert(after[j].0 == entries[j].0);
    }
    lemma_ascending_distinct(entries);
    crate::assoc::lemma_map_of_update(entries, at, value);
}

/// Two lists with the same ascending keys at the same positions stand for
/// maps with the same keys, and a key's values are those at its position in
/// either list.
pub proof fn lemma_map_of_same_keys<T>(a: Seq<(u64, T)>, b: Seq<(u64, T)>)
    requires
        ascending(a),
        a.len() == b.len(),
        forall|i: int| 0 <= i < a.len() ==> (#[trigger] b[i]).0 == a[i].0,
    ensures
        ascending(b),
        map_of(a).dom() == map_of(b).dom(),
        forall|key: u64| #[trigger]
            map_of(a).contains_key(key) ==> {
                let p = position_of(a, key);
                &&& 0 <= p < a.len()
                &&& a[p].0 == key
                &&& map_of(a)[key] == a[p].1
                &&& map_of(b)[key] == b[p].1
            },
{
    assert forall|i: int, j: int| 0 <= i < j < b.len() implies b[i].0 < b[j].0 by {
        assert(b[i].0 == a[i].0);
        assert(b[j].0 == a[j].0);
    }
    lemma_ascending_distinct(a);
    crate::assoc::lemma_map_of_same_keys(a, b);
}

/// A map keyed by `u64` identifiers, iterated in ascending order of key.
#[derive(Debug)]
pub struct IdMap<T> {
    entries: Vec<(u64, T)>,
}

impl<T> IdMap<T> {
    /// The entries in iteration order.
    pub closed spec fn entries(&self) -> Seq<(u64, T)> {
        self.entries@
    }

    /// The invariant: keys strictly ascend, so none occurs twice.
    pub open spec fn wf(&self) -> bool {
        ascending(self.entries())
    }

    /// An empty map.
    pub fn new() -> (map: Self)
        ensures
            map.wf(),
            map.entries() == Seq::<(u64, T)>::empty(),
            map@ == Map::<u64, T>::empty(),
    {
        let map = IdMap { entries: Vec::new() };
        assert(map@ =~= Map::<u64, T>::empty());
        map
    }

    /// The number of entries.
    pub fn len(&self) -> (n: usize)
        ensures
            n == self.entries().len(),
    {
        self.entries.len()
    }

    /// The value of the `i`-th entry in ascending order.
    pub fn value_at(&self, i: usize) -> (value: &T)
        requires
            i < self.entries().len(),
        ensures
            *value == self.entries()[i as int].1,
    {
        &self.entries[i].1
    }

    /// Mutable access to the value of the `i`-th entry; the key stays.
    pub fn value_at_mut(&mut self, i: usize) -> (value: &mut T)
        requires
            old(self).wf(),
            i < old(self).entries().len(),
        ensures
            *value == old(self).entries()[i as int].1,
            final(self).wf(),
            final(self).entries() == old(self).entries().update(
                i as int,
                (old(self).entries()[i as int].0, *final(value)),
            ),
            final(self)@ == old(self)@.insert(old(self).entries()[i as int].0, *final(value)),
    {
        proof {
            assert forall|v: T| #![auto]
                ascending(self.entries@.update(i as int, (self.entries@[i as int].0, v)))
                    && map_of(self.entries@.update(i as int, (self.entries@[i as int].0, v)))
                    == map_of(self.entries@).insert(self.entries@[i as int].0, v) by {
                lemma_map_of_update(self.entries@, i as int, v);
            }
        }
        &mut self.entries[i].1
    }

    /// The first position whose key is not below `key`.
    fn lower_bound(&self, key: u64) -> (at: usize)
        requires
            self.wf(),
        ensures
            at <= self.entries().len(),
            forall|i: int| 0 <= i < at ==> self.entries()[i].0 < key,
            forall|i: int| at <= i < self.entries().len() ==> self.entries()[i].0 >= key,
    {
        let mut at: usize = 0;
        while at < self.entries.len() && self.entries[at].0 < key
            invariant
                self.wf(),
                at <= self.entries().len(),
                forall|i: int| 0 <= i < at ==> self.entries()[i].0 < key,
            decreases self.entries().len() - at,
        {
            at += 1;
        }
        at
    }

    /// The position of the entry for `key`, if there is one.
    pub fn position(&self, key: u64) -> (found: Option<usize>)
        requires
            self.wf(),
        ensures
            found is Some <==> self@.contains_key(key),
            found matches Some(i) ==> i < self.entries().len() && self.entries()[i as int].0
                == key,
    {
        let at = self.lower_bound(key);
        proof {
            lemma_map_of(self.entries());
        }
        if at < self.entries.len() && self.entries[at].0 == key {
            Some(at)
        } else {
            proof {
                if self@.contains_key(key) {
                    let p = position_of(self.entries(), key);
                    assert(self.entries()[p].0 == key);
                }
            }
            None
        }
    }

    /// The value stored under `key`, if there is one.
    pub fn get(&self, key: u64) -> (value: Option<&T>)
        requires
            self.wf(),
        ensures
            value is Some <==> self@.contains_key(key),
            value matches Some(v) ==> *v == self@[key],
    {
        proof {
            lemma_map_of(self.entries());
        }
        match self.position(key) {
            Some(i) => Some(&self.entries[i].1),
            None => None,
        }
    }

    /// Stores `value` under `key`, in place of what was stored there.
    pub fn insert(&mut self, key: u64, value: T)
        requires
            old(self).wf(),
        ensures
            final(self).wf(),
            final(self)@ == old(self)@.insert(key, value),
    {
        let at = self.lower_bound(key);
        let ghost before = self.entries@;
        if at < self.entries.len() && self.entries[at].0 == key {
            self.entries[at].1 = value;
            proof {
                assert(self.entries@ == before.update(at as int, (key, value)));
                lemma_map_of_update(before, at as int, value);
            }
        } else {
            self.entries.insert(at, (key, value));
            proof {
                let after = self.entries@;
                assert(after == before.insert(at as int, (key, value)));
                assert forall|i: int, j: int| 0 <= i < j < after.len() implies after[i].0
                    < after[j].0 by {
                    let bi = if i < at { i } else { i - 1 };
                    let bj = if j < at { j } else { j - 1 };
                    if i != at && j != at {
                        assert(after[i] == before[bi]);
                        assert(after[j] == before[bj]);
                    }
                }
                lemma_map_of(before);
                if map_of(before).contains_key(key) {
                    assert(before[position_of(before, key)].0 == key);
                }
                lemma_ascending_distinct(before);
                crate::assoc::lemma_map_of_insert(before, at as int, key, value);
            }
        }
    }

    /// Removes the entry for `key`, if there is one.
    pub fn remove(&mut self, key: u64)
        requires
            old(self).wf(),
        ensures
            final(self).wf(),
            final(self)@ == old(self)@.remove(key),
    {
        let at = self.lower_bound(key);
        let ghost before = self.entries@;
        proof {
            lemma_map_of(before);
        }
        if at < self.entries.len() && self.entries[at].0 == key {
            let _ = self.entries.remove(at);
            proof {
                let after = self.entries@;
                assert(after == before.remove(at as int));
                assert forall|i: int, j: int| 0 <= i < j < after.len() implies after[i].0
                    < after[j].0 by {
                    let bi = if i < at { i } else { i + 1 };
                    let bj = if j < at { j } else { j + 1 };
                    assert(after[i] == before[bi]);
                    assert(after[j] == before[bj]);
                }
                lemma_ascending_distinct(before);
                crate::assoc::lemma_map_of_remove(before, at as int);
            }
        } else {
            proof {
                if map_of(before).contains_key(key) {
                    let p = position_of(before, key);
                    assert(before[p].0 == key);
                }
                assert(map_of(before) =~= map_of(before).remove(key));
            }
        }
    }
}

impl<T> View for IdMap<T> {
    type V = Map<u64, T>;

    /// The map that the entries stand for.
    open spec fn view(&self) -> Map<u64, T> {
        map_of(self.entries())
    }
}

} // verus!
