//! A map from texts to values, for the small tables that the taskbar keeps.

use vstd::prelude::*;
use crate::assoc;
use crate::text::{collected, str_eq};

verus! {

/// The entries with their keys as the characters they hold.
pub open spec fn keyed<V>(entries: Seq<(String, V)>) -> Seq<(Seq<char>, V)> {
    entries.map_values(|e: (String, V)| (e.0@, e.1))
}

/// Whether no two entries of `entries` have the same key.
pub open spec fn distinct_keys<V>(entries: Seq<(String, V)>) -> bool {
    assoc::distinct_keys(keyed(entries))
}

/// The position of the entry for `key` in `entries`.
pub open spec fn position_of<V>(entries: Seq<(String, V)>, key: Seq<char>) -> int {
    assoc::position_of(keyed(entries), key)
}

/// The map that a list of entries with distinct keys stands for.
pub open spec fn map_of<V>(entries: Seq<(String, V)>) -> Map<Seq<char>, V> {
    assoc::map_of(keyed(entries))
}

/// With distinct keys, each entry is found under its own key.
pub proof fn lemma_map_of<V>(entries: Seq<(String, V)>)
    requires
        distinct_keys(entries),
    ensures
        forall|i: int|
            0 <= i < entries.len() ==> map_of(entries).contains_key(
                (#[trigger] entries[i]).0@,
            ) && map_of(entries)[entries[i].0@] == entries[i].1,
        forall|key: Seq<char>| #[trigger]
            map_of(entries).contains_key(key) ==> 0 <= position_of(entries, key) < entries.len()
                && entries[position_of(entries, key)].0@ == key,
{
    assoc::lemma_map_of(keyed(entries));
    assert forall|i: int| 0 <= i < entries.len() implies map_of(entries).contains_key(
        (#[trigger] entries[i]).0@,
    ) && map_of(entries)[entries[i].0@] == entries[i].1 by {
        assert(keyed(entries)[i] == (entries[i].0@, entries[i].1));
    }
    assert forall|key: Seq<char>| #[trigger] map_of(entries).contains_key(key) implies 0
        <= position_of(entries, key) < entries.len() && entries[position_of(entries, key)].0@
        == key by {
        let p = position_of(entries, key);
        assert(keyed(entries)[p] == (entries[p].0@, entries[p].1));
    }
}

/// Replacing the value of one entry stores the new value under that
/// entry's key.
pub proof fn lemma_map_of_update<V>(entries: Seq<(String, V)>, at: int, value: V)
    requires
        distinct_keys(entries),
        0 <= at < entries.len(),
    ensures
        distinct_keys(entries.update(at, (entries[at].0, value))),
        map_of(entries.update(at, (entries[at].0, value))) == map_of(entries).insert(
            entries[at].0@,
            value,
        ),
{
    assert(keyed(entries.update(at, (entries[at].0, value))) =~= keyed(entries).update(
        at,
        (keyed(entries)[at].0, value),
    ));
    assoc::lemma_map_of_update(keyed(entries), at, value);
}

/// Taking one entry out removes its key and leaves the rest.
pub proof fn lemma_map_of_remove<V>(entries: Seq<(String, V)>, at: int)
    requires
        distinct_keys(entries),
        0 <= at < entries.len(),
    ensures
        distinct_keys(entries.remove(at)),
        map_of(entries.remove(at)) == map_of(entries).remove(entries[at].0@),
{
    assert(keyed(entries.remove(at)) =~= keyed(entries).remove(at));
    assoc::lemma_map_of_remove(keyed(entries), at);
}

/// One more entry under a new key stores its value under that key.
pub proof fn lemma_map_of_push<V>(entries: Seq<(String, V)>, key: String, value: V)
    requires
        distinct_keys(entries),
        !map_of(entries).contains_key(key@),
    ensures
        distinct_keys(entries.push((key, value))),
        map_of(entries.push((key, value))) == map_of(entries).insert(key@, value),
{
    assert(keyed(entries.push((key, value))) =~= keyed(entries).insert(
        entries.len() as int,
        (key@, value),
    ));
    assoc::lemma_map_of_insert(keyed(entries), entries.len() as int, key@, value);
}

/// A map keyed by text. It holds each key once; the order of its entries
/// carries no meaning.
#[derive(Debug)]
pub struct TextMap<V> {
    entries: Vec<(String, V)>,
}

impl<V> View for TextMap<V> {
    type V = Map<Seq<char>, V>;

    /// The map that the entries stand for.
    open spec fn view(&self) -> Map<Seq<char>, V> {
        map_of(self.entries())
    }
}

impl<V> TextMap<V> {
    /// The entries as they are stored.
    pub closed spec fn entries(&self) -> Seq<(String, V)> {
        self.entries@
    }

    /// The invariant: no key occurs twice.
    pub open spec fn wf(&self) -> bool {
        distinct_keys(self.entries())
    }

    /// An empty map.
    pub fn new() -> (map: Self)
        ensures
            map.wf(),
            map.entries() == Seq::<(String, V)>::empty(),
            map@ == Map::<Seq<char>, V>::empty(),
    {
        let map = TextMap { entries: Vec::new() };
        assert(map@ =~= Map::<Seq<char>, V>::empty());
        map
    }

    /// The map that holds the entries of `list`, a later one in place of an
    /// earlier one with the same key.
    pub fn from_entries(list: Vec<(String, V)>) -> (map: Self)
        ensures
            map.wf(),
            map@ == collected(list@),
    {
        let mut map = TextMap::new();
        for entry in it: list.into_iter()
            invariant
                it.seq() == list@,
                map.wf(),
                map@ == collected(list@.take(it.index() as int)),
        {
            let ghost i = it.index() as int;
            proof {
                assert(list@.take(i + 1).drop_last() == list@.take(i));
                assert(list@.take(i + 1).last() == entry);
            }
            map.insert(entry.0, entry.1);
        }
        proof {
            assert(list@.take(list@.len() as int) == list@);
        }
        map
    }

    /// The number of entries.
    pub fn len(&self) -> (n: usize)
        ensures
            n == self.entries().len(),
    {
        self.entries.len()
    }

    /// The value of the `i`-th entry.
    pub fn value_at(&self, i: usize) -> (value: &V)
        requires
            i < self.entries().len(),
        ensures
            *value == self.entries()[i as int].1,
    {
        &self.entries[i].1
    }

    /// Mutable access to the value of the `i`-th entry; the key stays.
    pub fn value_at_mut(&mut self, i: usize) -> (value: &mut V)
        requires
            old(self).wf(),
            i < old(self).entries().len(),
        ensures
            *value == old(self).entries()[i as int].1,
            final(self).wf(),
            final(self).entries() == old(self).entries().update(
                i as int,
                (old(self).entries()[i as int].0, *final(value)),
            ),
            final(self)@ == old(self)@.insert(old(self).entries()[i as int].0@, *final(value)),
    {
        proof {
            assert forall|v: V|
                distinct_keys(
                    #[trigger] self.entries@.update(i as int, (self.entries@[i as int].0, v)),
                ) && map_of(self.entries@.update(i as int, (self.entries@[i as int].0, v)))
                    == map_of(self.entries@).insert(self.entries@[i as int].0@, v) by {
                lemma_map_of_update(self.entries@, i as int, v);
            }
        }
        &mut self.entries[i].1
    }

    /// The position of the entry for `key`, if there is one.
    pub fn position(&self, key: &str) -> (found: Option<usize>)
        requires
            self.wf(),
        ensures
            found is Some <==> self@.contains_key(key@),
            found matches Some(i) ==> i < self.entries().len() && self.entries()[i as int].0@
                == key@,
    {
        let mut i: usize = 0;
        while i < self.entries.len()
            invariant
                i <= self.entries().len(),
                forall|j: int| 0 <= j < i ==> (#[trigger] self.entries()[j]).0@ != key@,
            decreases self.entries().len() - i,
        {
            if str_eq(self.entries[i].0.as_str(), key) {
                assert(keyed(self.entries())[i as int].0 == key@);
                return Some(i);
            }
            i += 1;
        }
        None
    }

    /// The value stored under `key`, if there is one.
    pub fn get(&self, key: &str) -> (value: Option<&V>)
        requires
            self.wf(),
        ensures
            value is Some <==> self@.contains_key(key@),
            value matches Some(v) ==> *v == self@[key@],
    {
        proof {
            lemma_map_of(self.entries());
        }
        match self.position(key) {
            Some(i) => {
                assert(self@.contains_key(self.entries()[i as int].0@));
                Some(&self.entries[i].1)
            },
            None => None,
        }
    }

    /// Stores `value` under `key`, in place of what was stored there.
    pub fn insert(&mut self, key: String, value: V)
        requires
            old(self).wf(),
        ensures
            final(self).wf(),
            final(self)@ == old(self)@.insert(key@, value),
    {
        let ghost before = self.entries@;
        match self.position(key.as_str()) {
            Some(i) => {
                self.entries[i].1 = value;
                proof {
                    assert(self.entries@ == before.update(i as int, (before[i as int].0, value)));
                    lemma_map_of_update(before, i as int, value);
                }
            },
            None => {
                self.entries.push((key, value));
                proof {
                    lemma_map_of_push(before, key, value);
                }
            },
        }
    }

    /// Removes the `i`-th entry; the entries behind it move up.
    pub fn remove_at(&mut self, i: usize)
        requires
            old(self).wf(),
            i < old(self).entries().len(),
        ensures
            final(self).wf(),
            final(self).entries() == old(self).entries().remove(i as int),
            final(self)@ == old(self)@.remove(old(self).entries()[i as int].0@),
    {
        proof {
            lemma_map_of_remove(self.entries@, i as int);
        }
        let _ = self.entries.remove(i);
    }

    /// Removes the entry for `key`, if there is one.
    pub fn remove(&mut self, key: &str)
        requires
            old(self).wf(),
        ensures
            final(self).wf(),
            final(self)@ == old(self)@.remove(key@),
    {
        match self.position(key) {
            Some(i) => {
                self.remove_at(i);
            },
            None => {
                assert(self@ =~= self@.remove(key@));
            },
        }
    }
}

} // verus!
