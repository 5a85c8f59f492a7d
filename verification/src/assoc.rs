//! Lists of keyed entries, and the maps that they stand for.

use vstd::prelude::*;

verus! {

/// Whether no two entries of `entries` have the same key.
pub open spec fn distinct_keys<K, V>(entries: Seq<(K, V)>) -> bool {
    forall|i: int, j: int|
        0 <= i < j < entries.len() ==> (#[trigger] entries[i]).0 != (#[trigger] entries[j]).0
}

/// Whether `entries` holds an entry for `key`.
pub open spec fn has_key<K, V>(entries: Seq<(K, V)>, key: K) -> bool {
    exists|i: int| 0 <= i < entries.len() && (#[trigger] entries[i]).0 == key
}

/// The position of the entry for `key` in `entries`.
pub open spec fn position_of<K, V>(entries: Seq<(K, V)>, key: K) -> int {
    choose|i: int| 0 <= i < entries.len() && (#[trigger] entries[i]).0 == key
}

/// The map that a list of entries with distinct keys stands for.
pub open spec fn map_of<K, V>(entries: Seq<(K, V)>) -> Map<K, V> {
    Map::new(|key: K| has_key(entries, key), |key: K| entries[position_of(entries, key)].1)
}

/// With distinct keys, each entry is found under its own key.
pub proof fn lemma_map_of<K, V>(entries: Seq<(K, V)>)
    requires
        distinct_keys(entries),
    ensures
        forall|i: int|
            0 <= i < entries.len() ==> map_of(entries).contains_key((#[trigger] entries[i]).0)
                && map_of(entries)[entries[i].0] == entries[i].1,
        forall|key: K| #[trigger]
            map_of(entries).contains_key(key) ==> 0 <= position_of(entries, key) < entries.len()
                && entries[position_of(entries, key)].0 == key,
{
    assert forall|i: int| 0 <= i < entries.len() implies map_of(entries).contains_key(
        (#[trigger] entries[i]).0,
    ) && map_of(entries)[entries[i].0] == entries[i].1 by {
        let key = entries[i].0;
        assert(has_key(entries, key));
        let p = position_of(entries, key);
        assert(0 <= p < entries.len() && entries[p].0 == key);
        if p < i {
            assert(entries[p].0 != entries[i].0);
        }
        if i < p {
            assert(entries[i].0 != entries[p].0);
        }
    }
}

/// Replacing the value of one entry stores the new value under that
/// entry's key.
pub proof fn lemma_map_of_update<K, V>(entries: Seq<(K, V)>, at: int, value: V)
    requires
        distinct_keys(entries),
        0 <= at < entries.len(),
    ensures
        distinct_keys(entries.update(at, (entries[at].0, value))),
        map_of(entries.update(at, (entries[at].0, value))) == map_of(entries).insert(
            entries[at].0,
            value,
        ),
{
    let key = entries[at].0;
    let after = entries.update(at, (key, value));
    assert forall|i: int, j: int| 0 <= i < j < after.len() implies (#[trigger] after[i]).0 != (
    #[trigger] after[j]).0 by {
        assert(after[i].0 == entries[i].0);
        assert(after[j].0 == entries[j].0);
    }
    lemma_map_of(entries);
    lemma_map_of(after);
    assert forall|k: K| #[trigger]
        map_of(after).contains_key(k) == map_of(entries).insert(key, value).contains_key(k) by {
        if map_of(after).contains_key(k) {
            let p = position_of(after, k);
            assert(entries[p].0 == k);
        }
        if map_of(entries).contains_key(k) {
            let p = position_of(entries, k);
            assert(after[p].0 == k);
        }
        if k == key {
            assert(after[at].0 == k);
        }
    }
    assert forall|k: K| #[trigger] map_of(after).contains_key(k) implies map_of(after)[k]
        == map_of(entries).insert(key, value)[k] by {
        let p = position_of(after, k);
        assert(after[p].0 == k);
        assert(entries[p].0 == k);
        assert(map_of(entries).contains_key(entries[p].0));
        assert(map_of(after).contains_key(after[p].0));
    }
    assert(map_of(after) =~= map_of(entries).insert(key, value));
}

/// Taking one entry out removes its key and leaves the rest.
pub proof fn lemma_map_of_remove<K, V>(entries: Seq<(K, V)>, at: int)
    requires
        distinct_keys(entries),
        0 <= at < entries.len(),
    ensures
        distinct_keys(entries.remove(at)),
        map_of(entries.remove(at)) == map_of(entries).remove(entries[at].0),
{
    let key = entries[at].0;
    let after = entries.remove(at);
    assert forall|i: int, j: int| 0 <= i < j < after.len() implies (#[trigger] after[i]).0 != (
    #[trigger] after[j]).0 by {
        let bi = if i < at { i } else { i + 1 };
        let bj = if j < at { j } else { j + 1 };
        assert(after[i] == entries[bi]);
        assert(after[j] == entries[bj]);
    }
    lemma_map_of(entries);
    lemma_map_of(after);
    assert forall|k: K| #[trigger]
        map_of(after).contains_key(k) == map_of(entries).remove(key).contains_key(k) by {
        if map_of(after).contains_key(k) {
            let p = position_of(after, k);
            let bp = if p < at { p } else { p + 1 };
            assert(entries[bp] == after[p]);
            assert(map_of(entries).contains_key(entries[bp].0));
            if bp < at {
                assert(entries[bp].0 != entries[at].0);
            } else {
                assert(entries[at].0 != entries[bp].0);
            }
        }
        if map_of(entries).contains_key(k) && k != key {
            let p = position_of(entries, k);
            let ap = if p < at { p } else { p - 1 };
            assert(after[ap] == entries[p]);
            assert(map_of(after).contains_key(after[ap].0));
        }
    }
    assert forall|k: K| #[trigger] map_of(after).contains_key(k) implies map_of(after)[k]
        == map_of(entries).remove(key)[k] by {
        let p = position_of(after, k);
        let bp = if p < at { p } else { p + 1 };
        assert(entries[bp] == after[p]);
        assert(map_of(entries).contains_key(entries[bp].0));
        assert(map_of(after).contains_key(after[p].0));
    }
    assert(map_of(after) =~= map_of(entries).remove(key));
}

/// One more entry under a new key, put in at any place, stores its value
/// under that key.
pub proof fn lemma_map_of_insert<K, V>(entries: Seq<(K, V)>, at: int, key: K, value: V)
    requires
        distinct_keys(entries),
        0 <= at <= entries.len(),
        !map_of(entries).contains_key(key),
    ensures
        distinct_keys(entries.insert(at, (key, value))),
        map_of(entries.insert(at, (key, value))) == map_of(entries).insert(key, value),
{
    let after = entries.insert(at, (key, value));
    assert forall|i: int, j: int| 0 <= i < j < after.len() implies (#[trigger] after[i]).0 != (
    #[trigger] after[j]).0 by {
        let bi = if i < at { i } else { i - 1 };
        let bj = if j < at { j } else { j - 1 };
        if i != at && j != at {
            assert(after[i] == entries[bi]);
            assert(after[j] == entries[bj]);
        } else if i == at {
            assert(after[j] == entries[bj]);
            assert(has_key(entries, entries[bj].0));
        } else {
            assert(after[i] == entries[bi]);
            assert(has_key(entries, entries[bi].0));
        }
    }
    lemma_map_of(entries);
    lemma_map_of(after);
    assert forall|k: K| #[trigger]
        map_of(after).contains_key(k) == map_of(entries).insert(key, value).contains_key(k) by {
        if map_of(after).contains_key(k) && k != key {
            let p = position_of(after, k);
            let bp = if p < at { p } else { p - 1 };
            assert(entries[bp] == after[p]);
            assert(map_of(entries).contains_key(entries[bp].0));
        }
        if map_of(entries).contains_key(k) {
            let p = position_of(entries, k);
            let ap = if p < at { p } else { p + 1 };
            assert(after[ap] == entries[p]);
            assert(map_of(after).contains_key(after[ap].0));
        }
        if k == key {
            assert(after[at].0 == k);
            assert(map_of(after).contains_key(after[at].0));
        }
    }
    assert forall|k: K| #[trigger] map_of(after).contains_key(k) implies map_of(after)[k]
        == map_of(entries).insert(key, value)[k] by {
        let p = position_of(after, k);
        assert(map_of(after).contains_key(after[p].0));
        if p != at {
            let bp = if p < at { p } else { p - 1 };
            assert(entries[bp] == after[p]);
            assert(map_of(entries).contains_key(entries[bp].0));
        }
    }
    assert(map_of(after) =~= map_of(entries).insert(key, value));
}

/// Two lists with the same keys at the same positions stand for maps with the
/// same keys, and a key's values are those at its position in either list.
pub proof fn lemma_map_of_same_keys<K, V>(a: Seq<(K, V)>, b: Seq<(K, V)>)
    requires
        distinct_keys(a),
        a.len() == b.len(),
        forall|i: int| 0 <= i < a.len() ==> (#[trigger] b[i]).0 == a[i].0,
    ensures
        distinct_keys(b),
        map_of(a).dom() == map_of(b).dom(),
        forall|key: K| #[trigger]
            map_of(a).contains_key(key) ==> {
                let p = position_of(a, key);
                &&& 0 <= p < a.len()
                &&& a[p].0 == key
                &&& map_of(a)[key] == a[p].1
                &&& map_of(b)[key] == b[p].1
            },
{
    assert forall|i: int, j: int| 0 <= i < j < b.len() implies (#[trigger] b[i]).0 != (
    #[trigger] b[j]).0 by {
        assert(b[i].0 == a[i].0);
        assert(b[j].0 == a[j].0);
    }
    lemma_map_of(a);
    lemma_map_of(b);
    assert forall|key: K| map_of(a).contains_key(key) == map_of(b).contains_key(key) by {
        if map_of(a).contains_key(key) {
            let p = position_of(a, key);
            assert(b[p].0 == key);
            assert(map_of(b).contains_key(b[p].0));
        }
        if map_of(b).contains_key(key) {
            let p = position_of(b, key);
            assert(b[p].0 == a[p].0);
            assert(map_of(a).contains_key(a[p].0));
        }
    }
    assert(map_of(a).dom() =~= map_of(b).dom());
    assert forall|key: K| #[trigger] map_of(a).contains_key(key) implies ({
        let p = position_of(a, key);
        &&& 0 <= p < a.len()
        &&& a[p].0 == key
        &&& map_of(a)[key] == a[p].1
        &&& map_of(b)[key] == b[p].1
    }) by {
        let p = position_of(a, key);
        assert(b[p].0 == key);
        assert(map_of(b).contains_key(b[p].0));
    }
}

} // verus!
