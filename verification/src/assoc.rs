//! Association lists: a sequence of `(key, value)` entries read as a map.
//! The collections of this library keep their entries in a `Vec` whose keys
//! are pairwise distinct; the lemmas here say what pushing, replacing and
//! removing an entry does to the map.

use vstd::prelude::*;

verus! {

/// No two entries share a key.
pub open spec fn distinct_keys<K, V>(entries: Seq<(K, V)>) -> bool {
    forall|i: int, j: int| 0 <= i < j < entries.len() ==> entries[i].0 != entries[j].0
}

/// Some entry has this key.
pub open spec fn holds_key<K, V>(entries: Seq<(K, V)>, key: K) -> bool {
    exists|i: int| 0 <= i < entries.len() && (#[trigger] entries[i]).0 == key
}

/// The position of an entry with this key.
pub open spec fn position_of<K, V>(entries: Seq<(K, V)>, key: K) -> int {
    choose|i: int| 0 <= i < entries.len() && (#[trigger] entries[i]).0 == key
}

/// The map from each key of the sequence to the value that stands beside it.
pub open spec fn keyed<K, V>(entries: Seq<(K, V)>) -> Map<K, V> {
    Map::new(|key: K| holds_key(entries, key), |key: K| entries[position_of(entries, key)].1)
}

/// With distinct keys, every entry is found in the map: its key leads to its
/// value.
pub proof fn lemma_keyed_lookup<K, V>(entries: Seq<(K, V)>, i: int)
    requires
        distinct_keys(entries),
        0 <= i < entries.len(),
    ensures
        keyed(entries).contains_key(entries[i].0),
        keyed(entries)[entries[i].0] == entries[i].1,
{
    let key = entries[i].0;
    assert(holds_key(entries, key));
    let j = position_of(entries, key);
    assert(0 <= j < entries.len() && entries[j].0 == key);
    assert(j == i);
}

/// A key of the map is the key of some entry, and the map leads from it to
/// the value of the entry that `position_of` picks.
pub proof fn lemma_keyed_witness<K, V>(entries: Seq<(K, V)>, key: K) -> (i: int)
    requires
        keyed(entries).contains_key(key),
    ensures
        0 <= i < entries.len(),
        entries[i].0 == key,
        keyed(entries)[key] == entries[i].1,
{
    position_of(entries, key)
}

/// Pushing an entry with a fresh key inserts it into the map.
pub proof fn lemma_keyed_push<K, V>(entries: Seq<(K, V)>, key: K, value: V)
    requires
        distinct_keys(entries),
        !holds_key(entries, key),
    ensures
        distinct_keys(entries.push((key, value))),
        keyed(entries.push((key, value))) == keyed(entries).insert(key, value),
{
    let pushed = entries.push((key, value));
    assert forall|i: int, j: int| 0 <= i < j < pushed.len() implies pushed[i].0
        != pushed[j].0 by {
        if j == entries.len() {
            assert(entries[i].0 != key);
        }
    }
    assert forall|k: K| holds_key(pushed, k) <==> (k == key || holds_key(entries, k)) by {
        if holds_key(pushed, k) {
            let p = position_of(pushed, k);
            if p < entries.len() {
                assert(entries[p].0 == k);
            }
        }
        if holds_key(entries, k) {
            let p = position_of(entries, k);
            assert(pushed[p].0 == k);
        }
        if k == key {
            assert(pushed[entries.len() as int].0 == k);
        }
    }
    assert forall|k: K| keyed(pushed).contains_key(k) implies #[trigger] keyed(pushed)[k]
        == keyed(entries).insert(key, value)[k] by {
        let p = position_of(pushed, k);
        assert(0 <= p < pushed.len() && pushed[p].0 == k);
        lemma_keyed_lookup(pushed, p);
        if p < entries.len() {
            lemma_keyed_lookup(entries, p);
        }
    }
    assert(keyed(pushed) =~= keyed(entries).insert(key, value));
}

/// Replacing an entry by one with the same key replaces the value in the
/// map.
pub proof fn lemma_keyed_update<K, V>(entries: Seq<(K, V)>, i: int, key: K, value: V)
    requires
        distinct_keys(entries),
        0 <= i < entries.len(),
        entries[i].0 == key,
    ensures
        distinct_keys(entries.update(i, (key, value))),
        keyed(entries.update(i, (key, value))) == keyed(entries).insert(key, value),
{
    let updated = entries.update(i, (key, value));
    assert forall|a: int, b: int| 0 <= a < b < updated.len() implies updated[a].0
        != updated[b].0 by {
        assert(updated[a].0 == entries[a].0);
        assert(updated[b].0 == entries[b].0);
    }
    assert forall|k: K| holds_key(updated, k) <==> holds_key(entries, k) by {
        if holds_key(updated, k) {
            let p = position_of(updated, k);
            assert(entries[p].0 == k);
        }
        if holds_key(entries, k) {
            let p = position_of(entries, k);
            assert(updated[p].0 == k);
        }
    }
    assert(holds_key(entries, key));
    assert forall|k: K| keyed(updated).contains_key(k) implies #[trigger] keyed(updated)[k]
        == keyed(entries).insert(key, value)[k] by {
        let p = position_of(updated, k);
        assert(0 <= p < updated.len() && updated[p].0 == k);
        lemma_keyed_lookup(updated, p);
        if p != i {
            lemma_keyed_lookup(entries, p);
        }
    }
    assert(keyed(updated) =~= keyed(entries).insert(key, value));
}

/// Removing an entry removes its key from the map.
pub proof fn lemma_keyed_remove<K, V>(entries: Seq<(K, V)>, i: int)
    requires
        distinct_keys(entries),
        0 <= i < entries.len(),
    ensures
        distinct_keys(entries.remove(i)),
        keyed(entries.remove(i)) == keyed(entries).remove(entries[i].0),
{
    let removed = entries.remove(i);
    assert forall|a: int, b: int| 0 <= a < b < removed.len() implies removed[a].0
        != removed[b].0 by {
        let a0 = if a < i { a } else { a + 1 };
        let b0 = if b < i { b } else { b + 1 };
        assert(removed[a] == entries[a0]);
        assert(removed[b] == entries[b0]);
    }
    assert forall|k: K| holds_key(removed, k) <==> (holds_key(entries, k) && k
        != entries[i].0) by {
        if holds_key(removed, k) {
            let p = position_of(removed, k);
            let p0 = if p < i { p } else { p + 1 };
            assert(removed[p] == entries[p0]);
            assert(entries[p0].0 == k);
        }
        if holds_key(entries, k) && k != entries[i].0 {
            let p = position_of(entries, k);
            let p1 = if p < i { p } else { p - 1 };
            assert(removed[p1] == entries[p]);
            assert(removed[p1].0 == k);
        }
    }
    assert forall|k: K| keyed(removed).contains_key(k) implies #[trigger] keyed(removed)[k]
        == keyed(entries).remove(entries[i].0)[k] by {
        let p = position_of(removed, k);
        assert(0 <= p < removed.len() && removed[p].0 == k);
        let p0 = if p < i { p } else { p + 1 };
        assert(removed[p] == entries[p0]);
        lemma_keyed_lookup(removed, p);
        lemma_keyed_lookup(entries, p0);
    }
    assert(keyed(removed) =~= keyed(entries).remove(entries[i].0));
}

/// With distinct keys, the map has as many keys as the sequence has entries.
pub proof fn lemma_keyed_len<K, V>(entries: Seq<(K, V)>)
    requires
        distinct_keys(entries),
    ensures
        keyed(entries).dom().finite(),
        keyed(entries).dom().len() == entries.len(),
    decreases entries.len(),
{
    if entries.len() == 0 {
        assert(keyed(entries).dom() =~= Set::<K>::empty());
    } else {
        let front = entries.drop_last();
        let last = entries.last();
        assert(distinct_keys(front));
        lemma_keyed_len(front);
        if holds_key(front, last.0) {
            let p = position_of(front, last.0);
            assert(entries[p].0 == entries[entries.len() - 1].0);
        }
        lemma_keyed_push(front, last.0, last.1);
        assert(front.push((last.0, last.1)) =~= entries);
        assert(keyed(entries).dom() =~= keyed(front).dom().insert(last.0));
    }
}

/// The map of no entries is empty.
pub proof fn lemma_keyed_empty<K, V>(entries: Seq<(K, V)>)
    requires
        entries.len() == 0,
    ensures
        keyed(entries) == Map::<K, V>::empty(),
{
    assert(keyed(entries) =~= Map::<K, V>::empty());
}

} // verus!
