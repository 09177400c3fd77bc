//! Lists of key and value pairs read as maps: the first pair with a key is
//! the one that counts.

use vstd::prelude::*;

verus! {

/// The map that a list of pairs amounts to: each key with the value of its
/// first pair.
pub open spec fn first_wins<K, V>(entries: Seq<(K, V)>) -> Map<K, V>
    decreases entries.len(),
{
    if entries.len() == 0 {
        Map::empty()
    } else {
        let rest = first_wins(entries.drop_last());
        let last = entries.last();
        if rest.contains_key(last.0) {
            rest
        } else {
            rest.insert(last.0, last.1)
        }
    }
}

/// A key that no pair has is not in the map.
pub proof fn lemma_first_wins_absent<K, V>(entries: Seq<(K, V)>, key: K)
    requires
        forall|j: int| 0 <= j < entries.len() ==> entries[j].0 != key,
    ensures
        !first_wins(entries).contains_key(key),
    decreases entries.len(),
{
    if entries.len() > 0 {
        lemma_first_wins_absent(entries.drop_last(), key);
    }
}

/// The first pair with a key gives the key's value.
pub proof fn lemma_first_wins_first<K, V>(entries: Seq<(K, V)>, i: int)
    requires
        0 <= i < entries.len(),
        forall|j: int| 0 <= j < i ==> entries[j].0 != entries[i].0,
    ensures
        first_wins(entries).contains_key(entries[i].0),
        first_wins(entries)[entries[i].0] == entries[i].1,
    decreases entries.len(),
{
    let rest = entries.drop_last();
    if i == entries.len() - 1 {
        lemma_first_wins_absent(rest, entries[i].0);
    } else {
        lemma_first_wins_first(rest, i);
    }
}

/// A pair added at the end counts only for a key that is new.
pub proof fn lemma_first_wins_push<K, V>(entries: Seq<(K, V)>, key: K, value: V)
    ensures
        first_wins(entries.push((key, value))) == if first_wins(entries).contains_key(key) {
            first_wins(entries)
        } else {
            first_wins(entries).insert(key, value)
        },
{
    assert(entries.push((key, value)).drop_last() =~= entries);
}

/// Replacing the value of the first pair with a key replaces the key's value
/// in the map.
pub proof fn lemma_first_wins_update<K, V>(entries: Seq<(K, V)>, i: int, value: V)
    requires
        0 <= i < entries.len(),
        forall|j: int| 0 <= j < i ==> entries[j].0 != entries[i].0,
    ensures
        first_wins(entries.update(i, (entries[i].0, value))) == first_wins(entries).insert(
            entries[i].0,
            value,
        ),
    decreases entries.len(),
{
    let key = entries[i].0;
    let updated = entries.update(i, (key, value));
    let rest = entries.drop_last();
    if i == entries.len() - 1 {
        lemma_first_wins_absent(rest, key);
        assert(updated.drop_last() =~= rest);
        assert(first_wins(updated) =~= first_wins(entries).insert(key, value));
    } else {
        lemma_first_wins_update(rest, i, value);
        lemma_first_wins_first(rest, i);
        assert(updated.drop_last() =~= rest.update(i, (key, value)));
        assert(first_wins(updated) =~= first_wins(entries).insert(key, value));
    }
}

/// A pair put in front counts for its key, whatever follows.
pub proof fn lemma_first_wins_prepend<K, V>(entries: Seq<(K, V)>, key: K, value: V)
    ensures
        first_wins(seq![(key, value)] + entries) == first_wins(entries).insert(key, value),
    decreases entries.len(),
{
    let whole = seq![(key, value)] + entries;
    if entries.len() == 0 {
        assert(whole.drop_last() =~= entries);
        assert(whole.last() == (key, value));
    } else {
        lemma_first_wins_prepend(entries.drop_last(), key, value);
        assert(whole.drop_last() =~= seq![(key, value)] + entries.drop_last());
        assert(whole.last() == entries.last());
        assert(first_wins(whole) =~= first_wins(entries).insert(key, value));
    }
}

} // verus!
