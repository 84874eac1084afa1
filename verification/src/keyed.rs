//! Lists of records that stand for maps: each record has a key of its own,
//! and the list is read as the map from keys to records.

use vstd::prelude::*;

verus! {

/// The map that the records `values`, keyed by `keys`, stand for.
pub open spec fn table<V>(keys: Seq<Seq<char>>, values: Seq<V>) -> Map<Seq<char>, V> {
    Map::new(|key: Seq<char>| keys.contains(key), |key: Seq<char>| values[keys.index_of(key)])
}

/// The record at position `i` is the one the map holds under its key.
pub proof fn lemma_table_lookup<V>(keys: Seq<Seq<char>>, values: Seq<V>, i: int)
    requires
        keys.no_duplicates(),
        0 <= i < keys.len(),
    ensures
        table(keys, values).contains_key(keys[i]),
        table(keys, values)[keys[i]] == values[i],
{
    assert(keys.contains(keys[i]));
    assert(keys.index_of(keys[i]) == i);
}

/// Appending a record under a new key inserts it into the map.
pub proof fn lemma_table_push<V>(keys: Seq<Seq<char>>, values: Seq<V>, key: Seq<char>, value: V)
    requires
        keys.len() == values.len(),
        keys.no_duplicates(),
        !keys.contains(key),
    ensures
        keys.push(key).no_duplicates(),
        table(keys.push(key), values.push(value)) == table(keys, values).insert(key, value),
{
    let more_keys = keys.push(key);
    let more_values = values.push(value);
    assert forall|i: int, j: int|
        0 <= i < more_keys.len() && 0 <= j < more_keys.len() && i != j implies more_keys[i]
        != more_keys[j] by {
        if i < keys.len() {
            assert(keys.contains(keys[i]));
        }
        if j < keys.len() {
            assert(keys.contains(keys[j]));
        }
    }
    assert forall|k: Seq<char>| #[trigger]
        table(more_keys, more_values).contains_key(k) == table(keys, values).insert(
            key,
            value,
        ).contains_key(k) by {
        if keys.contains(k) {
            let i = keys.index_of(k);
            assert(more_keys[i] == k);
        }
        if more_keys.contains(k) {
            let i = more_keys.index_of(k);
            if i < keys.len() {
                assert(keys[i] == k);
            }
        }
        assert(more_keys[keys.len() as int] == key);
    }
    assert forall|k: Seq<char>| #[trigger]
        table(more_keys, more_values).contains_key(k) implies table(more_keys, more_values)[k]
        == table(keys, values).insert(key, value)[k] by {
        let i = more_keys.index_of(k);
        if i < keys.len() {
            assert(keys[i] == k);
            assert(keys.index_of(k) == i);
        }
    }
    assert(table(more_keys, more_values) =~= table(keys, values).insert(key, value));
}

/// Replacing the record at position `i` replaces what the map holds under
/// its key.
pub proof fn lemma_table_update<V>(keys: Seq<Seq<char>>, values: Seq<V>, i: int, value: V)
    requires
        keys.len() == values.len(),
        keys.no_duplicates(),
        0 <= i < keys.len(),
    ensures
        table(keys, values.update(i, value)) == table(keys, values).insert(keys[i], value),
{
    assert(keys.contains(keys[i]));
    assert forall|k: Seq<char>| #[trigger]
        table(keys, values.update(i, value)).contains_key(k) implies table(
        keys,
        values.update(i, value),
    )[k] == table(keys, values).insert(keys[i], value)[k] by {
        let j = keys.index_of(k);
        if k == keys[i] {
            assert(j == i);
        }
    }
    assert(table(keys, values.update(i, value)) =~= table(keys, values).insert(keys[i], value));
}

/// Taking the record at position `i` out of the list removes its key from
/// the map.
pub proof fn lemma_table_remove<V>(keys: Seq<Seq<char>>, values: Seq<V>, i: int)
    requires
        keys.len() == values.len(),
        keys.no_duplicates(),
        0 <= i < keys.len(),
    ensures
        keys.remove(i).no_duplicates(),
        table(keys.remove(i), values.remove(i)) == table(keys, values).remove(keys[i]),
{
    let fewer_keys = keys.remove(i);
    let fewer_values = values.remove(i);
    assert forall|a: int| 0 <= a < fewer_keys.len() implies #[trigger] fewer_keys[a] == keys[if a
        < i {
        a
    } else {
        a + 1
    }] && fewer_values[a] == values[if a < i {
        a
    } else {
        a + 1
    }] by {}
    assert forall|a: int, b: int|
        0 <= a < fewer_keys.len() && 0 <= b < fewer_keys.len() && a != b implies fewer_keys[a]
        != fewer_keys[b] by {}
    assert forall|k: Seq<char>| #[trigger]
        table(fewer_keys, fewer_values).contains_key(k) == table(keys, values).remove(
            keys[i],
        ).contains_key(k) by {
        if fewer_keys.contains(k) {
            let a = fewer_keys.index_of(k);
            let origin = if a < i {
                a
            } else {
                a + 1
            };
            assert(keys[origin] == k);
        }
        if keys.contains(k) && k != keys[i] {
            let origin = keys.index_of(k);
            let a = if origin < i {
                origin
            } else {
                origin - 1
            };
            assert(fewer_keys[a] == k);
        }
    }
    assert forall|k: Seq<char>| #[trigger]
        table(fewer_keys, fewer_values).contains_key(k) implies table(fewer_keys, fewer_values)[k]
        == table(keys, values).remove(keys[i])[k] by {
        let a = fewer_keys.index_of(k);
        let origin = if a < i {
            a
        } else {
            a + 1
        };
        assert(keys[origin] == k);
        assert(keys.index_of(k) == origin);
    }
    assert(table(fewer_keys, fewer_values) =~= table(keys, values).remove(keys[i]));
}

} // verus!
