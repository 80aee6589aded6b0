//! Tables kept as two sequences of one length, keys and values, in which
//! the first occurrence of a key is the one that counts.

use vstd::prelude::*;

verus! {

/// Whether `i` is the first position of `keys` that holds `key`.
pub open spec fn first_at<K>(keys: Seq<K>, key: K, i: int) -> bool {
    &&& 0 <= i < keys.len()
    &&& keys[i] == key
    &&& forall|j: int| 0 <= j < i ==> keys[j] != key
}

/// The first position of `keys` that holds `key`, where there is one.
pub open spec fn first_index<K>(keys: Seq<K>, key: K) -> int {
    choose|i: int| first_at(keys, key, i)
}

/// The map that a table stands for: each key that occurs, with the value
/// beside its first occurrence.
pub open spec fn table<K, V>(keys: Seq<K>, values: Seq<V>) -> Map<K, V> {
    Map::new(|k: K| keys.contains(k), |k: K| values[first_index(keys, k)])
}

/// A key has at most one first position.
proof fn lemma_first_index_is<K>(keys: Seq<K>, key: K, i: int)
    requires
        first_at(keys, key, i),
    ensures
        first_index(keys, key) == i,
{
    let chosen = first_index(keys, key);
    assert(first_at(keys, key, chosen));
    if chosen < i {
        assert(keys[chosen] != key);
    } else if i < chosen {
        assert(keys[i] != key);
    }
}

proof fn lemma_first_at_or_before<K>(keys: Seq<K>, key: K, n: int)
    requires
        0 <= n < keys.len(),
        keys[n] == key,
    ensures
        exists|i: int| first_at(keys, key, i),
    decreases n,
{
    if exists|j: int| 0 <= j < n && keys[j] == key {
        let j = choose|j: int| 0 <= j < n && keys[j] == key;
        lemma_first_at_or_before(keys, key, j);
    } else {
        assert(first_at(keys, key, n));
    }
}

/// A key that occurs has a first position.
proof fn lemma_first_index_exists<K>(keys: Seq<K>, key: K)
    requires
        keys.contains(key),
    ensures
        first_at(keys, key, first_index(keys, key)),
{
    let n = choose|n: int| 0 <= n < keys.len() && keys[n] == key;
    lemma_first_at_or_before(keys, key, n);
}

/// The table holds, for a key, the value beside its first position.
pub proof fn lemma_table_at<K, V>(keys: Seq<K>, values: Seq<V>, key: K, i: int)
    requires
        first_at(keys, key, i),
    ensures
        table(keys, values).contains_key(key),
        table(keys, values)[key] == values[i],
{
    lemma_first_index_is(keys, key, i);
}

/// Replacing the value beside a key's first position replaces the key's
/// value in the table.
pub proof fn lemma_table_replace<K, V>(keys: Seq<K>, values: Seq<V>, i: int, value: V)
    requires
        keys.len() == values.len(),
        first_at(keys, keys[i], i),
    ensures
        table(keys, values.update(i, value)) == table(keys, values).insert(keys[i], value),
{
    let before = table(keys, values);
    let after = table(keys, values.update(i, value));
    lemma_first_index_is(keys, keys[i], i);
    assert forall|k: K| after.contains_key(k) implies #[trigger] after[k] == before.insert(
        keys[i],
        value,
    )[k] by {
        lemma_first_index_exists(keys, k);
    }
    assert(after =~= before.insert(keys[i], value));
}

/// Appending a key that does not occur adds it to the table.
pub proof fn lemma_table_push<K, V>(keys: Seq<K>, values: Seq<V>, key: K, value: V)
    requires
        keys.len() == values.len(),
        !keys.contains(key),
    ensures
        table(keys.push(key), values.push(value)) == table(keys, values).insert(key, value),
{
    let before = table(keys, values);
    let longer = keys.push(key);
    let after = table(longer, values.push(value));
    assert(longer[keys.len() as int] == key);
    assert forall|k: K| before.insert(key, value).contains_key(k) implies after.contains_key(
        k,
    ) by {
        if k != key {
            let n = choose|n: int| 0 <= n < keys.len() && keys[n] == k;
            assert(longer[n] == k);
        }
    }
    assert forall|k: K| after.contains_key(k) implies before.insert(key, value).contains_key(k)
        && #[trigger] after[k] == before.insert(key, value)[k] by {
        let n = choose|n: int| 0 <= n < longer.len() && longer[n] == k;
        if k == key {
            assert(first_at(longer, key, keys.len() as int));
            lemma_first_index_is(longer, key, keys.len() as int);
        } else {
            assert(keys[n] == k);
            lemma_first_index_exists(keys, k);
            let i = first_index(keys, k);
            assert(first_at(longer, k, i));
            lemma_first_index_is(longer, k, i);
        }
    }
    assert(after =~= before.insert(key, value));
}

} // verus!
