//! The supervisor keeps its per-container state in vectors of entries keyed
//! by a container id. This module gives such a vector its mathematical
//! meaning: a map from key to value, built by inserting the entries in order.
//! The lemmas here relate the usual vector edits (push, update, remove) to
//! the corresponding map operations, provided the keys are distinct.
use vstd::prelude::*;

verus! {

/// The map described by a sequence of entries, keyed and valued by the two
/// projections. Later entries win, as with repeated map inserts.
pub open spec fn map_of<E, V>(
    s: Seq<E>,
    key: spec_fn(E) -> Seq<char>,
    val: spec_fn(E) -> V,
) -> Map<Seq<char>, V>
    decreases s.len(),
{
    if s.len() == 0 {
        Map::empty()
    } else {
        map_of(s.drop_last(), key, val).insert(key(s.last()), val(s.last()))
    }
}

/// No two entries share a key.
pub open spec fn keys_unique<E>(s: Seq<E>, key: spec_fn(E) -> Seq<char>) -> bool {
    forall|i: int, j: int| 0 <= i < j < s.len() ==> key(s[i]) != key(s[j])
}

/// A key is in the map exactly when some entry carries it.
pub proof fn lemma_map_of_contains<E, V>(
    s: Seq<E>,
    key: spec_fn(E) -> Seq<char>,
    val: spec_fn(E) -> V,
    k: Seq<char>,
)
    ensures
        map_of(s, key, val).contains_key(k) <==> exists|i: int|
            0 <= i < s.len() && key(#[trigger] s[i]) == k,
    decreases s.len(),
{
    if s.len() > 0 {
        lemma_map_of_contains(s.drop_last(), key, val, k);
        if key(s.last()) == k {
            assert(key(s[s.len() - 1]) == k);
        } else if map_of(s, key, val).contains_key(k) {
            let i = choose|i: int| 0 <= i < s.drop_last().len() && key(#[trigger] s.drop_last()[i]) == k;
            assert(key(s[i]) == k);
        } else {
            assert forall|i: int| 0 <= i < s.len() && key(#[trigger] s[i]) == k implies false by {
                assert(i < s.len() - 1 ==> s.drop_last()[i] == s[i]);
            }
        }
    }
}

/// With distinct keys, the map sends each entry's key to that entry's value.
pub proof fn lemma_map_of_index<E, V>(
    s: Seq<E>,
    key: spec_fn(E) -> Seq<char>,
    val: spec_fn(E) -> V,
    i: int,
)
    requires
        keys_unique(s, key),
        0 <= i < s.len(),
    ensures
        map_of(s, key, val).contains_key(key(s[i])),
        map_of(s, key, val)[key(s[i])] == val(s[i]),
    decreases s.len(),
{
    if i == s.len() - 1 {
    } else {
        assert(keys_unique(s.drop_last(), key)) by {
            assert(forall|m: int, n: int|
                0 <= m < n < s.drop_last().len() ==> key(#[trigger] s.drop_last()[m])
                    != key(#[trigger] s.drop_last()[n]));
        }
        assert(s.drop_last()[i] == s[i]);
        lemma_map_of_index(s.drop_last(), key, val, i);
        assert(key(s[i]) != key(s.last()));
    }
}

/// Appending an entry inserts its key and value.
pub proof fn lemma_map_of_push<E, V>(
    s: Seq<E>,
    key: spec_fn(E) -> Seq<char>,
    val: spec_fn(E) -> V,
    e: E,
)
    ensures
        map_of(s.push(e), key, val) == map_of(s, key, val).insert(key(e), val(e)),
{
    assert(s.push(e).drop_last() =~= s);
    assert(s.push(e).last() == e);
}

/// Overwriting the entry at `i` with one of the same key updates that key's
/// value and nothing else.
pub proof fn lemma_map_of_update<E, V>(
    s: Seq<E>,
    key: spec_fn(E) -> Seq<char>,
    val: spec_fn(E) -> V,
    i: int,
    e: E,
)
    requires
        keys_unique(s, key),
        0 <= i < s.len(),
        key(e) == key(s[i]),
    ensures
        map_of(s.update(i, e), key, val) =~= map_of(s, key, val).insert(key(e), val(e)),
    decreases s.len(),
{
    let t = s.update(i, e);
    if i == s.len() - 1 {
        assert(t.drop_last() =~= s.drop_last());
        assert(t.last() == e);
    } else {
        assert(keys_unique(s.drop_last(), key)) by {
            assert(forall|m: int, n: int|
                0 <= m < n < s.drop_last().len() ==> key(#[trigger] s.drop_last()[m])
                    != key(#[trigger] s.drop_last()[n]));
        }
        assert(t.drop_last() =~= s.drop_last().update(i, e));
        assert(t.last() == s.last());
        assert(s.drop_last()[i] == s[i]);
        lemma_map_of_update(s.drop_last(), key, val, i, e);
        assert(key(s[i]) != key(s[s.len() - 1]));
    }
}

/// Removing the entry at `i` removes exactly its key from the map.
pub proof fn lemma_map_of_remove<E, V>(
    s: Seq<E>,
    key: spec_fn(E) -> Seq<char>,
    val: spec_fn(E) -> V,
    i: int,
)
    requires
        keys_unique(s, key),
        0 <= i < s.len(),
    ensures
        map_of(s.remove(i), key, val) =~= map_of(s, key, val).remove(key(s[i])),
    decreases s.len(),
{
    let t = s.remove(i);
    if i == s.len() - 1 {
        assert(t =~= s.drop_last());
        assert(!map_of(s.drop_last(), key, val).contains_key(key(s[i]))) by {
            lemma_map_of_contains(s.drop_last(), key, val, key(s[i]));
            assert(forall|m: int|
                0 <= m < s.drop_last().len() ==> key(#[trigger] s.drop_last()[m]) != key(s[i]));
        }
    } else {
        assert(keys_unique(s.drop_last(), key)) by {
            assert(forall|m: int, n: int|
                0 <= m < n < s.drop_last().len() ==> key(#[trigger] s.drop_last()[m])
                    != key(#[trigger] s.drop_last()[n]));
        }
        assert(t.drop_last() =~= s.drop_last().remove(i));
        assert(t.last() == s.last());
        assert(s.drop_last()[i] == s[i]);
        lemma_map_of_remove(s.drop_last(), key, val, i);
        assert(key(s[i]) != key(s[s.len() - 1]));
    }
}

/// Distinct keys survive overwriting an entry with one of the same key.
pub proof fn lemma_keys_unique_update<E>(s: Seq<E>, key: spec_fn(E) -> Seq<char>, i: int, e: E)
    requires
        keys_unique(s, key),
        0 <= i < s.len(),
        key(e) == key(s[i]),
    ensures
        keys_unique(s.update(i, e), key),
{
    assert(forall|m: int|
        0 <= m < s.len() && m != i ==> #[trigger] s.update(i, e)[m] == s[m]);
}

/// Distinct keys survive appending an entry whose key no entry carries.
pub proof fn lemma_keys_unique_push<E>(s: Seq<E>, key: spec_fn(E) -> Seq<char>, e: E)
    requires
        keys_unique(s, key),
        forall|m: int| 0 <= m < s.len() ==> key(#[trigger] s[m]) != key(e),
    ensures
        keys_unique(s.push(e), key),
{
    assert(forall|m: int| 0 <= m < s.len() ==> #[trigger] s.push(e)[m] == s[m]);
}

/// Distinct keys survive removing an entry.
pub proof fn lemma_keys_unique_remove<E>(s: Seq<E>, key: spec_fn(E) -> Seq<char>, i: int)
    requires
        keys_unique(s, key),
        0 <= i < s.len(),
    ensures
        keys_unique(s.remove(i), key),
{
    assert(forall|m: int|
        0 <= m < s.remove(i).len() ==> #[trigger] s.remove(i)[m] == if m < i {
            s[m]
        } else {
            s[m + 1]
        });
}

/// A key carried by no entry is not in the map.
pub proof fn lemma_map_of_absent<E, V>(
    s: Seq<E>,
    key: spec_fn(E) -> Seq<char>,
    val: spec_fn(E) -> V,
    k: Seq<char>,
)
    requires
        forall|i: int| 0 <= i < s.len() ==> key(#[trigger] s[i]) != k,
    ensures
        !map_of(s, key, val).contains_key(k),
{
    lemma_map_of_contains(s, key, val, k);
}

} // verus!
