//! Viewing a sequence of records with pairwise-distinct keys as a map.
//!
//! The store keeps its records in vectors; its contracts speak of maps. The
//! definitions and lemmas here bridge the two: how membership, lookup, push,
//! in-place update and removal on the sequence show up on the map.

use vstd::prelude::*;

verus! {

/// The map a sequence of records denotes, keyed by `key` with values `val`.
/// A later record shadows an earlier one with the same key; under
/// [`keys_distinct`] there is nothing to shadow.
pub open spec fn assoc_map<R, K, V>(s: Seq<R>, key: spec_fn(R) -> K, val: spec_fn(R) -> V) -> Map<
    K,
    V,
>
    decreases s.len(),
{
    if s.len() == 0 {
        Map::empty()
    } else {
        assoc_map(s.drop_last(), key, val).insert(key(s.last()), val(s.last()))
    }
}

/// No two records of `s` share a key.
pub open spec fn keys_distinct<R, K>(s: Seq<R>, key: spec_fn(R) -> K) -> bool {
    forall|i: int, j: int| 0 <= i < j < s.len() ==> key(#[trigger] s[i]) != key(#[trigger] s[j])
}

/// The map's domain is exactly the keys of the records.
pub proof fn lemma_assoc_contains<R, K, V>(s: Seq<R>, key: spec_fn(R) -> K, val: spec_fn(R) -> V, k: K)
    ensures
        assoc_map(s, key, val).contains_key(k) <==> exists|i: int|
            0 <= i < s.len() && key(#[trigger] s[i]) == k,
    decreases s.len(),
{
    if s.len() > 0 {
        lemma_assoc_contains(s.drop_last(), key, val, k);
        if key(s.last()) == k {
            assert(key(s[s.len() - 1]) == k);
        } else {
            if exists|i: int| 0 <= i < s.len() && key(#[trigger] s[i]) == k {
                let i = choose|i: int| 0 <= i < s.len() && key(#[trigger] s[i]) == k;
                assert(key(s.drop_last()[i]) == k);
            }
        }
    }
}

/// Looking the map up at a record's key yields that record's value.
pub proof fn lemma_assoc_index<R, K, V>(
    s: Seq<R>,
    key: spec_fn(R) -> K,
    val: spec_fn(R) -> V,
    i: int,
)
    requires
        keys_distinct(s, key),
        0 <= i < s.len(),
    ensures
        assoc_map(s, key, val).contains_key(key(s[i])),
        assoc_map(s, key, val)[key(s[i])] == val(s[i]),
    decreases s.len(),
{
    if i == s.len() - 1 {
    } else {
        assert(key(s[i]) != key(s[s.len() - 1]));
        assert(s.drop_last()[i] == s[i]);
        lemma_assoc_index(s.drop_last(), key, val, i);
    }
}

/// Appending a record with a key not yet present inserts it into the map.
pub proof fn lemma_assoc_push<R, K, V>(s: Seq<R>, key: spec_fn(R) -> K, val: spec_fn(R) -> V, r: R)
    ensures
        assoc_map(s.push(r), key, val) == assoc_map(s, key, val).insert(key(r), val(r)),
{
    assert(s.push(r).drop_last() =~= s);
    assert(s.push(r).last() == r);
}

/// Replacing the record at `i` by one with the same key updates the map at
/// that key.
pub proof fn lemma_assoc_update<R, K, V>(
    s: Seq<R>,
    key: spec_fn(R) -> K,
    val: spec_fn(R) -> V,
    i: int,
    r: R,
)
    requires
        keys_distinct(s, key),
        0 <= i < s.len(),
        key(r) == key(s[i]),
    ensures
        assoc_map(s.update(i, r), key, val) == assoc_map(s, key, val).insert(key(r), val(r)),
    decreases s.len(),
{
    let t = s.update(i, r);
    if i == s.len() - 1 {
        assert(t.drop_last() =~= s.drop_last());
        assert(t.last() == r);
        assert(assoc_map(t, key, val) == assoc_map(s.drop_last(), key, val).insert(key(r), val(r)));
        assert(assoc_map(s.drop_last(), key, val).insert(key(s.last()), val(s.last())).insert(
            key(r),
            val(r),
        ) =~= assoc_map(s.drop_last(), key, val).insert(key(r), val(r)));
    } else {
        assert(t.drop_last() =~= s.drop_last().update(i, r));
        assert(t.last() == s.last());
        assert(s.drop_last()[i] == s[i]);
        lemma_assoc_update(s.drop_last(), key, val, i, r);
        assert(key(s.last()) != key(r)) by {
            assert(key(s[i]) != key(s[s.len() - 1]));
        }
        assert(assoc_map(s.drop_last(), key, val).insert(key(r), val(r)).insert(
            key(s.last()),
            val(s.last()),
        ) =~= assoc_map(s.drop_last(), key, val).insert(key(s.last()), val(s.last())).insert(
            key(r),
            val(r),
        ));
    }
}

/// Removing the record at `i` removes its key from the map.
pub proof fn lemma_assoc_remove<R, K, V>(
    s: Seq<R>,
    key: spec_fn(R) -> K,
    val: spec_fn(R) -> V,
    i: int,
)
    requires
        keys_distinct(s, key),
        0 <= i < s.len(),
    ensures
        assoc_map(s.remove(i), key, val) == assoc_map(s, key, val).remove(key(s[i])),
    decreases s.len(),
{
    let t = s.remove(i);
    if i == s.len() - 1 {
        assert(t =~= s.drop_last());
        lemma_assoc_contains(s.drop_last(), key, val, key(s[i]));
        assert(forall|j: int|
            0 <= j < s.drop_last().len() ==> key(#[trigger] s.drop_last()[j]) != key(s[i]));
        assert(!assoc_map(s.drop_last(), key, val).contains_key(key(s[i])));
        assert(assoc_map(s.drop_last(), key, val).insert(key(s.last()), val(s.last())).remove(
            key(s[i]),
        ) =~= assoc_map(s.drop_last(), key, val));
    } else {
        assert(t.len() == s.len() - 1);
        assert(t.drop_last() =~= s.drop_last().remove(i));
        assert(t.last() == s.last());
        assert(s.drop_last()[i] == s[i]);
        lemma_assoc_remove(s.drop_last(), key, val, i);
        assert(key(s.last()) != key(s[i])) by {
            assert(key(s[i]) != key(s[s.len() - 1]));
        }
        assert(assoc_map(s.drop_last(), key, val).remove(key(s[i])).insert(
            key(s.last()),
            val(s.last()),
        ) =~= assoc_map(s.drop_last(), key, val).insert(key(s.last()), val(s.last())).remove(
            key(s[i]),
        ));
    }
}

/// Distinctness survives appending a record whose key is fresh.
pub proof fn lemma_distinct_push<R, K>(s: Seq<R>, key: spec_fn(R) -> K, r: R)
    requires
        keys_distinct(s, key),
        forall|i: int| 0 <= i < s.len() ==> key(#[trigger] s[i]) != key(r),
    ensures
        keys_distinct(s.push(r), key),
{
    let t = s.push(r);
    assert forall|i: int, j: int| 0 <= i < j < t.len() implies key(#[trigger] t[i]) != key(
        #[trigger] t[j],
    ) by {
        if j < s.len() {
            assert(t[i] == s[i] && t[j] == s[j]);
        } else {
            assert(t[j] == r && t[i] == s[i]);
        }
    }
}

/// Distinctness survives replacing a record by one with the same key.
pub proof fn lemma_distinct_update<R, K>(s: Seq<R>, key: spec_fn(R) -> K, i: int, r: R)
    requires
        keys_distinct(s, key),
        0 <= i < s.len(),
        key(r) == key(s[i]),
    ensures
        keys_distinct(s.update(i, r), key),
{
    let t = s.update(i, r);
    assert forall|a: int, b: int| 0 <= a < b < t.len() implies key(#[trigger] t[a]) != key(
        #[trigger] t[b],
    ) by {
        assert(key(t[a]) == key(s[a]) && key(t[b]) == key(s[b]));
    }
}

/// Distinctness survives removing a record.
pub proof fn lemma_distinct_remove<R, K>(s: Seq<R>, key: spec_fn(R) -> K, i: int)
    requires
        keys_distinct(s, key),
        0 <= i < s.len(),
    ensures
        keys_distinct(s.remove(i), key),
{
    let t = s.remove(i);
    assert forall|a: int, b: int| 0 <= a < b < t.len() implies key(#[trigger] t[a]) != key(
        #[trigger] t[b],
    ) by {
        let a0: int = if a < i { a } else { a + 1 };
        let b0: int = if b < i { b } else { b + 1 };
        assert(t[a] == s[a0] && t[b] == s[b0]);
        assert(key(s[a0]) != key(s[b0]));
    }
}

} // verus!
