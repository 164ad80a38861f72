//! The deterministic-addressing store model.
//!
//! Each record kind is held in a vector whose elements carry their own key
//! (a company its authority, an employee its company and wallet, a proof its
//! company, wallet and payment id). `assoc_map` reads such a vector as the
//! finite map from key to record; `keys_unique` is the store invariant that
//! makes the reading faithful: same key, same slot, and a second record for
//! an occupied key is a collision. The lemmas here connect the three ways a
//! store changes — a record appended, a record replaced in place — to plain
//! map insertion, and a linear search to plain map lookup.

use vstd::prelude::*;

verus! {

/// The finite map a keyed vector denotes: every element under its own key,
/// later elements shadowing earlier ones (the store invariant rules
/// shadowing out).
pub open spec fn assoc_map<K, T>(s: Seq<T>, key: spec_fn(T) -> K) -> Map<K, T>
    decreases s.len(),
{
    if s.len() == 0 {
        Map::empty()
    } else {
        assoc_map(s.drop_last(), key).insert(key(s.last()), s.last())
    }
}

/// No two elements carry the same key.
pub open spec fn keys_unique<K, T>(s: Seq<T>, key: spec_fn(T) -> K) -> bool {
    forall|i: int, j: int|
        0 <= i < s.len() && 0 <= j < s.len() && i != j ==> key(s[i]) != key(s[j])
}

/// The map holds a key exactly when some element carries it.
pub proof fn lemma_assoc_contains<K, T>(s: Seq<T>, key: spec_fn(T) -> K, k: K)
    ensures
        assoc_map(s, key).contains_key(k) <==> exists|i: int|
            0 <= i < s.len() && key(s[i]) == k,
    decreases s.len(),
{
    if s.len() > 0 {
        lemma_assoc_contains(s.drop_last(), key, k);
        if key(s.last()) == k {
            assert(key(s[s.len() - 1]) == k);
        } else if assoc_map(s, key).contains_key(k) {
            let i = choose|i: int| 0 <= i < s.drop_last().len() && key(s.drop_last()[i]) == k;
            assert(s.drop_last()[i] == s[i]);
        } else if exists|i: int| 0 <= i < s.len() && key(s[i]) == k {
            let i = choose|i: int| 0 <= i < s.len() && key(s[i]) == k;
            assert(i < s.len() - 1);
            assert(s.drop_last()[i] == s[i]);
        }
    }
}

/// Under the store invariant, the element at any index is what the map holds
/// for that element's key.
pub proof fn lemma_assoc_at<K, T>(s: Seq<T>, key: spec_fn(T) -> K, i: int)
    requires
        keys_unique(s, key),
        0 <= i < s.len(),
    ensures
        assoc_map(s, key).contains_key(key(s[i])),
        assoc_map(s, key)[key(s[i])] == s[i],
    decreases s.len(),
{
    if i == s.len() - 1 {
        assert(s.last() == s[i]);
    } else {
        assert forall|a: int, b: int|
            0 <= a < s.drop_last().len() && 0 <= b < s.drop_last().len() && a != b implies key(
            s.drop_last()[a],
        ) != key(s.drop_last()[b]) by {
            assert(s.drop_last()[a] == s[a]);
            assert(s.drop_last()[b] == s[b]);
        }
        assert(s.drop_last()[i] == s[i]);
        lemma_assoc_at(s.drop_last(), key, i);
        assert(key(s[s.len() - 1]) != key(s[i]));
        assert(s.last() == s[s.len() - 1]);
    }
}

/// Appending a record is map insertion of its key.
pub proof fn lemma_assoc_push<K, T>(s: Seq<T>, key: spec_fn(T) -> K, t: T)
    ensures
        assoc_map(s.push(t), key) == assoc_map(s, key).insert(key(t), t),
{
    assert(s.push(t).drop_last() =~= s);
    assert(s.push(t).last() == t);
}

/// Replacing the record at an index, keeping its key, is map insertion of
/// that key.
pub proof fn lemma_assoc_update<K, T>(s: Seq<T>, key: spec_fn(T) -> K, i: int, t: T)
    requires
        keys_unique(s, key),
        0 <= i < s.len(),
        key(t) == key(s[i]),
    ensures
        assoc_map(s.update(i, t), key) == assoc_map(s, key).insert(key(t), t),
    decreases s.len(),
{
    let su = s.update(i, t);
    if i == s.len() - 1 {
        assert(su.drop_last() =~= s.drop_last());
        assert(su.last() == t);
        assert(assoc_map(s.drop_last(), key).insert(key(t), t) =~= assoc_map(s, key).insert(
            key(t),
            t,
        ));
    } else {
        assert forall|a: int, b: int|
            0 <= a < s.drop_last().len() && 0 <= b < s.drop_last().len() && a != b implies key(
            s.drop_last()[a],
        ) != key(s.drop_last()[b]) by {
            assert(s.drop_last()[a] == s[a]);
            assert(s.drop_last()[b] == s[b]);
        }
        assert(s.drop_last()[i] == s[i]);
        lemma_assoc_update(s.drop_last(), key, i, t);
        assert(su.drop_last() =~= s.drop_last().update(i, t));
        assert(su.last() == s.last());
        assert(key(s.last()) == key(s[s.len() - 1]));
        assert(key(s.last()) != key(t));
        assert(assoc_map(s.drop_last(), key).insert(key(t), t).insert(key(s.last()), s.last())
            =~= assoc_map(s.drop_last(), key).insert(key(s.last()), s.last()).insert(key(t), t));
    }
}

/// Removing a record and inserting its replacement at the same index leaves
/// the sequence the plain pointwise update.
pub proof fn lemma_remove_insert_is_update<T>(s: Seq<T>, i: int, t: T)
    requires
        0 <= i < s.len(),
    ensures
        s.remove(i).insert(i, t) == s.update(i, t),
{
    assert(s.remove(i).insert(i, t) =~= s.update(i, t));
}

} // verus!
