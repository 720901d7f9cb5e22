//! Sequences of records with a string key, seen as maps.
//!
//! A registry keeps its records in a `Vec` whose keys are pairwise distinct;
//! its abstract state is the map from each key to its record.
use vstd::prelude::*;

verus! {

/// No two records of `s` share a key.
pub open spec fn keys_unique<T>(s: Seq<T>, key: spec_fn(T) -> Seq<char>) -> bool {
    forall|i: int, j: int|
        0 <= i < s.len() && 0 <= j < s.len() && i != j ==> key(#[trigger] s[i]) != key(
            #[trigger] s[j],
        )
}

/// Some record of `s` has key `k`.
pub open spec fn has_key<T>(s: Seq<T>, key: spec_fn(T) -> Seq<char>, k: Seq<char>) -> bool {
    exists|i: int| 0 <= i < s.len() && key(#[trigger] s[i]) == k
}

/// Each key of `s` mapped to its record.
pub open spec fn keyed_map<T>(s: Seq<T>, key: spec_fn(T) -> Seq<char>) -> Map<Seq<char>, T> {
    Map::new(
        |k: Seq<char>| has_key(s, key, k),
        |k: Seq<char>| s[choose|i: int| 0 <= i < s.len() && key(#[trigger] s[i]) == k],
    )
}

pub proof fn lemma_keyed_at<T>(s: Seq<T>, key: spec_fn(T) -> Seq<char>, i: int)
    requires
        keys_unique(s, key),
        0 <= i < s.len(),
    ensures
        keyed_map(s, key).contains_key(key(s[i])),
        keyed_map(s, key)[key(s[i])] == s[i],
{
    assert(has_key(s, key, key(s[i])));
    let j = choose|j: int| 0 <= j < s.len() && key(#[trigger] s[j]) == key(s[i]);
    assert(j == i);
}

pub proof fn lemma_keyed_absent<T>(s: Seq<T>, key: spec_fn(T) -> Seq<char>, k: Seq<char>)
    requires
        forall|i: int| 0 <= i < s.len() ==> key(#[trigger] s[i]) != k,
    ensures
        !keyed_map(s, key).contains_key(k),
{
}

pub proof fn lemma_keyed_update<T>(s: Seq<T>, key: spec_fn(T) -> Seq<char>, i: int, v: T)
    requires
        keys_unique(s, key),
        0 <= i < s.len(),
        key(v) == key(s[i]),
    ensures
        keys_unique(s.update(i, v), key),
        keyed_map(s.update(i, v), key) == keyed_map(s, key).insert(key(v), v),
{
    let t = s.update(i, v);
    assert forall|a: int, b: int|
        0 <= a < t.len() && 0 <= b < t.len() && a != b implies key(#[trigger] t[a]) != key(
            #[trigger] t[b],
        ) by {
        assert(key(t[a]) == key(s[a]));
        assert(key(t[b]) == key(s[b]));
    }
    let m = keyed_map(s, key).insert(key(v), v);
    assert forall|k: Seq<char>| #[trigger] m.contains_key(k) == has_key(t, key, k) by {
        if has_key(s, key, k) {
            let j = choose|j: int| 0 <= j < s.len() && key(#[trigger] s[j]) == k;
            assert(key(t[j]) == k);
        }
        if has_key(t, key, k) {
            let j = choose|j: int| 0 <= j < t.len() && key(#[trigger] t[j]) == k;
            if j != i {
                assert(key(s[j]) == k);
            }
        }
    }
    assert forall|k: Seq<char>| #[trigger] m.contains_key(k) implies keyed_map(t, key)[k]
        == m[k] by {
        let j = choose|j: int| 0 <= j < t.len() && key(#[trigger] t[j]) == k;
        lemma_keyed_at(t, key, j);
        if k != key(v) {
            assert(j != i);
            lemma_keyed_at(s, key, j);
        }
    }
    assert(keyed_map(t, key) =~= m);
}

pub proof fn lemma_keyed_push<T>(s: Seq<T>, key: spec_fn(T) -> Seq<char>, v: T)
    requires
        keys_unique(s, key),
        !has_key(s, key, key(v)),
    ensures
        keys_unique(s.push(v), key),
        keyed_map(s.push(v), key) == keyed_map(s, key).insert(key(v), v),
{
    let t = s.push(v);
    assert forall|a: int, b: int|
        0 <= a < t.len() && 0 <= b < t.len() && a != b implies key(#[trigger] t[a]) != key(
            #[trigger] t[b],
        ) by {
        if a < s.len() && b < s.len() {
            assert(t[a] == s[a] && t[b] == s[b]);
        } else if a < s.len() {
            assert(t[a] == s[a]);
        } else if b < s.len() {
            assert(t[b] == s[b]);
        }
    }
    let m = keyed_map(s, key).insert(key(v), v);
    assert forall|k: Seq<char>| #[trigger] m.contains_key(k) == has_key(t, key, k) by {
        if has_key(s, key, k) {
            let j = choose|j: int| 0 <= j < s.len() && key(#[trigger] s[j]) == k;
            assert(t[j] == s[j]);
        }
        if k == key(v) {
            assert(t[s.len() as int] == v);
        }
        if has_key(t, key, k) {
            let j = choose|j: int| 0 <= j < t.len() && key(#[trigger] t[j]) == k;
            if j < s.len() {
                assert(t[j] == s[j]);
            }
        }
    }
    assert forall|k: Seq<char>| #[trigger] m.contains_key(k) implies keyed_map(t, key)[k]
        == m[k] by {
        let j = choose|j: int| 0 <= j < t.len() && key(#[trigger] t[j]) == k;
        lemma_keyed_at(t, key, j);
        if j < s.len() {
            assert(t[j] == s[j]);
            lemma_keyed_at(s, key, j);
        }
    }
    assert(keyed_map(t, key) =~= m);
}

pub proof fn lemma_keyed_remove<T>(s: Seq<T>, key: spec_fn(T) -> Seq<char>, i: int)
    requires
        keys_unique(s, key),
        0 <= i < s.len(),
    ensures
        keys_unique(s.remove(i), key),
        keyed_map(s.remove(i), key) == keyed_map(s, key).remove(key(s[i])),
{
    let t = s.remove(i);
    assert forall|a: int| 0 <= a < t.len() implies #[trigger] t[a] == s[if a < i {
        a
    } else {
        a + 1
    }] by {}
    assert forall|a: int, b: int|
        0 <= a < t.len() && 0 <= b < t.len() && a != b implies key(#[trigger] t[a]) != key(
            #[trigger] t[b],
        ) by {
        let sa = if a < i { a } else { a + 1 };
        let sb = if b < i { b } else { b + 1 };
        assert(t[a] == s[sa]);
        assert(t[b] == s[sb]);
    }
    let m = keyed_map(s, key).remove(key(s[i]));
    assert forall|k: Seq<char>| #[trigger] m.contains_key(k) == has_key(t, key, k) by {
        if has_key(s, key, k) && k != key(s[i]) {
            let j = choose|j: int| 0 <= j < s.len() && key(#[trigger] s[j]) == k;
            assert(j != i);
            let tj = if j < i { j } else { j - 1 };
            assert(t[tj] == s[j]);
        }
        if has_key(t, key, k) {
            let j = choose|j: int| 0 <= j < t.len() && key(#[trigger] t[j]) == k;
            let sj = if j < i { j } else { j + 1 };
            assert(t[j] == s[sj]);
            assert(sj != i);
        }
    }
    assert forall|k: Seq<char>| #[trigger] m.contains_key(k) implies keyed_map(t, key)[k]
        == m[k] by {
        let j = choose|j: int| 0 <= j < t.len() && key(#[trigger] t[j]) == k;
        let sj = if j < i { j } else { j + 1 };
        assert(t[j] == s[sj]);
        lemma_keyed_at(t, key, j);
        lemma_keyed_at(s, key, sj);
    }
    assert(keyed_map(t, key) =~= m);
}

/// `i` is the first position of `s` whose record has key `k`.
pub open spec fn is_first_key<T>(s: Seq<T>, key: spec_fn(T) -> Seq<char>, k: Seq<char>, i: int) -> bool {
    &&& 0 <= i < s.len()
    &&& key(s[i]) == k
    &&& forall|j: int| 0 <= j < i ==> key(#[trigger] s[j]) != k
}

/// The first position of `s` whose record has key `k` (meaningful when there is one).
pub open spec fn first_key_index<T>(s: Seq<T>, key: spec_fn(T) -> Seq<char>, k: Seq<char>) -> int {
    choose|i: int| is_first_key(s, key, k, i)
}

pub proof fn lemma_first_key_index<T>(s: Seq<T>, key: spec_fn(T) -> Seq<char>, k: Seq<char>, i: int)
    requires
        is_first_key(s, key, k, i),
    ensures
        first_key_index(s, key, k) == i,
        has_key(s, key, k),
{
    let j = first_key_index(s, key, k);
    assert(is_first_key(s, key, k, j));
    if j < i {
        assert(key(s[j]) != k);
    }
    if i < j {
        assert(key(s[i]) != k);
    }
}

proof fn lemma_first_below<T>(s: Seq<T>, key: spec_fn(T) -> Seq<char>, k: Seq<char>, i: int)
    requires
        0 <= i < s.len(),
        key(s[i]) == k,
    ensures
        exists|j: int| is_first_key(s, key, k, j),
    decreases i,
{
    if exists|j: int| 0 <= j < i && key(#[trigger] s[j]) == k {
        let j = choose|j: int| 0 <= j < i && key(#[trigger] s[j]) == k;
        lemma_first_below(s, key, k, j);
    } else {
        assert(is_first_key(s, key, k, i));
    }
}

/// A key that occurs has a first position.
pub proof fn lemma_has_first_key<T>(s: Seq<T>, key: spec_fn(T) -> Seq<char>, k: Seq<char>)
    requires
        has_key(s, key, k),
    ensures
        is_first_key(s, key, k, first_key_index(s, key, k)),
{
    let i = choose|i: int| 0 <= i < s.len() && key(#[trigger] s[i]) == k;
    lemma_first_below(s, key, k, i);
}

} // verus!
