//! Finding a text in a sequence of texts.
//!
//! Tables that are keyed by a path are kept as sequences; a key is looked up
//! by its first occurrence, and a table is a map when no key occurs twice.

use vstd::prelude::*;

verus! {

/// `i` is the first position of `key` in `keys`.
pub open spec fn is_first(keys: Seq<Seq<char>>, key: Seq<char>, i: int) -> bool {
    &&& 0 <= i < keys.len()
    &&& keys[i] == key
    &&& forall|j: int| 0 <= j < i ==> keys[j] != key
}

/// The first position of `key` in `keys`, if it occurs at all.
pub open spec fn index_of(keys: Seq<Seq<char>>, key: Seq<char>) -> Option<int> {
    if exists|i: int| is_first(keys, key, i) {
        Some(choose|i: int| is_first(keys, key, i))
    } else {
        None
    }
}

/// No key occurs twice.
pub open spec fn distinct(keys: Seq<Seq<char>>) -> bool {
    forall|i: int, j: int| 0 <= i < j < keys.len() ==> keys[i] != keys[j]
}

/// A first position is the position that `index_of` reports.
pub proof fn lemma_index_of_found(keys: Seq<Seq<char>>, key: Seq<char>, i: int)
    requires
        is_first(keys, key, i),
    ensures
        index_of(keys, key) == Some(i),
{
    let c = choose|c: int| is_first(keys, key, c);
    assert(is_first(keys, key, c));
    if c < i {
        assert(keys[c] != key);
    }
    if i < c {
        assert(keys[i] != key);
    }
}

/// A key that occurs somewhere has a first position.
pub proof fn lemma_first_exists(keys: Seq<Seq<char>>, key: Seq<char>, at: int)
    requires
        0 <= at < keys.len(),
        keys[at] == key,
    ensures
        exists|i: int| is_first(keys, key, i),
    decreases at,
{
    if exists|j: int| 0 <= j < at && keys[j] == key {
        let j = choose|j: int| 0 <= j < at && keys[j] == key;
        lemma_first_exists(keys, key, j);
    } else {
        assert(is_first(keys, key, at));
    }
}

/// A key that occurs nowhere has no position.
pub proof fn lemma_index_of_absent(keys: Seq<Seq<char>>, key: Seq<char>)
    requires
        forall|j: int| 0 <= j < keys.len() ==> keys[j] != key,
    ensures
        index_of(keys, key) is None,
{
    if exists|i: int| is_first(keys, key, i) {
        let c = choose|c: int| is_first(keys, key, c);
        assert(keys[c] != key);
    }
}

} // verus!
