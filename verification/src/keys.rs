//! Lists of type keys without repetition, and finding a key in one.

use crate::dynamic::same_key;
use std::any::TypeId;
use vstd::prelude::*;

verus! {

/// No key stands at two positions of `keys`.
pub open spec fn distinct(keys: Seq<TypeId>) -> bool {
    forall|i: int, j: int| 0 <= i < j < keys.len() ==> keys[i] != keys[j]
}

/// In a list without repetition, a key is found where it stands.
pub proof fn lemma_index_of_distinct(keys: Seq<TypeId>, i: int)
    requires
        distinct(keys),
        0 <= i < keys.len(),
    ensures
        keys.contains(keys[i]),
        keys.index_of(keys[i]) == i,
{
    assert(keys.contains(keys[i]));
    let j = keys.index_of(keys[i]);
    assert(0 <= j < keys.len() && keys[j] == keys[i]);
    if j < i {
        assert(keys[j] != keys[i]);
    } else if i < j {
        assert(keys[i] != keys[j]);
    }
}

/// A list without repetition stays one when a key that it lacks is appended.
pub proof fn lemma_push_keeps_distinct(keys: Seq<TypeId>, key: TypeId)
    requires
        distinct(keys),
        !keys.contains(key),
    ensures
        distinct(keys.push(key)),
        keys.push(key).index_of(key) == keys.len(),
        forall|other: TypeId|
            keys.contains(other) ==> keys.push(key).index_of(other) == keys.index_of(other),
{
    let longer = keys.push(key);
    assert forall|i: int, j: int| 0 <= i < j < longer.len() implies longer[i] != longer[j] by {
        if j == keys.len() {
            assert(keys[i] == longer[i]);
        } else {
            assert(keys[i] != keys[j]);
        }
    }
    assert(longer[keys.len() as int] == key);
    lemma_index_of_distinct(longer, keys.len() as int);
    assert forall|other: TypeId| keys.contains(other) implies longer.index_of(other)
        == keys.index_of(other) by {
        let at = keys.index_of(other);
        assert(longer[at] == other);
        lemma_index_of_distinct(longer, at);
    }
}

/// The position of `key` in `keys`, if it occurs there.
pub fn find(keys: &Vec<TypeId>, key: &TypeId) -> (at: Option<usize>)
    requires
        distinct(keys@),
    ensures
        match at {
            Some(i) => keys@.contains(*key) && i == keys@.index_of(*key) && i < keys@.len()
                && keys@[i as int] == *key,
            None => !keys@.contains(*key),
        },
{
    let mut i: usize = 0;
    while i < keys.len()
        invariant
            distinct(keys@),
            i <= keys@.len(),
            forall|j: int| 0 <= j < i ==> keys@[j] != *key,
        decreases keys@.len() - i,
    {
        if same_key(&keys[i], key) {
            proof {
                lemma_index_of_distinct(keys@, i as int);
            }
            return Some(i);
        }
        i += 1;
    }
    None
}

} // verus!
