//! The resource store: at most one value per type, found by its type key.

use crate::dynamic::erased_key;
use crate::dynamic::erased_mut;
use crate::dynamic::erased_ref;
use crate::dynamic::erase;
use crate::dynamic::held_type;
use crate::dynamic::type_key_of;
use crate::dynamic::Erased;
use crate::keys::distinct;
use crate::keys::find;
use crate::keys::lemma_index_of_distinct;
use std::any::TypeId;
use vstd::prelude::*;

verus! {

/// A registry of global values, one per type.
///
/// Its view is the map from type key to stored value.
pub struct Resource {
    keys: Vec<TypeId>,
    values: Vec<Erased>,
}

impl View for Resource {
    type V = Map<TypeId, Erased>;

    closed spec fn view(&self) -> Map<TypeId, Erased> {
        Map::new(
            |key: TypeId| self.keys@.contains(key),
            |key: TypeId| self.values@[self.keys@.index_of(key)],
        )
    }
}

impl Resource {
    /// The representation is sound: every key has its value, and no key is
    /// stored twice.
    pub closed spec fn inv(&self) -> bool {
        &&& self.keys@.len() == self.values@.len()
        &&& distinct(self.keys@)
    }

    /// Every stored value is filed under the key of its own type.
    pub open spec fn well_typed(&self) -> bool {
        forall|key: TypeId| #[trigger]
            self@.contains_key(key) ==> held_type(self@[key]) == key
    }

    /// An empty store.
    pub fn new() -> (store: Self)
        ensures
            store.inv(),
            store.well_typed(),
            store@ == Map::<TypeId, Erased>::empty(),
    {
        let store = Resource { keys: Vec::new(), values: Vec::new() };
        assert(store@ =~= Map::<TypeId, Erased>::empty());
        store
    }

    /// Whether a value is stored under `key`.
    pub fn contains(&self, key: &TypeId) -> (present: bool)
        requires
            self.inv(),
        ensures
            present == self@.contains_key(*key),
    {
        find(&self.keys, key).is_some()
    }

    /// The number of stored values.
    pub fn len(&self) -> (n: usize)
        requires
            self.inv(),
        ensures
            n == self@.dom().len(),
            self@.dom().finite(),
    {
        proof {
            self.lemma_domain();
        }
        self.keys.len()
    }

    /// The keys in use are exactly the entries of `keys`, each once.
    proof fn lemma_domain(&self)
        requires
            self.inv(),
        ensures
            self@.dom() == self.keys@.to_set(),
            self@.dom().finite(),
            self@.dom().len() == self.keys@.len(),
    {
        assert(self@.dom() =~= self.keys@.to_set());
        self.keys@.unique_seq_to_set();
    }

    /// Stores `value` under the key of the type it holds, in place of any
    /// value stored under that key before.
    pub fn put(&mut self, value: Erased)
        requires
            old(self).inv(),
        ensures
            final(self).inv(),
            final(self)@ == old(self)@.insert(held_type(value), value),
            old(self).well_typed() ==> final(self).well_typed(),
    {
        let key = erased_key(&value);
        match find(&self.keys, &key) {
            Some(i) => {
                self.values[i] = value;
                assert(self@ =~= old(self)@.insert(key, value)) by {
                    assert forall|k: TypeId| self@.contains_key(k) implies self@[k]
                        == old(self)@.insert(key, value)[k] by {
                        if k != key {
                            let j = self.keys@.index_of(k);
                            assert(j != i);
                        }
                    }
                }
            },
            None => {
                self.keys.push(key);
                self.values.push(value);
                assert(self@ =~= old(self)@.insert(key, value)) by {
                    let n = old(self).keys@.len() as int;
                    assert(self.keys@[n] == key);
                    assert forall|k: TypeId| old(self)@.insert(key, value).contains_key(k)
                        implies self@.contains_key(k) by {
                        if k != key {
                            let j = old(self).keys@.index_of(k);
                            assert(self.keys@[j] == k);
                        }
                    }
                    assert forall|k: TypeId| self@.contains_key(k) implies self@[k]
                        == old(self)@.insert(key, value)[k] by {
                        let j = self.keys@.index_of(k);
                        if j != n {
                            assert(old(self).keys@[j] == k);
                            lemma_index_of_distinct(old(self).keys@, j);
                        }
                    }
                }
            },
        }
    }

    /// Stores `data`, in place of any value of its type stored before.
    ///
    /// The key is the one that the erased `data` reports for itself.
    pub fn add<T: 'static>(&mut self, data: T)
        requires
            old(self).inv(),
        ensures
            final(self).inv(),
            exists|value: Erased| final(self)@ == old(self)@.insert(held_type(value), value),
            old(self).well_typed() ==> final(self).well_typed(),
    {
        let value = erase(data);
        self.put(value);
    }

    /// The value stored under `key`, if there is one.
    pub fn lookup(&self, key: &TypeId) -> (found: Option<&Erased>)
        requires
            self.inv(),
        ensures
            match found {
                Some(value) => stored(self@, *key) == Some(*value),
                None => stored(self@, *key) is None,
            },
    {
        match find(&self.keys, key) {
            Some(i) => Some(&self.values[i]),
            None => None,
        }
    }

    /// The value stored under `key`, for writing. What the caller leaves
    /// behind the reference is what the store holds under `key` afterwards.
    pub fn lookup_mut(&mut self, key: &TypeId) -> (found: Option<&mut Erased>)
        requires
            old(self).inv(),
        ensures
            final(self).inv(),
            match found {
                Some(value) => {
                    &&& stored(old(self)@, *key) == Some(*value)
                    &&& final(self)@ == old(self)@.insert(*key, *final(value))
                },
                None => {
                    &&& stored(old(self)@, *key) is None
                    &&& final(self)@ == old(self)@
                },
            },
    {
        match find(&self.keys, key) {
            Some(i) => {
                let slot = &mut self.values[i];
                proof {
                    let ghost after = (*old(self)).values@.update(i as int, *final(slot));
                    assert forall|k: TypeId| old(self).keys@.contains(k) implies Map::new(
                        |q: TypeId| old(self).keys@.contains(q),
                        |q: TypeId| after[old(self).keys@.index_of(q)],
                    )[k] == old(self)@.insert(*key, *final(slot))[k] by {
                        if k != *key {
                            assert(old(self).keys@.index_of(k) != i);
                        }
                    }
                }
                Some(slot)
            },
            None => None,
        }
    }

    /// Removes the value stored under `key`, if there is one.
    pub fn discard(&mut self, key: &TypeId)
        requires
            old(self).inv(),
        ensures
            final(self).inv(),
            final(self)@ == old(self)@.remove(*key),
            old(self).well_typed() ==> final(self).well_typed(),
    {
        match find(&self.keys, key) {
            Some(i) => {
                self.keys.remove(i);
                self.values.remove(i);
                assert(self@ =~= old(self)@.remove(*key)) by {
                    let before = old(self).keys@;
                    assert forall|k: TypeId| old(self)@.remove(*key).contains_key(k)
                        implies self@.contains_key(k) by {
                        let j = before.index_of(k);
                        if j < i {
                            assert(self.keys@[j] == k);
                        } else {
                            assert(self.keys@[j - 1] == k);
                        }
                    }
                    assert forall|k: TypeId| self@.contains_key(k) implies k != *key
                        && old(self)@.contains_key(k) && self@[k] == old(self)@[k] by {
                        let j = self.keys@.index_of(k);
                        if j < i {
                            assert(before[j] == k);
                            lemma_index_of_distinct(before, j);
                        } else {
                            assert(before[j + 1] == k);
                            lemma_index_of_distinct(before, j + 1);
                        }
                    }
                }
            },
            None => {
                assert(self@ =~= old(self)@.remove(*key));
            },
        }
    }

    /// The stored value of type `T`, if there is one.
    ///
    /// The key looked up is the one that `T` reports; the value found under
    /// it is handed back through a checked downcast.
    pub fn get_ref<T: 'static>(&self) -> (typed: Option<&T>)
        requires
            self.inv(),
        ensures
            typed is Some ==> exists|key: TypeId| self@.contains_key(key),
    {
        let key = type_key_of::<T>();
        match self.lookup(&key) {
            Some(value) => {
                assert(self@.contains_key(key));
                erased_ref::<T>(value)
            },
            None => None,
        }
    }

    /// The stored value of type `T`, for writing, if there is one.
    ///
    /// At most the value under one key changes, and it stays a value of the
    /// type it was.
    pub fn get_mut<T: 'static>(&mut self) -> (typed: Option<&mut T>)
        requires
            old(self).inv(),
        ensures
            final(self).inv(),
            final(self)@.dom() == old(self)@.dom(),
            old(self).well_typed() ==> final(self).well_typed(),
            match typed {
                Some(_) => exists|key: TypeId|
                    old(self)@.contains_key(key) && final(self)@ == old(self)@.insert(
                        key,
                        final(self)@[key],
                    ),
                None => final(self)@ == old(self)@,
            },
    {
        let key = type_key_of::<T>();
        match self.lookup_mut(&key) {
            Some(value) => {
                let ghost written = *final(value);
                let typed = erased_mut::<T>(value);
                proof {
                    let ghost after = old(self)@.insert(key, written);
                    assert(after.dom() =~= old(self)@.dom());
                    assert(after =~= old(self)@.insert(key, after[key]));
                    if typed is None {
                        assert(after =~= old(self)@);
                    }
                }
                typed
            },
            None => None,
        }
    }

    /// Removes the stored value of type `T`, if there is one.
    pub fn remove<T: 'static>(&mut self)
        requires
            old(self).inv(),
        ensures
            final(self).inv(),
            exists|key: TypeId| final(self)@ == old(self)@.remove(key),
            old(self).well_typed() ==> final(self).well_typed(),
    {
        let key = type_key_of::<T>();
        self.discard(&key);
    }
}

impl Default for Resource {
    /// An empty store.
    fn default() -> (store: Self)
        ensures
            store.inv(),
            store.well_typed(),
            store@ == Map::<TypeId, Erased>::empty(),
    {
        Resource::new()
    }
}

/// What a store with content `content` holds under `key`.
pub open spec fn stored(content: Map<TypeId, Erased>, key: TypeId) -> Option<Erased> {
    if content.contains_key(key) {
        Some(content[key])
    } else {
        None
    }
}

/// A value that was stored is what a lookup of its key finds, until another
/// value is stored under the key or the key is removed; the other keys are
/// not touched by either.
pub proof fn lemma_store_laws(content: Map<TypeId, Erased>, key: TypeId, first: Erased, second: Erased)
    ensures
        stored(content.insert(key, first), key) == Some(first),
        stored(content.insert(key, first).insert(key, second), key) == Some(second),
        stored(content.insert(key, first).remove(key), key) is None,
        forall|other: TypeId|
            other != key ==> stored(content.insert(key, first), other) == stored(content, other),
        forall|other: TypeId|
            other != key ==> stored(content.remove(key), other) == stored(content, other),
{
}

/// What is written through a mutable lookup is what a later lookup of the
/// same key finds: after the borrow the store holds `content` with `written`
/// under `key`, and looking `key` up in that gives `written`.
pub proof fn lemma_written_is_found(content: Map<TypeId, Erased>, key: TypeId, written: Erased)
    requires
        content.contains_key(key),
    ensures
        stored(content.insert(key, written), key) == Some(written),
        content.insert(key, written).dom() == content.dom(),
{
    assert(content.insert(key, written).dom() =~= content.dom());
}

} // verus!
