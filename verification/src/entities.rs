//! The component store: one column of optional component cells per
//! registered type, one slot per entity in every column.

use crate::dynamic::erase;
use crate::dynamic::erased_key;
use crate::dynamic::component_type;
use crate::dynamic::new_component;
use crate::dynamic::share;
use crate::dynamic::type_key_of;
use crate::dynamic::Component;
use crate::errors::Errors;
use crate::keys::find;
use crate::masks::bit_at;
use crate::masks::MAX_TYPES;
use crate::table::lemma_attach;
use crate::table::lemma_well_typed_kept;
use crate::table::lemma_register;
use crate::table::lemma_spawn;
use crate::table::Table;
use std::any::TypeId;
use vstd::prelude::*;

pub mod query;

verus! {

/// The component store.
///
/// An entity is a position shared by all columns. Its view is the
/// [`Table`] of registered types and slots. Beside the columns the store
/// keeps each entity's membership mask up to date.
#[derive(Debug)]
pub struct Entities {
    keys: Vec<TypeId>,
    columns: Vec<Vec<Option<Component>>>,
    masks: Vec<u32>,
}

impl View for Entities {
    type V = Table;

    closed spec fn view(&self) -> Table {
        Table {
            keys: self.keys@,
            columns: Seq::new(self.columns@.len(), |c: int| self.columns@[c]@),
            count: self.masks@.len(),
        }
    }
}

impl Entities {
    /// The store is sound: its table is, and the mask kept for each entity
    /// is the one that its slots give.
    pub closed spec fn inv(&self) -> bool {
        &&& self@.wf()
        &&& forall|entity: int|
            0 <= entity < self.masks@.len() ==> self.masks@[entity] == #[trigger] self@.mask(entity)
    }

    /// A sound store has a sound table.
    pub proof fn lemma_inv_table(&self)
        requires
            self.inv(),
        ensures
            self@.wf(),
    {
    }

    /// An empty store: no type registered, no entity created.
    pub fn new() -> (store: Self)
        ensures
            store.inv(),
            store@ == Table::empty(),
    {
        let store = Entities { keys: Vec::new(), columns: Vec::new(), masks: Vec::new() };
        assert(store@.columns =~= Seq::empty());
        store
    }

    /// The number of entities created so far.
    pub fn entity_count(&self) -> (count: usize)
        ensures
            count == self@.count,
    {
        self.masks.len()
    }

    /// The number of registered component types.
    pub fn type_count(&self) -> (count: usize)
        ensures
            count == self@.keys.len(),
    {
        self.keys.len()
    }

    /// Whether a further component type can be registered: no entity is
    /// created yet, and a bit is left.
    pub fn can_register(&self) -> (open: bool)
        ensures
            open == (self@.count == 0 && self@.keys.len() < MAX_TYPES),
    {
        self.masks.len() == 0 && self.keys.len() < MAX_TYPES
    }

    /// Registers the component type `key`: it gets the next free bit and an
    /// empty column. A type that is registered already keeps its bit and
    /// its column.
    ///
    /// Types are registered before the first entity is created, and there
    /// is a bit for at most [`MAX_TYPES`] of them.
    pub fn register(&mut self, key: TypeId)
        requires
            old(self).inv(),
            old(self)@.count == 0,
            old(self)@.registered(key) || old(self)@.keys.len() < MAX_TYPES,
        ensures
            final(self).inv(),
            final(self)@ == old(self)@.register(key),
    {
        proof {
            lemma_register(self@, key);
        }
        if find(&self.keys, &key).is_none() {
            self.keys.push(key);
            self.columns.push(Vec::new());
            assert(self@.columns =~= old(self)@.register(key).columns);
        }
    }

    /// Registers the component type `T`, as [`Entities::register`] does
    /// with the key of `T`.
    pub fn register_component<T: 'static>(&mut self)
        requires
            old(self).inv(),
            old(self)@.count == 0,
            old(self)@.keys.len() < MAX_TYPES,
        ensures
            final(self).inv(),
            exists|key: TypeId| final(self)@ == old(self)@.register(key),
    {
        let key = type_key_of::<T>();
        self.register(key);
    }

    /// Creates an entity: every column gets one more slot, which is empty.
    /// The store comes back for the components to be attached.
    pub fn create_entity(&mut self) -> (store: &mut Self)
        requires
            old(self).inv(),
        ensures
            store.inv(),
            store@ == old(self)@.spawn(),
            *final(self) == *final(store),
    {
        proof {
            lemma_spawn(self@);
        }
        let mut c: usize = 0;
        while c < self.columns.len()
            invariant
                c <= self.columns@.len(),
                self.keys == old(self).keys,
                self.masks == old(self).masks,
                self.columns@.len() == old(self).columns@.len(),
                forall|j: int| 0 <= j < c ==> self.columns@[j]@ == old(self).columns@[j]@.push(None),
                forall|j: int|
                    c <= j < self.columns@.len() ==> self.columns@[j]@ == old(self).columns@[j]@,
            decreases self.columns@.len() - c,
        {
            self.columns[c].push(None);
            c += 1;
        }
        self.masks.push(0);
        assert(self@.columns =~= old(self)@.spawn().columns);
        self
    }

    /// Puts `cell` in the slot that the newest entity has for the type
    /// `key`, in place of what the slot held, and adds the type's bit to the
    /// entity's mask. The store comes back for further components.
    ///
    /// A type that was never registered is refused, and so is a component
    /// when no entity has been created; the store is then left as it was.
    pub fn attach(&mut self, key: &TypeId, cell: Component) -> (outcome: Result<&mut Self, Errors>)
        requires
            old(self).inv(),
        ensures
            match outcome {
                Ok(store) => {
                    &&& old(self)@.refusal(*key) is None
                    &&& store.inv()
                    &&& store@ == old(self)@.attach(*key, cell)
                    &&& *final(self) == *final(store)
                },
                Err(error) => {
                    &&& old(self)@.refusal(*key) == Some(error)
                    &&& *final(self) == *old(self)
                },
            },
    {
        let at = match find(&self.keys, key) {
            Some(at) => at,
            None => {
                return Err(Errors::ComponentNotRegistered);
            },
        };
        if self.masks.len() == 0 {
            return Err(Errors::CreateEntityNeverCalled);
        }
        let newest = self.masks.len() - 1;
        proof {
            lemma_attach(self@, *key, cell);
            assert(self@.columns[at as int].len() == self@.count);
        }
        self.columns[at][newest] = Some(cell);
        self.masks[newest] = self.masks[newest] | bit_at(at);
        proof {
            assert(self@.columns =~= old(self)@.attach(*key, cell).columns) by {
                assert forall|c: int| 0 <= c < self.columns@.len() implies self@.columns[c]
                    == old(self)@.attach(*key, cell).columns[c] by {
                    if c != at {
                        assert(self.columns@[c] == old(self).columns@[c]);
                    }
                }
            }
        }
        Ok(self)
    }

    /// Attaches `data` to the newest entity as its component of type `T`,
    /// as [`Entities::attach`] does with a fresh cell around the erased
    /// `data` and the key that the erased `data` reports. The component
    /// stands in the column of its own type.
    pub fn with<T: 'static>(&mut self, data: T) -> (outcome: Result<&mut Self, Errors>)
        requires
            old(self).inv(),
        ensures
            match outcome {
                Ok(store) => {
                    &&& old(self)@.count > 0
                    &&& store.inv()
                    &&& exists|cell: Component|
                        old(self)@.refusal(component_type(cell)) is None && store@
                            == #[trigger] old(self)@.attach(component_type(cell), cell)
                    &&& old(self)@.well_typed() ==> store@.well_typed()
                    &&& *final(self) == *final(store)
                },
                Err(error) => {
                    &&& exists|key: TypeId| old(self)@.refusal(key) == Some(error)
                    &&& error == Errors::CreateEntityNeverCalled ==> old(self)@.count == 0
                    &&& *final(self) == *old(self)
                },
            },
    {
        let value = erase(data);
        let key = erased_key(&value);
        let cell = new_component(value);
        let ghost made = cell;
        proof {
            if self@.well_typed() {
                lemma_well_typed_kept(self@, key, made);
            }
        }
        let outcome = self.attach(&key, cell);
        proof {
            if outcome is Ok {
                assert(component_type(made) == key);
                assert(old(self)@.attach(component_type(made), made) == old(self)@.attach(
                    key,
                    made,
                ));
            }
        }
        outcome
    }

    /// The mask of the registered type `key`: the bit of its position.
    pub fn get_bitmask(&self, key: &TypeId) -> (mask: Option<u32>)
        requires
            self.inv(),
        ensures
            mask == if self@.registered(*key) {
                Some(self@.bit_of(*key))
            } else {
                None
            },
    {
        match find(&self.keys, key) {
            Some(at) => Some(bit_at(at)),
            None => None,
        }
    }

    /// The membership mask of entity `entity`.
    pub fn entity_mask(&self, entity: usize) -> (mask: u32)
        requires
            self.inv(),
            entity < self@.count,
        ensures
            mask == self@.mask(entity as int),
    {
        self.masks[entity]
    }

    /// The column of the registered type `key`: one slot per entity.
    pub fn column(&self, key: &TypeId) -> (slots: Option<&Vec<Option<Component>>>)
        requires
            self.inv(),
        ensures
            match slots {
                Some(column) => {
                    &&& self@.registered(*key)
                    &&& column@ == self@.column(*key)
                    &&& column@.len() == self@.count
                },
                None => !self@.registered(*key),
            },
    {
        match find(&self.keys, key) {
            Some(at) => {
                assert(self@.columns[at as int] == self.columns@[at as int]@);
                assert(self@.columns[at as int].len() == self@.count);
                Some(&self.columns[at])
            },
            None => None,
        }
    }

    /// A handle to the component of type `key` of entity `entity`, if the
    /// type is registered, the entity exists and it has such a component.
    pub fn component(&self, key: &TypeId, entity: usize) -> (found: Option<Component>)
        requires
            self.inv(),
        ensures
            found == if self@.registered(*key) && entity < self@.count {
                self@.column(*key)[entity as int]
            } else {
                None
            },
    {
        match self.column(key) {
            Some(column) => {
                if entity < column.len() {
                    match &column[entity] {
                        Some(cell) => Some(share(cell)),
                        None => None,
                    }
                } else {
                    None
                }
            },
            None => None,
        }
    }
}

impl Default for Entities {
    /// An empty store.
    fn default() -> (store: Self)
        ensures
            store.inv(),
            store@ == Table::empty(),
    {
        Entities::new()
    }
}

} // verus!
