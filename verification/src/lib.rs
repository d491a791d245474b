//! A game of stars, and the store that it keeps its world in.
//!
//! The store is a small entity-component store: one value per resource type
//! ([`resource`]), one column of optional component cells per registered
//! component type ([`entities`], modelled by [`table`]), and queries that
//! select the entities owning every requested component
//! ([`entities::query`]). [`World`] puts the two stores behind one door.
//! Values of any type are kept type-erased ([`dynamic`]) and found by type
//! keys ([`keys`]); component types are told apart by bits ([`masks`]).
//!
//! Around the store stand the rules of the game: its configuration
//! ([`config`]), star names ([`names`], [`text`]), the placing of stars
//! ([`spawn`]), the galaxy on its grid ([`galaxy`], [`grid`],
//! [`distances`]), players and units ([`game`], [`units`]), and what keys
//! and selections do on screen ([`ui`], [`selection`]). Rolls come from
//! [`chance`].

use crate::dynamic::Erased;
use crate::entities::query::Query;
use crate::entities::Entities;
use crate::masks::MAX_TYPES;
use crate::resource::Resource;
use crate::table::Table;
use std::any::TypeId;
use vstd::prelude::*;

pub mod chance;
pub mod config;
pub mod distances;
pub mod dynamic;
pub mod entities;
pub mod errors;
pub mod galaxy;
pub mod game;
pub mod grid;
pub mod keys;
pub mod masks;
pub mod names;
pub mod resource;
pub mod selection;
pub mod spawn;
pub mod table;
pub mod text;
pub mod ui;
pub mod units;

verus! {

/// The resource store and the component store behind one door.
pub struct World {
    resources: Resource,
    entities: Entities,
}

impl World {
    /// The stored resources, by type key.
    pub closed spec fn resource_map(&self) -> Map<TypeId, Erased> {
        self.resources@
    }

    /// The table of the component store.
    pub closed spec fn table(&self) -> Table {
        self.entities@
    }

    /// Both stores are sound.
    pub closed spec fn inv(&self) -> bool {
        &&& self.resources.inv()
        &&& self.entities.inv()
    }

    /// Every resource is filed under the key of its own type.
    pub closed spec fn well_typed(&self) -> bool {
        self.resources.well_typed()
    }

    /// A world without resources, component types or entities.
    pub fn new() -> (world: Self)
        ensures
            world.inv(),
            world.well_typed(),
            world.resource_map() == Map::<TypeId, Erased>::empty(),
            world.table() == Table::empty(),
    {
        World { resources: Resource::new(), entities: Entities::new() }
    }

    /// The resource store.
    pub fn resources(&self) -> (store: &Resource)
        ensures
            store@ == self.resource_map(),
            self.inv() ==> store.inv(),
    {
        &self.resources
    }

    /// The component store.
    pub fn entities(&self) -> (store: &Entities)
        ensures
            store@ == self.table(),
            self.inv() ==> store.inv(),
    {
        &self.entities
    }

    /// Stores `resource`, in place of any resource of its type stored
    /// before. The components are left alone.
    pub fn add_resource<T: 'static>(&mut self, resource: T)
        requires
            old(self).inv(),
        ensures
            final(self).inv(),
            exists|value: Erased|
                final(self).resource_map() == old(self).resource_map().insert(
                    crate::dynamic::held_type(value),
                    value,
                ),
            old(self).well_typed() ==> final(self).well_typed(),
            final(self).table() == old(self).table(),
    {
        self.resources.add(resource);
    }

    /// The resource of type `T`, if one is stored.
    pub fn get_resource<T: 'static>(&self) -> (typed: Option<&T>)
        requires
            self.inv(),
        ensures
            typed is Some ==> exists|key: TypeId| self.resource_map().contains_key(key),
    {
        let typed = self.resources.get_ref::<T>();
        proof {
            if typed is Some {
                let key = choose|key: TypeId| self.resources@.contains_key(key);
                assert(self.resource_map().contains_key(key));
            }
        }
        typed
    }

    /// The resource of type `T`, for writing, if one is stored. At most the
    /// resource under one key changes, and it stays of its type.
    pub fn get_resource_mut<T: 'static>(&mut self) -> (typed: Option<&mut T>)
        requires
            old(self).inv(),
        ensures
            final(self).inv(),
            final(self).resource_map().dom() == old(self).resource_map().dom(),
            old(self).well_typed() ==> final(self).well_typed(),
            match typed {
                Some(_) => exists|key: TypeId|
                    old(self).resource_map().contains_key(key) && final(self).resource_map() == old(
                        self,
                    ).resource_map().insert(key, final(self).resource_map()[key]),
                None => final(self).resource_map() == old(self).resource_map(),
            },
            final(self).table() == old(self).table(),
    {
        self.resources.get_mut::<T>()
    }

    /// Removes the resource of type `T`, if one is stored.
    pub fn remove_resource<T: 'static>(&mut self)
        requires
            old(self).inv(),
        ensures
            final(self).inv(),
            exists|key: TypeId| final(self).resource_map() == old(self).resource_map().remove(key),
            old(self).well_typed() ==> final(self).well_typed(),
            final(self).table() == old(self).table(),
    {
        self.resources.remove::<T>();
        proof {
            let key = choose|key: TypeId| self.resources@ == old(self).resources@.remove(key);
            assert(self.resource_map() == old(self).resource_map().remove(key));
        }
    }

    /// Whether a further component type can be registered: no entity is
    /// created yet, and a bit is left.
    pub fn can_register(&self) -> (open: bool)
        ensures
            open == (self.table().count == 0 && self.table().keys.len() < MAX_TYPES),
    {
        self.entities.can_register()
    }

    /// Registers the component type `T`. Types are registered before the
    /// first entity is created, at most [`MAX_TYPES`] of them.
    pub fn register_component<T: 'static>(&mut self)
        requires
            old(self).inv(),
            old(self).table().count == 0,
            old(self).table().keys.len() < MAX_TYPES,
        ensures
            final(self).inv(),
            exists|key: TypeId| final(self).table() == old(self).table().register(key),
            final(self).resource_map() == old(self).resource_map(),
            final(self).well_typed() == old(self).well_typed(),
    {
        self.entities.register_component::<T>();
    }

    /// Creates an entity and hands out the component store, for the
    /// entity's components to be attached. The resources are left alone.
    pub fn create_entity(&mut self) -> (store: &mut Entities)
        requires
            old(self).inv(),
        ensures
            store.inv(),
            store@ == old(self).table().spawn(),
            final(self).table() == final(store)@,
            final(store).inv() ==> final(self).inv(),
            final(self).resource_map() == old(self).resource_map(),
            final(self).well_typed() == old(self).well_typed(),
    {
        self.entities.create_entity()
    }

    /// A request for nothing, bound to this world's component store.
    pub fn query(&self) -> (query: Query<'_>)
        requires
            self.inv(),
        ensures
            query.inv(),
            query.table() == self.table(),
            query.mask() == 0,
            query.types() == Seq::<TypeId>::empty(),
    {
        Query::new(&self.entities)
    }
}

impl Default for World {
    /// A world without resources, component types or entities.
    fn default() -> (world: Self)
        ensures
            world.inv(),
            world.well_typed(),
            world.resource_map() == Map::<TypeId, Erased>::empty(),
            world.table() == Table::empty(),
    {
        World::new()
    }
}

} // verus!
