//! The mathematical model of the component store: a table with one column
//! per registered type and one row per entity.

use crate::dynamic::component_type;
use crate::dynamic::Component;
use crate::errors::Errors;
use crate::keys::distinct;
use crate::keys::lemma_push_keeps_distinct;
use crate::masks::bit;
use crate::masks::covers;
use crate::masks::lemma_bits_apart;
use crate::masks::lemma_covers_after_or;
use crate::masks::MAX_TYPES;
use std::any::TypeId;
use vstd::prelude::*;

verus! {

/// What a component store holds.
///
/// `keys` lists the registered types in the order of their registration;
/// the type at position `c` owns bit `c` and the column `columns[c]`.
/// `columns[c][e]` is the slot of entity `e` for that type. `count` is the
/// number of entities created so far.
pub struct Table {
    pub keys: Seq<TypeId>,
    pub columns: Seq<Seq<Option<Component>>>,
    pub count: nat,
}

impl Table {
    /// The table is sound: each registered type has its column and its bit,
    /// no type is registered twice, and every column has one slot per entity.
    pub open spec fn wf(self) -> bool {
        &&& self.keys.len() == self.columns.len()
        &&& self.keys.len() <= MAX_TYPES
        &&& distinct(self.keys)
        &&& forall|c: int| 0 <= c < self.columns.len() ==> (#[trigger] self.columns[c]).len() == self.count
    }

    /// The table of a new store: no type, no entity.
    pub open spec fn empty() -> Table {
        Table { keys: Seq::empty(), columns: Seq::empty(), count: 0 }
    }

    /// Whether `key` has been registered.
    pub open spec fn registered(self, key: TypeId) -> bool {
        self.keys.contains(key)
    }

    /// The position at which `key` was registered.
    pub open spec fn position(self, key: TypeId) -> int {
        self.keys.index_of(key)
    }

    /// The mask of a registered type: the bit of its position.
    pub open spec fn bit_of(self, key: TypeId) -> u32 {
        bit(self.position(key))
    }

    /// The column of a registered type.
    pub open spec fn column(self, key: TypeId) -> Seq<Option<Component>> {
        self.columns[self.position(key)]
    }

    /// Whether entity `entity` has a component in column `column`.
    pub open spec fn populated(self, column: int, entity: int) -> bool {
        self.columns[column][entity] is Some
    }

    /// Whether entity `entity` has a component of the registered type `key`.
    pub open spec fn has(self, key: TypeId, entity: int) -> bool {
        self.populated(self.position(key), entity)
    }

    /// The table after `key` is registered: a type that is new gets the next
    /// position and an empty column; one that is registered already changes
    /// nothing.
    pub open spec fn register(self, key: TypeId) -> Table {
        if self.registered(key) {
            self
        } else {
            Table {
                keys: self.keys.push(key),
                columns: self.columns.push(Seq::empty()),
                count: self.count,
            }
        }
    }

    /// The table after an entity is created: every column has one more slot,
    /// which is empty.
    pub open spec fn spawn(self) -> Table {
        Table {
            keys: self.keys,
            columns: Seq::new(self.columns.len(), |c: int| self.columns[c].push(None)),
            count: self.count + 1,
        }
    }

    /// Why a component of type `key` cannot be attached, if it cannot: the
    /// type is checked first, then that there is an entity.
    pub open spec fn refusal(self, key: TypeId) -> Option<Errors> {
        if !self.registered(key) {
            Some(Errors::ComponentNotRegistered)
        } else if self.count == 0 {
            Some(Errors::CreateEntityNeverCalled)
        } else {
            None
        }
    }

    /// The table after `cell` is put in the slot that the newest entity has
    /// for the type `key`.
    pub open spec fn attach(self, key: TypeId, cell: Component) -> Table {
        let at = self.position(key);
        Table {
            keys: self.keys,
            columns: self.columns.update(at, self.columns[at].update(self.count - 1, Some(cell))),
            count: self.count,
        }
    }

    /// Every component stands in the column of its own type: the cell in a
    /// slot was made around a value of the type that the column is
    /// registered for.
    pub open spec fn well_typed(self) -> bool {
        forall|c: int, e: int|
            0 <= c < self.columns.len() && 0 <= e < self.columns[c].len() ==> (
            #[trigger] self.columns[c][e] matches Some(cell) ==> component_type(cell)
                == self.keys[c])
    }

    /// The bits of the first `upto` types that entity `entity` has a
    /// component of.
    pub open spec fn mask_upto(self, entity: int, upto: nat) -> u32
        decreases upto,
    {
        if upto == 0 {
            0
        } else {
            let before = self.mask_upto(entity, (upto - 1) as nat);
            if self.populated(upto - 1, entity) {
                before | bit(upto - 1)
            } else {
                before
            }
        }
    }

    /// The membership mask of entity `entity`: the bits of all the types
    /// that it has a component of.
    pub open spec fn mask(self, entity: int) -> u32 {
        self.mask_upto(entity, self.keys.len())
    }
}

/// The mask over the first `upto` columns has a bit exactly where the entity
/// has a component, and no bit of a later position.
pub proof fn lemma_mask_upto_bits(table: Table, entity: int, upto: nat, column: int)
    requires
        upto <= MAX_TYPES,
        0 <= column < MAX_TYPES,
    ensures
        column < upto ==> (covers(table.mask_upto(entity, upto), bit(column)) <==> table.populated(
            column,
            entity,
        )),
        column >= upto ==> table.mask_upto(entity, upto) & bit(column) == 0,
    decreases upto,
{
    lemma_bits_apart(column, column);
    if upto == 0 {
        assert(0u32 & bit(column) == 0) by (bit_vector);
    } else {
        let before = table.mask_upto(entity, (upto - 1) as nat);
        lemma_mask_upto_bits(table, entity, (upto - 1) as nat, column);
        lemma_bits_apart(column, upto - 1);
        lemma_covers_after_or(before, bit(upto - 1), bit(column));
        let b = bit(column);
        let x = bit(upto - 1);
        if column == upto - 1 {
            assert(before & b == 0 && b != 0 ==> before & b != b) by (bit_vector);
        } else {
            assert(before & b == 0 && b & x == 0 ==> (before | x) & b == 0) by (bit_vector);
        }
    }
}

/// An entity's mask has the bit of a column exactly when the entity has a
/// component in that column.
pub proof fn lemma_mask_bit(table: Table, entity: int, column: int)
    requires
        table.wf(),
        0 <= column < table.keys.len(),
    ensures
        covers(table.mask(entity), bit(column)) <==> table.populated(column, entity),
{
    lemma_mask_upto_bits(table, entity, table.keys.len(), column);
}

/// Two tables that agree on which of the first `upto` slots of an entity are
/// filled give it the same mask over those columns.
pub proof fn lemma_mask_upto_same(first: Table, second: Table, entity: int, other: int, upto: nat)
    requires
        forall|c: int| 0 <= c < upto ==> first.populated(c, entity) == second.populated(c, other),
    ensures
        first.mask_upto(entity, upto) == second.mask_upto(other, upto),
    decreases upto,
{
    if upto > 0 {
        lemma_mask_upto_same(first, second, entity, other, (upto - 1) as nat);
    }
}

/// An entity without any component has the empty mask.
pub proof fn lemma_mask_upto_empty(table: Table, entity: int, upto: nat)
    requires
        forall|c: int| 0 <= c < upto ==> !table.populated(c, entity),
    ensures
        table.mask_upto(entity, upto) == 0,
    decreases upto,
{
    if upto > 0 {
        lemma_mask_upto_empty(table, entity, (upto - 1) as nat);
    }
}

/// Filling one slot of an entity adds the bit of that slot's column to the
/// entity's mask, and nothing else.
pub proof fn lemma_mask_upto_filled(
    before: Table,
    after: Table,
    entity: int,
    column: int,
    upto: nat,
)
    requires
        upto <= MAX_TYPES,
        0 <= column < MAX_TYPES,
        after.populated(column, entity),
        forall|c: int|
            0 <= c < upto && c != column ==> before.populated(c, entity) == after.populated(
                c,
                entity,
            ),
    ensures
        column < upto ==> after.mask_upto(entity, upto) == before.mask_upto(entity, upto) | bit(
            column,
        ),
        column >= upto ==> after.mask_upto(entity, upto) == before.mask_upto(entity, upto),
    decreases upto,
{
    if upto > 0 {
        lemma_mask_upto_filled(before, after, entity, column, (upto - 1) as nat);
        let b = before.mask_upto(entity, (upto - 1) as nat);
        let x = bit(column);
        let y = bit(upto - 1);
        if column == upto - 1 {
            assert((b | x) | x == b | x) by (bit_vector);
        } else if column < upto - 1 {
            assert((b | x) | y == (b | y) | x) by (bit_vector);
        }
    }
}

/// Registering a type keeps the table sound, keeps every earlier type at its
/// position, and gives a new type the next position.
pub proof fn lemma_register(table: Table, key: TypeId)
    requires
        table.wf(),
        table.count == 0,
        table.registered(key) || table.keys.len() < MAX_TYPES,
    ensures
        table.register(key).wf(),
        table.register(key).registered(key),
        table.register(key).count == 0,
        forall|other: TypeId| #[trigger]
            table.registered(other) ==> table.register(key).registered(other)
                && table.register(key).position(other) == table.position(other),
        !table.registered(key) ==> table.register(key).position(key) == table.keys.len(),
{
    if !table.registered(key) {
        lemma_push_keeps_distinct(table.keys, key);
        let after = table.register(key);
        assert forall|other: TypeId| #[trigger] table.registered(other) implies after.registered(
            other,
        ) by {
            let at = table.keys.index_of(other);
            assert(after.keys[at] == other);
        }
        assert(after.keys[table.keys.len() as int] == key);
    }
}

/// Creating an entity keeps the table sound and every earlier entity's
/// slots and mask; the new entity starts without components, with the empty
/// mask.
pub proof fn lemma_spawn(table: Table)
    requires
        table.wf(),
    ensures
        table.spawn().wf(),
        table.spawn().count == table.count + 1,
        table.spawn().mask(table.count as int) == 0,
        forall|c: int|
            0 <= c < table.keys.len() ==> !#[trigger] table.spawn().populated(
                c,
                table.count as int,
            ),
        forall|entity: int|
            0 <= entity < table.count ==> #[trigger] table.spawn().mask(entity) == table.mask(
                entity,
            ),
{
    let after = table.spawn();
    lemma_mask_upto_empty(after, table.count as int, after.keys.len());
    assert forall|entity: int| 0 <= entity < table.count implies #[trigger] after.mask(entity)
        == table.mask(entity) by {
        lemma_mask_upto_same(after, table, entity, entity, table.keys.len());
    }
}

/// Attaching a component keeps the table sound, adds the bit of the
/// component's type to the newest entity's mask and leaves the other
/// entities' masks alone.
pub proof fn lemma_attach(table: Table, key: TypeId, cell: Component)
    requires
        table.wf(),
        table.refusal(key) is None,
    ensures
        table.attach(key, cell).wf(),
        table.attach(key, cell).count == table.count,
        table.attach(key, cell).has(key, table.count - 1),
        table.attach(key, cell).mask(table.count - 1) == table.mask(table.count - 1)
            | table.bit_of(key),
        forall|entity: int|
            0 <= entity < table.count - 1 ==> #[trigger] table.attach(key, cell).mask(entity)
                == table.mask(entity),
{
    let after = table.attach(key, cell);
    let at = table.position(key);
    let newest = table.count - 1;
    assert(0 <= at < table.keys.len());
    assert forall|c: int| 0 <= c < after.columns.len() implies (#[trigger] after.columns[c]).len()
        == after.count by {
        assert(table.columns[c].len() == table.count);
    }
    assert(table.columns[at].len() == table.count);
    lemma_mask_upto_filled(table, after, newest, at, table.keys.len());
    assert forall|entity: int| 0 <= entity < table.count - 1 implies #[trigger] after.mask(entity)
        == table.mask(entity) by {
        assert forall|c: int| 0 <= c < table.keys.len() implies after.populated(c, entity)
            == table.populated(c, entity) by {
            assert(table.columns[c].len() == table.count);
        }
        lemma_mask_upto_same(after, table, entity, entity, table.keys.len());
    }
}

/// Registering a type and creating an entity keep every component in the
/// column of its own type, and so does attaching a cell that was made around
/// a value of the type that it is attached for.
pub proof fn lemma_well_typed_kept(table: Table, key: TypeId, cell: Component)
    requires
        table.wf(),
        table.well_typed(),
    ensures
        table.register(key).well_typed(),
        table.spawn().well_typed(),
        table.refusal(key) is None && component_type(cell) == key ==> table.attach(
            key,
            cell,
        ).well_typed(),
{
    let registered = table.register(key);
    assert forall|c: int, e: int|
        0 <= c < registered.columns.len() && 0 <= e < registered.columns[c].len() implies (
        #[trigger] registered.columns[c][e] matches Some(other) ==> component_type(other)
            == registered.keys[c]) by {
        if c < table.columns.len() {
            assert(registered.columns[c][e] == table.columns[c][e]);
        }
    }
    let spawned = table.spawn();
    assert forall|c: int, e: int|
        0 <= c < spawned.columns.len() && 0 <= e < spawned.columns[c].len() implies (
        #[trigger] spawned.columns[c][e] matches Some(other) ==> component_type(other)
            == spawned.keys[c]) by {
        if e < table.columns[c].len() {
            assert(spawned.columns[c][e] == table.columns[c][e]);
        }
    }
    if table.refusal(key) is None && component_type(cell) == key {
        let attached = table.attach(key, cell);
        let at = table.position(key);
        assert(0 <= at < table.keys.len() && table.keys[at] == key);
        assert(table.columns[at].len() == table.count);
        assert forall|c: int, e: int|
            0 <= c < attached.columns.len() && 0 <= e < attached.columns[c].len() implies (
            #[trigger] attached.columns[c][e] matches Some(other) ==> component_type(other)
                == attached.keys[c]) by {
            if c != at || e != table.count - 1 {
                assert(attached.columns[c][e] == table.columns[c][e]);
            }
        }
    }
}

/// However many types are registered and however many entities are created
/// after them, every column has exactly as many slots as entities were
/// created.
pub proof fn lemma_columns_follow_entities(types: Seq<TypeId>, entities: nat)
    requires
        types.len() <= MAX_TYPES,
    ensures
        populate(types, entities).wf(),
        populate(types, entities).count == entities,
        forall|c: int|
            0 <= c < populate(types, entities).columns.len() ==> (#[trigger] populate(
                types,
                entities,
            ).columns[c]).len() == entities,
    decreases entities,
{
    if entities == 0 {
        lemma_register_all(types);
    } else {
        lemma_columns_follow_entities(types, (entities - 1) as nat);
        lemma_spawn(populate(types, (entities - 1) as nat));
    }
}

/// The table after the types `types` are registered in turn on a new store.
pub open spec fn register_all(types: Seq<TypeId>) -> Table
    decreases types.len(),
{
    if types.len() == 0 {
        Table::empty()
    } else {
        register_all(types.drop_last()).register(types.last())
    }
}

/// The table after the types `types` are registered on a new store and
/// `entities` entities are created.
pub open spec fn populate(types: Seq<TypeId>, entities: nat) -> Table
    decreases entities,
{
    if entities == 0 {
        register_all(types)
    } else {
        populate(types, (entities - 1) as nat).spawn()
    }
}

/// Registering types on a new store gives a sound table without entities,
/// with at most one column per registration.
pub proof fn lemma_register_all(types: Seq<TypeId>)
    requires
        types.len() <= MAX_TYPES,
    ensures
        register_all(types).wf(),
        register_all(types).count == 0,
        register_all(types).keys.len() <= types.len(),
    decreases types.len(),
{
    if types.len() > 0 {
        lemma_register_all(types.drop_last());
        lemma_register(register_all(types.drop_last()), types.last());
    }
}

} // verus!
