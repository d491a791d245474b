//! Queries: the entities that have a component of every requested type, and
//! their components, type by type.

use crate::dynamic::share;
use crate::dynamic::type_key_of;
use crate::dynamic::Component;
use crate::entities::Entities;
use crate::errors::Errors;
use crate::keys::lemma_index_of_distinct;
use crate::masks::lemma_bit_values;
use crate::masks::covers;
use crate::masks::lemma_covers_after_or;
use crate::masks::lemma_covers_parts;
use crate::table::lemma_mask_bit;
use crate::table::Table;
use std::any::TypeId;
use vstd::prelude::*;

verus! {

/// The mask of a request for the types `types`: the bits of all of them.
pub open spec fn requested(table: Table, types: Seq<TypeId>) -> u32
    decreases types.len(),
{
    if types.len() == 0 {
        0
    } else {
        requested(table, types.drop_last()) | table.bit_of(types.last())
    }
}

/// Whether a request with mask `mask` selects entity `entity`: the entity's
/// mask has every requested bit.
pub open spec fn selects(table: Table, mask: u32, entity: int) -> bool {
    covers(table.mask(entity), mask)
}

/// The selected entities among the first `upto`, in ascending order.
pub open spec fn matching(table: Table, mask: u32, upto: nat) -> Seq<int>
    decreases upto,
{
    if upto == 0 {
        Seq::empty()
    } else {
        let before = matching(table, mask, (upto - 1) as nat);
        if selects(table, mask, upto - 1) {
            before.push(upto - 1)
        } else {
            before
        }
    }
}

/// The components of type `key` of the entities `entities`, in their order.
pub open spec fn picked(table: Table, key: TypeId, entities: Seq<int>) -> Seq<Component> {
    Seq::new(entities.len(), |j: int| table.column(key)[entities[j]].unwrap())
}

/// The answer to a request with mask `mask` for the types `types`: for each
/// requested type in turn, the components of that type of the selected
/// entities. Position `j` of every part belongs to the same entity.
pub open spec fn answer(table: Table, mask: u32, types: Seq<TypeId>) -> Seq<Seq<Component>> {
    Seq::new(
        types.len(),
        |k: int| picked(table, types[k], matching(table, mask, table.count)),
    )
}

/// Two results that answer the same request against the same table hold the
/// same components in the same order: running a request again, with the
/// store unchanged, gives the same result.
pub proof fn lemma_run_repeatable(
    query: Query,
    first: Vec<Vec<Component>>,
    second: Vec<Vec<Component>>,
)
    requires
        query.inv(),
        query.answered_by(first),
        query.answered_by(second),
    ensures
        rows(first) == rows(second),
        first@.len() == second@.len(),
        forall|k: int| 0 <= k < first@.len() ==> (#[trigger] first@[k])@ == second@[k]@,
{
    assert(rows(first).len() == first@.len());
    assert(rows(second).len() == second@.len());
    assert forall|k: int| 0 <= k < first@.len() implies (#[trigger] first@[k])@ == second@[k]@ by {
        assert(rows(first)[k] == first@[k]@);
        assert(rows(second)[k] == second@[k]@);
    }
}

/// Every part of an answer has one component per selected entity, so all
/// parts have the same length.
pub proof fn lemma_answer_shape(table: Table, mask: u32, types: Seq<TypeId>)
    ensures
        answer(table, mask, types).len() == types.len(),
        forall|k: int|
            0 <= k < types.len() ==> (#[trigger] answer(table, mask, types)[k]).len() == matching(
                table,
                mask,
                table.count,
            ).len(),
{
}

/// What a result holds, part by part.
pub open spec fn rows(result: Vec<Vec<Component>>) -> Seq<Seq<Component>> {
    Seq::new(result@.len(), |k: int| result@[k]@)
}

/// Every entity in `matching` is below `upto` and selected, every selected
/// entity below `upto` is in it, and the entities stand in ascending order.
pub proof fn lemma_matching(table: Table, mask: u32, upto: nat)
    ensures
        matching(table, mask, upto).len() <= upto,
        forall|j: int|
            0 <= j < matching(table, mask, upto).len() ==> {
                let entity = #[trigger] matching(table, mask, upto)[j];
                0 <= entity < upto && selects(table, mask, entity)
            },
        forall|i: int, j: int|
            0 <= i < j < matching(table, mask, upto).len() ==> matching(table, mask, upto)[i]
                < matching(table, mask, upto)[j],
        forall|entity: int|
            0 <= entity < upto && selects(table, mask, entity) ==> matching(
                table,
                mask,
                upto,
            ).contains(entity),
    decreases upto,
{
    if upto > 0 {
        let before = matching(table, mask, (upto - 1) as nat);
        let now = matching(table, mask, upto);
        lemma_matching(table, mask, (upto - 1) as nat);
        assert forall|entity: int| 0 <= entity < upto && selects(table, mask, entity) implies now.contains(
            entity,
        ) by {
            if entity == upto - 1 {
                assert(now[before.len() as int] == entity);
            } else {
                let at = before.index_of(entity);
                assert(now[at] == entity);
            }
        }
    }
}

/// The mask of a request covers the bit of each requested type.
pub proof fn lemma_requested_covers(table: Table, types: Seq<TypeId>, k: int)
    requires
        0 <= k < types.len(),
    ensures
        covers(requested(table, types), table.bit_of(types[k])),
    decreases types.len(),
{
    let before = requested(table, types.drop_last());
    lemma_covers_after_or(before, table.bit_of(types.last()), table.bit_of(types[k]));
    if k < types.len() - 1 {
        lemma_requested_covers(table, types.drop_last(), k);
        assert(types.drop_last()[k] == types[k]);
    }
}

/// A request selects exactly the entities that have a component of every
/// requested type.
pub proof fn lemma_selects_owners(table: Table, types: Seq<TypeId>, entity: int)
    requires
        table.wf(),
        forall|k: int| 0 <= k < types.len() ==> table.registered(#[trigger] types[k]),
    ensures
        selects(table, requested(table, types), entity) <==> forall|k: int|
            0 <= k < types.len() ==> table.has(#[trigger] types[k], entity),
    decreases types.len(),
{
    let mask = table.mask(entity);
    if types.len() == 0 {
        lemma_covers_parts(mask, 0, 0);
    } else {
        let front = types.drop_last();
        let key = types.last();
        assert forall|k: int| 0 <= k < front.len() implies table.registered(#[trigger] front[k]) by {
            assert(front[k] == types[k]);
        }
        lemma_selects_owners(table, front, entity);
        lemma_covers_parts(mask, requested(table, front), table.bit_of(key));
        assert(table.registered(types[types.len() - 1]));
        lemma_mask_bit(table, entity, table.position(key));
        if selects(table, requested(table, types), entity) {
            assert forall|k: int| 0 <= k < types.len() implies table.has(
                #[trigger] types[k],
                entity,
            ) by {
                if k < front.len() {
                    assert(front[k] == types[k]);
                }
            }
        }
        if forall|k: int| 0 <= k < types.len() ==> table.has(#[trigger] types[k], entity) {
            assert forall|k: int| 0 <= k < front.len() implies table.has(
                #[trigger] front[k],
                entity,
            ) by {
                assert(front[k] == types[k]);
            }
            assert(table.has(types[types.len() - 1], entity));
        }
    }
}

/// On a new store, the type registered first gets the mask 1 and the type
/// registered second the mask 2; a request for both has the mask 3.
pub proof fn lemma_first_two_bits(first: TypeId, second: TypeId)
    requires
        first != second,
    ensures
        Table::empty().register(first).register(second).wf(),
        Table::empty().register(first).register(second).bit_of(first) == 1,
        Table::empty().register(first).register(second).bit_of(second) == 2,
        requested(Table::empty().register(first).register(second), seq![first, second]) == 3,
{
    let one = Table::empty().register(first);
    assert(one.keys =~= seq![first]);
    assert(one.keys[0] == first);
    assert(!one.registered(second)) by {
        if one.keys.contains(second) {
            let at = choose|at: int| 0 <= at < one.keys.len() && one.keys[at] == second;
            assert(at == 0);
        }
    }
    let table = one.register(second);
    assert(table.keys =~= seq![first, second]);
    assert(table.keys[0] == first && table.keys[1] == second);
    assert(table.columns =~= seq![Seq::empty(), Seq::empty()]);
    assert(table.columns[0].len() == 0 && table.columns[1].len() == 0);
    lemma_index_of_distinct(table.keys, 0);
    lemma_index_of_distinct(table.keys, 1);
    lemma_bit_values(0);
    let types = seq![first, second];
    assert(types.drop_last() =~= seq![first]);
    assert(types.drop_last().drop_last() =~= Seq::<TypeId>::empty());
    assert(types.last() == second);
    assert(types.drop_last().last() == first);
    reveal_with_fuel(requested, 3);
    assert(0u32 | 1u32 | 2u32 == 3u32) by (bit_vector);
}

/// A request against a component store: the types asked for, in the order
/// of asking, and the union of their bits.
pub struct Query<'a> {
    map: u32,
    entities: &'a Entities,
    type_ids: Vec<TypeId>,
}

impl<'a> Query<'a> {
    /// The union of the bits of the requested types.
    pub closed spec fn mask(&self) -> u32 {
        self.map
    }

    /// The requested types, in the order of the requests.
    pub closed spec fn types(&self) -> Seq<TypeId> {
        self.type_ids@
    }

    /// The table of the store that the request is bound to.
    pub closed spec fn table(&self) -> Table {
        self.entities@
    }

    /// The request is sound: its store is, every requested type is
    /// registered there, and the mask is the one that the types give.
    pub closed spec fn inv(&self) -> bool {
        &&& self.entities.inv()
        &&& forall|k: int|
            0 <= k < self.type_ids@.len() ==> self.entities@.registered(#[trigger] self.type_ids@[k])
        &&& self.map == requested(self.entities@, self.type_ids@)
    }

    /// Whether `result` is the answer to this request.
    pub open spec fn answered_by(&self, result: Vec<Vec<Component>>) -> bool {
        rows(result) == answer(self.table(), self.mask(), self.types())
    }

    /// What a sound request guarantees of its parts.
    pub proof fn lemma_inv_parts(&self)
        requires
            self.inv(),
        ensures
            self.table().wf(),
            forall|k: int|
                0 <= k < self.types().len() ==> self.table().registered(#[trigger] self.types()[k]),
            self.mask() == requested(self.table(), self.types()),
    {
        self.entities.lemma_inv_table();
    }

    /// A request for nothing, bound to `entities`.
    pub fn new(entities: &'a Entities) -> (query: Self)
        requires
            entities.inv(),
        ensures
            query.inv(),
            query.table() == entities@,
            query.mask() == 0,
            query.types() == Seq::<TypeId>::empty(),
    {
        Query { entities, map: 0, type_ids: Vec::new() }
    }

    /// The union of the bits of the requested types.
    pub fn map(&self) -> (mask: u32)
        ensures
            mask == self.mask(),
    {
        self.map
    }

    /// The requested types, in the order of the requests.
    pub fn type_ids(&self) -> (types: &Vec<TypeId>)
        ensures
            types@ == self.types(),
    {
        &self.type_ids
    }

    /// Adds the type `key` to the request: its bit joins the mask and the
    /// type is appended to the list, also when it was requested before.
    ///
    /// A type that the store has not registered is refused, and the request
    /// stays as it was.
    pub fn request(&mut self, key: TypeId) -> (outcome: Result<&mut Self, Errors>)
        requires
            old(self).inv(),
        ensures
            match outcome {
                Ok(query) => {
                    &&& old(self).table().registered(key)
                    &&& query.inv()
                    &&& query.table() == old(self).table()
                    &&& query.mask() == old(self).mask() | old(self).table().bit_of(key)
                    &&& query.types() == old(self).types().push(key)
                    &&& *final(self) == *final(query)
                },
                Err(error) => {
                    &&& !old(self).table().registered(key)
                    &&& error == Errors::ComponentNotRegistered
                    &&& *final(self) == *old(self)
                },
            },
    {
        match self.entities.get_bitmask(&key) {
            Some(bit_mask) => {
                self.map = self.map | bit_mask;
                self.type_ids.push(key);
                proof {
                    assert(self.type_ids@.drop_last() == old(self).type_ids@);
                }
                Ok(self)
            },
            None => Err(Errors::ComponentNotRegistered),
        }
    }

    /// Adds the type `T` to the request, as [`Query::request`] does with the
    /// key of `T`.
    pub fn with<T: 'static>(&mut self) -> (outcome: Result<&mut Self, Errors>)
        requires
            old(self).inv(),
        ensures
            match outcome {
                Ok(query) => {
                    &&& query.inv()
                    &&& query.table() == old(self).table()
                    &&& exists|key: TypeId|
                        old(self).table().registered(key) && query.mask() == old(self).mask()
                            | old(self).table().bit_of(key) && query.types() == old(
                            self,
                        ).types().push(key)
                    &&& *final(self) == *final(query)
                },
                Err(error) => {
                    &&& error == Errors::ComponentNotRegistered
                    &&& exists|key: TypeId| !old(self).table().registered(key)
                    &&& *final(self) == *old(self)
                },
            },
    {
        let key = type_key_of::<T>();
        self.request(key)
    }

    /// Runs the request: for each requested type in turn, the components of
    /// that type of every selected entity, entities in ascending order. The
    /// components are handed out as further handles to the stored cells; the
    /// store is not changed.
    pub fn run(&self) -> (result: Vec<Vec<Component>>)
        requires
            self.inv(),
        ensures
            self.answered_by(result),
            result@.len() == self.types().len(),
    {
        let ghost table = self.entities@;
        let count = self.entities.entity_count();
        let mut indexes: Vec<usize> = Vec::new();
        let mut entity: usize = 0;
        while entity < count
            invariant
                self.inv(),
                table == self.entities@,
                count == table.count,
                entity <= count,
                indexes@.len() == matching(table, self.map, entity as nat).len(),
                forall|j: int|
                    0 <= j < indexes@.len() ==> indexes@[j] as int == matching(
                        table,
                        self.map,
                        entity as nat,
                    )[j],
            decreases count - entity,
        {
            if self.entities.entity_mask(entity) & self.map == self.map {
                indexes.push(entity);
            }
            entity += 1;
        }
        let ghost found = matching(table, self.map, count as nat);
        proof {
            lemma_matching(table, self.map, count as nat);
            self.entities.lemma_inv_table();
        }
        let mut result: Vec<Vec<Component>> = Vec::new();
        let mut k: usize = 0;
        while k < self.type_ids.len()
            invariant
                self.inv(),
                table == self.entities@,
                table.wf(),
                count == table.count,
                found == matching(table, self.map, count as nat),
                indexes@.len() == found.len(),
                forall|j: int| 0 <= j < indexes@.len() ==> indexes@[j] as int == found[j],
                forall|j: int|
                    0 <= j < found.len() ==> 0 <= #[trigger] found[j] < count && selects(
                        table,
                        self.map,
                        found[j],
                    ),
                k <= self.type_ids@.len(),
                result@.len() == k,
                forall|i: int|
                    0 <= i < k ==> (#[trigger] result@[i])@ == picked(table, self.type_ids@[i], found),
            decreases self.type_ids@.len() - k,
        {
            let key = &self.type_ids[k];
            let column = self.entities.column(key).unwrap();
            let ghost at = table.position(*key);
            proof {
                lemma_requested_covers(table, self.type_ids@, k as int);
                assert(table.registered(self.type_ids@[k as int]));
                assert(column@.len() == table.count);
            }
            let mut keep: Vec<Component> = Vec::new();
            let mut j: usize = 0;
            while j < indexes.len()
                invariant
                    table.wf(),
                    0 <= at < table.keys.len(),
                    at == table.position(*key),
                    column@ == table.columns[at],
                    column@.len() == count,
                    covers(self.map, table.bit_of(*key)),
                    indexes@.len() == found.len(),
                    forall|i: int| 0 <= i < indexes@.len() ==> indexes@[i] as int == found[i],
                    forall|i: int|
                        0 <= i < found.len() ==> 0 <= #[trigger] found[i] < count && selects(
                            table,
                            self.map,
                            found[i],
                        ),
                    j <= indexes@.len(),
                    keep@.len() == j,
                    forall|i: int| 0 <= i < j ==> keep@[i] == column@[found[i]].unwrap(),
                decreases indexes@.len() - j,
            {
                let index = indexes[j];
                proof {
                    assert(0 <= found[j as int] < count);
                    lemma_covers_parts(table.mask(index as int), self.map, table.bit_of(*key));
                    lemma_mask_bit(table, index as int, at);
                }
                keep.push(share(column[index].as_ref().unwrap()));
                j += 1;
            }
            proof {
                assert(keep@ =~= picked(table, *key, found));
            }
            result.push(keep);
            k += 1;
        }
        proof {
            assert(rows(result) =~= answer(self.table(), self.mask(), self.types()));
        }
        result
    }
}

} // verus!
