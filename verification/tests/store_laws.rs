use stars::dynamic::new_component;
use stars::dynamic::type_key;
use stars::dynamic::Erased;
use stars::entities::query::Query;
use stars::entities::Entities;
use stars::errors::Errors;
use stars::masks::bit_at;
use stars::masks::MAX_TYPES;
use stars::resource::Resource;
use stars::World;
use std::any::TypeId;
use std::rc::Rc;

#[derive(Debug, PartialEq)]
struct Fuel(u32);

#[derive(Debug, PartialEq)]
struct Hull(u32);

struct Unknown;

struct Tag<const N: u8>;

fn column_len<T: 'static>(entities: &Entities) -> usize {
    entities.column(&TypeId::of::<T>()).unwrap().len()
}

#[test]
fn columns_grow_with_every_entity() {
    let mut entities = Entities::new();
    entities.register_component::<Fuel>();
    entities.register_component::<Hull>();
    entities.register_component::<u8>();
    assert_eq!(entities.type_count(), 3);
    for created in 0..5usize {
        assert_eq!(entities.entity_count(), created);
        assert_eq!(column_len::<Fuel>(&entities), created);
        assert_eq!(column_len::<Hull>(&entities), created);
        assert_eq!(column_len::<u8>(&entities), created);
        entities.create_entity();
    }
    assert_eq!(entities.entity_count(), 5);
    assert_eq!(column_len::<Fuel>(&entities), 5);
    assert_eq!(column_len::<Hull>(&entities), 5);
    assert_eq!(column_len::<u8>(&entities), 5);
}

#[test]
fn create_entity_without_types_counts_the_entity() {
    let mut entities = Entities::new();
    entities.create_entity();
    entities.create_entity();
    assert_eq!(entities.entity_count(), 2);
    assert_eq!(entities.type_count(), 0);
}

#[test]
fn with_before_create_entity_is_refused() {
    let mut entities = Entities::new();
    entities.register_component::<Fuel>();
    let outcome = entities.with(Fuel(7));
    assert!(matches!(outcome, Err(Errors::CreateEntityNeverCalled)));
    assert_eq!(entities.entity_count(), 0);
    assert_eq!(entities.type_count(), 1);
    assert_eq!(column_len::<Fuel>(&entities), 0);
}

#[test]
fn with_unregistered_type_is_refused() {
    let mut entities = Entities::new();
    entities.register_component::<Fuel>();
    entities.create_entity();
    let outcome = entities.with(Hull(1));
    assert!(matches!(outcome, Err(Errors::ComponentNotRegistered)));
    assert_eq!(entities.entity_count(), 1);
    assert_eq!(entities.type_count(), 1);
    assert!(entities.column(&TypeId::of::<Hull>()).is_none());
    assert!(entities.column(&TypeId::of::<Fuel>()).unwrap()[0].is_none());
    assert_eq!(entities.entity_mask(0), 0);
}

#[test]
fn unregistered_type_is_reported_before_missing_entity() {
    let mut entities = Entities::new();
    let outcome = entities.with(Unknown);
    assert!(matches!(outcome, Err(Errors::ComponentNotRegistered)));
}

#[test]
fn attach_by_key_reports_each_refusal() {
    let mut entities = Entities::new();
    entities.register(TypeId::of::<Fuel>());
    let cell = new_component(Erased::new(Fuel(1)));
    assert!(matches!(
        entities.attach(&TypeId::of::<Fuel>(), cell.clone()),
        Err(Errors::CreateEntityNeverCalled)
    ));
    assert!(matches!(
        entities.attach(&TypeId::of::<Hull>(), cell.clone()),
        Err(Errors::ComponentNotRegistered)
    ));
    entities.create_entity();
    assert!(entities.attach(&TypeId::of::<Fuel>(), cell.clone()).is_ok());
    let stored = entities.column(&TypeId::of::<Fuel>()).unwrap()[0].clone().unwrap();
    assert!(Rc::ptr_eq(&stored, &cell));
}

#[test]
fn bits_follow_registration_order() {
    let mut entities = Entities::new();
    entities.register_component::<Fuel>();
    entities.register_component::<Hull>();
    entities.register_component::<u64>();
    assert_eq!(entities.get_bitmask(&TypeId::of::<Fuel>()), Some(1));
    assert_eq!(entities.get_bitmask(&TypeId::of::<Hull>()), Some(2));
    assert_eq!(entities.get_bitmask(&TypeId::of::<u64>()), Some(4));
    assert_eq!(entities.get_bitmask(&TypeId::of::<Unknown>()), None);
    assert_eq!(bit_at(0), 1);
    assert_eq!(bit_at(1), 2);
    assert_eq!(bit_at(31), 0x8000_0000);
    assert_eq!(MAX_TYPES, 32);
}

#[test]
fn registering_again_keeps_the_bit() {
    let mut entities = Entities::new();
    entities.register_component::<Fuel>();
    entities.register_component::<Hull>();
    entities.register_component::<Fuel>();
    assert_eq!(entities.type_count(), 2);
    assert_eq!(entities.get_bitmask(&TypeId::of::<Fuel>()), Some(1));
    assert_eq!(entities.get_bitmask(&TypeId::of::<Hull>()), Some(2));
}

#[test]
fn mask_collects_the_bits_of_attached_types() -> Result<(), Errors> {
    let mut entities = Entities::new();
    entities.register_component::<Fuel>();
    entities.register_component::<Hull>();
    entities.register_component::<u8>();
    entities.create_entity().with(Fuel(1))?.with(5u8)?;
    entities.create_entity().with(Hull(2))?;
    entities.create_entity();
    assert_eq!(entities.entity_mask(0), 0b101);
    assert_eq!(entities.entity_mask(1), 0b010);
    assert_eq!(entities.entity_mask(2), 0);
    Ok(())
}

#[test]
fn with_overwrites_the_slot() -> Result<(), Errors> {
    let mut entities = Entities::new();
    entities.register_component::<Fuel>();
    entities.create_entity().with(Fuel(1))?.with(Fuel(2))?;
    let column = entities.column(&TypeId::of::<Fuel>()).unwrap();
    assert_eq!(column.len(), 1);
    let cell = column[0].as_ref().unwrap().borrow();
    assert_eq!(cell.downcast_ref::<Fuel>(), Some(&Fuel(2)));
    assert_eq!(entities.entity_mask(0), 1);
    Ok(())
}

#[test]
fn with_targets_the_newest_entity() -> Result<(), Errors> {
    let mut entities = Entities::new();
    entities.register_component::<Fuel>();
    entities.create_entity();
    entities.create_entity();
    entities.with(Fuel(9))?;
    let column = entities.column(&TypeId::of::<Fuel>()).unwrap();
    assert!(column[0].is_none());
    assert!(column[1].is_some());
    Ok(())
}

#[test]
fn query_for_unregistered_type_is_refused() {
    let mut entities = Entities::new();
    entities.register_component::<Fuel>();
    let mut query = Query::new(&entities);
    assert!(query.with::<Fuel>().is_ok());
    assert!(matches!(
        query.with::<Hull>(),
        Err(Errors::ComponentNotRegistered)
    ));
    assert_eq!(query.map(), 1);
    assert_eq!(query.type_ids().len(), 1);
    assert!(matches!(
        query.request(TypeId::of::<Unknown>()),
        Err(Errors::ComponentNotRegistered)
    ));
    assert_eq!(query.map(), 1);
}

#[test]
fn new_query_asks_for_nothing_and_selects_everything() {
    let mut entities = Entities::new();
    entities.register_component::<Fuel>();
    entities.create_entity();
    entities.create_entity();
    let query = Query::new(&entities);
    assert_eq!(query.map(), 0);
    assert!(query.type_ids().is_empty());
    assert!(query.run().is_empty());
}

#[test]
fn query_with_a_type_twice_repeats_its_part() -> Result<(), Errors> {
    let mut entities = Entities::new();
    entities.register_component::<Fuel>();
    entities.create_entity().with(Fuel(4))?;
    let mut query = Query::new(&entities);
    query.with::<Fuel>()?.with::<Fuel>()?;
    assert_eq!(query.map(), 1);
    assert_eq!(query.type_ids().len(), 2);
    let result = query.run();
    assert_eq!(result.len(), 2);
    assert_eq!(result[0].len(), 1);
    assert!(Rc::ptr_eq(&result[0][0], &result[1][0]));
    Ok(())
}

#[test]
fn extra_components_do_not_hinder_selection() -> Result<(), Errors> {
    let mut entities = Entities::new();
    entities.register_component::<Fuel>();
    entities.register_component::<Hull>();
    entities.create_entity().with(Fuel(1))?.with(Hull(10))?;
    entities.create_entity().with(Hull(20))?;
    entities.create_entity().with(Fuel(3))?;
    let mut query = Query::new(&entities);
    query.with::<Fuel>()?;
    let result = query.run();
    assert_eq!(result.len(), 1);
    let fuels: Vec<u32> = result[0]
        .iter()
        .map(|cell| cell.borrow().downcast_ref::<Fuel>().unwrap().0)
        .collect();
    assert_eq!(fuels, vec![1, 3]);
    Ok(())
}

#[test]
fn run_twice_gives_the_same_cells() -> Result<(), Errors> {
    let mut entities = Entities::new();
    entities.register_component::<u32>();
    entities.register_component::<f32>();
    entities.create_entity().with(1u32)?.with(1.0f32)?;
    entities.create_entity().with(2u32)?;
    entities.create_entity().with(3.0f32)?;
    entities.create_entity().with(3u32)?.with(4.0f32)?;
    let mut query = Query::new(&entities);
    query.with::<u32>()?.with::<f32>()?;
    let first = query.run();
    let second = query.run();
    assert_eq!(first.len(), second.len());
    for (one, two) in first.iter().zip(second.iter()) {
        assert_eq!(one.len(), two.len());
        for (a, b) in one.iter().zip(two.iter()) {
            assert!(Rc::ptr_eq(a, b));
        }
    }
    let numbers: Vec<u32> = first[0]
        .iter()
        .map(|cell| *cell.borrow().downcast_ref::<u32>().unwrap())
        .collect();
    let fractions: Vec<f32> = first[1]
        .iter()
        .map(|cell| *cell.borrow().downcast_ref::<f32>().unwrap())
        .collect();
    assert_eq!(numbers, vec![1, 3]);
    assert_eq!(fractions, vec![1.0, 4.0]);
    Ok(())
}

#[test]
fn query_hands_out_the_stored_cells() -> Result<(), Errors> {
    let mut entities = Entities::new();
    entities.register_component::<Fuel>();
    entities.create_entity().with(Fuel(1))?;
    let mut query = Query::new(&entities);
    query.with::<Fuel>()?;
    let result = query.run();
    {
        let mut cell = result[0][0].borrow_mut();
        cell.downcast_mut::<Fuel>().unwrap().0 = 8;
    }
    let column = entities.column(&TypeId::of::<Fuel>()).unwrap();
    let stored = column[0].as_ref().unwrap();
    assert!(Rc::ptr_eq(stored, &result[0][0]));
    assert_eq!(stored.borrow().downcast_ref::<Fuel>(), Some(&Fuel(8)));
    Ok(())
}

#[test]
fn second_writer_on_one_slot_is_refused_while_the_first_is_out() -> Result<(), Errors> {
    let mut entities = Entities::new();
    entities.register_component::<Fuel>();
    entities.register_component::<Hull>();
    entities.create_entity().with(Fuel(1))?.with(Hull(2))?;
    entities.create_entity().with(Fuel(3))?;
    let fuels = entities.column(&TypeId::of::<Fuel>()).unwrap();
    let hulls = entities.column(&TypeId::of::<Hull>()).unwrap();
    let first_fuel = fuels[0].as_ref().unwrap();
    let writer = first_fuel.borrow_mut();
    assert!(first_fuel.try_borrow_mut().is_err());
    assert!(first_fuel.try_borrow().is_err());
    assert!(hulls[0].as_ref().unwrap().try_borrow_mut().is_ok());
    assert!(fuels[1].as_ref().unwrap().try_borrow_mut().is_ok());
    drop(writer);
    let reader = first_fuel.borrow();
    assert!(first_fuel.try_borrow().is_ok());
    assert!(first_fuel.try_borrow_mut().is_err());
    drop(reader);
    Ok(())
}

#[test]
fn resource_is_replaced_and_removed() {
    let mut world = World::new();
    world.add_resource(Fuel(1));
    assert_eq!(world.get_resource::<Fuel>(), Some(&Fuel(1)));
    world.add_resource(Fuel(2));
    assert_eq!(world.get_resource::<Fuel>(), Some(&Fuel(2)));
    assert_eq!(world.resources().len(), 1);
    world.remove_resource::<Fuel>();
    assert_eq!(world.get_resource::<Fuel>(), None);
    assert_eq!(world.resources().len(), 0);
    world.remove_resource::<Fuel>();
    assert_eq!(world.resources().len(), 0);
}

#[test]
fn resources_of_different_types_live_side_by_side() {
    let mut store = Resource::new();
    store.add(7u32);
    store.add(Fuel(7));
    store.add(Hull(9));
    assert_eq!(store.len(), 3);
    assert_eq!(store.get_ref::<u32>(), Some(&7));
    assert_eq!(store.get_ref::<Fuel>(), Some(&Fuel(7)));
    assert_eq!(store.get_ref::<Hull>(), Some(&Hull(9)));
    assert_eq!(store.get_ref::<u64>(), None);
    store.remove::<Fuel>();
    assert_eq!(store.get_ref::<u32>(), Some(&7));
    assert_eq!(store.get_ref::<Fuel>(), None);
    assert_eq!(store.get_ref::<Hull>(), Some(&Hull(9)));
    assert!(store.get_mut::<Fuel>().is_none());
}

#[test]
fn written_resource_is_read_back() {
    let mut world = World::new();
    world.add_resource(Fuel(1));
    world.add_resource(Hull(5));
    world.get_resource_mut::<Fuel>().unwrap().0 += 41;
    assert_eq!(world.get_resource::<Fuel>(), Some(&Fuel(42)));
    assert_eq!(world.get_resource::<Hull>(), Some(&Hull(5)));
}

#[test]
fn stores_by_key_agree_with_stores_by_type() {
    let mut store = Resource::new();
    store.put(Erased::new(Fuel(3)));
    let key = type_key::<Fuel>();
    assert_eq!(key, TypeId::of::<Fuel>());
    assert!(store.contains(&key));
    assert!(!store.contains(&type_key::<Hull>()));
    assert_eq!(store.lookup(&key).unwrap().key(), key);
    assert!(store.lookup(&type_key::<Hull>()).is_none());
    {
        let value = store.lookup_mut(&key).unwrap();
        value.downcast_mut::<Fuel>().unwrap().0 = 4;
        assert!(value.downcast_mut::<Hull>().is_none());
        assert_eq!(value.key(), key);
    }
    assert_eq!(store.get_ref::<Fuel>(), Some(&Fuel(4)));
    assert!(store.lookup_mut(&type_key::<Hull>()).is_none());
    store.discard(&type_key::<Hull>());
    assert_eq!(store.len(), 1);
    store.discard(&key);
    assert_eq!(store.len(), 0);
    assert!(store.lookup(&key).is_none());
}

#[test]
fn erased_value_knows_its_type() {
    let value = Erased::new(Hull(2));
    assert_eq!(value.key(), TypeId::of::<Hull>());
    assert_eq!(value.downcast_ref::<Hull>(), Some(&Hull(2)));
    assert!(value.downcast_ref::<Fuel>().is_none());
}

#[test]
fn world_keeps_resources_and_components_apart() -> Result<(), Errors> {
    let mut world = World::default();
    world.add_resource(Fuel(1));
    world.register_component::<Fuel>();
    world.create_entity().with(Fuel(2))?;
    assert_eq!(world.get_resource::<Fuel>(), Some(&Fuel(1)));
    assert_eq!(world.entities().entity_count(), 1);
    let result = world.query().with::<Fuel>()?.run();
    assert_eq!(
        result[0][0].borrow().downcast_ref::<Fuel>(),
        Some(&Fuel(2))
    );
    Ok(())
}

#[test]
fn registration_is_open_until_the_first_entity() {
    let mut world = World::new();
    assert!(world.can_register());
    world.register_component::<Fuel>();
    assert!(world.can_register());
    world.create_entity();
    assert!(!world.can_register());

    let mut entities = Entities::new();
    entities.register_component::<Tag<0>>();
    entities.register_component::<Tag<1>>();
    entities.register_component::<Tag<2>>();
    entities.register_component::<Tag<3>>();
    entities.register_component::<Tag<4>>();
    entities.register_component::<Tag<5>>();
    entities.register_component::<Tag<6>>();
    entities.register_component::<Tag<7>>();
    entities.register_component::<Tag<8>>();
    entities.register_component::<Tag<9>>();
    entities.register_component::<Tag<10>>();
    entities.register_component::<Tag<11>>();
    entities.register_component::<Tag<12>>();
    entities.register_component::<Tag<13>>();
    entities.register_component::<Tag<14>>();
    entities.register_component::<Tag<15>>();
    entities.register_component::<Tag<16>>();
    entities.register_component::<Tag<17>>();
    entities.register_component::<Tag<18>>();
    entities.register_component::<Tag<19>>();
    entities.register_component::<Tag<20>>();
    entities.register_component::<Tag<21>>();
    entities.register_component::<Tag<22>>();
    entities.register_component::<Tag<23>>();
    entities.register_component::<Tag<24>>();
    entities.register_component::<Tag<25>>();
    entities.register_component::<Tag<26>>();
    entities.register_component::<Tag<27>>();
    entities.register_component::<Tag<28>>();
    entities.register_component::<Tag<29>>();
    entities.register_component::<Tag<30>>();
    entities.register_component::<Tag<31>>();
    assert_eq!(entities.type_count(), 32);
    assert!(!entities.can_register());
    assert_eq!(entities.get_bitmask(&TypeId::of::<Tag<0>>()), Some(1));
    assert_eq!(entities.get_bitmask(&TypeId::of::<Tag<5>>()), Some(32));
    assert_eq!(
        entities.get_bitmask(&TypeId::of::<Tag<31>>()),
        Some(0x8000_0000)
    );
    entities.register(TypeId::of::<Tag<7>>());
    assert_eq!(entities.type_count(), 32);
    entities.create_entity();
    assert!(entities.with(Tag::<31>).is_ok());
    assert!(entities.with(Tag::<0>).is_ok());
    assert_eq!(entities.entity_mask(0), 0x8000_0001);
}

#[test]
fn component_of_an_entity_is_found_by_key_and_position() -> Result<(), Errors> {
    let mut entities = Entities::new();
    entities.register_component::<Fuel>();
    entities.register_component::<Hull>();
    entities.create_entity().with(Fuel(1))?;
    entities.create_entity().with(Hull(2))?;
    let fuel = TypeId::of::<Fuel>();
    let hull = TypeId::of::<Hull>();
    let found = entities.component(&fuel, 0).unwrap();
    assert_eq!(found.borrow().downcast_ref::<Fuel>(), Some(&Fuel(1)));
    assert!(Rc::ptr_eq(
        &found,
        entities.column(&fuel).unwrap()[0].as_ref().unwrap()
    ));
    assert!(entities.component(&fuel, 1).is_none());
    assert!(entities.component(&hull, 0).is_none());
    assert!(entities.component(&hull, 1).is_some());
    assert!(entities.component(&hull, 2).is_none());
    assert!(entities.component(&TypeId::of::<Unknown>(), 0).is_none());
    Ok(())
}

#[test]
fn new_component_holds_the_value_it_was_made_around() {
    let cell = new_component(Erased::new(Fuel(3)));
    assert_eq!(cell.borrow().key(), TypeId::of::<Fuel>());
    assert_eq!(cell.borrow().downcast_ref::<Fuel>(), Some(&Fuel(3)));
    assert!(cell.borrow().downcast_ref::<Hull>().is_none());
    assert_eq!(Rc::strong_count(&cell), 1);
    let other = new_component(Erased::new(Fuel(3)));
    assert!(!Rc::ptr_eq(&cell, &other));
}

#[test]
fn component_stands_in_the_column_of_its_type() -> Result<(), Errors> {
    let mut entities = Entities::new();
    entities.register_component::<Fuel>();
    entities.register_component::<Hull>();
    entities.create_entity().with(Hull(4))?.with(Fuel(5))?;
    let fuels = entities.column(&TypeId::of::<Fuel>()).unwrap();
    let hulls = entities.column(&TypeId::of::<Hull>()).unwrap();
    assert_eq!(
        fuels[0].as_ref().unwrap().borrow().key(),
        TypeId::of::<Fuel>()
    );
    assert_eq!(
        hulls[0].as_ref().unwrap().borrow().key(),
        TypeId::of::<Hull>()
    );
    Ok(())
}
