use bevy::ecs::world::World;
use bevy_rx::prelude::{RxEffect, RxRef, RxSignal, RxValue};

#[test]
fn cell_reads_back_what_it_was_made_with() {
    let cell = RxSignal::new(7_u32);
    assert_eq!(cell.get::<u32>(), Some(&7_u32));
}

#[test]
fn cell_read_with_other_type_is_none() {
    let cell = RxSignal::new(7_u32);
    assert_eq!(cell.get::<u64>(), None);
    assert_eq!(cell.get::<i32>(), None);
    assert_eq!(cell.get::<bool>(), None);
}

#[test]
fn set_with_the_cell_type_overwrites() {
    let mut cell = RxSignal::new(7_u32);
    assert_eq!(cell.set(9_u32), Some(()));
    assert_eq!(cell.get::<u32>(), Some(&9_u32));
}

#[test]
fn set_with_other_type_has_no_effect() {
    let mut cell = RxSignal::new(7_u32);
    assert_eq!(cell.set(9_u64), None);
    assert_eq!(cell.get::<u32>(), Some(&7_u32));
    assert_eq!(cell.get::<u64>(), None);
    assert_eq!(cell.set(true), None);
    assert_eq!(cell.get::<u32>(), Some(&7_u32));
}

#[test]
fn set_keeps_the_type_for_later_writes() {
    let mut cell = RxSignal::new(-3_i16);
    assert_eq!(cell.set(4_i16), Some(()));
    assert_eq!(cell.set(5_u16), None);
    assert_eq!(cell.set(6_i16), Some(()));
    assert_eq!(cell.get::<i16>(), Some(&6_i16));
}

#[test]
fn same_number_under_another_type_is_another_value() {
    let cell = RxSignal::new(1_u8);
    assert_eq!(cell.get::<i8>(), None);
    assert_eq!(cell.get::<u16>(), None);
    assert_eq!(cell.get::<usize>(), None);
    assert_eq!(cell.get::<u8>(), Some(&1_u8));
}

#[test]
fn every_supported_type_round_trips() {
    assert_eq!(RxSignal::new(true).get::<bool>(), Some(&true));
    assert_eq!(RxSignal::new('x').get::<char>(), Some(&'x'));
    assert_eq!(RxSignal::new(u8::MAX).get::<u8>(), Some(&u8::MAX));
    assert_eq!(RxSignal::new(u16::MAX).get::<u16>(), Some(&u16::MAX));
    assert_eq!(RxSignal::new(u32::MAX).get::<u32>(), Some(&u32::MAX));
    assert_eq!(RxSignal::new(u64::MAX).get::<u64>(), Some(&u64::MAX));
    assert_eq!(RxSignal::new(u128::MAX).get::<u128>(), Some(&u128::MAX));
    assert_eq!(RxSignal::new(usize::MAX).get::<usize>(), Some(&usize::MAX));
    assert_eq!(RxSignal::new(i8::MIN).get::<i8>(), Some(&i8::MIN));
    assert_eq!(RxSignal::new(i16::MIN).get::<i16>(), Some(&i16::MIN));
    assert_eq!(RxSignal::new(i32::MIN).get::<i32>(), Some(&i32::MIN));
    assert_eq!(RxSignal::new(i64::MIN).get::<i64>(), Some(&i64::MIN));
    assert_eq!(RxSignal::new(i128::MIN).get::<i128>(), Some(&i128::MIN));
    assert_eq!(RxSignal::new(isize::MIN).get::<isize>(), Some(&isize::MIN));
}

#[test]
fn every_supported_type_can_be_overwritten() {
    let mut flag = RxSignal::new(false);
    assert_eq!(flag.set(true), Some(()));
    assert_eq!(flag.get::<bool>(), Some(&true));
    let mut letter = RxSignal::new('a');
    assert_eq!(letter.set('b'), Some(()));
    assert_eq!(letter.get::<char>(), Some(&'b'));
    let mut wide = RxSignal::new(1_i128);
    assert_eq!(wide.set(-2_i128), Some(()));
    assert_eq!(wide.get::<i128>(), Some(&-2_i128));
    assert_eq!(wide.set(2_u128), None);
}

#[test]
fn handle_keeps_its_slot() {
    let mut world = World::new();
    let first = world.spawn_empty().id();
    let second = world.spawn_empty().id();
    let handle = RxRef::<u32>::new(first);
    assert_eq!(handle.entity, first);
    assert_ne!(handle.entity, second);
    let copy = handle;
    assert_eq!(copy, handle);
    assert_eq!(handle.clone().entity, first);
}

#[test]
fn edge_keeps_source_and_procedure() {
    let mut world = World::new();
    let source = world.spawn_empty().id();
    let other = world.spawn_empty().id();
    let procedure = world.register_system(|_world: &mut World| {});
    let second = world.register_system(|_world: &mut World| {});
    let edge = RxEffect::new(source, procedure);
    assert_eq!(edge.depends_on, source);
    assert_ne!(edge.depends_on, other);
    assert_eq!(edge.effect, procedure);
    assert_ne!(edge.effect, second);
}

#[test]
fn root_builder_keeps_its_value() {
    let root = RxValue::new(41_u64);
    assert_eq!(root.value, 41_u64);
}
