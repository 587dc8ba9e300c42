use bevy::app::{App, Update};
use bevy::ecs::entity::Entity;
use bevy::ecs::system::Resource;
use bevy::ecs::world::World;
use bevy_rx::prelude::{
    run_rx, RxConsumer, RxMap, RxPass, RxPassEnd, RxRef, RxSignal, RxVal, RxValue, RxWorldExt,
};
use std::sync::{Arc, Mutex};

struct LastPass(RxPass);

impl Resource for LastPass {}

fn pass_system(world: &mut World) {
    let pass = run_rx(world);
    world.insert_resource(LastPass(pass));
}

fn host() -> App {
    let mut app = App::new();
    app.add_systems(Update, pass_system);
    app
}

fn last_pass(app: &App) -> &RxPass {
    &app.world.resource::<LastPass>().0
}

fn cell<T: RxVal>(app: &App, slot: Entity) -> Option<T> {
    app.world.get::<RxSignal>(slot).and_then(|cell| cell.get::<T>()).copied()
}

fn write<T: RxVal>(app: &mut App, slot: Entity, value: T) -> Option<()> {
    app.world.get_mut::<RxSignal>(slot).expect("the slot has a cell").set(value)
}

type Seen = Arc<Mutex<Vec<u32>>>;

fn recording(app: &mut App, source: RxRef<u32>, seen: &Seen) -> RxRef<()> {
    let sink = Arc::clone(seen);
    app.world.spawn_rx(RxConsumer::new(source, move |x: &u32, _world: &mut World, _slot| {
        sink.lock().unwrap().push(*x);
    }))
}

fn chain(app: &mut App, start: u32, seen: &Seen) -> (RxRef<u32>, RxRef<u32>, RxRef<u32>) {
    let root = app.world.spawn_rx(RxValue::new(start));
    let doubled = app.world.spawn_rx(RxMap::new(root, |x| *x * 2));
    let shifted = app.world.spawn_rx(RxMap::new(doubled, |x| *x + 10));
    recording(app, shifted, seen);
    (root, doubled, shifted)
}

#[test]
fn root_to_leaf_value_is_observed_once() {
    let mut app = host();
    let seen = Seen::default();
    let (root, doubled, shifted) = chain(&mut app, 1, &seen);
    app.update();
    assert_eq!(*seen.lock().unwrap(), vec![12]);

    for (value, expected) in [(5_u32, 20_u32), (0, 10), (1000, 2010), (5, 20)] {
        seen.lock().unwrap().clear();
        assert_eq!(write(&mut app, root.entity, value), Some(()));
        app.update();
        assert_eq!(*seen.lock().unwrap(), vec![expected]);
        assert_eq!(cell::<u32>(&app, doubled.entity), Some(2 * value));
        assert_eq!(cell::<u32>(&app, shifted.entity), Some(expected));
        let pass = last_pass(&app);
        assert_eq!(pass.end, RxPassEnd::Quiescent);
        assert_eq!(pass.roots, vec![root.entity]);
        assert_eq!(pass.waves, 3);
        assert_eq!(pass.runs.len(), 3);
    }
}

#[test]
fn fan_out_updates_both_chains_in_one_pass() {
    let mut app = host();
    let root = app.world.spawn_rx(RxValue::new(3_u32));
    let left = app.world.spawn_rx(RxMap::new(root, |x| *x + 1));
    let left_end = app.world.spawn_rx(RxMap::new(left, |x| *x * 10));
    let right = app.world.spawn_rx(RxMap::new(root, |x| u64::from(*x) * 100));
    let right_end = app.world.spawn_rx(RxMap::new(right, |x: &u64| *x + 7));
    app.update();
    assert_eq!(cell::<u32>(&app, left_end.entity), Some(40));
    assert_eq!(cell::<u64>(&app, right_end.entity), Some(307));

    assert_eq!(write(&mut app, root.entity, 8_u32), Some(()));
    app.update();
    assert_eq!(cell::<u32>(&app, left.entity), Some(9));
    assert_eq!(cell::<u32>(&app, left_end.entity), Some(90));
    assert_eq!(cell::<u64>(&app, right.entity), Some(800));
    assert_eq!(cell::<u64>(&app, right_end.entity), Some(807));
    let pass = last_pass(&app);
    assert_eq!(pass.end, RxPassEnd::Quiescent);
    assert_eq!(pass.waves, 2);
    assert_eq!(pass.runs.len(), 4);
    assert!(pass.runs[..2].iter().all(|edge| edge.source == root.entity));
}

#[test]
fn pass_without_a_mutation_runs_nothing() {
    let mut app = host();
    let seen = Seen::default();
    chain(&mut app, 1, &seen);
    app.update();
    assert_eq!(*seen.lock().unwrap(), vec![12]);
    assert_eq!(last_pass(&app).runs.len(), 3);

    for _ in 0..3 {
        app.update();
        let pass = last_pass(&app);
        assert_eq!(pass.end, RxPassEnd::Quiescent);
        assert!(pass.roots.is_empty());
        assert!(pass.runs.is_empty());
        assert_eq!(pass.waves, 0);
        assert_eq!(pass.edges.len(), 3);
    }
    assert_eq!(*seen.lock().unwrap(), vec![12]);
}

#[test]
fn writing_the_same_value_counts_as_a_change() {
    let mut app = host();
    let seen = Seen::default();
    let (root, _, _) = chain(&mut app, 1, &seen);
    app.update();
    assert_eq!(write(&mut app, root.entity, 1_u32), Some(()));
    app.update();
    assert_eq!(*seen.lock().unwrap(), vec![12, 12]);
    assert_eq!(last_pass(&app).runs.len(), 3);
}

#[test]
fn write_of_another_type_leaves_the_value_for_the_pass() {
    let mut app = host();
    let seen = Seen::default();
    let (root, _, shifted) = chain(&mut app, 4, &seen);
    app.update();
    assert_eq!(write(&mut app, root.entity, 9_u64), None);
    app.update();
    assert_eq!(cell::<u32>(&app, root.entity), Some(4));
    assert_eq!(cell::<u32>(&app, shifted.entity), Some(18));
    assert!(seen.lock().unwrap().iter().all(|value| *value == 18));
}

#[test]
fn derived_cells_are_never_changed_roots() {
    let mut app = host();
    let seen = Seen::default();
    let (root, doubled, shifted) = chain(&mut app, 1, &seen);
    app.update();
    assert_eq!(last_pass(&app).roots, vec![root.entity]);
    assert_eq!(write(&mut app, doubled.entity, 50_u32), Some(()));
    assert_eq!(write(&mut app, shifted.entity, 60_u32), Some(()));
    app.update();
    let pass = last_pass(&app);
    assert!(pass.roots.is_empty());
    assert!(pass.runs.is_empty());
    assert_eq!(*seen.lock().unwrap(), vec![12]);
}

#[test]
fn deleted_source_fires_nothing() {
    let mut app = host();
    let seen = Seen::default();
    let (root, doubled, shifted) = chain(&mut app, 1, &seen);
    app.update();
    assert_eq!(*seen.lock().unwrap(), vec![12]);

    assert_eq!(write(&mut app, root.entity, 9_u32), Some(()));
    assert!(app.world.despawn(root.entity));
    app.update();
    let pass = last_pass(&app);
    assert_eq!(pass.end, RxPassEnd::Quiescent);
    assert!(pass.roots.is_empty());
    assert!(pass.runs.is_empty());
    assert_eq!(pass.edges.len(), 3);
    assert!(pass.edges.iter().any(|edge| edge.source == root.entity));
    assert_eq!(cell::<u32>(&app, doubled.entity), Some(2));
    assert_eq!(cell::<u32>(&app, shifted.entity), Some(12));
    assert_eq!(*seen.lock().unwrap(), vec![12]);
}

#[test]
fn deleted_link_cuts_the_chain_behind_it() {
    let mut app = host();
    let seen = Seen::default();
    let (root, doubled, shifted) = chain(&mut app, 1, &seen);
    app.update();

    assert_eq!(write(&mut app, root.entity, 9_u32), Some(()));
    assert!(app.world.despawn(doubled.entity));
    app.update();
    let pass = last_pass(&app);
    assert_eq!(pass.end, RxPassEnd::Quiescent);
    assert_eq!(pass.roots, vec![root.entity]);
    assert_eq!(pass.edges.len(), 2);
    assert!(pass.runs.is_empty());
    assert_eq!(cell::<u32>(&app, shifted.entity), Some(12));
    assert_eq!(*seen.lock().unwrap(), vec![12]);
}

#[test]
fn effect_that_writes_another_root_does_not_extend_the_pass() {
    let mut app = host();
    let trigger = app.world.spawn_rx(RxValue::new(0_u32));
    let other = app.world.spawn_rx(RxValue::new(1_u32));
    let follows_other = app.world.spawn_rx(RxMap::new(other, |x| *x + 1));
    let other_slot = other.entity;
    app.world.spawn_rx(RxConsumer::new(trigger, move |x: &u32, world: &mut World, _slot| {
        if *x > 0 {
            let mut cell = world.get_mut::<RxSignal>(other_slot).expect("the root has a cell");
            assert_eq!(cell.set(*x), Some(()));
        }
    }));
    app.update();
    assert_eq!(cell::<u32>(&app, follows_other.entity), Some(2));

    assert_eq!(write(&mut app, trigger.entity, 40_u32), Some(()));
    app.update();
    let pass = last_pass(&app);
    assert_eq!(pass.end, RxPassEnd::Quiescent);
    assert_eq!(pass.roots, vec![trigger.entity]);
    assert_eq!(pass.runs.len(), 1);
    assert_eq!(pass.runs[0].source, trigger.entity);
    assert_eq!(cell::<u32>(&app, other.entity), Some(40));
    assert_eq!(cell::<u32>(&app, follows_other.entity), Some(2));

    assert_eq!(write(&mut app, other.entity, 40_u32), Some(()));
    app.update();
    let pass = last_pass(&app);
    assert_eq!(pass.roots, vec![other.entity]);
    assert_eq!(pass.runs.len(), 1);
    assert_eq!(cell::<u32>(&app, follows_other.entity), Some(41));
}

#[test]
fn edge_added_during_a_pass_waits_for_the_next_pass() {
    let mut app = host();
    let seen = Seen::default();
    let root = app.world.spawn_rx(RxValue::new(3_u32));
    let sink = Arc::clone(&seen);
    app.world.spawn_rx(RxConsumer::new(root, move |_x: &u32, world: &mut World, _slot| {
        let sink = Arc::clone(&sink);
        world.spawn_rx(RxConsumer::new(root, move |x: &u32, _world: &mut World, _slot| {
            sink.lock().unwrap().push(*x);
        }));
    }));
    app.update();
    assert_eq!(last_pass(&app).edges.len(), 1);
    assert_eq!(last_pass(&app).runs.len(), 1);
    assert!(seen.lock().unwrap().is_empty());

    assert_eq!(write(&mut app, root.entity, 4_u32), Some(()));
    app.update();
    assert_eq!(last_pass(&app).edges.len(), 2);
    assert_eq!(last_pass(&app).runs.len(), 2);
    assert_eq!(*seen.lock().unwrap(), vec![4]);
}
