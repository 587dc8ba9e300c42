//! The entity store as this library sees it: the outside types, the names
//! for what a store holds, and one function for each call into the store.
//! Nothing here is proved; the rest of the library is proved from it.

use crate::components::{RxComputed, RxEffect, RxSignal};
use crate::schedule::RxEdge;
use crate::value::RxDatum;
use bevy::ecs::component::TableStorage;
use bevy::ecs::entity::Entity;
use bevy::ecs::query::{Changed, Without};
use bevy::ecs::system::{RegisteredSystemError, SystemId};
use bevy::ecs::world::World;
use vstd::prelude::*;

verus! {

#[verifier::external_type_specification]
#[verifier::external_body]
pub struct ExWorld(World);

#[verifier::external_type_specification]
#[verifier::external_body]
pub struct ExEntity(Entity);

#[verifier::external_type_specification]
#[verifier::external_body]
pub struct ExSystemId(SystemId);

#[verifier::external_type_specification]
#[verifier::external_body]
pub struct ExTableStorage(TableStorage);

/// The slots that exist in the store: the entities that `World::get_entity`
/// finds.
pub uninterp spec fn world_slots(world: World) -> Set<Entity>;

/// The value cells in the store: for each existing slot that has one
/// attached, what the cell holds.
pub uninterp spec fn world_signals(world: World) -> Map<Entity, RxDatum>;

/// The existing slots that carry the derived marker.
pub uninterp spec fn world_computed(world: World) -> Set<Entity>;

/// The dependency edges in the store: for each existing slot that carries
/// one, the edge. A slot carries at most one.
pub uninterp spec fn world_effects(world: World) -> Map<Entity, RxEffect>;

/// The slots whose value cell the store counts as changed: those that a
/// query for changed value cells finds, made on the store as it stands. When
/// a cell ceases to count as changed is for the store and the host to say.
pub uninterp spec fn world_changed(world: World) -> Set<Entity>;

/// The procedures that the store will run when asked: the identifiers
/// under which it keeps a registered system that is not running.
pub uninterp spec fn world_procedures(world: World) -> Set<SystemId>;

/// What this library keeps in a store, as plain values.
#[verifier::ext_equal]
pub struct RxGraph {
    pub slots: Set<Entity>,
    pub signals: Map<Entity, RxDatum>,
    pub computed: Set<Entity>,
    pub effects: Map<Entity, RxEffect>,
    pub procedures: Set<SystemId>,
}

impl RxGraph {
    /// `after` is this graph once `slot` was allocated: the slot is new and
    /// bare, no slot is gone, and nothing was attached or detached.
    pub open spec fn allocates(self, after: RxGraph, slot: Entity) -> bool {
        &&& !self.slots.contains(slot)
        &&& after.slots.contains(slot)
        &&& self.slots.subset_of(after.slots)
        &&& after.bare(slot)
        &&& after.signals == self.signals
        &&& after.computed == self.computed
        &&& after.effects == self.effects
        &&& after.procedures == self.procedures
    }

    /// `slot` has no cell, no derived marker and no edge.
    pub open spec fn bare(self, slot: Entity) -> bool {
        &&& !self.signals.dom().contains(slot)
        &&& !self.computed.contains(slot)
        &&& !self.effects.dom().contains(slot)
    }
}

/// The graph that a store holds.
pub open spec fn graph_of(world: World) -> RxGraph {
    RxGraph {
        slots: world_slots(world),
        signals: world_signals(world),
        computed: world_computed(world),
        effects: world_effects(world),
        procedures: world_procedures(world),
    }
}

/// `edges` lists the dependency edges of `effects`: each edge once, each
/// under its dependent, and nothing else.
pub open spec fn snapshot_of(edges: Seq<RxEdge>, effects: Map<Entity, RxEffect>) -> bool {
    &&& forall|i: int|
        0 <= i < edges.len() ==> {
            &&& effects.dom().contains(#[trigger] edges[i].dependent)
            &&& effects[edges[i].dependent].depends_on == edges[i].source
            &&& effects[edges[i].dependent].effect == edges[i].procedure
        }
    &&& forall|i: int, j: int|
        0 <= i < j < edges.len() ==> (#[trigger] edges[i]).dependent != (#[trigger] edges[j]).dependent
    &&& forall|slot: Entity| #[trigger]
        effects.dom().contains(slot) ==> exists|i: int|
            0 <= i < edges.len() && (#[trigger] edges[i]).dependent == slot
}

/// Why the store would not do what it was asked with a procedure. These
/// are the store's own reasons, one for one.
#[derive(Clone, Copy, Debug, PartialEq, Eq)]
pub enum RxFault {
    /// The store knows no procedure under the identifier.
    NotRegistered,
    /// The procedure is running already and was asked to run again.
    Recursive,
    /// The procedure tried to remove itself. The store gives this reason
    /// when asked to remove a procedure, not when asked to run one.
    SelfRemove,
}

/// `World::spawn_empty` and `EntityWorldMut::id`: a slot that did not exist
/// before exists now, with nothing attached. No slot is gone, and nothing
/// is attached or detached elsewhere. (Slots that the host had reserved come
/// into being with it.)
#[verifier::external_body]
pub(crate) fn spawn_slot(world: &mut World) -> (slot: Entity)
    ensures
        !world_slots(*old(world)).contains(slot),
        world_slots(*final(world)).contains(slot),
        world_slots(*old(world)).subset_of(world_slots(*final(world))),
        !world_signals(*final(world)).dom().contains(slot),
        !world_computed(*final(world)).contains(slot),
        !world_effects(*final(world)).dom().contains(slot),
        world_signals(*final(world)) == world_signals(*old(world)),
        world_computed(*final(world)) == world_computed(*old(world)),
        world_effects(*final(world)) == world_effects(*old(world)),
        world_procedures(*final(world)) == world_procedures(*old(world)),
{
    world.spawn_empty().id()
}

/// `World::entity_mut` and `EntityWorldMut::insert` with a value cell: the
/// slot holds `cell` afterwards, in place of any cell it held. `entity_mut`
/// panics on a slot that does not exist.
#[verifier::external_body]
pub(crate) fn attach_signal(world: &mut World, slot: Entity, cell: RxSignal)
    requires
        world_slots(*old(world)).contains(slot),
    ensures
        world_slots(*final(world)) == world_slots(*old(world)),
        world_signals(*final(world)) == world_signals(*old(world)).insert(slot, cell@),
        world_computed(*final(world)) == world_computed(*old(world)),
        world_effects(*final(world)) == world_effects(*old(world)),
        world_procedures(*final(world)) == world_procedures(*old(world)),
{
    world.entity_mut(slot).insert(cell);
}

/// `World::entity_mut` and `EntityWorldMut::insert` with the derived marker:
/// the slot carries the marker afterwards.
#[verifier::external_body]
pub(crate) fn attach_computed(world: &mut World, slot: Entity, marker: RxComputed)
    requires
        world_slots(*old(world)).contains(slot),
    ensures
        world_slots(*final(world)) == world_slots(*old(world)),
        world_signals(*final(world)) == world_signals(*old(world)),
        world_computed(*final(world)) == world_computed(*old(world)).insert(slot),
        world_effects(*final(world)) == world_effects(*old(world)),
        world_procedures(*final(world)) == world_procedures(*old(world)),
{
    world.entity_mut(slot).insert(marker);
}

/// `World::entity_mut` and `EntityWorldMut::insert` with a dependency edge:
/// the slot carries `edge` afterwards, in place of any edge it carried.
#[verifier::external_body]
pub(crate) fn attach_effect(world: &mut World, slot: Entity, edge: RxEffect)
    requires
        world_slots(*old(world)).contains(slot),
    ensures
        world_slots(*final(world)) == world_slots(*old(world)),
        world_signals(*final(world)) == world_signals(*old(world)),
        world_computed(*final(world)) == world_computed(*old(world)),
        world_effects(*final(world)) == world_effects(*old(world)).insert(slot, edge),
        world_procedures(*final(world)) == world_procedures(*old(world)),
{
    world.entity_mut(slot).insert(edge);
}

/// `World::get_entity`: whether the slot exists.
#[verifier::external_body]
pub(crate) fn slot_exists(world: &World, slot: Entity) -> (r: bool)
    ensures
        r == world_slots(*world).contains(slot),
{
    world.get_entity(slot).is_some()
}

/// `World::get` for the value cell of a slot: the cell, if the slot exists
/// and has one.
#[verifier::external_body]
pub(crate) fn signal_ref(world: &World, slot: Entity) -> (r: Option<&RxSignal>)
    ensures
        (r is Some) == world_signals(*world).dom().contains(slot),
        r is Some ==> r.unwrap()@ == world_signals(*world)[slot],
{
    world.get::<RxSignal>(slot)
}

/// `World::get_mut` for the value cell of a slot, and `Mut::into_inner`,
/// which marks the cell as changed: the cell, if the slot exists and has one.
/// What is written through the reference is what the store holds afterwards.
#[verifier::external_body]
pub(crate) fn signal_mut(world: &mut World, slot: Entity) -> (r: Option<&mut RxSignal>)
    ensures
        (r is Some) == world_signals(*old(world)).dom().contains(slot),
        r is Some ==> r.unwrap()@ == world_signals(*old(world))[slot],
        r is Some ==> world_signals(*final(world)) == world_signals(*old(world)).insert(
            slot,
            final(r.unwrap())@,
        ),
        r is None ==> world_signals(*final(world)) == world_signals(*old(world)),
        world_slots(*final(world)) == world_slots(*old(world)),
        world_computed(*final(world)) == world_computed(*old(world)),
        world_effects(*final(world)) == world_effects(*old(world)),
        world_procedures(*final(world)) == world_procedures(*old(world)),
{
    match world.get_mut::<RxSignal>(slot) {
        Some(cell) => Some(cell.into_inner()),
        None => None,
    }
}

/// `World::register_system`: the store keeps `procedure` under the
/// identifier that is returned, which it did not know before, and will run
/// it when asked. It spawns a slot of its own for that; no slot is gone, and
/// nothing of this library is attached or detached.
#[verifier::external_body]
pub(crate) fn register_procedure<F: Fn(&mut World) + Send + Sync + 'static>(
    world: &mut World,
    procedure: F,
) -> (id: SystemId)
    requires
        forall|w: &mut World| call_requires(procedure, (w,)),
    ensures
        !world_procedures(*old(world)).contains(id),
        world_procedures(*final(world)) == world_procedures(*old(world)).insert(id),
        world_slots(*old(world)).subset_of(world_slots(*final(world))),
        world_signals(*final(world)) == world_signals(*old(world)),
        world_computed(*final(world)) == world_computed(*old(world)),
        world_effects(*final(world)) == world_effects(*old(world)),
{
    world.register_system(procedure)
}

/// `World::run_system`: runs the procedure kept under `id`, which may do
/// anything to the store, or says why the store would not run it. The store
/// runs exactly the procedures that it keeps and that are not running. It
/// does not panic itself; a procedure of the host's may.
#[verifier::external_body]
pub(crate) fn run_procedure(world: &mut World, id: SystemId) -> (r: Result<(), RxFault>)
    ensures
        (r is Ok) == world_procedures(*old(world)).contains(id),
{
    match world.run_system(id) {
        Ok(()) => Ok(()),
        Err(RegisteredSystemError::SystemIdNotRegistered(_)) => Err(RxFault::NotRegistered),
        Err(RegisteredSystemError::Recursive(_)) => Err(RxFault::Recursive),
        Err(RegisteredSystemError::SelfRemove(_)) => Err(RxFault::SelfRemove),
    }
}

/// `World::query_filtered` for the slots whose value cell changed and which
/// carry no derived marker: exactly those slots come back, each once. Each
/// has a cell. The query changes nothing in the store.
#[verifier::external_body]
pub(crate) fn changed_roots(world: &mut World) -> (roots: Vec<Entity>)
    ensures
        forall|slot: Entity|
            roots@.contains(slot) == (world_changed(*old(world)).contains(slot) && !world_computed(
                *old(world),
            ).contains(slot)),
        forall|i: int|
            0 <= i < roots.len() ==> world_signals(*final(world)).dom().contains(#[trigger] roots[i]),
        roots@.no_duplicates(),
        world_changed(*final(world)) == world_changed(*old(world)),
        world_slots(*final(world)) == world_slots(*old(world)),
        world_signals(*final(world)) == world_signals(*old(world)),
        world_computed(*final(world)) == world_computed(*old(world)),
        world_effects(*final(world)) == world_effects(*old(world)),
        world_procedures(*final(world)) == world_procedures(*old(world)),
{
    world.query_filtered::<Entity, (Changed<RxSignal>, Without<RxComputed>)>().iter(world).collect()
}

/// `World::query` for every dependency edge with the slot that carries it:
/// the edges of the store, each once, in the order in which the store hands
/// them out.
#[verifier::external_body]
pub(crate) fn edge_snapshot(world: &mut World) -> (edges: Vec<RxEdge>)
    ensures
        snapshot_of(edges@, world_effects(*final(world))),
        world_slots(*final(world)) == world_slots(*old(world)),
        world_signals(*final(world)) == world_signals(*old(world)),
        world_computed(*final(world)) == world_computed(*old(world)),
        world_effects(*final(world)) == world_effects(*old(world)),
        world_procedures(*final(world)) == world_procedures(*old(world)),
{
    world.query::<(Entity, &RxEffect)>().iter(world).map(
        |(slot, edge)| RxEdge { dependent: slot, source: edge.depends_on, procedure: edge.effect },
    ).collect()
}

/// `Entity::eq`, which compares index and generation: two slots are equal
/// exactly when they are the same slot.
#[verifier::external_body]
pub(crate) fn same_slot(a: Entity, b: Entity) -> (r: bool)
    ensures
        r == (a == b),
{
    a == b
}

} // verus!
