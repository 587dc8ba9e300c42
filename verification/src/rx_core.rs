//! Handles and builders: the root value, the mapped value and the consumer,
//! with the procedures that the last two register.

use crate::components::{RxComputed, RxEffect, RxSignal};
use crate::store::{
    attach_computed, attach_effect, attach_signal, graph_of, register_procedure, signal_mut,
    signal_ref, slot_exists, spawn_slot, world_computed, world_effects, world_procedures,
    world_signals, world_slots, RxGraph,
};
use crate::value::{RxDatum, RxVal};
use bevy::ecs::entity::Entity;
use bevy::ecs::world::World;
use std::marker::PhantomData;
use vstd::prelude::*;

verus! {

/// A handle to a slot, tagged with the type of the value that the slot's
/// cell holds. The tag exists at compile time only.
#[derive(Eq, PartialEq, Debug)]
pub struct RxRef<T> {
    /// The slot that the handle refers to.
    pub entity: Entity,
    pub _phantom: PhantomData<T>,
}

impl<T> Clone for RxRef<T> {
    fn clone(&self) -> (copy: Self)
        ensures
            copy == *self,
    {
        Self { entity: self.entity, _phantom: PhantomData }
    }
}

impl<T> Copy for RxRef<T> {}

impl<T> RxRef<T> {
    pub fn new(entity: Entity) -> (handle: Self)
        ensures
            handle.entity == entity,
    {
        Self { entity, _phantom: PhantomData }
    }
}

/// A builder: something that can be wired into a slot of a store.
pub trait RxApply<T>: Sized {
    /// What the builder needs before it is applied: that the function it
    /// carries, if any, accepts every argument.
    spec fn ready(&self) -> bool;

    /// The wiring: how the store's contents after the builder was applied to
    /// `slot` relate to those before.
    spec fn wires(&self, before: RxGraph, after: RxGraph, slot: Entity) -> bool;

    /// Wires the builder into a slot that is allocated for it: what `insert`
    /// does, on a slot that did not exist before.
    fn apply(self, world: &mut World) -> (handle: RxRef<T>)
        requires
            self.ready(),
        ensures
            exists|allocated: RxGraph|
                graph_of(*old(world)).allocates(allocated, handle.entity) && #[trigger] self.wires(
                    allocated,
                    graph_of(*final(world)),
                    handle.entity,
                ),
    {
        let destination = spawn_slot(world);
        self.insert(world, destination)
    }

    /// Wires the builder into `entity`, a slot of the store.
    fn insert(self, world: &mut World, entity: Entity) -> (handle: RxRef<T>)
        requires
            self.ready(),
            world_slots(*old(world)).contains(entity),
        ensures
            handle.entity == entity,
            self.wires(graph_of(*old(world)), graph_of(*final(world)), entity),
    ;

    /// Wires the builder into `entity` if that is a slot of the store: what
    /// `insert` does. If it is none, the store stays as it is.
    fn try_insert(self, world: &mut World, entity: Entity) -> (handle: Option<RxRef<T>>)
        requires
            self.ready(),
        ensures
            (handle is Some) == world_slots(*old(world)).contains(entity),
            handle is Some ==> handle.unwrap().entity == entity && self.wires(
                graph_of(*old(world)),
                graph_of(*final(world)),
                entity,
            ),
            handle is None ==> *final(world) == *old(world),
    {
        if slot_exists(world, entity) {
            Some(self.insert(world, entity))
        } else {
            None
        }
    }
}

/// `slot` has a cell, and the cell was created with type `T`.
pub open spec fn holds_kind<T: RxVal>(signals: Map<Entity, RxDatum>, slot: Entity) -> bool {
    signals.dom().contains(slot) && signals[slot].kind() == T::kind()
}

/// The value of the cell at `slot` as a `T`, if the slot has a cell that was
/// created with type `T`.
pub fn read_cell<T: RxVal>(world: &World, slot: Entity) -> (r: Option<T>)
    ensures
        (r is Some) == holds_kind::<T>(world_signals(*world), slot),
        r is Some ==> r.unwrap().datum() == world_signals(*world)[slot],
{
    match signal_ref(world, slot) {
        Some(cell) => match cell.get::<T>() {
            Some(value) => Some(*value),
            None => None,
        },
        None => None,
    }
}

/// A root: a cell that the host writes.
pub struct RxValue<T: RxVal> {
    pub value: T,
}

impl<T: RxVal> RxValue<T> {
    pub fn new(value: T) -> (root: Self)
        ensures
            root.value == value,
    {
        Self { value }
    }
}

impl<T: RxVal> RxApply<T> for RxValue<T> {
    open spec fn ready(&self) -> bool {
        true
    }

    /// The slot gets a cell that holds the value; nothing else changes.
    open spec fn wires(&self, before: RxGraph, after: RxGraph, slot: Entity) -> bool {
        after == RxGraph { signals: before.signals.insert(slot, self.value.datum()), ..before }
    }

    fn insert(self, world: &mut World, entity: Entity) -> (handle: RxRef<T>) {
        attach_signal(world, entity, RxSignal::new(self.value));
        RxRef::new(entity)
    }
}

/// A derived cell: `mapping` applied to the value of `source`.
#[verifier::reject_recursive_types(A)]
#[verifier::reject_recursive_types(B)]
pub struct RxMap<A: RxVal, B: RxVal, F: Fn(&A) -> B + Send + Sync + 'static> {
    pub source: RxRef<A>,
    pub mapping: F,
}

impl<A: RxVal, B: RxVal, F: Fn(&A) -> B + Send + Sync + 'static> RxMap<A, B, F> {
    pub fn new(source: RxRef<A>, mapping: F) -> (map: Self)
        ensures
            map.source == source,
            map.mapping == mapping,
    {
        Self { source, mapping }
    }

    /// The mapping accepts every argument.
    pub open spec fn accepts_all(&self) -> bool {
        forall|a: &A| call_requires(self.mapping, (a,))
    }
}

impl<A: RxVal, B: RxVal + Default, F: Fn(&A) -> B + Send + Sync + 'static> RxMap<A, B, F> {
    /// The wiring of a mapped value: the slot gets a cell that holds the
    /// default value of `B`, the derived marker, and an edge from the
    /// source. The edge's procedure is new to the store, and the store will
    /// run it. Registering it may add slots; nothing else changes.
    pub open spec fn wiring(&self, before: RxGraph, after: RxGraph, slot: Entity) -> bool {
        &&& before.slots.subset_of(after.slots)
        &&& after.signals.dom().contains(slot)
        &&& after.signals == before.signals.insert(slot, after.signals[slot])
        &&& exists|b: B| call_ensures(B::default, (), b) && after.signals[slot] == #[trigger] b.datum()
        &&& after.computed == before.computed.insert(slot)
        &&& after.effects.dom().contains(slot)
        &&& after.effects == before.effects.insert(slot, after.effects[slot])
        &&& after.effects[slot].depends_on == self.source.entity
        &&& !before.procedures.contains(after.effects[slot].effect)
        &&& after.procedures == before.procedures.insert(after.effects[slot].effect)
    }

    /// What `ready` and `wires` say of a mapped value, spelled out for a
    /// caller that holds a mapping of a type of its own.
    pub proof fn lemma_builder(self, before: RxGraph, after: RxGraph, slot: Entity)
        ensures
            self.ready() == self.accepts_all(),
            self.wires(before, after, slot) == self.wiring(before, after, slot),
    {
    }
}

/// What one run of a mapped value's procedure does to the cells: where
/// `source` has a cell of type `A` and `target` one of type `B`, the cell at
/// `target` holds what `mapping` gives for the value at `source`; otherwise
/// the cells are as before.
pub open spec fn mapped_step<A: RxVal, B: RxVal, F: Fn(&A) -> B>(
    before: Map<Entity, RxDatum>,
    after: Map<Entity, RxDatum>,
    source: Entity,
    target: Entity,
    mapping: F,
) -> bool {
    if holds_kind::<A>(before, source) && holds_kind::<B>(before, target) {
        exists|a: A, b: B|
            a.datum() == before[source] && #[trigger] call_ensures(mapping, (&a,), b) && after
                == before.insert(target, b.datum())
    } else {
        after == before
    }
}

/// The procedure of a mapped value: reads the cell at `source` as an `A`,
/// applies `mapping` and writes the result to the cell at `target` as a `B`.
/// Where `source` has no cell of type `A`, or `target` no cell of type `B`,
/// no value in the store changes.
pub fn recompute_mapped<A: RxVal, B: RxVal, F: Fn(&A) -> B>(
    world: &mut World,
    source: Entity,
    target: Entity,
    mapping: &F,
)
    requires
        forall|a: &A| call_requires(*mapping, (a,)),
    ensures
        world_slots(*final(world)) == world_slots(*old(world)),
        world_computed(*final(world)) == world_computed(*old(world)),
        world_effects(*final(world)) == world_effects(*old(world)),
        world_procedures(*final(world)) == world_procedures(*old(world)),
        mapped_step::<A, B, F>(
            world_signals(*old(world)),
            world_signals(*final(world)),
            source,
            target,
            *mapping,
        ),
{
    let ghost before = world_signals(*world);
    let read = read_cell::<A>(world, source);
    match read {
        Some(a) => {
            let mapped = mapping(&a);
            match signal_mut(world, target) {
                Some(cell) => {
                    let done = cell.set(mapped);
                    proof {
                        if done is Some {
                            assert(call_ensures(*mapping, (&a,), mapped));
                            assert(world_signals(*final(world)) == before.insert(
                                target,
                                mapped.datum(),
                            ));
                        } else {
                            assert(world_signals(*final(world)) =~= before);
                        }
                    }
                },
                None => {},
            }
        },
        None => {},
    }
}

/// A chain carries the value: where the root holds `v`, the first mapping
/// gives `fv` for `v` and the second gives `gfv` for `fv`, one run of the
/// first procedure followed by one of the second leaves `fv` in the first
/// derived cell and `gfv` in the second, and whoever reads the second cell
/// then reads `gfv`.
pub proof fn law_chain_carries_value<
    A: RxVal,
    B: RxVal,
    C: RxVal,
    F: Fn(&A) -> B,
    G: Fn(&B) -> C,
>(
    cells: Map<Entity, RxDatum>,
    after_first: Map<Entity, RxDatum>,
    after_second: Map<Entity, RxDatum>,
    root: Entity,
    first: Entity,
    second: Entity,
    f: F,
    g: G,
    v: A,
    fv: B,
    gfv: C,
)
    requires
        cells.dom().contains(root),
        cells[root] == v.datum(),
        holds_kind::<B>(cells, first),
        holds_kind::<C>(cells, second),
        root != first,
        root != second,
        first != second,
        forall|b: B| call_ensures(f, (&v,), b) ==> b == fv,
        forall|c: C| call_ensures(g, (&fv,), c) ==> c == gfv,
        mapped_step::<A, B, F>(cells, after_first, root, first, f),
        mapped_step::<B, C, G>(after_first, after_second, first, second, g),
    ensures
        after_second[root] == v.datum(),
        after_second[first] == fv.datum(),
        after_second[second] == gfv.datum(),
        forall|seen: C| seen.datum() == after_second[second] ==> seen == gfv,
{
    v.datum_has_kind();
    fv.datum_has_kind();
    assert(holds_kind::<A>(cells, root));
    let (a, b) = choose|a: A, b: B|
        a.datum() == cells[root] && #[trigger] call_ensures(f, (&a,), b) && after_first
            == cells.insert(first, b.datum());
    A::datum_is_injective(a, v);
    assert(b == fv);
    assert(holds_kind::<B>(after_first, first));
    assert(holds_kind::<C>(after_first, second));
    let (a2, c) = choose|a2: B, c: C|
        a2.datum() == after_first[first] && #[trigger] call_ensures(g, (&a2,), c) && after_second
            == after_first.insert(second, c.datum());
    B::datum_is_injective(a2, fv);
    assert(c == gfv);
    assert forall|seen: C| seen.datum() == after_second[second] implies seen == gfv by {
        C::datum_is_injective(seen, gfv);
    }
}

impl<A: RxVal, B: RxVal + Default, F: Fn(&A) -> B + Send + Sync + 'static> RxApply<B> for RxMap<
    A,
    B,
    F,
> {
    open spec fn ready(&self) -> bool {
        self.accepts_all()
    }

    open spec fn wires(&self, before: RxGraph, after: RxGraph, slot: Entity) -> bool {
        self.wiring(before, after, slot)
    }

    fn insert(self, world: &mut World, destination: Entity) -> (handle: RxRef<B>) {
        let source = self.source.entity;
        let initial = B::default();
        attach_signal(world, destination, RxSignal::new(initial));
        attach_computed(world, destination, RxComputed);
        let mapping = self.mapping;
        let procedure = move |world: &mut World|
            {
                recompute_mapped::<A, B, F>(world, source, destination, &mapping);
            };
        let id = register_procedure(world, procedure);
        attach_effect(world, destination, RxEffect::new(source, id));
        RxRef::new(destination)
    }
}

/// An effect: `effect` run on the value of `source`, with the store and the
/// slot that the consumer was wired into.
pub struct RxConsumer<T: RxVal, F: Fn(&T, &mut World, Entity) + Send + Sync + 'static> {
    pub source: RxRef<T>,
    pub effect: F,
}

impl<T: RxVal, F: Fn(&T, &mut World, Entity) + Send + Sync + 'static> RxConsumer<T, F> {
    pub fn new(source: RxRef<T>, effect: F) -> (consumer: Self)
        ensures
            consumer.source == source,
            consumer.effect == effect,
    {
        Self { source, effect }
    }

    /// The effect accepts every value, store and slot.
    pub open spec fn accepts_all(&self) -> bool {
        forall|value: &T, w: &mut World, slot: Entity|
            call_requires(self.effect, (value, w, slot))
    }

    /// The wiring of a consumer: the slot gets an edge from the source, and
    /// no cell. The edge's procedure is new to the store, and the store will
    /// run it. Registering it may add slots; nothing else changes.
    pub open spec fn wiring(&self, before: RxGraph, after: RxGraph, slot: Entity) -> bool {
        &&& before.slots.subset_of(after.slots)
        &&& after.signals == before.signals
        &&& after.computed == before.computed
        &&& after.effects.dom().contains(slot)
        &&& after.effects == before.effects.insert(slot, after.effects[slot])
        &&& after.effects[slot].depends_on == self.source.entity
        &&& !before.procedures.contains(after.effects[slot].effect)
        &&& after.procedures == before.procedures.insert(after.effects[slot].effect)
    }

    /// What `ready` and `wires` say of a consumer, spelled out for a caller
    /// that holds an effect of a type of its own.
    pub proof fn lemma_builder(self, before: RxGraph, after: RxGraph, slot: Entity)
        ensures
            self.ready() == self.accepts_all(),
            self.wires(before, after, slot) == self.wiring(before, after, slot),
    {
    }
}

/// The procedure of a consumer: reads the cell at `source` as a `T` and hands
/// a copy of the value to `effect`, with the store and `target`. Where
/// `source` has no cell of type `T`, `effect` is not called and the store
/// stays as it is.
pub fn deliver<T: RxVal, F: Fn(&T, &mut World, Entity)>(
    world: &mut World,
    source: Entity,
    target: Entity,
    effect: &F,
)
    requires
        forall|value: &T, w: &mut World, slot: Entity| call_requires(*effect, (value, w, slot)),
    ensures
        !holds_kind::<T>(world_signals(*old(world)), source) ==> *final(world) == *old(world),
        holds_kind::<T>(world_signals(*old(world)), source) ==> exists|value: T, w: &mut World|
            value.datum() == world_signals(*old(world))[source] && *w == *old(world) && *final(w)
                == *final(world) && #[trigger] call_ensures(*effect, (&value, w, target), ()),
{
    let read = read_cell::<T>(world, source);
    match read {
        Some(value) => {
            effect(&value, world, target);
        },
        None => {},
    }
}

impl<T: RxVal, F: Fn(&T, &mut World, Entity) + Send + Sync + 'static> RxApply<()> for RxConsumer<
    T,
    F,
> {
    open spec fn ready(&self) -> bool {
        self.accepts_all()
    }

    open spec fn wires(&self, before: RxGraph, after: RxGraph, slot: Entity) -> bool {
        self.wiring(before, after, slot)
    }

    fn insert(self, world: &mut World, destination: Entity) -> (handle: RxRef<()>) {
        let source = self.source.entity;
        let effect = self.effect;
        let procedure = move |world: &mut World|
            {
                deliver::<T, F>(world, source, destination, &effect);
            };
        let id = register_procedure(world, procedure);
        attach_effect(world, destination, RxEffect::new(source, id));
        RxRef::new(destination)
    }
}

} // verus!
