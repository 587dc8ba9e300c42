//! The builders as methods of the store.

use crate::rx_core::{RxApply, RxRef};
use crate::store::{graph_of, RxGraph};
use bevy::ecs::entity::Entity;
use bevy::ecs::world::World;
use vstd::prelude::*;

verus! {

/// A store, seen as the graph that it holds.
pub trait RxStore {
    /// What the store holds of this library.
    spec fn graph(&self) -> RxGraph;
}

impl RxStore for World {
    open spec fn graph(&self) -> RxGraph {
        graph_of(*self)
    }
}

/// Applies builders to a store.
pub trait RxWorldExt<T>: RxStore {
    /// Wires `rx_bundle` into a slot that is allocated for it.
    fn spawn_rx<R: RxApply<T>>(&mut self, rx_bundle: R) -> (handle: RxRef<T>)
        requires
            rx_bundle.ready(),
        ensures
            exists|allocated: RxGraph|
                old(self).graph().allocates(allocated, handle.entity) && #[trigger] rx_bundle.wires(
                    allocated,
                    final(self).graph(),
                    handle.entity,
                ),
    ;

    /// Wires `rx` into `entity`, a slot of the store.
    fn insert_rx<R: RxApply<T>>(&mut self, entity: Entity, rx: R) -> (handle: RxRef<T>)
        requires
            rx.ready(),
            old(self).graph().slots.contains(entity),
        ensures
            handle.entity == entity,
            rx.wires(old(self).graph(), final(self).graph(), entity),
    ;

    /// Wires `rx` into `entity` if that is a slot of the store. If it is
    /// none, the store stays as it is.
    fn try_insert_rx<R: RxApply<T>>(&mut self, entity: Entity, rx: R) -> (handle: Option<RxRef<T>>)
        requires
            rx.ready(),
        ensures
            (handle is Some) == old(self).graph().slots.contains(entity),
            handle is Some ==> handle.unwrap().entity == entity && rx.wires(
                old(self).graph(),
                final(self).graph(),
                entity,
            ),
            handle is None ==> final(self).graph() == old(self).graph(),
    ;
}

impl<T> RxWorldExt<T> for World {
    fn spawn_rx<R: RxApply<T>>(&mut self, rx: R) -> (handle: RxRef<T>) {
        let handle = rx.apply(self);
        proof {
            let allocated = choose|allocated: RxGraph|
                graph_of(*old(self)).allocates(allocated, handle.entity) && #[trigger] rx.wires(
                    allocated,
                    graph_of(*self),
                    handle.entity,
                );
            assert(rx.wires(allocated, self.graph(), handle.entity));
        }
        handle
    }

    fn insert_rx<R: RxApply<T>>(&mut self, entity: Entity, rx: R) -> (handle: RxRef<T>) {
        rx.insert(self, entity)
    }

    fn try_insert_rx<R: RxApply<T>>(&mut self, entity: Entity, rx: R) -> (handle: Option<RxRef<T>>) {
        rx.try_insert(self, entity)
    }
}

} // verus!
