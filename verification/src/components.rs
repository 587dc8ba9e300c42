//! What the library attaches to slots: the value cell, the derived marker
//! and the dependency edge.

use crate::value::{RxDatum, RxVal};
use bevy::ecs::component::{Component, TableStorage};
use bevy::ecs::entity::Entity;
use bevy::ecs::system::SystemId;
use vstd::prelude::*;

verus! {

/// A value cell: one dynamically typed value, fixed to the type it was
/// created with. Reads and writes name a type and are checked against the
/// stored tag; a mismatch yields `None` and changes nothing.
pub struct RxSignal {
    value: RxDatum,
}

impl Component for RxSignal {
    type Storage = TableStorage;
}

impl View for RxSignal {
    type V = RxDatum;

    closed spec fn view(&self) -> RxDatum {
        self.value
    }
}

impl RxSignal {
    /// A cell that holds `value`, of type `T` from now on.
    pub fn new<T: RxVal>(value: T) -> (cell: Self)
        ensures
            cell@ == value.datum(),
    {
        Self { value: value.erase() }
    }

    /// The stored value as a `T`, if the cell was created with type `T`.
    pub fn get<T: RxVal>(&self) -> (r: Option<&T>)
        ensures
            (r is Some) == (self@.kind() == T::kind()),
            r is Some ==> r.unwrap().datum() == self@,
    {
        T::recall(&self.value)
    }

    /// Overwrites the stored value if the cell was created with type `T`;
    /// otherwise leaves the cell as it is and returns `None`.
    pub fn set<T: RxVal>(&mut self, value: T) -> (r: Option<()>)
        ensures
            (r is Some) == (old(self)@.kind() == T::kind()),
            r is Some ==> final(self)@ == value.datum(),
            r is None ==> final(self)@ == old(self)@,
            final(self)@.kind() == old(self)@.kind(),
    {
        match T::recall(&self.value) {
            Some(_) => {
                proof {
                    value.datum_has_kind();
                }
                self.value = value.erase();
                Some(())
            },
            None => None,
        }
    }
}

/// Marks a slot whose cell is written by a recomputation procedure only,
/// never by the host. A slot without this marker is a root.
#[derive(Debug, Default)]
pub struct RxComputed;

impl Component for RxComputed {
    type Storage = TableStorage;
}

/// A dependency edge, attached to the dependent slot: the slot it depends
/// on and the procedure that recomputes the dependent when that slot changes.
#[derive(Debug)]
pub struct RxEffect {
    pub depends_on: Entity,
    pub effect: SystemId,
}

impl Component for RxEffect {
    type Storage = TableStorage;
}

impl RxEffect {
    pub fn new(depends_on: Entity, effect: SystemId) -> (edge: Self)
        ensures
            edge.depends_on == depends_on,
            edge.effect == effect,
    {
        Self { depends_on, effect }
    }
}

} // verus!
