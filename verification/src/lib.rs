//! Reactive signals on top of an entity store: value cells, derived values
//! and effects, wired by dependency edges and re-evaluated in waves.

pub mod components;
pub mod engine;
pub mod prelude;
pub mod rx_core;
pub mod schedule;
mod seal;
pub mod store;
pub mod value;
pub mod world;

pub use crate::engine::run_rx;
pub use crate::rx_core::RxApply;
