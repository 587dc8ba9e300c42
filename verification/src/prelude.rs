//! Everything a host needs, under one path.

pub use crate::components::{RxComputed, RxEffect, RxSignal};
pub use crate::engine::{propagate, run_rx, settle_run, RxPass, RxPassEnd};
pub use crate::rx_core::{RxApply, RxConsumer, RxMap, RxRef, RxValue};
pub use crate::schedule::RxEdge;
pub use crate::store::RxFault;
pub use crate::value::{RxDatum, RxKind, RxVal};
pub use crate::world::{RxStore, RxWorldExt};
