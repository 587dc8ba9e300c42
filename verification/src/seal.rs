//! The closed list of types that a cell can hold.

use vstd::prelude::*;

verus! {

/// Implemented for the types that have a tag, and nameable in this crate
/// only: no other crate can add a type to the list.
pub trait Tagged {}

impl Tagged for bool {}

impl Tagged for char {}

impl Tagged for u8 {}

impl Tagged for u16 {}

impl Tagged for u32 {}

impl Tagged for u64 {}

impl Tagged for u128 {}

impl Tagged for usize {}

impl Tagged for i8 {}

impl Tagged for i16 {}

impl Tagged for i32 {}

impl Tagged for i64 {}

impl Tagged for i128 {}

impl Tagged for isize {}

} // verus!
