//! The values that a cell can hold: the integer types, `bool` and `char`,
//! each erased to a datum that carries its tag.

use crate::seal::Tagged;
use vstd::prelude::*;

verus! {

/// The runtime tag of a value cell: which type the cell was created with.
#[derive(Clone, Copy, Debug, PartialEq, Eq, Hash)]
pub enum RxKind {
    Bool,
    Char,
    U8,
    U16,
    U32,
    U64,
    U128,
    Usize,
    I8,
    I16,
    I32,
    I64,
    I128,
    Isize,
}

/// A value with its type erased: the payload together with its tag.
///
/// This is what a value cell stores, and what its view is.
#[derive(Clone, Copy, Debug, PartialEq, Eq, Hash)]
pub enum RxDatum {
    Bool(bool),
    Char(char),
    U8(u8),
    U16(u16),
    U32(u32),
    U64(u64),
    U128(u128),
    Usize(usize),
    I8(i8),
    I16(i16),
    I32(i32),
    I64(i64),
    I128(i128),
    Isize(isize),
}

impl RxDatum {
    /// The tag under which this datum is stored.
    pub open spec fn kind(self) -> RxKind {
        match self {
            RxDatum::Bool(_) => RxKind::Bool,
            RxDatum::Char(_) => RxKind::Char,
            RxDatum::U8(_) => RxKind::U8,
            RxDatum::U16(_) => RxKind::U16,
            RxDatum::U32(_) => RxKind::U32,
            RxDatum::U64(_) => RxKind::U64,
            RxDatum::U128(_) => RxKind::U128,
            RxDatum::Usize(_) => RxKind::Usize,
            RxDatum::I8(_) => RxKind::I8,
            RxDatum::I16(_) => RxKind::I16,
            RxDatum::I32(_) => RxKind::I32,
            RxDatum::I64(_) => RxKind::I64,
            RxDatum::I128(_) => RxKind::I128,
            RxDatum::Isize(_) => RxKind::Isize,
        }
    }
}

/// A type whose values can live in a value cell.
///
/// The types are `bool`, `char`, `u8`, `u16`, `u32`, `u64`, `u128`, `usize`,
/// `i8`, `i16`, `i32`, `i64`, `i128` and `isize`, each with a tag of its own.
/// The list is closed: the tags are the variants of `RxKind`, and a type
/// that borrowed the tag of another could be read where the other was
/// written. So the trait cannot be implemented outside this crate.
///
/// `datum` erases a value, `kind` is the tag that every erased value of the
/// type carries, and no two values of the type erase to the same datum.
pub trait RxVal: Tagged + Sized + Copy + Send + Sync + 'static {
    /// The tag of this type.
    spec fn kind() -> RxKind;

    /// The erased form of `self`.
    spec fn datum(self) -> RxDatum;

    /// Every erased value of the type carries the type's tag.
    proof fn datum_has_kind(self)
        ensures
            self.datum().kind() == Self::kind(),
    ;

    /// Erasure loses nothing: equal data come from equal values.
    proof fn datum_is_injective(a: Self, b: Self)
        requires
            a.datum() == b.datum(),
        ensures
            a == b,
    ;

    /// Erases `self`.
    fn erase(self) -> (d: RxDatum)
        ensures
            d == self.datum(),
    ;

    /// Reads `d` back as a value of this type: `Some` exactly when `d`
    /// carries this type's tag, and then the value that erases to `d`.
    fn recall(d: &RxDatum) -> (r: Option<&Self>)
        ensures
            (r is Some) == (d.kind() == Self::kind()),
            r is Some ==> r.unwrap().datum() == *d,
    ;
}

impl RxVal for bool {
    open spec fn kind() -> RxKind {
        RxKind::Bool
    }

    open spec fn datum(self) -> RxDatum {
        RxDatum::Bool(self)
    }

    proof fn datum_has_kind(self) {
    }

    proof fn datum_is_injective(a: Self, b: Self) {
    }

    fn erase(self) -> (d: RxDatum) {
        RxDatum::Bool(self)
    }

    fn recall(d: &RxDatum) -> (r: Option<&Self>) {
        match d {
            RxDatum::Bool(v) => Some(v),
            _ => None,
        }
    }
}

impl RxVal for char {
    open spec fn kind() -> RxKind {
        RxKind::Char
    }

    open spec fn datum(self) -> RxDatum {
        RxDatum::Char(self)
    }

    proof fn datum_has_kind(self) {
    }

    proof fn datum_is_injective(a: Self, b: Self) {
    }

    fn erase(self) -> (d: RxDatum) {
        RxDatum::Char(self)
    }

    fn recall(d: &RxDatum) -> (r: Option<&Self>) {
        match d {
            RxDatum::Char(v) => Some(v),
            _ => None,
        }
    }
}

impl RxVal for u8 {
    open spec fn kind() -> RxKind {
        RxKind::U8
    }

    open spec fn datum(self) -> RxDatum {
        RxDatum::U8(self)
    }

    proof fn datum_has_kind(self) {
    }

    proof fn datum_is_injective(a: Self, b: Self) {
    }

    fn erase(self) -> (d: RxDatum) {
        RxDatum::U8(self)
    }

    fn recall(d: &RxDatum) -> (r: Option<&Self>) {
        match d {
            RxDatum::U8(v) => Some(v),
            _ => None,
        }
    }
}

impl RxVal for u16 {
    open spec fn kind() -> RxKind {
        RxKind::U16
    }

    open spec fn datum(self) -> RxDatum {
        RxDatum::U16(self)
    }

    proof fn datum_has_kind(self) {
    }

    proof fn datum_is_injective(a: Self, b: Self) {
    }

    fn erase(self) -> (d: RxDatum) {
        RxDatum::U16(self)
    }

    fn recall(d: &RxDatum) -> (r: Option<&Self>) {
        match d {
            RxDatum::U16(v) => Some(v),
            _ => None,
        }
    }
}

impl RxVal for u32 {
    open spec fn kind() -> RxKind {
        RxKind::U32
    }

    open spec fn datum(self) -> RxDatum {
        RxDatum::U32(self)
    }

    proof fn datum_has_kind(self) {
    }

    proof fn datum_is_injective(a: Self, b: Self) {
    }

    fn erase(self) -> (d: RxDatum) {
        RxDatum::U32(self)
    }

    fn recall(d: &RxDatum) -> (r: Option<&Self>) {
        match d {
            RxDatum::U32(v) => Some(v),
            _ => None,
        }
    }
}

impl RxVal for u64 {
    open spec fn kind() -> RxKind {
        RxKind::U64
    }

    open spec fn datum(self) -> RxDatum {
        RxDatum::U64(self)
    }

    proof fn datum_has_kind(self) {
    }

    proof fn datum_is_injective(a: Self, b: Self) {
    }

    fn erase(self) -> (d: RxDatum) {
        RxDatum::U64(self)
    }

    fn recall(d: &RxDatum) -> (r: Option<&Self>) {
        match d {
            RxDatum::U64(v) => Some(v),
            _ => None,
        }
    }
}

impl RxVal for u128 {
    open spec fn kind() -> RxKind {
        RxKind::U128
    }

    open spec fn datum(self) -> RxDatum {
        RxDatum::U128(self)
    }

    proof fn datum_has_kind(self) {
    }

    proof fn datum_is_injective(a: Self, b: Self) {
    }

    fn erase(self) -> (d: RxDatum) {
        RxDatum::U128(self)
    }

    fn recall(d: &RxDatum) -> (r: Option<&Self>) {
        match d {
            RxDatum::U128(v) => Some(v),
            _ => None,
        }
    }
}

impl RxVal for usize {
    open spec fn kind() -> RxKind {
        RxKind::Usize
    }

    open spec fn datum(self) -> RxDatum {
        RxDatum::Usize(self)
    }

    proof fn datum_has_kind(self) {
    }

    proof fn datum_is_injective(a: Self, b: Self) {
    }

    fn erase(self) -> (d: RxDatum) {
        RxDatum::Usize(self)
    }

    fn recall(d: &RxDatum) -> (r: Option<&Self>) {
        match d {
            RxDatum::Usize(v) => Some(v),
            _ => None,
        }
    }
}

impl RxVal for i8 {
    open spec fn kind() -> RxKind {
        RxKind::I8
    }

    open spec fn datum(self) -> RxDatum {
        RxDatum::I8(self)
    }

    proof fn datum_has_kind(self) {
    }

    proof fn datum_is_injective(a: Self, b: Self) {
    }

    fn erase(self) -> (d: RxDatum) {
        RxDatum::I8(self)
    }

    fn recall(d: &RxDatum) -> (r: Option<&Self>) {
        match d {
            RxDatum::I8(v) => Some(v),
            _ => None,
        }
    }
}

impl RxVal for i16 {
    open spec fn kind() -> RxKind {
        RxKind::I16
    }

    open spec fn datum(self) -> RxDatum {
        RxDatum::I16(self)
    }

    proof fn datum_has_kind(self) {
    }

    proof fn datum_is_injective(a: Self, b: Self) {
    }

    fn erase(self) -> (d: RxDatum) {
        RxDatum::I16(self)
    }

    fn recall(d: &RxDatum) -> (r: Option<&Self>) {
        match d {
            RxDatum::I16(v) => Some(v),
            _ => None,
        }
    }
}

impl RxVal for i32 {
    open spec fn kind() -> RxKind {
        RxKind::I32
    }

    open spec fn datum(self) -> RxDatum {
        RxDatum::I32(self)
    }

    proof fn datum_has_kind(self) {
    }

    proof fn datum_is_injective(a: Self, b: Self) {
    }

    fn erase(self) -> (d: RxDatum) {
        RxDatum::I32(self)
    }

    fn recall(d: &RxDatum) -> (r: Option<&Self>) {
        match d {
            RxDatum::I32(v) => Some(v),
            _ => None,
        }
    }
}

impl RxVal for i64 {
    open spec fn kind() -> RxKind {
        RxKind::I64
    }

    open spec fn datum(self) -> RxDatum {
        RxDatum::I64(self)
    }

    proof fn datum_has_kind(self) {
    }

    proof fn datum_is_injective(a: Self, b: Self) {
    }

    fn erase(self) -> (d: RxDatum) {
        RxDatum::I64(self)
    }

    fn recall(d: &RxDatum) -> (r: Option<&Self>) {
        match d {
            RxDatum::I64(v) => Some(v),
            _ => None,
        }
    }
}

impl RxVal for i128 {
    open spec fn kind() -> RxKind {
        RxKind::I128
    }

    open spec fn datum(self) -> RxDatum {
        RxDatum::I128(self)
    }

    proof fn datum_has_kind(self) {
    }

    proof fn datum_is_injective(a: Self, b: Self) {
    }

    fn erase(self) -> (d: RxDatum) {
        RxDatum::I128(self)
    }

    fn recall(d: &RxDatum) -> (r: Option<&Self>) {
        match d {
            RxDatum::I128(v) => Some(v),
            _ => None,
        }
    }
}

impl RxVal for isize {
    open spec fn kind() -> RxKind {
        RxKind::Isize
    }

    open spec fn datum(self) -> RxDatum {
        RxDatum::Isize(self)
    }

    proof fn datum_has_kind(self) {
    }

    proof fn datum_is_injective(a: Self, b: Self) {
    }

    fn erase(self) -> (d: RxDatum) {
        RxDatum::Isize(self)
    }

    fn recall(d: &RxDatum) -> (r: Option<&Self>) {
        match d {
            RxDatum::Isize(v) => Some(v),
            _ => None,
        }
    }
}

} // verus!
