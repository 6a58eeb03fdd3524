//! The types at which a value can be read back, each tied to one kind.
use crate::arg::{Datum, Double, Single, Type, Value, ValueView};
use vstd::prelude::*;
use vstd::string::*;

verus! {

/// A type at which the value of an argument can be read back. Each such
/// type stands for exactly one kind.
pub trait Readable: Sized {
    /// The kind that the type stands for.
    spec fn kind_of() -> Type;

    /// The value, as the engine models it.
    spec fn model(&self) -> ValueView;

    /// The kind that the type stands for.
    fn read_kind() -> (kind: Type)
        ensures
            kind == Self::kind_of(),
    ;

    /// Takes a copy out of a value, if the value is of the type's kind.
    fn from_value(value: &Value) -> (r: Option<Self>)
        ensures
            match r {
                Some(x) => value@.kind == Self::kind_of() && x.model() == value@,
                None => value@.kind != Self::kind_of(),
            },
    ;
}

impl Readable for u8 {
    open spec fn kind_of() -> Type {
        Type::ReadAsU8
    }

    open spec fn model(&self) -> ValueView {
        ValueView { kind: Type::ReadAsU8, datum: Datum::Number(*self as int) }
    }

    fn read_kind() -> (kind: Type) {
        Type::ReadAsU8
    }

    fn from_value(value: &Value) -> (r: Option<Self>) {
        match value {
            Value::U8(x) => Some(*x),
            _ => None,
        }
    }
}

impl Readable for u16 {
    open spec fn kind_of() -> Type {
        Type::ReadAsU16
    }

    open spec fn model(&self) -> ValueView {
        ValueView { kind: Type::ReadAsU16, datum: Datum::Number(*self as int) }
    }

    fn read_kind() -> (kind: Type) {
        Type::ReadAsU16
    }

    fn from_value(value: &Value) -> (r: Option<Self>) {
        match value {
            Value::U16(x) => Some(*x),
            _ => None,
        }
    }
}

impl Readable for u32 {
    open spec fn kind_of() -> Type {
        Type::ReadAsU32
    }

    open spec fn model(&self) -> ValueView {
        ValueView { kind: Type::ReadAsU32, datum: Datum::Number(*self as int) }
    }

    fn read_kind() -> (kind: Type) {
        Type::ReadAsU32
    }

    fn from_value(value: &Value) -> (r: Option<Self>) {
        match value {
            Value::U32(x) => Some(*x),
            _ => None,
        }
    }
}

impl Readable for u64 {
    open spec fn kind_of() -> Type {
        Type::ReadAsU64
    }

    open spec fn model(&self) -> ValueView {
        ValueView { kind: Type::ReadAsU64, datum: Datum::Number(*self as int) }
    }

    fn read_kind() -> (kind: Type) {
        Type::ReadAsU64
    }

    fn from_value(value: &Value) -> (r: Option<Self>) {
        match value {
            Value::U64(x) => Some(*x),
            _ => None,
        }
    }
}

impl Readable for u128 {
    open spec fn kind_of() -> Type {
        Type::ReadAsU128
    }

    open spec fn model(&self) -> ValueView {
        ValueView { kind: Type::ReadAsU128, datum: Datum::Number(*self as int) }
    }

    fn read_kind() -> (kind: Type) {
        Type::ReadAsU128
    }

    fn from_value(value: &Value) -> (r: Option<Self>) {
        match value {
            Value::U128(x) => Some(*x),
            _ => None,
        }
    }
}

impl Readable for usize {
    open spec fn kind_of() -> Type {
        Type::ReadAsUsize
    }

    open spec fn model(&self) -> ValueView {
        ValueView { kind: Type::ReadAsUsize, datum: Datum::Number(*self as int) }
    }

    fn read_kind() -> (kind: Type) {
        Type::ReadAsUsize
    }

    fn from_value(value: &Value) -> (r: Option<Self>) {
        match value {
            Value::Usize(x) => Some(*x),
            _ => None,
        }
    }
}

impl Readable for i8 {
    open spec fn kind_of() -> Type {
        Type::ReadAsI8
    }

    open spec fn model(&self) -> ValueView {
        ValueView { kind: Type::ReadAsI8, datum: Datum::Number(*self as int) }
    }

    fn read_kind() -> (kind: Type) {
        Type::ReadAsI8
    }

    fn from_value(value: &Value) -> (r: Option<Self>) {
        match value {
            Value::I8(x) => Some(*x),
            _ => None,
        }
    }
}

impl Readable for i16 {
    open spec fn kind_of() -> Type {
        Type::ReadAsI16
    }

    open spec fn model(&self) -> ValueView {
        ValueView { kind: Type::ReadAsI16, datum: Datum::Number(*self as int) }
    }

    fn read_kind() -> (kind: Type) {
        Type::ReadAsI16
    }

    fn from_value(value: &Value) -> (r: Option<Self>) {
        match value {
            Value::I16(x) => Some(*x),
            _ => None,
        }
    }
}

impl Readable for i32 {
    open spec fn kind_of() -> Type {
        Type::ReadAsI32
    }

    open spec fn model(&self) -> ValueView {
        ValueView { kind: Type::ReadAsI32, datum: Datum::Number(*self as int) }
    }

    fn read_kind() -> (kind: Type) {
        Type::ReadAsI32
    }

    fn from_value(value: &Value) -> (r: Option<Self>) {
        match value {
            Value::I32(x) => Some(*x),
            _ => None,
        }
    }
}

impl Readable for i64 {
    open spec fn kind_of() -> Type {
        Type::ReadAsI64
    }

    open spec fn model(&self) -> ValueView {
        ValueView { kind: Type::ReadAsI64, datum: Datum::Number(*self as int) }
    }

    fn read_kind() -> (kind: Type) {
        Type::ReadAsI64
    }

    fn from_value(value: &Value) -> (r: Option<Self>) {
        match value {
            Value::I64(x) => Some(*x),
            _ => None,
        }
    }
}

impl Readable for i128 {
    open spec fn kind_of() -> Type {
        Type::ReadAsI128
    }

    open spec fn model(&self) -> ValueView {
        ValueView { kind: Type::ReadAsI128, datum: Datum::Number(*self as int) }
    }

    fn read_kind() -> (kind: Type) {
        Type::ReadAsI128
    }

    fn from_value(value: &Value) -> (r: Option<Self>) {
        match value {
            Value::I128(x) => Some(*x),
            _ => None,
        }
    }
}

impl Readable for isize {
    open spec fn kind_of() -> Type {
        Type::ReadAsIsize
    }

    open spec fn model(&self) -> ValueView {
        ValueView { kind: Type::ReadAsIsize, datum: Datum::Number(*self as int) }
    }

    fn read_kind() -> (kind: Type) {
        Type::ReadAsIsize
    }

    fn from_value(value: &Value) -> (r: Option<Self>) {
        match value {
            Value::Isize(x) => Some(*x),
            _ => None,
        }
    }
}

impl Readable for bool {
    open spec fn kind_of() -> Type {
        Type::ReadAsBool
    }

    open spec fn model(&self) -> ValueView {
        ValueView { kind: Type::ReadAsBool, datum: Datum::Truth(*self) }
    }

    fn read_kind() -> (kind: Type) {
        Type::ReadAsBool
    }

    fn from_value(value: &Value) -> (r: Option<Self>) {
        match value {
            Value::Bool(x) => Some(*x),
            _ => None,
        }
    }
}

impl Readable for char {
    open spec fn kind_of() -> Type {
        Type::ReadAsChar
    }

    open spec fn model(&self) -> ValueView {
        ValueView { kind: Type::ReadAsChar, datum: Datum::Symbol(*self) }
    }

    fn read_kind() -> (kind: Type) {
        Type::ReadAsChar
    }

    fn from_value(value: &Value) -> (r: Option<Self>) {
        match value {
            Value::Char(x) => Some(*x),
            _ => None,
        }
    }
}

impl Readable for String {
    open spec fn kind_of() -> Type {
        Type::ReadAsString
    }

    open spec fn model(&self) -> ValueView {
        ValueView { kind: Type::ReadAsString, datum: Datum::Text(self@) }
    }

    fn read_kind() -> (kind: Type) {
        Type::ReadAsString
    }

    fn from_value(value: &Value) -> (r: Option<Self>) {
        match value {
            Value::Str(x) => Some(x.clone()),
            _ => None,
        }
    }
}

impl Readable for Single {
    open spec fn kind_of() -> Type {
        Type::ReadAsF32
    }

    open spec fn model(&self) -> ValueView {
        self@
    }

    fn read_kind() -> (kind: Type) {
        Type::ReadAsF32
    }

    fn from_value(value: &Value) -> (r: Option<Self>) {
        match value {
            Value::F32(x) => Some(x.duplicate()),
            _ => None,
        }
    }
}

impl Readable for Double {
    open spec fn kind_of() -> Type {
        Type::ReadAsF64
    }

    open spec fn model(&self) -> ValueView {
        self@
    }

    fn read_kind() -> (kind: Type) {
        Type::ReadAsF64
    }

    fn from_value(value: &Value) -> (r: Option<Self>) {
        match value {
            Value::F64(x) => Some(x.duplicate()),
            _ => None,
        }
    }
}

} // verus!
