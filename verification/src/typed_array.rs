//! The typed-array constructor surface the core exposes by name.
//!
//! Each global typed-array constructor is a marker type erased to a
//! [`TypedArrayKind`], which carries the per-kind facts the core needs:
//! the display names, element sizes, content type and atomics support.
//! The element buffers themselves live with the heap collaborator.

use vstd::prelude::*;
use crate::string::{utf16_of, JsString};

verus! {

/// A typed-array marker erased to its kind.
pub trait TypedArrayMarker {
    /// The kind this marker stands for.
    fn erased() -> TypedArrayKind;
}

/// JavaScript `Int8Array` built-in implementation.
#[derive(Debug, Copy, Clone)]
pub struct Int8Array;

impl TypedArrayMarker for Int8Array {
    fn erased() -> TypedArrayKind {
        TypedArrayKind::Int8
    }
}

/// JavaScript `Uint8Array` built-in implementation.
#[derive(Debug, Copy, Clone)]
pub struct Uint8Array;

impl TypedArrayMarker for Uint8Array {
    fn erased() -> TypedArrayKind {
        TypedArrayKind::Uint8
    }
}

/// JavaScript `Uint8ClampedArray` built-in implementation.
#[derive(Debug, Copy, Clone)]
pub struct Uint8ClampedArray;

impl TypedArrayMarker for Uint8ClampedArray {
    fn erased() -> TypedArrayKind {
        TypedArrayKind::Uint8Clamped
    }
}

/// JavaScript `Int16Array` built-in implementation.
#[derive(Debug, Copy, Clone)]
pub struct Int16Array;

impl TypedArrayMarker for Int16Array {
    fn erased() -> TypedArrayKind {
        TypedArrayKind::Int16
    }
}

/// JavaScript `Uint16Array` built-in implementation.
#[derive(Debug, Copy, Clone)]
pub struct Uint16Array;

impl TypedArrayMarker for Uint16Array {
    fn erased() -> TypedArrayKind {
        TypedArrayKind::Uint16
    }
}

/// JavaScript `Int32Array` built-in implementation.
#[derive(Debug, Copy, Clone)]
pub struct Int32Array;

impl TypedArrayMarker for Int32Array {
    fn erased() -> TypedArrayKind {
        TypedArrayKind::Int32
    }
}

/// JavaScript `Uint32Array` built-in implementation.
#[derive(Debug, Copy, Clone)]
pub struct Uint32Array;

impl TypedArrayMarker for Uint32Array {
    fn erased() -> TypedArrayKind {
        TypedArrayKind::Uint32
    }
}

/// JavaScript `BigInt64Array` built-in implementation.
#[derive(Debug, Copy, Clone)]
pub struct BigInt64Array;

impl TypedArrayMarker for BigInt64Array {
    fn erased() -> TypedArrayKind {
        TypedArrayKind::BigInt64
    }
}

/// JavaScript `BigUint64Array` built-in implementation.
#[derive(Debug, Copy, Clone)]
pub struct BigUint64Array;

impl TypedArrayMarker for BigUint64Array {
    fn erased() -> TypedArrayKind {
        TypedArrayKind::BigUint64
    }
}

/// JavaScript `Float32Array` built-in implementation.
#[derive(Debug, Copy, Clone)]
pub struct Float32Array;

impl TypedArrayMarker for Float32Array {
    fn erased() -> TypedArrayKind {
        TypedArrayKind::Float32
    }
}

/// JavaScript `Float64Array` built-in implementation.
#[derive(Debug, Copy, Clone)]
pub struct Float64Array;

impl TypedArrayMarker for Float64Array {
    fn erased() -> TypedArrayKind {
        TypedArrayKind::Float64
    }
}

/// Type of the array content.
#[derive(Debug, Clone, Copy, PartialEq, Eq, Structural)]
pub enum ContentType {
    /// Elements convert through the number type.
    Number,
    /// Elements convert through the big-integer type.
    BigInt,
}

/// List of all typed array kinds.
#[derive(Debug, Copy, Clone, Eq, PartialEq, Structural)]
pub enum TypedArrayKind {
    /// Signed bytes.
    Int8,
    /// Unsigned bytes.
    Uint8,
    /// Unsigned bytes, clamping on conversion.
    Uint8Clamped,
    /// Signed 16-bit integers.
    Int16,
    /// Unsigned 16-bit integers.
    Uint16,
    /// Signed 32-bit integers.
    Int32,
    /// Unsigned 32-bit integers.
    Uint32,
    /// Signed 64-bit big integers.
    BigInt64,
    /// Unsigned 64-bit big integers.
    BigUint64,
    /// 32-bit binary floating point.
    Float32,
    /// 64-bit binary floating point.
    Float64,
}

impl TypedArrayKind {
    /// Gets the name of this `TypedArrayKind` as a `JsString`.
    pub fn js_name(self) -> (r: JsString)
        ensures
            r@ == utf16_of(self.constructor_name()),
            r.is_static_spec(),
    {
        match self {
            TypedArrayKind::Int8 => JsString::static_from_str("Int8Array"),
            TypedArrayKind::Uint8 => JsString::static_from_str("Uint8Array"),
            TypedArrayKind::Uint8Clamped => JsString::static_from_str("Uint8ClampedArray"),
            TypedArrayKind::Int16 => JsString::static_from_str("Int16Array"),
            TypedArrayKind::Uint16 => JsString::static_from_str("Uint16Array"),
            TypedArrayKind::Int32 => JsString::static_from_str("Int32Array"),
            TypedArrayKind::Uint32 => JsString::static_from_str("Uint32Array"),
            TypedArrayKind::BigInt64 => JsString::static_from_str("BigInt64Array"),
            TypedArrayKind::BigUint64 => JsString::static_from_str("BigUint64Array"),
            TypedArrayKind::Float32 => JsString::static_from_str("Float32Array"),
            TypedArrayKind::Float64 => JsString::static_from_str("Float64Array"),
        }
    }

    /// The constructor's global name.
    pub open spec fn constructor_name(self) -> Seq<char> {
        match self {
            TypedArrayKind::Int8 => "Int8Array"@,
            TypedArrayKind::Uint8 => "Uint8Array"@,
            TypedArrayKind::Uint8Clamped => "Uint8ClampedArray"@,
            TypedArrayKind::Int16 => "Int16Array"@,
            TypedArrayKind::Uint16 => "Uint16Array"@,
            TypedArrayKind::Int32 => "Int32Array"@,
            TypedArrayKind::Uint32 => "Uint32Array"@,
            TypedArrayKind::BigInt64 => "BigInt64Array"@,
            TypedArrayKind::BigUint64 => "BigUint64Array"@,
            TypedArrayKind::Float32 => "Float32Array"@,
            TypedArrayKind::Float64 => "Float64Array"@,
        }
    }

    /// Gets the name of this `TypedArrayKind` as a `str`.
    pub fn name(self) -> (r: &'static str)
        ensures
            r@ == match self {
                TypedArrayKind::Int8 => "Int8"@,
                TypedArrayKind::Uint8 => "Uint8"@,
                TypedArrayKind::Uint8Clamped => "Uint8Clamped"@,
                TypedArrayKind::Int16 => "Int16"@,
                TypedArrayKind::Uint16 => "Uint16"@,
                TypedArrayKind::Int32 => "Int32"@,
                TypedArrayKind::Uint32 => "Uint32"@,
                TypedArrayKind::BigInt64 => "BigInt64"@,
                TypedArrayKind::BigUint64 => "BigUint64"@,
                TypedArrayKind::Float32 => "Float32"@,
                TypedArrayKind::Float64 => "Float64"@,
            },
    {
        match self {
            TypedArrayKind::Int8 => "Int8",
            TypedArrayKind::Uint8 => "Uint8",
            TypedArrayKind::Uint8Clamped => "Uint8Clamped",
            TypedArrayKind::Int16 => "Int16",
            TypedArrayKind::Uint16 => "Uint16",
            TypedArrayKind::Int32 => "Int32",
            TypedArrayKind::Uint32 => "Uint32",
            TypedArrayKind::BigInt64 => "BigInt64",
            TypedArrayKind::BigUint64 => "BigUint64",
            TypedArrayKind::Float32 => "Float32",
            TypedArrayKind::Float64 => "Float64",
        }
    }

    /// Returns `true` if this kind of typed array supports atomic
    /// operations: the unclamped integer and big-integer element types.
    pub fn supports_atomic_ops(self) -> (r: bool)
        ensures
            r == match self {
                TypedArrayKind::Int8
                | TypedArrayKind::Uint8
                | TypedArrayKind::Int16
                | TypedArrayKind::Uint16
                | TypedArrayKind::Int32
                | TypedArrayKind::Uint32
                | TypedArrayKind::BigInt64
                | TypedArrayKind::BigUint64 => true,
                TypedArrayKind::Uint8Clamped
                | TypedArrayKind::Float32
                | TypedArrayKind::Float64 => false,
            },
    {
        match self {
            TypedArrayKind::Int8
            | TypedArrayKind::Uint8
            | TypedArrayKind::Int16
            | TypedArrayKind::Uint16
            | TypedArrayKind::Int32
            | TypedArrayKind::Uint32
            | TypedArrayKind::BigInt64
            | TypedArrayKind::BigUint64 => true,
            TypedArrayKind::Uint8Clamped | TypedArrayKind::Float32 | TypedArrayKind::Float64 => {
                false
            }
        }
    }

    /// Gets the size in bytes of this kind's element type.
    pub fn element_size(self) -> (r: u64)
        ensures
            r == match self {
                TypedArrayKind::Int8 | TypedArrayKind::Uint8 | TypedArrayKind::Uint8Clamped => 1u64,
                TypedArrayKind::Int16 | TypedArrayKind::Uint16 => 2u64,
                TypedArrayKind::Int32 | TypedArrayKind::Uint32 | TypedArrayKind::Float32 => 4u64,
                TypedArrayKind::BigInt64 | TypedArrayKind::BigUint64 | TypedArrayKind::Float64
                    => 8u64,
            },
    {
        match self {
            TypedArrayKind::Int8 | TypedArrayKind::Uint8 | TypedArrayKind::Uint8Clamped => 1,
            TypedArrayKind::Int16 | TypedArrayKind::Uint16 => 2,
            TypedArrayKind::Int32 | TypedArrayKind::Uint32 | TypedArrayKind::Float32 => 4,
            TypedArrayKind::BigInt64 | TypedArrayKind::BigUint64 | TypedArrayKind::Float64 => 8,
        }
    }

    /// Returns the content type this kind's elements convert through.
    pub fn content_type(self) -> (r: ContentType)
        ensures
            r == match self {
                TypedArrayKind::BigInt64 | TypedArrayKind::BigUint64 => ContentType::BigInt,
                _ => ContentType::Number,
            },
    {
        match self {
            TypedArrayKind::BigInt64 | TypedArrayKind::BigUint64 => ContentType::BigInt,
            _ => ContentType::Number,
        }
    }
}

} // verus!
