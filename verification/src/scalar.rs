//! The primitive element kinds of the foreign runtime, and the native types
//! that share their bit representation.

use vstd::prelude::*;

verus! {

/// One of the eight primitive kinds of the foreign runtime.
#[derive(Clone, Copy, PartialEq, Eq, Structural, Debug)]
pub enum Primitive {
    Boolean,
    Byte,
    Char,
    Short,
    Int,
    Long,
    Float,
    Double,
}

impl Primitive {
    /// The name of the kind in the foreign language.
    pub open spec fn name(self) -> Seq<char> {
        match self {
            Primitive::Boolean => "boolean"@,
            Primitive::Byte => "byte"@,
            Primitive::Char => "char"@,
            Primitive::Short => "short"@,
            Primitive::Int => "int"@,
            Primitive::Long => "long"@,
            Primitive::Float => "float"@,
            Primitive::Double => "double"@,
        }
    }

    /// The descriptor under which the foreign runtime knows the class "array
    /// of this kind".
    pub open spec fn array_descriptor(self) -> Seq<char> {
        match self {
            Primitive::Boolean => "[Z"@,
            Primitive::Byte => "[B"@,
            Primitive::Char => "[C"@,
            Primitive::Short => "[S"@,
            Primitive::Int => "[I"@,
            Primitive::Long => "[J"@,
            Primitive::Float => "[F"@,
            Primitive::Double => "[D"@,
        }
    }

    /// The number of bytes that one element of the kind takes on both sides.
    pub open spec fn width(self) -> nat {
        match self {
            Primitive::Boolean | Primitive::Byte => 1,
            Primitive::Char | Primitive::Short => 2,
            Primitive::Int | Primitive::Float => 4,
            Primitive::Long | Primitive::Double => 8,
        }
    }

    /// The name of the kind in the foreign language.
    pub fn java_name(self) -> (r: &'static str)
        ensures
            r@ == self.name(),
    {
        match self {
            Primitive::Boolean => "boolean",
            Primitive::Byte => "byte",
            Primitive::Char => "char",
            Primitive::Short => "short",
            Primitive::Int => "int",
            Primitive::Long => "long",
            Primitive::Float => "float",
            Primitive::Double => "double",
        }
    }

    /// The descriptor of the class "array of this kind".
    pub fn array_class_name(self) -> (r: &'static str)
        ensures
            r@ == self.array_descriptor(),
    {
        match self {
            Primitive::Boolean => "[Z",
            Primitive::Byte => "[B",
            Primitive::Char => "[C",
            Primitive::Short => "[S",
            Primitive::Int => "[I",
            Primitive::Long => "[J",
            Primitive::Float => "[F",
            Primitive::Double => "[D",
        }
    }

    /// The number of bytes that one element of the kind takes on both sides.
    pub fn byte_width(self) -> (r: usize)
        ensures
            r == self.width(),
    {
        match self {
            Primitive::Boolean | Primitive::Byte => 1,
            Primitive::Char | Primitive::Short => 2,
            Primitive::Int | Primitive::Float => 4,
            Primitive::Long | Primitive::Double => 8,
        }
    }
}

/// A native type with the width and bit representation of a foreign
/// primitive, so that a run of its values can cross the boundary in one bulk
/// copy.
pub trait JavaScalar: Copy + 'static {
    /// The primitive kind that the type stands for.
    spec fn primitive() -> Primitive;

    /// The value that the foreign runtime gives every element of a new array.
    spec fn zero() -> Self;

    /// The primitive kind that the type stands for.
    fn kind() -> (k: Primitive)
        ensures
            k == Self::primitive(),
    ;

    /// The value that the foreign runtime gives every element of a new array.
    fn initial() -> (z: Self)
        ensures
            z == Self::zero(),
    ;
}

/// The bit pattern of a foreign `float`: 32 bits in the IEEE 754 layout.
#[derive(Clone, Copy, PartialEq, Eq, Structural, Debug)]
pub struct FloatBits {
    pub bits: u32,
}

/// The bit pattern of a foreign `double`: 64 bits in the IEEE 754 layout.
#[derive(Clone, Copy, PartialEq, Eq, Structural, Debug)]
pub struct DoubleBits {
    pub bits: u64,
}

impl JavaScalar for bool {
    open spec fn primitive() -> Primitive {
        Primitive::Boolean
    }

    open spec fn zero() -> bool {
        false
    }

    fn kind() -> (k: Primitive) {
        Primitive::Boolean
    }

    fn initial() -> (z: bool) {
        false
    }
}

impl JavaScalar for i8 {
    open spec fn primitive() -> Primitive {
        Primitive::Byte
    }

    open spec fn zero() -> i8 {
        0
    }

    fn kind() -> (k: Primitive) {
        Primitive::Byte
    }

    fn initial() -> (z: i8) {
        0
    }
}

impl JavaScalar for u16 {
    open spec fn primitive() -> Primitive {
        Primitive::Char
    }

    open spec fn zero() -> u16 {
        0
    }

    fn kind() -> (k: Primitive) {
        Primitive::Char
    }

    fn initial() -> (z: u16) {
        0
    }
}

impl JavaScalar for i16 {
    open spec fn primitive() -> Primitive {
        Primitive::Short
    }

    open spec fn zero() -> i16 {
        0
    }

    fn kind() -> (k: Primitive) {
        Primitive::Short
    }

    fn initial() -> (z: i16) {
        0
    }
}

impl JavaScalar for i32 {
    open spec fn primitive() -> Primitive {
        Primitive::Int
    }

    open spec fn zero() -> i32 {
        0
    }

    fn kind() -> (k: Primitive) {
        Primitive::Int
    }

    fn initial() -> (z: i32) {
        0
    }
}

impl JavaScalar for i64 {
    open spec fn primitive() -> Primitive {
        Primitive::Long
    }

    open spec fn zero() -> i64 {
        0
    }

    fn kind() -> (k: Primitive) {
        Primitive::Long
    }

    fn initial() -> (z: i64) {
        0
    }
}

impl JavaScalar for FloatBits {
    open spec fn primitive() -> Primitive {
        Primitive::Float
    }

    open spec fn zero() -> FloatBits {
        FloatBits { bits: 0 }
    }

    fn kind() -> (k: Primitive) {
        Primitive::Float
    }

    fn initial() -> (z: FloatBits) {
        FloatBits { bits: 0 }
    }
}

impl JavaScalar for DoubleBits {
    open spec fn primitive() -> Primitive {
        Primitive::Double
    }

    open spec fn zero() -> DoubleBits {
        DoubleBits { bits: 0 }
    }

    fn kind() -> (k: Primitive) {
        Primitive::Double
    }

    fn initial() -> (z: DoubleBits) {
        DoubleBits { bits: 0 }
    }
}

} // verus!
