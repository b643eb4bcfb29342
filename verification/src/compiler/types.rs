//! The types that the front end gives to values.

use vstd::prelude::*;

verus! {

/// The primitive types of the language.
#[derive(Clone, Copy, Debug, PartialEq, Eq, Structural)]
pub enum FlycatcherType {
    /// `true` or `false`, held in one byte.
    Boolean,
    /// An unsigned integer of 8 bits.
    Uint8,
    /// An unsigned integer of 16 bits.
    Uint16,
    /// An unsigned integer of 32 bits.
    Uint32,
    /// An unsigned integer of 64 bits.
    Uint64,
    /// An unsigned integer as wide as an address of the target.
    Usize,
    /// A signed integer of 8 bits.
    Int8,
    /// A signed integer of 16 bits.
    Int16,
    /// A signed integer of 32 bits.
    Int32,
    /// A signed integer of 64 bits.
    Int64,
    /// A signed integer as wide as an address of the target.
    Size,
    /// A floating point number of 32 bits.
    Float32,
    /// A floating point number of 64 bits.
    Float64,
    /// A sequence of bytes that ends with a zero byte.
    NullString,
}

impl FlycatcherType {
    /// The name of the type as diagnostics show it.
    pub open spec fn name(self) -> Seq<char> {
        match self {
            FlycatcherType::Boolean => "boolean"@,
            FlycatcherType::Uint8 => "uint8"@,
            FlycatcherType::Uint16 => "uint16"@,
            FlycatcherType::Uint32 => "uint32"@,
            FlycatcherType::Uint64 => "uint64"@,
            FlycatcherType::Usize => "usize"@,
            FlycatcherType::Int8 => "int8"@,
            FlycatcherType::Int16 => "int16"@,
            FlycatcherType::Int32 => "int32"@,
            FlycatcherType::Int64 => "int64"@,
            FlycatcherType::Size => "size"@,
            FlycatcherType::Float32 => "float32"@,
            FlycatcherType::Float64 => "float64"@,
            FlycatcherType::NullString => "nullstring"@,
        }
    }

    /// The name of the type.
    pub fn into(self) -> (r: &'static str)
        ensures
            r@ == self.name(),
    {
        match self {
            FlycatcherType::Boolean => "boolean",
            FlycatcherType::Uint8 => "uint8",
            FlycatcherType::Uint16 => "uint16",
            FlycatcherType::Uint32 => "uint32",
            FlycatcherType::Uint64 => "uint64",
            FlycatcherType::Usize => "usize",
            FlycatcherType::Int8 => "int8",
            FlycatcherType::Int16 => "int16",
            FlycatcherType::Int32 => "int32",
            FlycatcherType::Int64 => "int64",
            FlycatcherType::Size => "size",
            FlycatcherType::Float32 => "float32",
            FlycatcherType::Float64 => "float64",
            FlycatcherType::NullString => "nullstring",
        }
    }
}

} // verus!
