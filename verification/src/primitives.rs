//! The closed set of fixed-width scalar types a schema can use on the wire.

use vstd::prelude::*;

verus! {

/// A fixed-width scalar primitive.  Each has a known encoded byte width; the
/// 128-bit variants exist for completeness but cannot appear on the wire as
/// plain values.
#[derive(Clone, Copy, Debug, PartialEq, Eq, Structural)]
pub enum Primitive {
    // 1 byte primitives
    Bool,
    Char,
    I8,
    U8,

    // 2 byte primitives
    I16,
    U16,

    // 4 byte primitives
    F32,
    I32,
    U32,

    // 8 byte primitives
    F64,
    I64,
    U64,

    // 16 byte primitives (not sendable as primitives)
    I128,
    U128,
}

impl Primitive {
    /// Encoded byte width of the primitive.
    pub open spec fn spec_width(self) -> u64 {
        match self {
            Primitive::Bool | Primitive::Char | Primitive::I8 | Primitive::U8 => 1,
            Primitive::I16 | Primitive::U16 => 2,
            Primitive::F32 | Primitive::I32 | Primitive::U32 => 4,
            Primitive::F64 | Primitive::I64 | Primitive::U64 => 8,
            Primitive::I128 | Primitive::U128 => 16,
        }
    }

    /// Whether the primitive's numeric domain contains values below zero.
    pub open spec fn spec_is_signed(self) -> bool {
        match self {
            Primitive::Char
            | Primitive::I8
            | Primitive::I16
            | Primitive::F32
            | Primitive::I32
            | Primitive::F64
            | Primitive::I64
            | Primitive::I128 => true,
            _ => false,
        }
    }

    /// Whether the primitive may back a bitfield: only fixed-width integers
    /// (and the character type, which encodes as one) are divisible into bit
    /// slots.
    pub open spec fn spec_can_back_bitfield(self) -> bool {
        match self {
            Primitive::Char
            | Primitive::I8
            | Primitive::U8
            | Primitive::I16
            | Primitive::U16
            | Primitive::I32
            | Primitive::U32
            | Primitive::I64
            | Primitive::U64 => true,
            _ => false,
        }
    }

    /// Whether the primitive may back an enum: any scalar that fits on the
    /// wire, which excludes only the 128-bit variants.
    pub open spec fn spec_can_back_enum(self) -> bool {
        match self {
            Primitive::I128 | Primitive::U128 => false,
            _ => true,
        }
    }

    /// The number of bit slots a bitfield backed by this primitive offers,
    /// and zero for every primitive that cannot back a bitfield.
    pub open spec fn spec_bit_width(self) -> int {
        if self.spec_can_back_bitfield() {
            8 * self.spec_width()
        } else {
            0
        }
    }

    pub fn is_signed(&self) -> (r: bool)
        ensures
            r == self.spec_is_signed(),
    {
        matches!(
            self,
            Primitive::Char
            | Primitive::I8
            | Primitive::I16
            | Primitive::F32
            | Primitive::I32
            | Primitive::F64
            | Primitive::I64
            | Primitive::I128
        )
    }

    /// The byte width of the value once encoded.
    pub fn encoded_max_data_size(&self) -> (r: u64)
        ensures
            r == self.spec_width(),
    {
        match self {
            Primitive::Bool | Primitive::Char | Primitive::I8 | Primitive::U8 => 1,
            Primitive::I16 | Primitive::U16 => 2,
            Primitive::F32 | Primitive::I32 | Primitive::U32 => 4,
            Primitive::F64 | Primitive::I64 | Primitive::U64 => 8,
            Primitive::I128 | Primitive::U128 => 16,
        }
    }

    pub fn can_back_bitfield(&self) -> (r: bool)
        ensures
            r == self.spec_can_back_bitfield(),
    {
        match self {
            Primitive::Char
            | Primitive::I8
            | Primitive::U8
            | Primitive::I16
            | Primitive::U16
            | Primitive::I32
            | Primitive::U32
            | Primitive::I64
            | Primitive::U64 => true,
            _ => false,
        }
    }

    pub fn can_back_enum(&self) -> (r: bool)
        ensures
            r == self.spec_can_back_enum(),
    {
        match self {
            Primitive::Bool
            | Primitive::Char
            | Primitive::I8
            | Primitive::U8
            | Primitive::I16
            | Primitive::U16
            | Primitive::F32
            | Primitive::I32
            | Primitive::U32
            | Primitive::F64
            | Primitive::I64
            | Primitive::U64 => true,
            _ => false,
        }
    }

    /// Whether `index` names a bit slot that exists in a bitfield backed by
    /// this primitive.  False for every primitive that cannot back a bitfield.
    pub fn validate_bit_index(&self, index: &u64) -> (r: bool)
        ensures
            r == (self.spec_can_back_bitfield() && *index < self.spec_bit_width()),
    {
        match self {
            Primitive::Char | Primitive::I8 | Primitive::U8 => *index < 8,
            Primitive::I16 | Primitive::U16 => *index < 16,
            Primitive::I32 | Primitive::U32 => *index < 32,
            Primitive::I64 | Primitive::U64 => *index < 64,

            // All other types cannot back a bitfield
            _ => false,
        }
    }

    /// Whether the total bit width of a bitfield's members fits within this
    /// backing primitive.  False for every primitive that cannot back a
    /// bitfield.
    pub fn validate_bitfield_size(&self, bitfield_size: &u64) -> (r: bool)
        ensures
            r == (self.spec_can_back_bitfield() && *bitfield_size <= self.spec_bit_width()),
    {
        match self {
            Primitive::Char | Primitive::I8 | Primitive::U8 => *bitfield_size <= 8,
            Primitive::I16 | Primitive::U16 => *bitfield_size <= 16,
            Primitive::I32 | Primitive::U32 => *bitfield_size <= 32,
            Primitive::I64 | Primitive::U64 => *bitfield_size <= 64,

            // All other types cannot back a bitfield
            _ => false,
        }
    }
}

} // verus!
