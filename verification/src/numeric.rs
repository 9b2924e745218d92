//! Numeric literals as they appear in schema text, and the one comparison
//! function that decides when two literals written in different forms denote
//! the same numeric value.

use vstd::prelude::*;
use crate::primitives::Primitive;

verus! {

/// The numeral system a literal was written in.  It never affects a value,
/// only how downstream code renders it.
#[derive(Clone, Copy, Debug, PartialEq, Eq, Structural)]
pub enum NumeralSystem {
    Binary,
    Decimal,
    Hexadecimal,
}

/// A floating-point literal, recorded as the plain facts the schema rules
/// read of it rather than as a machine float.  The conversion from a parsed
/// float is made outside this crate; within it a `FloatValue` is ordinary
/// data.
#[derive(Clone, Copy, Debug, PartialEq, Eq, Structural)]
pub struct FloatValue {
    /// The IEEE-754 double-precision bit pattern of the value, kept so that
    /// two float literals can be compared exactly and so that downstream
    /// code can reconstruct the value.
    pub bits: u64,
    /// Whether the fractional part of the value is exactly zero.
    pub integral: bool,
    /// Whether the value is strictly below zero (so negative zero counts as
    /// non-negative).
    pub negative: bool,
    /// The integer magnitude of the value truncated toward zero, meaningful
    /// whenever `fits_u64` or `fits_i64` holds.
    pub magnitude: u64,
    /// Whether the value lies in `[0, 2^64)`, so its truncation is a `u64`.
    pub fits_u64: bool,
    /// Whether the value lies in `[-2^63, 0]`, so its truncation is an `i64`.
    pub fits_i64: bool,
    /// Whether the value lies within the finite range of a 32-bit float.
    pub in_f32_range: bool,
}

impl FloatValue {
    /// Whether the value is exactly zero (of either sign).
    pub open spec fn spec_is_zero(self) -> bool {
        self.integral && !self.negative && self.fits_u64 && self.magnitude == 0
    }
}

/// A numeric literal: a boolean, an ascii character, an integer with the
/// numeral system it was written in, or a float.  Positive and negative
/// integers are distinct variants because the sign changes which backing
/// domains accept the value.
#[derive(Clone, Copy, Debug)]
pub enum NumericLiteral {
    AsciiChar(char),
    Boolean(bool),
    PositiveInteger(u64, NumeralSystem),
    NegativeInteger(i64, NumeralSystem),
    Float(FloatValue),
}

/// When two numeric literals denote the same value, across variants.
///
/// The allowed cross-variant cases are:
///   - character vs. character: equal code points;
///   - character vs. boolean: the code point is 0 or 1 and matches;
///   - character vs. positive integer: the integer equals the code point;
///   - character vs. integral non-negative float: the float's integer value
///     equals the code point;
///   - boolean vs. boolean: equal;
///   - boolean vs. positive integer: the integer is 0 or 1 and matches;
///   - boolean vs. integral non-negative float: likewise;
///   - positive vs. positive integer: equal values, whatever the base;
///   - positive integer vs. integral float in `[0, 2^64)`: equal values;
///   - negative vs. negative integer: equal values;
///   - negative integer vs. integral float in `[-2^63, 0]`: equal values;
///   - float vs. float: the same value (equal bit patterns, or both zero).
///
/// Positive and negative integer literals never compare equal to each other,
/// not even for zero.  Every other pairing is unequal.
pub open spec fn spec_numeric_eq(a: NumericLiteral, b: NumericLiteral) -> bool {
    match (a, b) {
        (NumericLiteral::AsciiChar(x), NumericLiteral::AsciiChar(y)) => x == y,
        (NumericLiteral::AsciiChar(x), NumericLiteral::Boolean(y)) =>
            x as u32 == spec_bool_value(y),
        (NumericLiteral::AsciiChar(x), NumericLiteral::PositiveInteger(y, _)) =>
            x as u32 as u64 == y,
        (NumericLiteral::AsciiChar(x), NumericLiteral::Float(y)) =>
            spec_float_eq_nonneg_int(y, x as u32 as u64),
        (NumericLiteral::Boolean(x), NumericLiteral::AsciiChar(y)) =>
            spec_bool_value(x) == y as u32,
        (NumericLiteral::Boolean(x), NumericLiteral::Boolean(y)) => x == y,
        (NumericLiteral::Boolean(x), NumericLiteral::PositiveInteger(y, _)) =>
            spec_bool_value(x) as u64 == y,
        (NumericLiteral::Boolean(x), NumericLiteral::Float(y)) =>
            spec_float_eq_nonneg_int(y, spec_bool_value(x) as u64),
        (NumericLiteral::PositiveInteger(x, _), NumericLiteral::AsciiChar(y)) =>
            x == y as u32 as u64,
        (NumericLiteral::PositiveInteger(x, _), NumericLiteral::Boolean(y)) =>
            x == spec_bool_value(y) as u64,
        (NumericLiteral::PositiveInteger(x, _), NumericLiteral::PositiveInteger(y, _)) => x == y,
        (NumericLiteral::PositiveInteger(x, _), NumericLiteral::Float(y)) =>
            spec_float_eq_nonneg_int(y, x),
        (NumericLiteral::NegativeInteger(x, _), NumericLiteral::NegativeInteger(y, _)) => x == y,
        (NumericLiteral::NegativeInteger(x, _), NumericLiteral::Float(y)) =>
            spec_float_eq_nonpos_int(y, x),
        (NumericLiteral::Float(x), NumericLiteral::AsciiChar(y)) =>
            spec_float_eq_nonneg_int(x, y as u32 as u64),
        (NumericLiteral::Float(x), NumericLiteral::Boolean(y)) =>
            spec_float_eq_nonneg_int(x, spec_bool_value(y) as u64),
        (NumericLiteral::Float(x), NumericLiteral::PositiveInteger(y, _)) =>
            spec_float_eq_nonneg_int(x, y),
        (NumericLiteral::Float(x), NumericLiteral::NegativeInteger(y, _)) =>
            spec_float_eq_nonpos_int(x, y),
        (NumericLiteral::Float(x), NumericLiteral::Float(y)) => spec_float_eq(x, y),
        _ => false,
    }
}

/// The numeric value of a boolean literal.
pub open spec fn spec_bool_value(b: bool) -> u32 {
    if b {
        1
    } else {
        0
    }
}

/// Whether a float literal denotes exactly the non-negative integer `n`.
pub open spec fn spec_float_eq_nonneg_int(f: FloatValue, n: u64) -> bool {
    f.integral && !f.negative && f.fits_u64 && f.magnitude == n
}

/// Whether a float literal denotes exactly the non-positive integer `n`.
pub open spec fn spec_float_eq_nonpos_int(f: FloatValue, n: i64) -> bool {
    f.integral && f.fits_i64 && (f.negative || f.magnitude == 0)
    && -(f.magnitude as int) == n as int
}

/// Whether two float literals denote the same value: the bit patterns agree,
/// or both are zero (positive and negative zero are numerically equal).
pub open spec fn spec_float_eq(a: FloatValue, b: FloatValue) -> bool {
    a.bits == b.bits || (a.spec_is_zero() && b.spec_is_zero())
}

impl NumericLiteral {
    /// The narrowest conventional primitive whose domain is meant to hold
    /// literals of this variant.
    pub open spec fn spec_containing_type(self) -> Primitive {
        match self {
            NumericLiteral::AsciiChar(_) => Primitive::Char,
            NumericLiteral::Boolean(_) => Primitive::Bool,
            NumericLiteral::PositiveInteger(_, _) => Primitive::U64,
            NumericLiteral::NegativeInteger(_, _) => Primitive::I64,
            NumericLiteral::Float(_) => Primitive::F64,
        }
    }

    pub fn containing_type(&self) -> (r: Primitive)
        ensures
            r == self.spec_containing_type(),
    {
        match self {
            NumericLiteral::AsciiChar(_) => Primitive::Char,
            NumericLiteral::Boolean(_) => Primitive::Bool,
            NumericLiteral::PositiveInteger(_, _) => Primitive::U64,
            NumericLiteral::NegativeInteger(_, _) => Primitive::I64,
            NumericLiteral::Float(_) => Primitive::F64,
        }
    }
}

impl PartialEq for NumericLiteral {
    /// Compares the numeric values of the literals, across variants, as
    /// `spec_numeric_eq` lays out.
    fn eq(&self, other: &NumericLiteral) -> (r: bool) {
        match (self, other) {
            (NumericLiteral::AsciiChar(x), NumericLiteral::AsciiChar(y)) => x == y,
            (NumericLiteral::AsciiChar(x), NumericLiteral::Boolean(y)) =>
                *x as u32 == if *y { 1 } else { 0 },
            (NumericLiteral::AsciiChar(x), NumericLiteral::PositiveInteger(y, _)) =>
                *x as u32 as u64 == *y,
            (NumericLiteral::AsciiChar(x), NumericLiteral::Float(y)) =>
                float_eq_nonneg_int(y, *x as u32 as u64),
            (NumericLiteral::Boolean(x), NumericLiteral::AsciiChar(y)) =>
                (if *x { 1u32 } else { 0u32 }) == *y as u32,
            (NumericLiteral::Boolean(x), NumericLiteral::Boolean(y)) => x == y,
            (NumericLiteral::Boolean(x), NumericLiteral::PositiveInteger(y, _)) =>
                (if *x { 1u64 } else { 0u64 }) == *y,
            (NumericLiteral::Boolean(x), NumericLiteral::Float(y)) =>
                float_eq_nonneg_int(y, if *x { 1 } else { 0 }),
            (NumericLiteral::PositiveInteger(x, _), NumericLiteral::AsciiChar(y)) =>
                *x == *y as u32 as u64,
            (NumericLiteral::PositiveInteger(x, _), NumericLiteral::Boolean(y)) =>
                *x == if *y { 1 } else { 0 },
            (NumericLiteral::PositiveInteger(x, _), NumericLiteral::PositiveInteger(y, _)) =>
                x == y,
            (NumericLiteral::PositiveInteger(x, _), NumericLiteral::Float(y)) =>
                float_eq_nonneg_int(y, *x),
            (NumericLiteral::NegativeInteger(x, _), NumericLiteral::NegativeInteger(y, _)) =>
                x == y,
            (NumericLiteral::NegativeInteger(x, _), NumericLiteral::Float(y)) =>
                float_eq_nonpos_int(y, *x),
            (NumericLiteral::Float(x), NumericLiteral::AsciiChar(y)) =>
                float_eq_nonneg_int(x, *y as u32 as u64),
            (NumericLiteral::Float(x), NumericLiteral::Boolean(y)) =>
                float_eq_nonneg_int(x, if *y { 1 } else { 0 }),
            (NumericLiteral::Float(x), NumericLiteral::PositiveInteger(y, _)) =>
                float_eq_nonneg_int(x, *y),
            (NumericLiteral::Float(x), NumericLiteral::NegativeInteger(y, _)) =>
                float_eq_nonpos_int(x, *y),
            (NumericLiteral::Float(x), NumericLiteral::Float(y)) =>
                x.bits == y.bits || (is_zero_float(x) && is_zero_float(y)),
            _ => false,
        }
    }
}

impl vstd::std_specs::cmp::PartialEqSpecImpl for NumericLiteral {
    open spec fn obeys_eq_spec() -> bool {
        true
    }

    open spec fn eq_spec(&self, other: &NumericLiteral) -> bool {
        spec_numeric_eq(*self, *other)
    }
}

fn float_eq_nonneg_int(f: &FloatValue, n: u64) -> (r: bool)
    ensures
        r == spec_float_eq_nonneg_int(*f, n),
{
    f.integral && !f.negative && f.fits_u64 && f.magnitude == n
}

fn float_eq_nonpos_int(f: &FloatValue, n: i64) -> (r: bool)
    ensures
        r == spec_float_eq_nonpos_int(*f, n),
{
    if f.integral && f.fits_i64 && (f.negative || f.magnitude == 0) {
        if f.magnitude <= i64::MAX as u64 {
            0i64 - (f.magnitude as i64) == n
        } else {
            // The magnitude is 2^63, whose negation is i64::MIN
            f.magnitude == 0x8000_0000_0000_0000u64 && n == i64::MIN
        }
    } else {
        false
    }
}

fn is_zero_float(f: &FloatValue) -> (r: bool)
    ensures
        r == f.spec_is_zero(),
{
    f.integral && !f.negative && f.fits_u64 && f.magnitude == 0
}

} // verus!
