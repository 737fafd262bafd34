//! Values: a closed tagged union of primitive payloads.
//!
//! A value serves both as stored data and, through its variant alone, as the
//! type descriptor of a schema slot.  Accordingly there are two comparisons:
//! [`Datatypes::is_same_type`] looks at the variant only, `==` looks at the
//! variant and the payload.
//!
//! Floating-point payloads are held as their IEEE 754 bit patterns and are
//! compared as the numbers they encode: a NaN equals nothing, not even itself,
//! and the two zeros equal each other.

use vstd::prelude::*;
use vstd::std_specs::cmp::PartialEqSpecImpl;

verus! {

/// A tagged primitive datum.
#[derive(Debug)]
pub enum Datatypes {
    Strings(String),
    Integers(i32),
    UIntegers(u32),
    /// The bit pattern of a 32-bit float.
    Floats(u32),
    /// The bit pattern of a 64-bit float.
    Doubles(u64),
    Booleans(bool),
    BigIntegers(i64),
    BigUIntegers(u64),
}

/// The mathematical content of a [`Datatypes`].
pub enum Value {
    Text(Seq<char>),
    Int32(i32),
    UInt32(u32),
    Float32(u32),
    Float64(u64),
    Bool(bool),
    Int64(i64),
    UInt64(u64),
}

/// Whether a 32-bit pattern encodes a NaN.
pub open spec fn f32_bits_nan(bits: u32) -> bool {
    (bits & 0x7fff_ffffu32) > 0x7f80_0000u32
}

/// Numeric equality of two 32-bit float patterns.
pub open spec fn f32_bits_eq(a: u32, b: u32) -> bool {
    !f32_bits_nan(a) && !f32_bits_nan(b) && (a == b || ((a | b) & 0x7fff_ffffu32) == 0u32)
}

/// Whether a 64-bit pattern encodes a NaN.
pub open spec fn f64_bits_nan(bits: u64) -> bool {
    (bits & 0x7fff_ffff_ffff_ffffu64) > 0x7ff0_0000_0000_0000u64
}

/// Numeric equality of two 64-bit float patterns.
pub open spec fn f64_bits_eq(a: u64, b: u64) -> bool {
    !f64_bits_nan(a) && !f64_bits_nan(b) && (a == b || ((a | b) & 0x7fff_ffff_ffff_ffffu64)
        == 0u64)
}

impl Value {
    /// Type-only equality: the two values are of the same variant.
    pub open spec fn same_type(self, other: Value) -> bool {
        match (self, other) {
            (Value::Text(_), Value::Text(_)) => true,
            (Value::Int32(_), Value::Int32(_)) => true,
            (Value::UInt32(_), Value::UInt32(_)) => true,
            (Value::Float32(_), Value::Float32(_)) => true,
            (Value::Float64(_), Value::Float64(_)) => true,
            (Value::Bool(_), Value::Bool(_)) => true,
            (Value::Int64(_), Value::Int64(_)) => true,
            (Value::UInt64(_), Value::UInt64(_)) => true,
            _ => false,
        }
    }

    /// Full equality: same variant and equal payloads.
    pub open spec fn full_eq(self, other: Value) -> bool {
        match (self, other) {
            (Value::Text(a), Value::Text(b)) => a == b,
            (Value::Int32(a), Value::Int32(b)) => a == b,
            (Value::UInt32(a), Value::UInt32(b)) => a == b,
            (Value::Float32(a), Value::Float32(b)) => f32_bits_eq(a, b),
            (Value::Float64(a), Value::Float64(b)) => f64_bits_eq(a, b),
            (Value::Bool(a), Value::Bool(b)) => a == b,
            (Value::Int64(a), Value::Int64(b)) => a == b,
            (Value::UInt64(a), Value::UInt64(b)) => a == b,
            _ => false,
        }
    }
}

impl View for Datatypes {
    type V = Value;

    open spec fn view(&self) -> Value {
        match *self {
            Datatypes::Strings(s) => Value::Text(s@),
            Datatypes::Integers(n) => Value::Int32(n),
            Datatypes::UIntegers(n) => Value::UInt32(n),
            Datatypes::Floats(b) => Value::Float32(b),
            Datatypes::Doubles(b) => Value::Float64(b),
            Datatypes::Booleans(b) => Value::Bool(b),
            Datatypes::BigIntegers(n) => Value::Int64(n),
            Datatypes::BigUIntegers(n) => Value::UInt64(n),
        }
    }
}

/// Compares two 32-bit float patterns as the numbers they encode.
pub fn f32_bits_equal(a: u32, b: u32) -> (r: bool)
    ensures
        r == f32_bits_eq(a, b),
{
    !((a & 0x7fff_ffffu32) > 0x7f80_0000u32) && !((b & 0x7fff_ffffu32) > 0x7f80_0000u32) && (a == b
        || ((a | b) & 0x7fff_ffffu32) == 0u32)
}

/// Compares two 64-bit float patterns as the numbers they encode.
pub fn f64_bits_equal(a: u64, b: u64) -> (r: bool)
    ensures
        r == f64_bits_eq(a, b),
{
    !((a & 0x7fff_ffff_ffff_ffffu64) > 0x7ff0_0000_0000_0000u64) && !((b
        & 0x7fff_ffff_ffff_ffffu64) > 0x7ff0_0000_0000_0000u64) && (a == b || ((a | b)
        & 0x7fff_ffff_ffff_ffffu64) == 0u64)
}

impl Datatypes {
    /// Type-only equality: whether `self` and `other` are of the same variant,
    /// whatever their payloads.
    pub fn is_same_type(&self, other: &Datatypes) -> (r: bool)
        ensures
            r == self@.same_type(other@),
    {
        match (self, other) {
            (Datatypes::Strings(_), Datatypes::Strings(_)) => true,
            (Datatypes::Integers(_), Datatypes::Integers(_)) => true,
            (Datatypes::UIntegers(_), Datatypes::UIntegers(_)) => true,
            (Datatypes::Floats(_), Datatypes::Floats(_)) => true,
            (Datatypes::Doubles(_), Datatypes::Doubles(_)) => true,
            (Datatypes::Booleans(_), Datatypes::Booleans(_)) => true,
            (Datatypes::BigIntegers(_), Datatypes::BigIntegers(_)) => true,
            (Datatypes::BigUIntegers(_), Datatypes::BigUIntegers(_)) => true,
            _ => false,
        }
    }
}

impl PartialEq for Datatypes {
    /// Full equality: same variant and equal payloads.
    fn eq(&self, other: &Datatypes) -> (r: bool) {
        match (self, other) {
            (Datatypes::Strings(a), Datatypes::Strings(b)) => *a == *b,
            (Datatypes::Integers(a), Datatypes::Integers(b)) => *a == *b,
            (Datatypes::UIntegers(a), Datatypes::UIntegers(b)) => *a == *b,
            (Datatypes::Floats(a), Datatypes::Floats(b)) => f32_bits_equal(*a, *b),
            (Datatypes::Doubles(a), Datatypes::Doubles(b)) => f64_bits_equal(*a, *b),
            (Datatypes::Booleans(a), Datatypes::Booleans(b)) => *a == *b,
            (Datatypes::BigIntegers(a), Datatypes::BigIntegers(b)) => *a == *b,
            (Datatypes::BigUIntegers(a), Datatypes::BigUIntegers(b)) => *a == *b,
            _ => false,
        }
    }
}

impl PartialEqSpecImpl for Datatypes {
    open spec fn obeys_eq_spec() -> bool {
        true
    }

    open spec fn eq_spec(&self, other: &Datatypes) -> bool {
        self@.full_eq(other@)
    }
}

impl Clone for Datatypes {
    /// An exact copy.
    fn clone(&self) -> (r: Datatypes)
        ensures
            r == *self,
    {
        match self {
            Datatypes::Strings(s) => Datatypes::Strings(s.clone()),
            Datatypes::Integers(n) => Datatypes::Integers(*n),
            Datatypes::UIntegers(n) => Datatypes::UIntegers(*n),
            Datatypes::Floats(b) => Datatypes::Floats(*b),
            Datatypes::Doubles(b) => Datatypes::Doubles(*b),
            Datatypes::Booleans(b) => Datatypes::Booleans(*b),
            Datatypes::BigIntegers(n) => Datatypes::BigIntegers(*n),
            Datatypes::BigUIntegers(n) => Datatypes::BigUIntegers(*n),
        }
    }
}

} // verus!
