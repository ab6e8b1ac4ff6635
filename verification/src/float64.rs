//! IEEE-754 binary64 arithmetic on `u64` bit patterns.
//!
//! Verified code cannot compute with machine floating point, so every plane
//! value is carried as the bit pattern of a binary64 number. The arithmetic
//! itself is done by `rustc_apfloat`, a software implementation of IEEE-754
//! that rounds to nearest, ties to even — the same rounding the hardware
//! operations use. Each operation's result is named by an uninterpreted
//! spec function of the operand bits alone: binary64 arithmetic is a pure
//! function of its operands, identical on every machine.

use vstd::prelude::*;

use rustc_apfloat::Float;
use rustc_apfloat::ieee::Double;

verus! {

/// Bit pattern of the binary64 value +0.0.
pub const F64_POS_ZERO: u64 = 0;

/// Bit pattern of the binary64 value 2.0.
pub const F64_TWO: u64 = 0x4000_0000_0000_0000;

/// Bit pattern of the binary64 value 4.0.
pub const F64_FOUR: u64 = 0x4010_0000_0000_0000;

/// The binary64 sum of the numbers with bit patterns `a` and `b`.
pub uninterp spec fn add_bits(a: u64, b: u64) -> u64;

/// The binary64 difference of the numbers with bit patterns `a` and `b`.
pub uninterp spec fn sub_bits(a: u64, b: u64) -> u64;

/// The binary64 product of the numbers with bit patterns `a` and `b`.
pub uninterp spec fn mul_bits(a: u64, b: u64) -> u64;

/// The binary64 quotient of the numbers with bit patterns `a` and `b`.
pub uninterp spec fn div_bits(a: u64, b: u64) -> u64;

/// Whether the number with bit pattern `a` compares less than the one
/// with bit pattern `b` (false whenever either is a NaN).
pub uninterp spec fn lt_bits(a: u64, b: u64) -> bool;

/// The bit pattern of `v` converted to the nearest binary64 value
/// (exact for every `u32`, which is below 2^53).
pub uninterp spec fn from_u32_bits(v: u32) -> u64;

/// Absolute value of a binary64 bit pattern: the sign bit cleared.
pub open spec fn abs_bits(a: u64) -> u64 {
    a & 0x7fff_ffff_ffff_ffff
}

/// Relies on `rustc_apfloat::ieee::Double`'s `Add` impl (`add_r`, round to
/// nearest even): IEEE-754 binary64 addition on bit patterns.
#[verifier::external_body]
pub(crate) fn f64_add(a: u64, b: u64) -> (r: u64)
    ensures
        r == add_bits(a, b),
{
    (Double::from_bits(a as u128) + Double::from_bits(b as u128)).value.to_bits() as u64
}

/// Relies on `rustc_apfloat::ieee::Double`'s `Sub` impl (`sub_r`, round to
/// nearest even): IEEE-754 binary64 subtraction on bit patterns.
#[verifier::external_body]
pub(crate) fn f64_sub(a: u64, b: u64) -> (r: u64)
    ensures
        r == sub_bits(a, b),
{
    (Double::from_bits(a as u128) - Double::from_bits(b as u128)).value.to_bits() as u64
}

/// Relies on `rustc_apfloat::ieee::Double`'s `Mul` impl (`mul_r`, round to
/// nearest even): IEEE-754 binary64 multiplication on bit patterns.
#[verifier::external_body]
pub(crate) fn f64_mul(a: u64, b: u64) -> (r: u64)
    ensures
        r == mul_bits(a, b),
{
    (Double::from_bits(a as u128) * Double::from_bits(b as u128)).value.to_bits() as u64
}

/// Relies on `rustc_apfloat::ieee::Double`'s `Div` impl (`div_r`, round to
/// nearest even): IEEE-754 binary64 division on bit patterns.
#[verifier::external_body]
pub(crate) fn f64_div(a: u64, b: u64) -> (r: u64)
    ensures
        r == div_bits(a, b),
{
    (Double::from_bits(a as u128) / Double::from_bits(b as u128)).value.to_bits() as u64
}

/// Relies on `rustc_apfloat::ieee::Double`'s `PartialOrd` impl: the IEEE-754
/// ordering predicate, under which a NaN compares less than nothing.
#[verifier::external_body]
pub(crate) fn f64_lt(a: u64, b: u64) -> (r: bool)
    ensures
        r == lt_bits(a, b),
{
    Double::from_bits(a as u128) < Double::from_bits(b as u128)
}

/// Relies on `rustc_apfloat::Float::from_u128` (round to nearest even):
/// conversion of an unsigned integer to the nearest binary64 value.
#[verifier::external_body]
pub(crate) fn f64_from_u32(v: u32) -> (r: u64)
    ensures
        r == from_u32_bits(v),
{
    Double::from_u128(v as u128).value.to_bits() as u64
}

/// IEEE-754 binary64 absolute value: copy the operand with the sign bit
/// cleared, for every operand, NaNs included.
pub(crate) fn f64_abs(a: u64) -> (r: u64)
    ensures
        r == abs_bits(a),
{
    a & 0x7fff_ffff_ffff_ffff
}

} // verus!
