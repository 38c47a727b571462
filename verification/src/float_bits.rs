//! IEEE-754 binary64 arithmetic on bit patterns.
//!
//! The language's floats are carried everywhere as their 64-bit IEEE-754
//! encoding.  The arithmetic itself is done by the `rustc_apfloat` crate,
//! a software implementation of IEEE-754 whose results are functions of the
//! operand bits alone; each operation's result is therefore given a name
//! that the contracts of the callers speak of.  Equality of floats, and the
//! zero test used to reject division by zero, are plain bit predicates and
//! are implemented here directly.

use vstd::prelude::*;

use rustc_apfloat::ieee::Double;
use rustc_apfloat::Float;

verus! {

/// The bit pattern of the IEEE-754 sum of the doubles with bits `a` and `b`.
pub uninterp spec fn float_add(a: u64, b: u64) -> u64;

/// The bit pattern of the IEEE-754 difference of the doubles with bits `a`
/// and `b`.
pub uninterp spec fn float_sub(a: u64, b: u64) -> u64;

/// The bit pattern of the IEEE-754 product of the doubles with bits `a` and
/// `b`.
pub uninterp spec fn float_mul(a: u64, b: u64) -> u64;

/// The bit pattern of the IEEE-754 quotient of the doubles with bits `a` and
/// `b`.
pub uninterp spec fn float_div(a: u64, b: u64) -> u64;

/// What parsing `s` as a decimal number yields: the bit pattern of the
/// nearest double (rounding ties to even), or nothing when `s` is not a
/// decimal number.
pub uninterp spec fn float_parse(s: Seq<char>) -> Option<u64>;

/// Relies on `rustc_apfloat::ieee::Double::add_r` (through the `+` operator,
/// rounding to nearest, ties to even): the sum depends on the operand bits
/// alone.
#[verifier::external_body]
pub fn add_bits(a: u64, b: u64) -> (r: u64)
    ensures
        r == float_add(a, b),
{
    (Double::from_bits(a as u128) + Double::from_bits(b as u128)).value.to_bits() as u64
}

/// Relies on `rustc_apfloat::ieee::Double::sub_r` (through the `-` operator,
/// rounding to nearest, ties to even): the difference depends on the operand
/// bits alone.
#[verifier::external_body]
pub fn sub_bits(a: u64, b: u64) -> (r: u64)
    ensures
        r == float_sub(a, b),
{
    (Double::from_bits(a as u128) - Double::from_bits(b as u128)).value.to_bits() as u64
}

/// Relies on `rustc_apfloat::ieee::Double::mul_r` (through the `*` operator,
/// rounding to nearest, ties to even): the product depends on the operand
/// bits alone.
#[verifier::external_body]
pub fn mul_bits(a: u64, b: u64) -> (r: u64)
    ensures
        r == float_mul(a, b),
{
    (Double::from_bits(a as u128) * Double::from_bits(b as u128)).value.to_bits() as u64
}

/// Relies on `rustc_apfloat::ieee::Double::div_r` (through the `/` operator,
/// rounding to nearest, ties to even): the quotient depends on the operand
/// bits alone.
#[verifier::external_body]
pub fn div_bits(a: u64, b: u64) -> (r: u64)
    ensures
        r == float_div(a, b),
{
    (Double::from_bits(a as u128) / Double::from_bits(b as u128)).value.to_bits() as u64
}

/// Relies on `rustc_apfloat::ieee::Double::from_str_r` (through `str::parse`,
/// rounding to nearest, ties to even): the parsed value depends on the
/// characters alone; text that is not a decimal number is reported as
/// `None`.
#[verifier::external_body]
pub fn parse_float_bits(s: &Vec<char>) -> (r: Option<u64>)
    ensures
        r == float_parse(s@),
{
    let text: String = s.iter().collect();
    match text.parse::<Double>() {
        Ok(d) => Some(d.to_bits() as u64),
        Err(_) => None,
    }
}

/// The bits of `b` with the sign bit cleared.
pub open spec fn float_abs_bits(b: u64) -> u64 {
    b & 0x7fff_ffff_ffff_ffff
}

/// Whether `b` encodes an IEEE-754 NaN: all exponent bits set and a nonzero
/// significand.
pub open spec fn float_is_nan(b: u64) -> bool {
    float_abs_bits(b) > 0x7ff0_0000_0000_0000
}

/// Whether `b` encodes a zero (of either sign).
pub open spec fn float_is_zero(b: u64) -> bool {
    float_abs_bits(b) == 0
}

/// IEEE-754 equality of the doubles encoded by `a` and `b`: a NaN equals
/// nothing, the two zeroes equal each other, and any other value equals
/// exactly the value with the same bits.
pub open spec fn float_eq(a: u64, b: u64) -> bool {
    &&& !float_is_nan(a)
    &&& !float_is_nan(b)
    &&& (a == b || (float_is_zero(a) && float_is_zero(b)))
}

/// Whether `b` encodes a zero (of either sign).
pub fn is_zero_bits(b: u64) -> (r: bool)
    ensures
        r == float_is_zero(b),
{
    b & 0x7fff_ffff_ffff_ffff == 0
}

/// IEEE-754 equality of the doubles encoded by `a` and `b`.
pub fn eq_bits(a: u64, b: u64) -> (r: bool)
    ensures
        r == float_eq(a, b),
{
    let na = a & 0x7fff_ffff_ffff_ffff;
    let nb = b & 0x7fff_ffff_ffff_ffff;
    if na > 0x7ff0_0000_0000_0000 || nb > 0x7ff0_0000_0000_0000 {
        false
    } else {
        a == b || (na == 0 && nb == 0)
    }
}

} // verus!
