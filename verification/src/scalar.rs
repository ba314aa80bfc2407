//! Scalar arithmetic of the simulation.
//!
//! A scalar is the bit pattern of an IEEE 754 binary64 value, carried in a
//! `u64`. Each primitive operation is given a name by an uninterpreted spec
//! function of the operand bit patterns: the operations are deterministic,
//! so every contract of the library can state the exact bit-level result of
//! a computation as a composition of these names. The executable side of
//! each operation is a thin trusted wrapper around `rustc_apfloat`, a
//! software implementation of IEEE 754 binary64 arithmetic.

use vstd::prelude::*;

use crate::parameters::SC_ZERO;
use rustc_apfloat::Float;

verus! {

/// The bit pattern of the IEEE 754 sum of the two operands.
pub uninterp spec fn add_bits(a: u64, b: u64) -> u64;

/// The bit pattern of the IEEE 754 difference of the two operands.
pub uninterp spec fn sub_bits(a: u64, b: u64) -> u64;

/// The bit pattern of the IEEE 754 product of the two operands.
pub uninterp spec fn mul_bits(a: u64, b: u64) -> u64;

/// The bit pattern of the IEEE 754 quotient of the two operands.
pub uninterp spec fn div_bits(a: u64, b: u64) -> u64;

/// The IEEE 754 "less than" comparison of the two operands.
pub uninterp spec fn lt_bits(a: u64, b: u64) -> bool;

/// The IEEE 754 equality comparison of the two operands.
pub uninterp spec fn eq_bits(a: u64, b: u64) -> bool;

/// The bit pattern of the operand rounded to an integral value toward
/// negative infinity.
pub uninterp spec fn floor_bits(a: u64) -> u64;

/// The bit pattern of the binary64 value nearest to the given integer.
pub uninterp spec fn of_nat_bits(n: u128) -> u64;

/// The bit pattern read from a decimal token, or `None` when the token is
/// not a number.
pub uninterp spec fn decimal_bits(s: Seq<char>) -> Option<u64>;

/// The operand drops its sign bit.
pub open spec fn abs_bits(b: u64) -> u64 {
    b & 0x7FFF_FFFF_FFFF_FFFF
}

/// The operand encodes a zero, a subnormal or a normal value, not an
/// infinity and not a NaN.
pub open spec fn is_finite_bits(b: u64) -> bool {
    abs_bits(b) < 0x7FF0_0000_0000_0000
}

/// The operand encodes a finite value with a clear sign bit.
pub open spec fn is_pos_finite_bits(b: u64) -> bool {
    b < 0x7FF0_0000_0000_0000
}

/// Relies on `rustc_apfloat::ieee::Double` addition, which implements IEEE
/// 754 binary64 addition with ties-to-even rounding: the result depends on
/// the operand bit patterns alone.
#[verifier::external_body]
pub fn add_scalar(a: u64, b: u64) -> (r: u64)
    ensures
        r == add_bits(a, b),
{
    let x = rustc_apfloat::ieee::Double::from_bits(a as u128);
    let y = rustc_apfloat::ieee::Double::from_bits(b as u128);
    (x + y).value.to_bits() as u64
}

/// Relies on `rustc_apfloat::ieee::Double` subtraction, as for addition.
#[verifier::external_body]
pub fn sub_scalar(a: u64, b: u64) -> (r: u64)
    ensures
        r == sub_bits(a, b),
{
    let x = rustc_apfloat::ieee::Double::from_bits(a as u128);
    let y = rustc_apfloat::ieee::Double::from_bits(b as u128);
    (x - y).value.to_bits() as u64
}

/// Relies on `rustc_apfloat::ieee::Double` multiplication, as for addition.
/// The second clause is the IEEE 754 rule that the product of a finite
/// value with clear sign bit and a positive zero is a positive zero.
#[verifier::external_body]
pub fn mul_scalar(a: u64, b: u64) -> (r: u64)
    ensures
        r == mul_bits(a, b),
        is_pos_finite_bits(a) && b == SC_ZERO ==> r == SC_ZERO,
{
    let x = rustc_apfloat::ieee::Double::from_bits(a as u128);
    let y = rustc_apfloat::ieee::Double::from_bits(b as u128);
    (x * y).value.to_bits() as u64
}

/// Relies on `rustc_apfloat::ieee::Double` division, as for addition.
#[verifier::external_body]
pub fn div_scalar(a: u64, b: u64) -> (r: u64)
    ensures
        r == div_bits(a, b),
{
    let x = rustc_apfloat::ieee::Double::from_bits(a as u128);
    let y = rustc_apfloat::ieee::Double::from_bits(b as u128);
    (x / y).value.to_bits() as u64
}

/// Relies on the `PartialOrd` implementation of
/// `rustc_apfloat::ieee::Double`, which is the IEEE 754 comparison: any NaN
/// operand compares as none, zeros compare equal whatever their signs.
#[verifier::external_body]
pub fn lt_scalar(a: u64, b: u64) -> (r: bool)
    ensures
        r == lt_bits(a, b),
{
    let x = rustc_apfloat::ieee::Double::from_bits(a as u128);
    let y = rustc_apfloat::ieee::Double::from_bits(b as u128);
    matches!(x.partial_cmp(&y), Some(core::cmp::Ordering::Less))
}

/// Relies on the `PartialOrd` implementation of
/// `rustc_apfloat::ieee::Double`, as for the "less than" comparison.
#[verifier::external_body]
pub fn eq_scalar(a: u64, b: u64) -> (r: bool)
    ensures
        r == eq_bits(a, b),
{
    let x = rustc_apfloat::ieee::Double::from_bits(a as u128);
    let y = rustc_apfloat::ieee::Double::from_bits(b as u128);
    matches!(x.partial_cmp(&y), Some(core::cmp::Ordering::Equal))
}

/// The IEEE 754 "less than or equal" comparison, which holds exactly when
/// one of "less than" and "equal" does.
pub fn le_scalar(a: u64, b: u64) -> (r: bool)
    ensures
        r == (lt_bits(a, b) || eq_bits(a, b)),
{
    if lt_scalar(a, b) {
        true
    } else {
        eq_scalar(a, b)
    }
}

/// Relies on `rustc_apfloat::ieee::Double::round_to_integral` with the
/// toward-negative rounding attribute: the floor of the operand.
#[verifier::external_body]
pub fn floor_scalar(a: u64) -> (r: u64)
    ensures
        r == floor_bits(a),
{
    let x = rustc_apfloat::ieee::Double::from_bits(a as u128);
    x.round_to_integral(rustc_apfloat::Round::TowardNegative).value.to_bits() as u64
}

/// Relies on `rustc_apfloat::ieee::Double::from_u128`, the conversion of an
/// unsigned integer to the nearest binary64 value.
#[verifier::external_body]
pub fn of_nat_scalar(n: u128) -> (r: u64)
    ensures
        r == of_nat_bits(n),
{
    rustc_apfloat::ieee::Double::from_u128(n).value.to_bits() as u64
}

/// Relies on the `FromStr` implementation of
/// `rustc_apfloat::ieee::Double`, the correctly rounded conversion of a
/// numeric token to a binary64 value; a malformed token is an error. The
/// length bound keeps the call away from tokens of 2^31 characters or
/// more, on which the hexadecimal form's exponent arithmetic is not
/// defined and the conversion would abort.
#[verifier::external_body]
pub fn parse_scalar(s: &str) -> (r: Option<u64>)
    requires
        s@.len() < 0x8000_0000,
    ensures
        r == decimal_bits(s@),
{
    match s.parse::<rustc_apfloat::ieee::Double>() {
        Ok(d) => Some(d.to_bits() as u64),
        Err(_) => None,
    }
}

/// Whether the operand encodes a finite value, decided on the bits alone.
pub fn finite_scalar(b: u64) -> (r: bool)
    ensures
        r == is_finite_bits(b),
{
    (b & 0x7FFF_FFFF_FFFF_FFFF) < 0x7FF0_0000_0000_0000
}

} // verus!
