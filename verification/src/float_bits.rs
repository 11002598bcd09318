//! IEEE-754 binary64 operations over bit patterns.
//!
//! The library stores every floating-point value as its IEEE-754 bit
//! pattern in a `u64`. The arithmetic itself is done by the
//! `rustc_apfloat` crate's software implementation of IEEE-754 binary64
//! (round to nearest, ties to even), reached through the trusted wrappers
//! below. Each operation is a pure function of the operand bit patterns,
//! so its result is given a name (an uninterpreted spec function) that
//! the rest of the library's contracts are stated over. Negation is the
//! one operation simple enough to define and verify outright: it flips
//! the sign bit and nothing else.
use vstd::prelude::*;

use rustc_apfloat::Float;
use rustc_apfloat::ieee::Double;

verus! {

/// The bit pattern of the IEEE-754 binary64 sum of the two doubles with
/// bit patterns `a` and `b`.
pub uninterp spec fn f64_add(a: u64, b: u64) -> u64;

/// The bit pattern of the IEEE-754 binary64 difference `a - b`.
pub uninterp spec fn f64_sub(a: u64, b: u64) -> u64;

/// The bit pattern of the IEEE-754 binary64 product `a * b`.
pub uninterp spec fn f64_mul(a: u64, b: u64) -> u64;

/// The bit pattern of the IEEE-754 binary64 quotient `a / b`. Division
/// by zero follows IEEE-754 and produces an infinity or a NaN pattern,
/// never an error.
pub uninterp spec fn f64_div(a: u64, b: u64) -> u64;

/// The bit pattern of the binary64 double nearest to the 32-bit signed
/// integer `x`. Every `i32` is exactly representable, so no rounding
/// occurs.
pub uninterp spec fn f64_from_i32(x: i32) -> u64;

/// The bit pattern of the binary64 double nearest to the decimal number
/// written by the ASCII bytes `digits` (a literal of the shape
/// `digits '.' digits`), rounding to nearest, ties to even.
pub uninterp spec fn f64_from_decimal(digits: Seq<u8>) -> u64;

/// The decimal rendering of the double with bit pattern `bits`.
pub uninterp spec fn f64_decimal_text(bits: u64) -> Seq<char>;

/// Negating an IEEE-754 double flips its sign bit and changes nothing
/// else; this holds for zeros, infinities and NaNs alike.
pub open spec fn f64_neg(a: u64) -> u64 {
    a ^ 0x8000_0000_0000_0000u64
}

/// An ASCII decimal digit.
pub open spec fn is_digit_byte(b: u8) -> bool {
    48 <= b <= 57
}

/// Every byte of `s` in `[lo, hi)` is an ASCII digit.
pub open spec fn all_digit_bytes(s: Seq<u8>, lo: int, hi: int) -> bool {
    forall|i: int| lo <= i < hi ==> is_digit_byte(#[trigger] s[i])
}

/// `s` has the shape `digits '.' digits` with at least one digit on each
/// side of the point.
pub open spec fn is_decimal_literal(s: Seq<u8>) -> bool {
    exists|k: int|
        1 <= k <= s.len() - 2 && s[k] == 46u8 && all_digit_bytes(s, 0, k) && all_digit_bytes(
            s,
            k + 1,
            s.len() as int,
        )
}

/// Relies on `rustc_apfloat`'s `Double` addition: IEEE-754 binary64,
/// round to nearest, ties to even, a function of the operand bit
/// patterns alone.
#[verifier::external_body]
pub(crate) fn add_bits(a: u64, b: u64) -> (r: u64)
    ensures
        r == f64_add(a, b),
{
    (Double::from_bits(a as u128) + Double::from_bits(b as u128)).value.to_bits() as u64
}

/// Relies on `rustc_apfloat`'s `Double` subtraction: IEEE-754 binary64,
/// round to nearest, ties to even, a function of the operand bit
/// patterns alone.
#[verifier::external_body]
pub(crate) fn sub_bits(a: u64, b: u64) -> (r: u64)
    ensures
        r == f64_sub(a, b),
{
    (Double::from_bits(a as u128) - Double::from_bits(b as u128)).value.to_bits() as u64
}

/// Relies on `rustc_apfloat`'s `Double` multiplication: IEEE-754
/// binary64, round to nearest, ties to even, a function of the operand
/// bit patterns alone.
#[verifier::external_body]
pub(crate) fn mul_bits(a: u64, b: u64) -> (r: u64)
    ensures
        r == f64_mul(a, b),
{
    (Double::from_bits(a as u128) * Double::from_bits(b as u128)).value.to_bits() as u64
}

/// Relies on `rustc_apfloat`'s `Double` division: IEEE-754 binary64,
/// round to nearest, ties to even. Division by zero yields an infinity
/// or NaN pattern per IEEE-754; the call never fails.
#[verifier::external_body]
pub(crate) fn div_bits(a: u64, b: u64) -> (r: u64)
    ensures
        r == f64_div(a, b),
{
    (Double::from_bits(a as u128) / Double::from_bits(b as u128)).value.to_bits() as u64
}

/// Relies on `rustc_apfloat`'s `Double::from_i128`: conversion of an
/// integer to the nearest binary64 double, exact for every `i32`.
#[verifier::external_body]
pub(crate) fn i32_to_bits(x: i32) -> (r: u64)
    ensures
        r == f64_from_i32(x),
{
    Double::from_i128(x as i128).value.to_bits() as u64
}

/// Relies on `rustc_apfloat`'s `Double` `FromStr`: correctly rounded
/// decimal-to-binary64 conversion (round to nearest, ties to even),
/// a function of the literal text alone. On text of the shape
/// `digits '.' digits` the conversion never fails.
#[verifier::external_body]
pub(crate) fn decimal_to_bits(text: &[u8]) -> (r: u64)
    requires
        is_decimal_literal(text@),
    ensures
        r == f64_from_decimal(text@),
{
    let s = core::str::from_utf8(text).unwrap_or("0.0");
    match s.parse::<Double>() {
        Ok(d) => d.to_bits() as u64,
        Err(_) => 0,
    }
}

/// Relies on `rustc_apfloat`'s `Double` `Display`: a decimal rendering
/// of the double, a function of its bit pattern alone.
#[verifier::external_body]
pub(crate) fn bits_to_decimal_string(bits: u64) -> (r: String)
    ensures
        r@ == f64_decimal_text(bits),
{
    format!("{}", Double::from_bits(bits as u128))
}

} // verus!
