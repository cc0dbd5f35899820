//! Double-precision floating-point elements, represented by their IEEE-754
//! bit patterns (`u64`). Arithmetic, comparison, formatting and parsing are
//! delegated to a software implementation of IEEE-754 binary64; each result
//! is a pure function of the argument bits and is given a name here, so
//! contracts elsewhere can speak of it exactly.
use vstd::prelude::*;

use rustc_apfloat::Float;
use rustc_apfloat::ieee::Double;

verus! {

/// The bits of the IEEE-754 sum of two doubles, rounded to nearest, ties to even.
pub uninterp spec fn fp_add(a: u64, b: u64) -> u64;

/// The bits of the IEEE-754 difference of two doubles.
pub uninterp spec fn fp_sub(a: u64, b: u64) -> u64;

/// The bits of the IEEE-754 product of two doubles.
pub uninterp spec fn fp_mul(a: u64, b: u64) -> u64;

/// The bits of the IEEE-754 quotient of two doubles.
pub uninterp spec fn fp_div(a: u64, b: u64) -> u64;

/// The bits of the double nearest to a 64-bit integer.
pub uninterp spec fn fp_of_int(i: i64) -> u64;

/// The 64-bit integer a double truncates to.
pub uninterp spec fn fp_trunc(a: u64) -> i64;

/// The IEEE-754 comparison of two doubles: `None` when either is a NaN,
/// otherwise `Some(-1)`, `Some(0)` or `Some(1)` for less, equal, greater.
/// Zeros of either sign compare equal.
pub uninterp spec fn fp_cmp(a: u64, b: u64) -> Option<i8>;

/// The decimal rendering of a double, with as many digits as its value needs.
pub uninterp spec fn fp_dec_str(a: u64) -> Seq<char>;

/// The double parsed back from a decimal rendering; `None` when the text is
/// not a decimal number.
pub uninterp spec fn fp_parse(s: Seq<char>) -> Option<u64>;

pub open spec fn fp_eq(a: u64, b: u64) -> bool {
    fp_cmp(a, b) == Some(0i8)
}

pub open spec fn fp_lt(a: u64, b: u64) -> bool {
    fp_cmp(a, b) == Some(-1i8)
}

pub open spec fn fp_gt(a: u64, b: u64) -> bool {
    fp_cmp(a, b) == Some(1i8)
}

pub open spec fn fp_ne(a: u64, b: u64) -> bool {
    !fp_eq(a, b)
}

pub open spec fn fp_le(a: u64, b: u64) -> bool {
    fp_lt(a, b) || fp_eq(a, b)
}

pub open spec fn fp_ge(a: u64, b: u64) -> bool {
    fp_gt(a, b) || fp_eq(a, b)
}

/// IEEE-754 negation flips the sign bit and leaves the rest of the
/// representation unchanged, so it needs no outside call.
pub open spec fn fp_neg_spec(a: u64) -> u64 {
    if a >= 0x8000_0000_0000_0000 {
        (a - 0x8000_0000_0000_0000) as u64
    } else {
        (a + 0x8000_0000_0000_0000) as u64
    }
}

pub fn fp_neg_bits(a: u64) -> (r: u64)
    ensures
        r == fp_neg_spec(a),
{
    if a >= 0x8000_0000_0000_0000 {
        a - 0x8000_0000_0000_0000
    } else {
        a + 0x8000_0000_0000_0000
    }
}

/// Relies on rustc_apfloat's `Double` addition (`add_r`, rounding to nearest,
/// ties to even), a deterministic software model of IEEE-754 binary64.
#[verifier::external_body]
pub(crate) fn fp_add_bits(a: u64, b: u64) -> (r: u64)
    ensures
        r == fp_add(a, b),
{
    (Double::from_bits(a as u128) + Double::from_bits(b as u128)).value.to_bits() as u64
}

/// Relies on rustc_apfloat's `Double` subtraction (`sub_r`).
#[verifier::external_body]
pub(crate) fn fp_sub_bits(a: u64, b: u64) -> (r: u64)
    ensures
        r == fp_sub(a, b),
{
    (Double::from_bits(a as u128) - Double::from_bits(b as u128)).value.to_bits() as u64
}

/// Relies on rustc_apfloat's `Double` multiplication (`mul_r`).
#[verifier::external_body]
pub(crate) fn fp_mul_bits(a: u64, b: u64) -> (r: u64)
    ensures
        r == fp_mul(a, b),
{
    (Double::from_bits(a as u128) * Double::from_bits(b as u128)).value.to_bits() as u64
}

/// Relies on rustc_apfloat's `Double` division (`div_r`).
#[verifier::external_body]
pub(crate) fn fp_div_bits(a: u64, b: u64) -> (r: u64)
    ensures
        r == fp_div(a, b),
{
    (Double::from_bits(a as u128) / Double::from_bits(b as u128)).value.to_bits() as u64
}

/// Relies on rustc_apfloat's `Double::from_i128`, the correctly rounded
/// integer-to-double conversion.
#[verifier::external_body]
pub(crate) fn fp_from_i64(i: i64) -> (r: u64)
    ensures
        r == fp_of_int(i),
{
    Double::from_i128(i as i128).value.to_bits() as u64
}

/// Relies on rustc_apfloat's `Float::to_i128` with rounding toward zero,
/// which truncates the fraction, saturates out-of-range values at the signed
/// 64-bit bounds, and maps NaN to 0.
#[verifier::external_body]
pub(crate) fn fp_to_i64(a: u64) -> (r: i64)
    ensures
        r == fp_trunc(a),
{
    Double::from_bits(a as u128).to_i128(64).value as i64
}

/// Relies on rustc_apfloat's `PartialOrd for IeeeFloat`: `None` exactly when
/// an operand is a NaN, and zeros of either sign compare equal.
#[verifier::external_body]
pub(crate) fn fp_cmp_bits(a: u64, b: u64) -> (r: Option<i8>)
    ensures
        r == fp_cmp(a, b),
{
    match Double::from_bits(a as u128).partial_cmp(&Double::from_bits(b as u128)) {
        None => None,
        Some(core::cmp::Ordering::Less) => Some(-1),
        Some(core::cmp::Ordering::Equal) => Some(0),
        Some(core::cmp::Ordering::Greater) => Some(1),
    }
}

/// Relies on rustc_apfloat's `Display for IeeeFloat`, which prints a decimal
/// form with the number's natural precision.
#[verifier::external_body]
pub(crate) fn fp_to_text(a: u64) -> (r: String)
    ensures
        r@ == fp_dec_str(a),
{
    format!("{}", Double::from_bits(a as u128))
}

/// Relies on rustc_apfloat's `FromStr for IeeeFloat`, which accepts decimal
/// and hexadecimal float literals and the special infinity and NaN forms, and
/// rejects anything else.
#[verifier::external_body]
pub(crate) fn fp_from_text(s: &str) -> (r: Option<u64>)
    ensures
        r == fp_parse(s@),
{
    match s.parse::<Double>() {
        Ok(d) => Some(d.to_bits() as u64),
        Err(_) => None,
    }
}

} // verus!
