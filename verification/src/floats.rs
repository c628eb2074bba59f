use vstd::prelude::*;

use rustc_apfloat::Float as ApFloat;
use rustc_apfloat::ieee::Double;

verus! {

/// The sum of two IEEE 754 double-precision numbers given as bit patterns,
/// rounded to nearest, ties to even.
pub uninterp spec fn f64_add(a: u64, b: u64) -> u64;

/// The difference of two IEEE 754 double-precision numbers given as bit
/// patterns, rounded to nearest, ties to even.
pub uninterp spec fn f64_sub(a: u64, b: u64) -> u64;

/// The product of two IEEE 754 double-precision numbers given as bit
/// patterns, rounded to nearest, ties to even.
pub uninterp spec fn f64_mul(a: u64, b: u64) -> u64;

/// The quotient of two IEEE 754 double-precision numbers given as bit
/// patterns, rounded to nearest, ties to even.
pub uninterp spec fn f64_div(a: u64, b: u64) -> u64;

/// The IEEE 754 double-precision number closest to a decimal literal,
/// as a bit pattern.
pub uninterp spec fn f64_of_decimal(s: Seq<char>) -> u64;

/// The decimal rendering of an IEEE 754 double-precision number given as a
/// bit pattern.
pub uninterp spec fn f64_decimal_of(b: u64) -> Seq<char>;

/// The sign bit of a double-precision bit pattern.
pub open spec fn f64_is_negative(b: u64) -> bool {
    b >> 63 == 1
}

/// The magnitude bits (everything but the sign) of a double-precision bit
/// pattern.
pub open spec fn f64_magnitude(b: u64) -> u64 {
    b & 0x7FFF_FFFF_FFFF_FFFF
}

/// Whether a double-precision bit pattern encodes a NaN: exponent all ones
/// and a non-zero trailing significand.
pub open spec fn f64_is_nan(b: u64) -> bool {
    (b >> 52) & 0x7FF == 0x7FF && b & 0xF_FFFF_FFFF_FFFF != 0
}

/// Whether a bit pattern encodes a zero (of either sign).
pub open spec fn f64_is_zero(b: u64) -> bool {
    f64_magnitude(b) == 0
}

/// The position of a non-NaN double on the number line, as an integer key:
/// sign-magnitude bit patterns order by magnitude within a sign, negatives
/// reversed, and the two zeros coincide.
pub open spec fn f64_key(b: u64) -> int {
    if f64_is_negative(b) {
        -(f64_magnitude(b) as int)
    } else {
        f64_magnitude(b) as int
    }
}

/// The IEEE 754 comparison of two doubles given as bit patterns: undefined
/// (`None`) when either is NaN, otherwise the order of their keys.
pub open spec fn f64_lt(a: u64, b: u64) -> bool {
    f64_key(a) < f64_key(b)
}

/// Whether two non-NaN doubles are equal under IEEE 754 comparison: equal
/// keys (so the two zeros are equal, and distinct bit patterns otherwise
/// differ).
pub open spec fn f64_eq(a: u64, b: u64) -> bool {
    f64_key(a) == f64_key(b)
}

/// IEEE 754 negation: the sign bit flipped.
pub open spec fn f64_neg(b: u64) -> u64 {
    b ^ 0x8000_0000_0000_0000
}

/// Whether a double converts to true: anything but a zero (NaN included).
pub open spec fn f64_truthy(b: u64) -> bool {
    !f64_is_zero(b)
}

/// Relies on `rustc_apfloat::ieee::Double`'s `Add`: software IEEE 754
/// double-precision addition on bit patterns, rounding to nearest even.
#[verifier::external_body]
pub fn float_add(a: u64, b: u64) -> (r: u64)
    ensures
        r == f64_add(a, b),
{
    (Double::from_bits(a as u128) + Double::from_bits(b as u128)).value.to_bits() as u64
}

/// Relies on `rustc_apfloat::ieee::Double`'s `Sub`: software IEEE 754
/// double-precision subtraction on bit patterns, rounding to nearest even.
#[verifier::external_body]
pub fn float_sub(a: u64, b: u64) -> (r: u64)
    ensures
        r == f64_sub(a, b),
{
    (Double::from_bits(a as u128) - Double::from_bits(b as u128)).value.to_bits() as u64
}

/// Relies on `rustc_apfloat::ieee::Double`'s `Mul`: software IEEE 754
/// double-precision multiplication on bit patterns, rounding to nearest even.
#[verifier::external_body]
pub fn float_mul(a: u64, b: u64) -> (r: u64)
    ensures
        r == f64_mul(a, b),
{
    (Double::from_bits(a as u128) * Double::from_bits(b as u128)).value.to_bits() as u64
}

/// Relies on `rustc_apfloat::ieee::Double`'s `Div`: software IEEE 754
/// double-precision division on bit patterns, rounding to nearest even.
#[verifier::external_body]
pub fn float_div(a: u64, b: u64) -> (r: u64)
    ensures
        r == f64_div(a, b),
{
    (Double::from_bits(a as u128) / Double::from_bits(b as u128)).value.to_bits() as u64
}

/// Relies on `rustc_apfloat::ieee::Double::from_str`: correctly rounded
/// conversion of a decimal literal; a string of digits with at most one dot
/// always parses.
#[verifier::external_body]
pub fn float_from_decimal(s: &str) -> (r: Option<u64>)
    ensures
        spec_decimal_literal(s@) ==> r == Some(f64_of_decimal(s@)),
{
    match s.parse::<Double>() {
        Ok(d) => Some(d.to_bits() as u64),
        Err(_) => None,
    }
}

/// Relies on `rustc_apfloat::ieee::Double`'s `Display`: a decimal rendering
/// determined by the bit pattern alone.
#[verifier::external_body]
pub fn float_to_decimal(b: u64) -> (r: String)
    ensures
        r@ == f64_decimal_of(b),
{
    format!("{}", Double::from_bits(b as u128))
}

/// The shape of a float literal as the lexer produces it: a non-empty string
/// of digits and dots that starts with a digit and has at most one dot.
pub open spec fn spec_decimal_literal(s: Seq<char>) -> bool {
    &&& s.len() > 0
    &&& '0' <= s[0] <= '9'
    &&& forall|i: int| 0 <= i < s.len() ==> ('0' <= #[trigger] s[i] <= '9' || s[i] == '.')
    &&& forall|i: int, j: int| 0 <= i < j < s.len() && #[trigger] s[i] == '.' ==> #[trigger] s[j]
        != '.'
}

} // verus!
