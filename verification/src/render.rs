use vstd::prelude::*;

use crate::strutil::chars_to_string;

verus! {

/// The character for one decimal digit.
pub open spec fn spec_digit_char(d: int) -> char {
    ((48 + d) as u8) as char
}

/// The decimal numeral of an unsigned number, most significant digit first.
pub open spec fn spec_u64_decimal(n: u64) -> Seq<char>
    decreases n,
{
    if n < 10 {
        seq![spec_digit_char(n as int)]
    } else {
        spec_u64_decimal(n / 10) + seq![spec_digit_char((n % 10) as int)]
    }
}

/// The decimal numeral of a signed number: a minus sign where the number is
/// negative, then the numeral of the magnitude.
pub open spec fn spec_i64_decimal(v: i64) -> Seq<char> {
    if v < 0 {
        seq!['-'] + spec_u64_decimal((-(v as int)) as u64)
    } else {
        spec_u64_decimal(v as u64)
    }
}

/// The decimal digits of an unsigned number, as characters.
pub fn u64_decimal_chars(n: u64) -> (r: Vec<char>)
    ensures
        r@ == spec_u64_decimal(n),
    decreases n,
{
    let d: u8 = (n % 10) as u8;
    let c: char = (48 + d) as char;
    if n < 10 {
        let mut v: Vec<char> = Vec::new();
        v.push(c);
        assert(v@ =~= spec_u64_decimal(n));
        v
    } else {
        let mut v = u64_decimal_chars(n / 10);
        v.push(c);
        assert(v@ =~= spec_u64_decimal(n));
        v
    }
}

/// The decimal digits of a signed number, as characters.
pub fn i64_decimal_chars(v: i64) -> (r: Vec<char>)
    ensures
        r@ == spec_i64_decimal(v),
{
    if v < 0 {
        let m: u64 = if v == i64::MIN {
            9223372036854775808u64
        } else {
            (-v) as u64
        };
        let mut r: Vec<char> = Vec::new();
        r.push('-');
        let mut digits = u64_decimal_chars(m);
        r.append(&mut digits);
        assert(r@ =~= spec_i64_decimal(v));
        r
    } else {
        u64_decimal_chars(v as u64)
    }
}

/// Renders an unsigned number in decimal.
pub fn u64_to_string(n: u64) -> (r: String)
    ensures
        r@ == spec_u64_decimal(n),
{
    let v = u64_decimal_chars(n);
    chars_to_string(&v)
}

/// Renders a signed number in decimal.
pub fn i64_to_string(v: i64) -> (r: String)
    ensures
        r@ == spec_i64_decimal(v),
{
    let chars = i64_decimal_chars(v);
    chars_to_string(&chars)
}

} // verus!
