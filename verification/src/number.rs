//! Integers too wide for a 64-bit signed integer, which streams that only
//! take 64-bit integers receive as their decimal text.
use vstd::prelude::*;

use crate::token::Scalar;

verus! {

/// The character of a decimal digit.
pub open spec fn digit_char(d: nat) -> char {
    if d == 0 { '0' } else if d == 1 { '1' } else if d == 2 { '2' } else if d == 3 { '3' }
    else if d == 4 { '4' } else if d == 5 { '5' } else if d == 6 { '6' } else if d == 7 { '7' }
    else if d == 8 { '8' } else { '9' }
}

/// The decimal digits of a natural number, most significant first.
pub open spec fn decimal(n: nat) -> Seq<char>
    decreases n,
{
    if n < 10 {
        seq![digit_char(n)]
    } else {
        decimal(n / 10).push(digit_char(n % 10))
    }
}

/// The decimal text of an integer, with a leading `-` when it is negative.
pub open spec fn number_text(i: int) -> Seq<char> {
    if i < 0 {
        seq!['-'] + decimal((-i) as nat)
    } else {
        decimal(i as nat)
    }
}

/// Whether an integer scalar fits in a 64-bit signed integer. Scalars that
/// are not integers count as fitting: they are never given as text.
pub open spec fn fits_i64(s: Scalar) -> bool {
    match s {
        Scalar::U64(v) => v <= i64::MAX,
        Scalar::U128(v) => v <= i64::MAX,
        Scalar::I128(v) => i64::MIN <= v <= i64::MAX,
        _ => true,
    }
}

/// The decimal text of an integer scalar; empty for anything else.
pub open spec fn scalar_text(s: Scalar) -> Seq<char> {
    match s {
        Scalar::U8(v) => number_text(v as int),
        Scalar::U16(v) => number_text(v as int),
        Scalar::U32(v) => number_text(v as int),
        Scalar::U64(v) => number_text(v as int),
        Scalar::U128(v) => number_text(v as int),
        Scalar::I8(v) => number_text(v as int),
        Scalar::I16(v) => number_text(v as int),
        Scalar::I32(v) => number_text(v as int),
        Scalar::I64(v) => number_text(v as int),
        Scalar::I128(v) => number_text(v as int),
        _ => Seq::empty(),
    }
}

pub fn fits_i64_exec(s: Scalar) -> (b: bool)
    ensures
        b == fits_i64(s),
{
    match s {
        Scalar::U64(v) => v <= 0x7fff_ffff_ffff_ffffu64,
        Scalar::U128(v) => v <= 0x7fff_ffff_ffff_ffffu128,
        Scalar::I128(v) => -0x8000_0000_0000_0000i128 <= v && v <= 0x7fff_ffff_ffff_ffffi128,
        _ => true,
    }
}

fn digit_str(d: u128) -> (s: &'static str)
    requires
        d < 10,
    ensures
        s@ == seq![digit_char(d as nat)],
{
    proof {
        reveal_strlit("0");
        reveal_strlit("1");
        reveal_strlit("2");
        reveal_strlit("3");
        reveal_strlit("4");
        reveal_strlit("5");
        reveal_strlit("6");
        reveal_strlit("7");
        reveal_strlit("8");
        reveal_strlit("9");
    }
    if d == 0 { "0" } else if d == 1 { "1" } else if d == 2 { "2" } else if d == 3 { "3" }
    else if d == 4 { "4" } else if d == 5 { "5" } else if d == 6 { "6" } else if d == 7 { "7" }
    else if d == 8 { "8" } else { "9" }
}

/// The decimal digits of an unsigned integer.
pub fn decimal_u128(n: u128) -> (s: String)
    ensures
        s@ == decimal(n as nat),
    decreases n,
{
    if n < 10 {
        String::from_str(digit_str(n))
    } else {
        let mut s = decimal_u128(n / 10);
        s.append(digit_str(n % 10));
        s
    }
}

/// The decimal text of a signed integer.
pub fn decimal_i128(n: i128) -> (s: String)
    ensures
        s@ == number_text(n as int),
{
    if n >= 0 {
        decimal_u128(n as u128)
    } else {
        let magnitude: u128 = if n == -0x8000_0000_0000_0000_0000_0000_0000_0000i128 {
            0x8000_0000_0000_0000_0000_0000_0000_0000u128
        } else {
            (-n) as u128
        };
        let digits = decimal_u128(magnitude);
        proof {
            reveal_strlit("-");
        }
        let mut s = String::from_str("-");
        s.append(digits.as_str());
        s
    }
}

/// The decimal text of an integer scalar.
pub fn scalar_decimal(s: Scalar) -> (t: String)
    ensures
        t@ == scalar_text(s),
{
    match s {
        Scalar::U8(v) => decimal_u128(v as u128),
        Scalar::U16(v) => decimal_u128(v as u128),
        Scalar::U32(v) => decimal_u128(v as u128),
        Scalar::U64(v) => decimal_u128(v as u128),
        Scalar::U128(v) => decimal_u128(v),
        Scalar::I8(v) => decimal_i128(v as i128),
        Scalar::I16(v) => decimal_i128(v as i128),
        Scalar::I32(v) => decimal_i128(v as i128),
        Scalar::I64(v) => decimal_i128(v as i128),
        Scalar::I128(v) => decimal_i128(v),
        _ => {
            let t = String::new();
            t
        },
    }
}

} // verus!
