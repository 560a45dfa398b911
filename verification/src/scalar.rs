use vstd::prelude::*;

use rustc_apfloat::Float;

verus! {

/// Bit pattern of the IEEE 754 single-precision value 1.0, used by the
/// texture-coordinate flip.
pub const ONE_BITS: u32 = 0x3f80_0000;

/// Bit pattern of the IEEE 754 single-precision value 2.0, the default
/// position scale factor.
pub const TWO_BITS: u32 = 0x4000_0000;

/// Whether `b` is a decimal digit.
pub open spec fn is_digit(b: u8) -> bool {
    0x30 <= b <= 0x39
}

/// End of the longest well-formed scalar token starting at `i`, or `i` when
/// none starts there. A well-formed token is an optional sign, then either at
/// least one integer digit followed by an optional fraction (`.` and any
/// number of digits), or a fraction with at least one digit, then an optional
/// exponent (`e` or `E`, an optional sign, and at least one digit).
pub open spec fn spec_float_end(s: Seq<u8>, i: int) -> int
    recommends
        0 <= i <= s.len(),
{
    let a = if i < s.len() && (s[i] == 0x2bu8 || s[i] == 0x2du8) {
        i + 1
    } else {
        i
    };
    let b = spec_digits_end(s, a);
    if b > a {
        // Integer digits, optional fraction.
        let c = if b < s.len() && s[b] == 0x2eu8 {
            spec_digits_end(s, b + 1)
        } else {
            b
        };
        spec_exponent_end(s, c)
    } else if a < s.len() && s[a] == 0x2eu8 {
        // No integer digits: the fraction must hold at least one.
        let c = spec_digits_end(s, a + 1);
        if c > a + 1 {
            spec_exponent_end(s, c)
        } else {
            i
        }
    } else {
        i
    }
}

/// End of the exponent part starting at `c`, or `c` when no well-formed
/// exponent starts there.
pub open spec fn spec_exponent_end(s: Seq<u8>, c: int) -> int
    recommends
        0 <= c <= s.len(),
{
    if c < s.len() && (s[c] == 0x65u8 || s[c] == 0x45u8) {
        let d = if c + 1 < s.len() && (s[c + 1] == 0x2bu8 || s[c + 1] == 0x2du8) {
            c + 2
        } else {
            c + 1
        };
        let e = spec_digits_end(s, d);
        if e > d {
            e
        } else {
            c
        }
    } else {
        c
    }
}

/// End of the run of decimal digits starting at `i`.
pub open spec fn spec_digits_end(s: Seq<u8>, i: int) -> int
    recommends
        0 <= i <= s.len(),
    decreases s.len() - i,
{
    if 0 <= i < s.len() && is_digit(s[i]) {
        spec_digits_end(s, i + 1)
    } else {
        i
    }
}

/// The IEEE 754 single-precision bit pattern that a well-formed scalar token
/// denotes, under round-to-nearest, ties-to-even.
pub uninterp spec fn f32_bits_of(s: Seq<u8>) -> u32;

/// The bit pattern of the IEEE 754 single-precision product of the two
/// operand bit patterns, under round-to-nearest, ties-to-even.
pub uninterp spec fn f32_mul_bits(a: u32, b: u32) -> u32;

/// The bit pattern of the IEEE 754 single-precision difference of the two
/// operand bit patterns, under round-to-nearest, ties-to-even.
pub uninterp spec fn f32_sub_bits(a: u32, b: u32) -> u32;

/// Relies on rustc_apfloat's `Single::from_str` (software IEEE 754
/// binary32, round-to-nearest, ties-to-even): the resulting bit pattern is
/// a function of the token bytes alone. A well-formed scalar token holds
/// only ASCII sign, digit, dot and exponent bytes, so `str::from_utf8`
/// accepts it, and its shape is within the decimal grammar that
/// `from_str` parses without error.
#[verifier::external_body]
pub fn parse_f32_bits(s: &[u8], i: usize, j: usize) -> (r: u32)
    requires
        i < j <= s@.len(),
        spec_float_end(s@, i as int) == j,
    ensures
        r == f32_bits_of(s@.subrange(i as int, j as int)),
{
    let text = core::str::from_utf8(&s[i..j]).unwrap();
    let value: rustc_apfloat::ieee::Single = text.parse().unwrap();
    value.to_bits() as u32
}

/// Relies on rustc_apfloat's `Single` multiplication (software IEEE 754
/// binary32, round-to-nearest, ties-to-even): the resulting bit pattern is a
/// function of the operand bit patterns alone.
#[verifier::external_body]
pub fn mul_bits(a: u32, b: u32) -> (r: u32)
    ensures
        r == f32_mul_bits(a, b),
{
    let x = rustc_apfloat::ieee::Single::from_bits(a as u128);
    let y = rustc_apfloat::ieee::Single::from_bits(b as u128);
    (x * y).value.to_bits() as u32
}

/// Relies on rustc_apfloat's `Single` subtraction (software IEEE 754
/// binary32, round-to-nearest, ties-to-even): the resulting bit pattern is a
/// function of the operand bit patterns alone.
#[verifier::external_body]
pub fn sub_bits(a: u32, b: u32) -> (r: u32)
    ensures
        r == f32_sub_bits(a, b),
{
    let x = rustc_apfloat::ieee::Single::from_bits(a as u128);
    let y = rustc_apfloat::ieee::Single::from_bits(b as u128);
    (x - y).value.to_bits() as u32
}

} // verus!
