//! Numbers: IEEE-754 binary64 values held as their 64-bit patterns.
//!
//! Comparison and negation work on the bit pattern directly. Rounded
//! arithmetic and the conversions from and to decimal text are done by
//! `rustc_apfloat`, a software implementation of the arithmetic, so that a
//! program gives the same numbers on every machine. What those calls return
//! is named here and not proved.

use crate::text::chars_of;
use rustc_apfloat::ieee::Double;
use rustc_apfloat::Float;
use rustc_apfloat::Round;
use vstd::prelude::*;

verus! {

/// The bit that holds the sign.
pub const SIGN_BIT: u64 = 0x8000_0000_0000_0000;

/// The magnitude of positive infinity: every exponent bit set, no fraction bit.
pub const INFINITY_BITS: u64 = 0x7FF0_0000_0000_0000;

/// The pattern without its sign bit.
pub open spec fn magnitude(bits: u64) -> u64 {
    if bits >= SIGN_BIT {
        (bits - SIGN_BIT) as u64
    } else {
        bits
    }
}

/// True for the patterns that are not a number.
pub open spec fn is_nan(bits: u64) -> bool {
    magnitude(bits) > INFINITY_BITS
}

/// The place of a pattern that is a number on the number line: patterns of
/// one sign are ordered as their magnitudes are, and both zeros share a place.
pub open spec fn rank(bits: u64) -> int {
    if bits >= SIGN_BIT {
        -(magnitude(bits) as int)
    } else {
        bits as int
    }
}

/// IEEE equality: false when either side is not a number.
pub open spec fn number_equal(a: u64, b: u64) -> bool {
    !is_nan(a) && !is_nan(b) && rank(a) == rank(b)
}

/// IEEE less-than: false when either side is not a number.
pub open spec fn number_less(a: u64, b: u64) -> bool {
    !is_nan(a) && !is_nan(b) && rank(a) < rank(b)
}

/// The pattern with its sign bit flipped.
pub open spec fn negated(bits: u64) -> u64 {
    if bits >= SIGN_BIT {
        (bits - SIGN_BIT) as u64
    } else {
        (bits + SIGN_BIT) as u64
    }
}

/// True when `text` is `whole` digits, optionally followed by a point and
/// one or more digits.
pub open spec fn digits_then_fraction(text: Seq<char>, whole: int) -> bool {
    &&& 0 < whole <= text.len()
    &&& forall|i: int| 0 <= i < whole ==> is_digit(#[trigger] text[i])
    &&& whole < text.len() ==> {
        &&& text[whole] == '.'
        &&& whole + 1 < text.len()
        &&& forall|i: int| whole < i < text.len() ==> is_digit(#[trigger] text[i])
    }
}

/// True when `text` is one or more digits, optionally followed by a point and
/// one or more digits.
pub open spec fn is_decimal_literal(text: Seq<char>) -> bool {
    exists|whole: int| digits_then_fraction(text, whole)
}

/// True for `'0'` to `'9'`.
pub open spec fn is_digit(c: char) -> bool {
    '0' <= c <= '9'
}

/// The number that `rustc_apfloat` reads from decimal text, rounding to
/// nearest, ties to even; none where it rejects the text.
pub uninterp spec fn decimal_value(text: Seq<char>) -> Option<u64>;

/// The rounded sum of two numbers as `rustc_apfloat` computes it.
pub uninterp spec fn sum_of(a: u64, b: u64) -> u64;

/// The rounded difference of two numbers as `rustc_apfloat` computes it.
pub uninterp spec fn difference_of(a: u64, b: u64) -> u64;

/// The rounded product of two numbers as `rustc_apfloat` computes it.
pub uninterp spec fn product_of(a: u64, b: u64) -> u64;

/// The rounded quotient of two numbers as `rustc_apfloat` computes it.
pub uninterp spec fn quotient_of(a: u64, b: u64) -> u64;

/// The text that `rustc_apfloat` prints for a number in scientific form with
/// at most `precision` significant digits.
pub uninterp spec fn scientific(bits: u64, precision: usize) -> Seq<char>;

/// Calls the `Display` implementation of `rustc_apfloat` for `ieee::Double`
/// with width 0, which asks for scientific form, and with the given
/// precision. The text is a function of the pattern and the precision alone.
/// The precision is at least 1: with precision 0 the implementation may
/// discard every digit and then fails. It is kept small: the implementation
/// multiplies it by 196.
#[verifier::external_body]
pub(crate) fn print_scientific(bits: u64, precision: usize) -> (text: String)
    requires
        1 <= precision <= 1000,
    ensures
        text@ == scientific(bits, precision),
{
    format!("{:1$.2$}", Double::from_bits(bits as u128), 0, precision)
}

/// True for the characters of decimal notation: the digits, the point, the
/// exponent mark `E` and the two signs.
pub open spec fn is_plain_char(c: char) -> bool {
    is_digit(c) || c == '.' || c == 'E' || c == '+' || c == '-'
}

/// True when the text is made of characters of decimal notation.
pub open spec fn is_plain(text: Seq<char>) -> bool {
    forall|i: int| 0 <= i < text.len() ==> is_plain_char(#[trigger] text[i])
}

/// The number that a text in decimal notation spells, rounded to the nearest
/// double; none where the text is no number or holds another character.
pub open spec fn plain_value(text: Seq<char>) -> Option<u64> {
    if is_plain(text) {
        decimal_value(text)
    } else {
        None
    }
}

/// A decimal literal is made of characters of decimal notation.
pub proof fn lemma_literal_is_plain(text: Seq<char>)
    requires
        is_decimal_literal(text),
    ensures
        is_plain(text),
{
    let whole = choose|whole: int| digits_then_fraction(text, whole);
    assert forall|i: int| 0 <= i < text.len() implies is_plain_char(#[trigger] text[i]) by {
        if i < whole {
        } else if i == whole {
        } else {
        }
    }
}

/// Calls `Float::from_str_r` of `rustc_apfloat` on `ieee::Double`, rounding
/// to nearest, ties to even. The result is a function of the text alone.
/// The text holds characters of decimal notation only, so it is read by the
/// decimal reader, never as a hexadecimal number or a name. Text that is a
/// decimal literal is always accepted: the decimal reader refuses only an
/// empty text, a second point, a sign inside the digits, and a text without
/// any digit.
#[verifier::external_body]
pub(crate) fn parse_decimal(text: &str) -> (bits: Option<u64>)
    requires
        is_plain(text@),
    ensures
        bits == decimal_value(text@),
        is_decimal_literal(text@) ==> bits is Some,
{
    match Double::from_str_r(text, Round::NearestTiesToEven) {
        Ok(read) => Some(read.value.to_bits() as u64),
        Err(_) => None,
    }
}

/// Whether the character belongs to decimal notation.
fn plain_char(c: char) -> (plain: bool)
    ensures
        plain == is_plain_char(c),
{
    ('0' <= c && c <= '9') || c == '.' || c == 'E' || c == '+' || c == '-'
}

/// The number that a text in decimal notation spells; none where the reader
/// refuses the text or the text holds another character.
pub fn read_decimal(text: &str) -> (bits: Option<u64>)
    ensures
        bits == plain_value(text@),
        is_decimal_literal(text@) ==> bits is Some,
{
    let chars = chars_of(text);
    let mut i: usize = 0;
    while i < chars.len()
        invariant
            i <= chars.len(),
            chars@ == text@,
            forall|j: int| 0 <= j < i ==> is_plain_char(#[trigger] text@[j]),
        decreases chars.len() - i,
    {
        if !plain_char(chars[i]) {
            proof {
                if is_decimal_literal(text@) {
                    lemma_literal_is_plain(text@);
                }
            }
            return None;
        }
        i += 1;
    }
    parse_decimal(text)
}

/// Calls `Float::add_r` of `rustc_apfloat` on `ieee::Double`, rounding to
/// nearest, ties to even. The result is a function of the two patterns alone.
#[verifier::external_body]
pub(crate) fn add_numbers(a: u64, b: u64) -> (bits: u64)
    ensures
        bits == sum_of(a, b),
{
    Double::from_bits(a as u128).add_r(Double::from_bits(b as u128), Round::NearestTiesToEven).value.to_bits() as u64
}

/// Calls `Float::sub_r` of `rustc_apfloat` on `ieee::Double`, rounding to
/// nearest, ties to even. The result is a function of the two patterns alone.
#[verifier::external_body]
pub(crate) fn subtract_numbers(a: u64, b: u64) -> (bits: u64)
    ensures
        bits == difference_of(a, b),
{
    Double::from_bits(a as u128).sub_r(Double::from_bits(b as u128), Round::NearestTiesToEven).value.to_bits() as u64
}

/// Calls `Float::mul_r` of `rustc_apfloat` on `ieee::Double`, rounding to
/// nearest, ties to even. The result is a function of the two patterns alone.
#[verifier::external_body]
pub(crate) fn multiply_numbers(a: u64, b: u64) -> (bits: u64)
    ensures
        bits == product_of(a, b),
{
    Double::from_bits(a as u128).mul_r(Double::from_bits(b as u128), Round::NearestTiesToEven).value.to_bits() as u64
}

/// Calls `Float::div_r` of `rustc_apfloat` on `ieee::Double`, rounding to
/// nearest, ties to even. A zero divisor gives an infinity or a pattern that
/// is not a number, never a failure. The result is a function of the two
/// patterns alone.
#[verifier::external_body]
pub(crate) fn divide_numbers(a: u64, b: u64) -> (bits: u64)
    ensures
        bits == quotient_of(a, b),
{
    Double::from_bits(a as u128).div_r(Double::from_bits(b as u128), Round::NearestTiesToEven).value.to_bits() as u64
}

/// Whether the pattern is not a number.
pub fn nan(bits: u64) -> (r: bool)
    ensures
        r == is_nan(bits),
{
    let m: u64 = if bits >= SIGN_BIT {
        bits - SIGN_BIT
    } else {
        bits
    };
    m > INFINITY_BITS
}

/// Whether two numbers are equal.
pub fn equal(a: u64, b: u64) -> (r: bool)
    ensures
        r == number_equal(a, b),
{
    if nan(a) || nan(b) {
        false
    } else if a == b {
        true
    } else {
        // Only the two zeros are equal without being the same pattern.
        (a == 0 && b == SIGN_BIT) || (a == SIGN_BIT && b == 0)
    }
}

/// Whether the first number is less than the second.
pub fn less(a: u64, b: u64) -> (r: bool)
    ensures
        r == number_less(a, b),
{
    if nan(a) || nan(b) {
        false
    } else if a >= SIGN_BIT {
        if b >= SIGN_BIT {
            b < a
        } else {
            !(a == SIGN_BIT && b == 0)
        }
    } else {
        if b >= SIGN_BIT {
            false
        } else {
            a < b
        }
    }
}

/// The number with the opposite sign.
pub fn negate(bits: u64) -> (r: u64)
    ensures
        r == negated(bits),
{
    if bits >= SIGN_BIT {
        bits - SIGN_BIT
    } else {
        bits + SIGN_BIT
    }
}

} // verus!
