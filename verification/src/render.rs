//! The canonical text of values: what `echo` shows.
//!
//! A number is shown with the fewest digits that still read back as the same
//! number, without an exponent. The digits come from the exact decimal
//! expansion of the number, which `rustc_apfloat` prints; whether digits
//! read back as the number is what its reader says.

use crate::number::{
    is_digit, is_nan, magnitude, nan, plain_value, print_scientific, read_decimal, scientific,
    INFINITY_BITS, SIGN_BIT,
};
use crate::object::{obj, Value};
use crate::lexicon::{stretch_end, Stretch};
use crate::text::{chars_of, string_of};
use vstd::prelude::*;
use vstd::string::StringExecFns;

verus! {

/// The number of significant digits asked for: more than any number has.
pub const ALL_DIGITS: usize = 800;

/// The most digits that are tried before the whole expansion is shown.
pub const MOST_DIGITS: usize = 17;

/// `count` zeros.
pub open spec fn zeros(count: nat) -> Seq<char> {
    Seq::new(count, |i: int| '0')
}

/// The digits without the zeros at their end; one digit is always kept.
pub open spec fn stripped(digits: Seq<char>) -> Seq<char>
    decreases digits.len(),
{
    if digits.len() > 1 && digits.last() == '0' {
        stripped(digits.drop_last())
    } else {
        digits
    }
}

/// The value of a digit.
pub open spec fn digit_value(c: char) -> int {
    match c {
        '1' => 1,
        '2' => 2,
        '3' => 3,
        '4' => 4,
        '5' => 5,
        '6' => 6,
        '7' => 7,
        '8' => 8,
        '9' => 9,
        _ => 0,
    }
}

/// The number that digits spell.
pub open spec fn number_of(digits: Seq<char>) -> int
    decreases digits.len(),
{
    if digits.len() == 0 {
        0
    } else {
        number_of(digits.drop_last()) * 10 + digit_value(digits.last())
    }
}

/// A decimal expansion: `digits`, with the point after the first of them,
/// times ten to the `exponent`. `tail` is the exponent as it was printed,
/// with its mark.
#[verifier::ext_equal]
pub struct Expansion {
    pub digits: Seq<char>,
    pub exponent: int,
    pub tail: Seq<char>,
}

/// True when the text has the printed shape: a digit that is not zero, a
/// point, one or more digits, the mark `E`, a sign, and one to four digits.
pub open spec fn is_printed(text: Seq<char>) -> bool {
    let mark = stretch_end(text, 2, Stretch::Digits);
    let end = stretch_end(text, mark + 2, Stretch::Digits);
    &&& text.len() >= 6
    &&& is_digit(text[0])
    &&& text[0] != '0'
    &&& text[1] == '.'
    &&& 2 < mark
    &&& mark + 2 < text.len()
    &&& text[mark as int] == 'E'
    &&& (text[mark as int + 1] == '+' || text[mark as int + 1] == '-')
    &&& end == text.len()
    &&& end <= mark + 6
}

/// The expansion that a text of the printed shape spells.
pub open spec fn read_printed(text: Seq<char>) -> Option<Expansion> {
    if is_printed(text) {
        let mark = stretch_end(text, 2, Stretch::Digits);
        let size = number_of(text.subrange(mark as int + 2, text.len() as int));
        Some(
            Expansion {
                digits: stripped(seq![text[0]] + text.subrange(2, mark as int)),
                exponent: if text[mark as int + 1] == '-' {
                    -size
                } else {
                    size
                },
                tail: text.subrange(mark as int, text.len() as int),
            },
        )
    } else {
        None
    }
}

/// Where the stretch of digits that starts at `from` ends.
fn digits_end(text: &Vec<char>, from: usize) -> (end: usize)
    requires
        from <= text.len(),
    ensures
        end == stretch_end(text@, from as nat, Stretch::Digits),
        from <= end <= text.len(),
{
    let mut end: usize = from;
    while end < text.len() && '0' <= text[end] && text[end] <= '9'
        invariant
            from <= end <= text.len(),
            stretch_end(text@, end as nat, Stretch::Digits) == stretch_end(
                text@,
                from as nat,
                Stretch::Digits,
            ),
        decreases text.len() - end,
    {
        end += 1;
    }
    end
}

/// The value of a digit.
fn value_of(c: char) -> (value: u32)
    ensures
        value == digit_value(c),
        value <= 9,
{
    match c {
        '1' => 1,
        '2' => 2,
        '3' => 3,
        '4' => 4,
        '5' => 5,
        '6' => 6,
        '7' => 7,
        '8' => 8,
        '9' => 9,
        _ => 0,
    }
}

/// The digits spell a number below ten to their count.
proof fn lemma_number_bound(digits: Seq<char>)
    ensures
        0 <= number_of(digits),
        digits.len() <= 4 ==> number_of(digits) <= 9999,
        digits.len() <= 3 ==> number_of(digits) <= 999,
        digits.len() <= 2 ==> number_of(digits) <= 99,
        digits.len() <= 1 ==> number_of(digits) <= 9,
    decreases digits.len(),
{
    if digits.len() > 0 {
        lemma_number_bound(digits.drop_last());
    }
}

/// The number that `text[from..to]` spells.
fn read_number(text: &Vec<char>, from: usize, to: usize) -> (value: u32)
    requires
        from <= to <= text.len(),
        to - from <= 4,
    ensures
        value == number_of(text@.subrange(from as int, to as int)),
        value <= 9999,
{
    let mut value: u32 = 0;
    let mut i: usize = from;
    while i < to
        invariant
            from <= i <= to <= text.len(),
            to - from <= 4,
            value == number_of(text@.subrange(from as int, i as int)),
        decreases to - i,
    {
        proof {
            lemma_number_bound(text@.subrange(from as int, i as int));
            assert(text@.subrange(from as int, i + 1).drop_last() =~= text@.subrange(
                from as int,
                i as int,
            ));
        }
        value = value * 10 + value_of(text[i]);
        i += 1;
    }
    proof {
        lemma_number_bound(text@.subrange(from as int, to as int));
    }
    value
}

/// Drops the zeros at the end of the digits, but for the first digit.
pub fn strip(digits: &mut Vec<char>)
    ensures
        final(digits)@ == stripped(old(digits)@),
{
    while digits.len() > 1 && digits[digits.len() - 1] == '0'
        invariant
            stripped(digits@) == stripped(old(digits)@),
        decreases digits.len(),
    {
        let ghost before = digits@;
        digits.pop();
        assert(digits@ =~= before.drop_last());
    }
}

/// A decimal expansion as it is held while it is worked on.
pub struct Digits {
    /// The digits, the point after the first of them.
    pub digits: Vec<char>,
    /// The power of ten.
    pub exponent: i32,
    /// The exponent as it was printed, with its mark.
    pub tail: Vec<char>,
}

impl View for Digits {
    type V = Expansion;

    open spec fn view(&self) -> Expansion {
        Expansion { digits: self.digits@, exponent: self.exponent as int, tail: self.tail@ }
    }
}

/// Appends `text[from..to]` to `chars`.
fn extend(chars: &mut Vec<char>, text: &Vec<char>, from: usize, to: usize)
    requires
        from <= to <= text.len(),
    ensures
        final(chars)@ == old(chars)@ + text@.subrange(from as int, to as int),
{
    let mut i: usize = from;
    while i < to
        invariant
            from <= i <= to <= text.len(),
            chars@ == old(chars)@ + text@.subrange(from as int, i as int),
        decreases to - i,
    {
        chars.push(text[i]);
        assert(text@.subrange(from as int, i + 1) =~= text@.subrange(from as int, i as int).push(
            text@[i as int],
        ));
        i += 1;
    }
}

/// Reads a text of the printed shape; none where the text has another shape.
pub fn read(text: &Vec<char>) -> (expansion: Option<Digits>)
    ensures
        (match expansion {
            Some(found) => read_printed(text@) == Some(found@) && -9999 <= found.exponent <= 9999,
            None => read_printed(text@) is None,
        }),
{
    if text.len() < 6 {
        return None;
    }
    let mark = digits_end(text, 2);
    if !('1' <= text[0] && text[0] <= '9' && text[1] == '.' && 2 < mark) {
        return None;
    }
    if !(mark < text.len() - 2 && text[mark] == 'E' && (text[mark + 1] == '+' || text[mark + 1]
        == '-')) {
        return None;
    }
    let end = digits_end(text, mark + 2);
    if !(end == text.len() && end - mark <= 6) {
        return None;
    }
    let size = read_number(text, mark + 2, end);
    let exponent: i32 = if text[mark + 1] == '-' {
        0 - (size as i32)
    } else {
        size as i32
    };
    let mut digits: Vec<char> = Vec::new();
    digits.push(text[0]);
    extend(&mut digits, text, 2, mark);
    assert(digits@ =~= seq![text@[0]] + text@.subrange(2, mark as int));
    strip(&mut digits);
    let mut tail: Vec<char> = Vec::new();
    extend(&mut tail, text, mark, text.len());
    assert(tail@ =~= text@.subrange(mark as int, text@.len() as int));
    Some(Digits { digits, exponent, tail })
}

/// The digit after a digit; zero after nine.
pub open spec fn next_digit(c: char) -> char {
    match c {
        '0' => '1',
        '1' => '2',
        '2' => '3',
        '3' => '4',
        '4' => '5',
        '5' => '6',
        '6' => '7',
        '7' => '8',
        '8' => '9',
        _ => '0',
    }
}

/// The place of the last digit that is no nine; -1 where every digit is.
pub open spec fn last_below_nine(digits: Seq<char>) -> int
    decreases digits.len(),
{
    if digits.len() == 0 {
        -1
    } else if digits.last() != '9' {
        digits.len() - 1
    } else {
        last_below_nine(digits.drop_last())
    }
}

/// The digits of the next number: the last digit that is no nine goes up
/// by one and every nine after it becomes a zero. Where every digit is a
/// nine the result is a one and as many zeros, and so one digit longer.
pub open spec fn successor(digits: Seq<char>) -> Seq<char> {
    let at = last_below_nine(digits);
    if at < 0 {
        seq!['1'] + zeros(digits.len())
    } else {
        digits.subrange(0, at).push(next_digit(digits[at])) + zeros((digits.len() - 1 - at) as nat)
    }
}

/// The text of digits with the point after the first of them, a zero
/// after the last, and then the printed exponent.
pub open spec fn written(digits: Seq<char>, tail: Seq<char>) -> Seq<char> {
    seq![digits[0], '.'] + digits.subrange(1, digits.len() as int) + seq!['0'] + tail
}

/// The text of ten with the printed exponent.
pub open spec fn ten(tail: Seq<char>) -> Seq<char> {
    seq!['1', '0', '.', '0'] + tail
}

/// The text of a number without an exponent: `digits`, with the point after
/// the first of them, times ten to the `exponent`. Zeros fill the places
/// between the point and the digits; a whole number has no point.
pub open spec fn layout(digits: Seq<char>, exponent: int) -> Seq<char> {
    if exponent < 0 {
        seq!['0', '.'] + zeros((-exponent - 1) as nat) + digits
    } else if exponent + 1 >= digits.len() {
        digits + zeros((exponent + 1 - digits.len()) as nat)
    } else {
        digits.subrange(0, exponent + 1).push('.') + digits.subrange(
            exponent + 1,
            digits.len() as int,
        )
    }
}

/// True when the text reads back as the number.
pub open spec fn reads_as(text: Seq<char>, bits: u64) -> bool {
    plain_value(text) == Some(bits)
}

/// The text of the first `precision` digits of the expansion.
pub open spec fn lower(exact: Expansion, precision: nat) -> Seq<char> {
    layout(stripped(exact.digits.subrange(0, precision as int)), exact.exponent)
}

/// The text of the number after the first `precision` digits of the
/// expansion.
pub open spec fn upper(exact: Expansion, precision: nat) -> Seq<char> {
    let up = successor(exact.digits.subrange(0, precision as int));
    if up.len() > precision {
        layout(seq!['1'], exact.exponent + 1)
    } else {
        layout(stripped(up), exact.exponent)
    }
}

/// True when the first `precision` digits of the expansion read back as the
/// number.
pub open spec fn lower_fits(bits: u64, exact: Expansion, precision: nat) -> bool {
    reads_as(written(exact.digits.subrange(0, precision as int), exact.tail), bits)
}

/// True when the number after the first `precision` digits of the expansion
/// reads back as the number.
pub open spec fn upper_fits(bits: u64, exact: Expansion, precision: nat) -> bool {
    let up = successor(exact.digits.subrange(0, precision as int));
    if up.len() > precision {
        reads_as(ten(exact.tail), bits)
    } else {
        reads_as(written(up, exact.tail), bits)
    }
}

/// The shortest text of at least `precision` digits that reads back as the
/// number. With a given count of digits there are two candidates: the
/// first digits of the expansion, and the number after them. The one
/// nearer to the expansion is tried first, the upper one where the digit
/// that follows is five or more. Where the expansion has no more digits
/// than the count it is the text; so it is after the most digits were
/// tried.
pub open spec fn shortest(bits: u64, exact: Expansion, precision: nat) -> Seq<char>
    decreases MOST_DIGITS + 1 - precision,
{
    if exact.digits.len() <= precision || precision > MOST_DIGITS {
        layout(exact.digits, exact.exponent)
    } else if exact.digits[precision as int] >= '5' {
        if upper_fits(bits, exact, precision) {
            upper(exact, precision)
        } else if lower_fits(bits, exact, precision) {
            lower(exact, precision)
        } else {
            shortest(bits, exact, precision + 1)
        }
    } else {
        if lower_fits(bits, exact, precision) {
            lower(exact, precision)
        } else if upper_fits(bits, exact, precision) {
            upper(exact, precision)
        } else {
            shortest(bits, exact, precision + 1)
        }
    }
}

/// The text of a number that is neither negative nor not a number.
pub open spec fn magnitude_text(bits: u64) -> Seq<char> {
    if bits == 0 {
        "0"@
    } else if bits == INFINITY_BITS {
        "inf"@
    } else {
        match read_printed(scientific(bits, ALL_DIGITS)) {
            Some(exact) => shortest(bits, exact, 1),
            None => scientific(bits, ALL_DIGITS),
        }
    }
}

/// The canonical text of a number.
pub open spec fn number_text(bits: u64) -> Seq<char> {
    if is_nan(bits) {
        "NaN"@
    } else if bits >= SIGN_BIT {
        seq!['-'] + magnitude_text(magnitude(bits))
    } else {
        magnitude_text(bits)
    }
}

/// The canonical text of a value: a number with the fewest digits that read
/// back as it, a string as it is, a boolean as `true` or `false`, null as
/// `Null`.
pub open spec fn text_of(value: Value) -> Seq<char> {
    match value {
        Value::Num(bits) => number_text(bits),
        Value::Str(text) => text,
        Value::Bool(true) => "true"@,
        Value::Bool(false) => "false"@,
        Value::Null => "Null"@,
    }
}

/// The digit after a digit.
fn next(c: char) -> (after: char)
    ensures
        after == next_digit(c),
{
    match c {
        '0' => '1',
        '1' => '2',
        '2' => '3',
        '3' => '4',
        '4' => '5',
        '5' => '6',
        '6' => '7',
        '7' => '8',
        '8' => '9',
        _ => '0',
    }
}

/// Appends `count` zeros to `chars`.
fn pad(chars: &mut Vec<char>, count: usize)
    ensures
        final(chars)@ == old(chars)@ + zeros(count as nat),
{
    let mut i: usize = 0;
    while i < count
        invariant
            i <= count,
            chars@ == old(chars)@ + zeros(i as nat),
        decreases count - i,
    {
        chars.push('0');
        assert(zeros((i + 1) as nat) =~= zeros(i as nat).push('0'));
        i += 1;
    }
    assert(zeros(0) =~= Seq::<char>::empty());
}

/// The digits of the next number after `digits[0..count]`.
pub fn successor_of(digits: &Vec<char>, count: usize) -> (up: Vec<char>)
    requires
        count <= digits.len(),
    ensures
        up@ == successor(digits@.subrange(0, count as int)),
{
    let ghost low = digits@.subrange(0, count as int);
    assert(low.subrange(0, count as int) =~= low);
    let mut at: usize = count;
    while at > 0 && digits[at - 1] == '9'
        invariant
            at <= count <= digits.len(),
            low == digits@.subrange(0, count as int),
            last_below_nine(low) == last_below_nine(low.subrange(0, at as int)),
        decreases at,
    {
        assert(low.subrange(0, at as int).drop_last() =~= low.subrange(0, at - 1));
        at -= 1;
    }
    let mut up: Vec<char> = Vec::new();
    if at == 0 {
        assert(low.subrange(0, 0).len() == 0);
        up.push('1');
        pad(&mut up, count);
        assert(up@ =~= seq!['1'] + zeros(low.len()));
    } else {
        assert(low.subrange(0, at as int).last() == digits@[at - 1]);
        extend(&mut up, digits, 0, at - 1);
        up.push(next(digits[at - 1]));
        pad(&mut up, count - at);
        assert(up@ =~= low.subrange(0, at - 1).push(next_digit(low[at - 1])) + zeros(
            (low.len() - 1 - (at - 1)) as nat,
        ));
    }
    up
}

/// The text of `digits[0..count]` with the point after the first digit, a
/// zero after the last, and then the printed exponent.
fn write(digits: &Vec<char>, count: usize, tail: &Vec<char>) -> (text: String)
    requires
        1 <= count <= digits.len(),
    ensures
        text@ == written(digits@.subrange(0, count as int), tail@),
{
    let mut chars: Vec<char> = Vec::new();
    chars.push(digits[0]);
    chars.push('.');
    extend(&mut chars, digits, 1, count);
    chars.push('0');
    extend(&mut chars, tail, 0, tail.len());
    let ghost low = digits@.subrange(0, count as int);
    assert(chars@ =~= written(low, tail@)) by {
        assert(low.subrange(1, low.len() as int) =~= digits@.subrange(1, count as int));
        assert(tail@.subrange(0, tail@.len() as int) =~= tail@);
    }
    string_of(&chars, 0, chars.len())
}

/// The text of ten with the printed exponent.
fn write_ten(tail: &Vec<char>) -> (text: String)
    ensures
        text@ == ten(tail@),
{
    let mut chars: Vec<char> = Vec::new();
    chars.push('1');
    chars.push('0');
    chars.push('.');
    chars.push('0');
    extend(&mut chars, tail, 0, tail.len());
    assert(chars@ =~= ten(tail@)) by {
        assert(tail@.subrange(0, tail@.len() as int) =~= tail@);
    }
    string_of(&chars, 0, chars.len())
}

/// Whether the text reads back as the number.
fn fits(text: &String, bits: u64) -> (same: bool)
    ensures
        same == reads_as(text@, bits),
{
    match read_decimal(text.as_str()) {
        Some(read) => read == bits,
        None => false,
    }
}

/// The text of a number without an exponent.
pub fn lay_out(digits: &Vec<char>, exponent: i32) -> (text: String)
    ensures
        text@ == layout(digits@, exponent as int),
{
    let mut chars: Vec<char> = Vec::new();
    if exponent < 0 {
        let gap: i64 = 0 - (exponent as i64) - 1;
        chars.push('0');
        chars.push('.');
        pad(&mut chars, gap as usize);
        extend(&mut chars, digits, 0, digits.len());
        assert(chars@ =~= layout(digits@, exponent as int)) by {
            assert(digits@.subrange(0, digits@.len() as int) =~= digits@);
        }
    } else if exponent as usize >= digits.len() || exponent as usize + 1 >= digits.len() {
        extend(&mut chars, digits, 0, digits.len());
        pad(&mut chars, exponent as usize + 1 - digits.len());
        assert(chars@ =~= layout(digits@, exponent as int)) by {
            assert(digits@.subrange(0, digits@.len() as int) =~= digits@);
        }
    } else {
        let point: usize = exponent as usize + 1;
        extend(&mut chars, digits, 0, point);
        chars.push('.');
        extend(&mut chars, digits, point, digits.len());
    }
    string_of(&chars, 0, chars.len())
}

/// The text of the first `count` digits of the expansion.
fn lower_text(exact: &Digits, count: usize) -> (text: String)
    requires
        count <= exact.digits.len(),
        -9999 <= exact.exponent <= 9999,
    ensures
        text@ == lower(exact@, count as nat),
{
    let mut low: Vec<char> = Vec::new();
    extend(&mut low, &exact.digits, 0, count);
    strip(&mut low);
    lay_out(&low, exact.exponent)
}

/// The text of the number after the first `count` digits of the expansion.
fn upper_text(exact: &Digits, count: usize) -> (text: String)
    requires
        count <= exact.digits.len(),
        -9999 <= exact.exponent <= 9999,
    ensures
        text@ == upper(exact@, count as nat),
{
    let mut up = successor_of(&exact.digits, count);
    if up.len() > count {
        let mut one: Vec<char> = Vec::new();
        one.push('1');
        assert(one@ =~= seq!['1']);
        lay_out(&one, exact.exponent + 1)
    } else {
        strip(&mut up);
        lay_out(&up, exact.exponent)
    }
}

/// The shortest text that reads back as the number.
fn shortest_text(bits: u64, exact: &Digits) -> (text: String)
    requires
        -9999 <= exact.exponent <= 9999,
    ensures
        text@ == shortest(bits, exact@, 1),
{
    let mut count: usize = 1;
    while count <= MOST_DIGITS && count < exact.digits.len()
        invariant
            1 <= count <= MOST_DIGITS + 1,
            -9999 <= exact.exponent <= 9999,
            shortest(bits, exact@, 1) == shortest(bits, exact@, count as nat),
        decreases MOST_DIGITS + 1 - count,
    {
        let low = write(&exact.digits, count, &exact.tail);
        let up = successor_of(&exact.digits, count);
        let raised = if up.len() > count {
            write_ten(&exact.tail)
        } else {
            assert(up@.subrange(0, up@.len() as int) =~= up@);
            write(&up, up.len(), &exact.tail)
        };
        let low_fits = fits(&low, bits);
        let up_fits = fits(&raised, bits);
        if exact.digits[count] >= '5' {
            if up_fits {
                return upper_text(exact, count);
            } else if low_fits {
                return lower_text(exact, count);
            }
        } else {
            if low_fits {
                return lower_text(exact, count);
            } else if up_fits {
                return upper_text(exact, count);
            }
        }
        count += 1;
    }
    lay_out(&exact.digits, exact.exponent)
}

/// The text of a number that is neither negative nor not a number.
fn magnitude_string(bits: u64) -> (text: String)
    ensures
        text@ == magnitude_text(bits),
{
    if bits == 0 {
        String::from_str("0")
    } else if bits == INFINITY_BITS {
        String::from_str("inf")
    } else {
        let printed = print_scientific(bits, ALL_DIGITS);
        let chars = chars_of(printed.as_str());
        match read(&chars) {
            Some(exact) => shortest_text(bits, &exact),
            None => printed,
        }
    }
}

/// The canonical text of a number.
pub fn number_string(bits: u64) -> (text: String)
    ensures
        text@ == number_text(bits),
{
    if nan(bits) {
        String::from_str("NaN")
    } else if bits >= SIGN_BIT {
        let mut text = String::from_str("-");
        proof {
            reveal_strlit("-");
            assert("-"@ =~= seq!['-']);
        }
        text.append(magnitude_string(bits - SIGN_BIT).as_str());
        text
    } else {
        magnitude_string(bits)
    }
}

/// The canonical text of a value.
pub fn render(value: &obj) -> (text: String)
    ensures
        text@ == text_of(value@),
{
    match value {
        obj::Num(bits) => number_string(*bits),
        obj::Str(text) => text.clone(),
        obj::Bool(true) => String::from_str("true"),
        obj::Bool(false) => String::from_str("false"),
        obj::Null => String::from_str("Null"),
    }
}

} // verus!
