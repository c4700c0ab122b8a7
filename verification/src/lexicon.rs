//! The lexical rules, as mathematical functions from source text to
//! tokens.
//!
//! Scanning is greedy: an operator of two characters wins over its first
//! character alone. White space and comments give no token. An error is
//! recorded and scanning goes on.

use crate::error::{report, Diagnostic, Fault, ScrapError};
use crate::number::{digits_then_fraction, is_decimal_literal, is_digit, plain_value};
use crate::object::Value;
use crate::token::{carries_its_kind, TokenView};
use crate::tokentype::TType;
use vstd::prelude::*;

verus! {

/// True for the letters `a` to `z` and `A` to `Z` and for the underscore.
pub open spec fn is_alpha(c: char) -> bool {
    ('a' <= c <= 'z') || ('A' <= c <= 'Z') || c == '_'
}

/// True for what may follow the first character of an identifier.
pub open spec fn is_alphanumeric(c: char) -> bool {
    is_alpha(c) || is_digit(c)
}

/// The next line number. The count stops at the largest number that fits.
pub open spec fn bump(line: usize) -> usize {
    if line < usize::MAX {
        (line + 1) as usize
    } else {
        line
    }
}

/// The character at a place, if the text reaches that far.
pub open spec fn char_at(source: Seq<char>, at: nat) -> Option<char> {
    if at < source.len() {
        Some(source[at as int])
    } else {
        None
    }
}

/// A kind of stretch of characters that the scanner passes over in one go.
#[derive(Debug, PartialEq, Eq, Structural, Clone, Copy)]
pub enum Stretch {
    /// Digits.
    Digits,
    /// Letters, digits and underscores.
    Word,
    /// Everything up to the end of the line.
    Comment,
    /// Everything up to the next double quote.
    Quoted,
}

/// True when a stretch of the given kind goes on over `c`.
pub open spec fn goes_on(kind: Stretch, c: char) -> bool {
    match kind {
        Stretch::Digits => is_digit(c),
        Stretch::Word => is_alphanumeric(c),
        Stretch::Comment => c != '\n',
        Stretch::Quoted => c != '"',
    }
}

/// The place after the longest stretch of the given kind that starts at
/// `from`.
pub open spec fn stretch_end(source: Seq<char>, from: nat, kind: Stretch) -> nat
    decreases source.len() - from,
{
    if from < source.len() && goes_on(kind, source[from as int]) {
        stretch_end(source, from + 1, kind)
    } else {
        from
    }
}

/// The line number after `source[from..to]` was passed over, starting from
/// `line`: one more for each newline.
pub open spec fn line_after(source: Seq<char>, from: nat, to: nat, line: usize) -> usize
    decreases to,
{
    if to <= from || to > source.len() {
        line
    } else {
        let before = line_after(source, from, (to - 1) as nat, line);
        if source[to - 1] == '\n' {
            bump(before)
        } else {
            before
        }
    }
}

/// The keyword that a word is, if it is one.
pub open spec fn keyword(word: Seq<char>) -> Option<TType> {
    if word == "or"@ {
        Some(TType::Or)
    } else if word == "and"@ {
        Some(TType::And)
    } else if word == "if"@ {
        Some(TType::If)
    } else if word == "else"@ {
        Some(TType::Else)
    } else if word == "elseif"@ {
        Some(TType::ElseIf)
    } else if word == "true"@ {
        Some(TType::True)
    } else if word == "false"@ {
        Some(TType::False)
    } else if word == "while"@ {
        Some(TType::While)
    } else if word == "for"@ {
        Some(TType::For)
    } else if word == "fn"@ {
        Some(TType::Fn)
    } else if word == "class"@ {
        Some(TType::Class)
    } else if word == "return"@ {
        Some(TType::Return)
    } else if word == "echo"@ {
        Some(TType::Echo)
    } else if word == "null"@ {
        Some(TType::Null)
    } else {
        None
    }
}

/// The kind of the token that a word is scanned as: the keyword that it is;
/// else the token that announces a declaration, for the word `var`; else an
/// identifier.
pub open spec fn word_kind(word: Seq<char>) -> TType {
    match keyword(word) {
        Some(reserved) => reserved,
        None => if word == "var"@ {
            TType::Var
        } else {
            TType::Identifier
        },
    }
}

/// A word is never scanned as a literal or as the end of input.
pub proof fn lemma_word_kind(word: Seq<char>)
    ensures
        word_kind(word) != TType::Number,
        word_kind(word) != TType::String_tok,
        word_kind(word) != TType::Eof,
{
}

/// What the scanner makes of the text at one place: where it goes on, on
/// which line, and the token or the error that it found there, if any.
#[verifier::ext_equal]
pub struct Step {
    pub end: nat,
    pub line: usize,
    pub token: Option<TokenView>,
    pub fault: Option<Diagnostic>,
}

/// A step that gives a token without a value, scanned from `source[start..end]`.
pub open spec fn plain(source: Seq<char>, start: nat, end: nat, line: usize, ttype: TType) -> Step {
    Step {
        end,
        line,
        token: Some(
            TokenView { ttype, lexeme: source.subrange(start as int, end as int), literal: None, line },
        ),
        fault: None,
    }
}

/// A step over one character that gives a token.
pub open spec fn single(source: Seq<char>, start: nat, line: usize, ttype: TType) -> Step {
    plain(source, start, start + 1, line, ttype)
}

/// A step over an operator that is longer when `second` follows.
pub open spec fn double(
    source: Seq<char>,
    start: nat,
    line: usize,
    second: char,
    long: TType,
    short: TType,
) -> Step {
    if char_at(source, start + 1) == Some(second) {
        plain(source, start, start + 2, line, long)
    } else {
        plain(source, start, start + 1, line, short)
    }
}

/// A step that gives neither a token nor an error.
pub open spec fn silent(end: nat, line: usize) -> Step {
    Step { end, line, token: None, fault: None }
}

/// A step over one character that starts no token.
pub open spec fn unexpected(source: Seq<char>, start: nat, line: usize) -> Step {
    Step {
        end: start + 1,
        line,
        token: None,
        fault: Some(report(Fault::UnexpectedCharacter(source[start as int]), line)),
    }
}

/// The step over a string literal whose opening quote is at `start`. The
/// literal may span lines. Without a closing quote the step gives an error
/// and ends where the text ends.
pub open spec fn string_step(source: Seq<char>, start: nat, line: usize) -> Step {
    let close = stretch_end(source, start + 1, Stretch::Quoted);
    let last_line = line_after(source, start + 1, close, line);
    if close < source.len() {
        Step {
            end: close + 1,
            line: last_line,
            token: Some(
                TokenView {
                    ttype: TType::String_tok,
                    lexeme: source.subrange(start as int, close as int + 1),
                    literal: Some(Value::Str(source.subrange(start as int + 1, close as int))),
                    line: last_line,
                },
            ),
            fault: None,
        }
    } else {
        Step {
            end: close,
            line: last_line,
            token: None,
            fault: Some(report(Fault::UnterminatedString, last_line)),
        }
    }
}

/// Where the number literal that starts at `start` ends: after its digits,
/// and after a point and further digits where a digit follows the point.
pub open spec fn number_end(source: Seq<char>, start: nat) -> nat {
    let whole = stretch_end(source, start, Stretch::Digits);
    if char_at(source, whole) == Some('.') && (char_at(source, whole + 1) matches Some(c)
        && is_digit(c)) {
        stretch_end(source, whole + 1, Stretch::Digits)
    } else {
        whole
    }
}

/// The value of a number literal.
pub open spec fn number_value(text: Seq<char>) -> Option<Value> {
    match plain_value(text) {
        Some(bits) => Some(Value::Num(bits)),
        None => None,
    }
}

/// The step over the number literal that starts at `start`.
pub open spec fn number_step(source: Seq<char>, start: nat, line: usize) -> Step {
    let end = number_end(source, start);
    let text = source.subrange(start as int, end as int);
    Step {
        end,
        line,
        token: Some(
            TokenView { ttype: TType::Number, lexeme: text, literal: number_value(text), line },
        ),
        fault: None,
    }
}

/// The step over the word that starts at `start`: a keyword, the word that
/// announces a declaration, or an identifier.
pub open spec fn word_step(source: Seq<char>, start: nat, line: usize) -> Step {
    let end = stretch_end(source, start, Stretch::Word);
    let text = source.subrange(start as int, end as int);
    plain(source, start, end, line, word_kind(text))
}

/// The step that the scanner takes at `start`, a place inside the text.
pub open spec fn scan_step(source: Seq<char>, start: nat, line: usize) -> Step {
    let c = source[start as int];
    match c {
        '{' => single(source, start, line, TType::LeftCurly),
        '}' => single(source, start, line, TType::RightCurly),
        '(' => single(source, start, line, TType::LeftParen),
        ')' => single(source, start, line, TType::RightParen),
        '[' => single(source, start, line, TType::LeftBracket),
        ']' => single(source, start, line, TType::RightBracket),
        ',' => single(source, start, line, TType::Comma),
        ';' => single(source, start, line, TType::Semicolon),
        '.' => single(source, start, line, TType::Dot),
        '*' => single(source, start, line, TType::Star),
        '$' => single(source, start, line, TType::Var),
        '-' => if char_at(source, start + 1) == Some('=') {
            plain(source, start, start + 2, line, TType::MinusEqual)
        } else {
            double(source, start, line, '-', TType::MinusMinus, TType::Minus)
        },
        '+' => if char_at(source, start + 1) == Some('=') {
            plain(source, start, start + 2, line, TType::PlusEqual)
        } else {
            double(source, start, line, '+', TType::PlusPlus, TType::Plus)
        },
        '=' => double(source, start, line, '=', TType::EqualEqual, TType::Equal),
        '>' => double(source, start, line, '=', TType::GreaterEqual, TType::Greater),
        '<' => double(source, start, line, '=', TType::LessEqual, TType::Less),
        '!' => double(source, start, line, '=', TType::BangEqual, TType::Bang),
        '/' => if char_at(source, start + 1) == Some('/') {
            silent(stretch_end(source, start + 2, Stretch::Comment), line)
        } else {
            single(source, start, line, TType::Slash)
        },
        ' ' | '\r' | '\t' => silent(start + 1, line),
        '\n' => silent(start + 1, bump(line)),
        '"' => string_step(source, start, line),
        '&' => if char_at(source, start + 1) == Some('&') {
            plain(source, start, start + 2, line, TType::And)
        } else {
            unexpected(source, start, line)
        },
        '|' => if char_at(source, start + 1) == Some('|') {
            plain(source, start, start + 2, line, TType::Or)
        } else {
            unexpected(source, start, line)
        },
        _ => if is_digit(c) {
            number_step(source, start, line)
        } else if is_alpha(c) {
            word_step(source, start, line)
        } else {
            unexpected(source, start, line)
        },
    }
}

/// True unless the token is a number token without a number or a string
/// token without a string.
pub open spec fn valued(token: Option<TokenView>) -> bool {
    match token {
        Some(found) => carries_its_kind(found),
        None => true,
    }
}

/// The tokens and the diagnostics of a scan, both in order.
#[verifier::ext_equal]
pub struct Scanned {
    pub tokens: Seq<TokenView>,
    pub diagnostics: Seq<Diagnostic>,
}

/// The token that ends every scan.
pub open spec fn end_token(line: usize) -> TokenView {
    TokenView { ttype: TType::Eof, lexeme: Seq::empty(), literal: None, line }
}

/// Zero or one item as a sequence.
pub open spec fn optional<T>(item: Option<T>) -> Seq<T> {
    match item {
        Some(one) => seq![one],
        None => Seq::empty(),
    }
}

/// What scanning gives from `start` on, on `line`: the tokens of the steps in
/// order, then the end-of-input token.
pub open spec fn scan_from(source: Seq<char>, start: nat, line: usize) -> Scanned
    decreases source.len() - start,
    via scan_from_decreases
{
    if start >= source.len() {
        Scanned { tokens: seq![end_token(line)], diagnostics: Seq::empty() }
    } else {
        let step = scan_step(source, start, line);
        let rest = scan_from(source, step.end, step.line);
        Scanned {
            tokens: optional(step.token) + rest.tokens,
            diagnostics: optional(step.fault) + rest.diagnostics,
        }
    }
}

#[via_fn]
proof fn scan_from_decreases(source: Seq<char>, start: nat, line: usize) {
    if start < source.len() {
        lemma_step_advances(source, start, line);
    }
}

/// What scanning a whole text gives.
pub open spec fn scan(source: Seq<char>) -> Scanned {
    scan_from(source, 0, 1)
}

/// A stretch ends at or after its start and inside the text.
pub proof fn lemma_stretch_bounds(source: Seq<char>, from: nat, kind: Stretch)
    ensures
        from <= stretch_end(source, from, kind),
        from <= source.len() ==> stretch_end(source, from, kind) <= source.len(),
        stretch_end(source, from, kind) < source.len() ==> !goes_on(
            kind,
            source[stretch_end(source, from, kind) as int],
        ),
        forall|i: int| from <= i < stretch_end(source, from, kind) ==> goes_on(kind, source[i]),
    decreases source.len() - from,
{
    if from < source.len() && goes_on(kind, source[from as int]) {
        lemma_stretch_bounds(source, from + 1, kind);
    }
}

/// Every step takes at least one character and stays inside the text.
pub proof fn lemma_step_advances(source: Seq<char>, start: nat, line: usize)
    requires
        start < source.len(),
    ensures
        start < scan_step(source, start, line).end <= source.len(),
{
    lemma_stretch_bounds(source, start, Stretch::Digits);
    lemma_stretch_bounds(source, start, Stretch::Word);
    lemma_stretch_bounds(source, start + 1, Stretch::Quoted);
    lemma_stretch_bounds(source, start + 2, Stretch::Comment);
    let whole = stretch_end(source, start, Stretch::Digits);
    lemma_stretch_bounds(source, whole + 1, Stretch::Digits);
}
/// No step gives the end-of-input token.
pub proof fn lemma_step_token(source: Seq<char>, start: nat, line: usize)
    requires
        start < source.len(),
    ensures
        scan_step(source, start, line).token matches Some(token) ==> token.ttype != TType::Eof,
{
    lemma_word_kind(
        source.subrange(start as int, stretch_end(source, start, Stretch::Word) as int),
    );
}

/// A scan ends with the end-of-input token, and holds no other one.
pub proof fn law_scan_ends_once(source: Seq<char>, start: nat, line: usize)
    ensures
        scan_from(source, start, line).tokens.len() > 0,
        scan_from(source, start, line).tokens.last().ttype == TType::Eof,
        forall|i: int|
            0 <= i < scan_from(source, start, line).tokens.len() - 1 ==> (#[trigger] scan_from(
                source,
                start,
                line,
            ).tokens[i]).ttype != TType::Eof,
    decreases source.len() - start,
{
    if start < source.len() {
        let step = scan_step(source, start, line);
        lemma_step_advances(source, start, line);
        lemma_step_token(source, start, line);
        law_scan_ends_once(source, step.end, step.line);
        let rest = scan_from(source, step.end, step.line).tokens;
        let all = scan_from(source, start, line).tokens;
        assert(all =~= optional(step.token) + rest);
        assert forall|i: int| 0 <= i < all.len() - 1 implies (#[trigger] all[i]).ttype
            != TType::Eof by {
            if i >= optional(step.token).len() {
                assert(all[i] == rest[i - optional(step.token).len()]);
            }
        }
    }
}

/// Scanning raises nothing but errors of the scanner's kind, and every string
/// token of a scan carries a string.
pub proof fn law_scan_recovers(source: Seq<char>, start: nat, line: usize)
    ensures
        forall|i: int|
            0 <= i < scan_from(source, start, line).diagnostics.len() ==> (#[trigger] scan_from(
                source,
                start,
                line,
            ).diagnostics[i]).kind == ScrapError::ScannerError,
        forall|i: int|
            0 <= i < scan_from(source, start, line).tokens.len() && (#[trigger] scan_from(
                source,
                start,
                line,
            ).tokens[i]).ttype == TType::String_tok ==> scan_from(
                source,
                start,
                line,
            ).tokens[i].literal matches Some(Value::Str(_)),
    decreases source.len() - start,
{
    if start < source.len() {
        let step = scan_step(source, start, line);
        lemma_step_advances(source, start, line);
        law_scan_recovers(source, step.end, step.line);
        let rest = scan_from(source, step.end, step.line);
        let all = scan_from(source, start, line);
        assert(all.tokens =~= optional(step.token) + rest.tokens);
        assert(all.diagnostics =~= optional(step.fault) + rest.diagnostics);
        lemma_word_kind(
            source.subrange(start as int, stretch_end(source, start, Stretch::Word) as int),
        );
        assert forall|i: int| 0 <= i < all.diagnostics.len() implies (#[trigger] all.diagnostics[i]).kind
            == ScrapError::ScannerError by {
            if i >= optional(step.fault).len() {
                assert(all.diagnostics[i] == rest.diagnostics[i - optional(step.fault).len()]);
            }
        }
        assert forall|i: int|
            0 <= i < all.tokens.len() && (#[trigger] all.tokens[i]).ttype
                == TType::String_tok implies all.tokens[i].literal matches Some(Value::Str(_)) by {
            if i >= optional(step.token).len() {
                assert(all.tokens[i] == rest.tokens[i - optional(step.token).len()]);
            }
        }
    }
}

/// An unterminated string is an error, not a token: where a double quote is
/// followed by no other one, the scan from the quote on gives one diagnostic
/// of the scanner's kind, which says so, and no token but the end-of-input
/// token.
pub proof fn law_unterminated_string(source: Seq<char>, start: nat, line: usize)
    requires
        start < source.len(),
        source[start as int] == '"',
        forall|i: int| start < i < source.len() ==> source[i] != '"',
    ensures
        ({
            let last_line = line_after(source, start + 1, source.len(), line);
            scan_from(source, start, line) == (Scanned {
                tokens: seq![end_token(last_line)],
                diagnostics: seq![report(Fault::UnterminatedString, last_line)],
            })
        }),
{
    lemma_quoted_to_end(source, start + 1);
    let step = scan_step(source, start, line);
    assert(step.end == source.len());
    assert(scan_from(source, step.end, step.line) == (Scanned {
        tokens: seq![end_token(step.line)],
        diagnostics: Seq::empty(),
    }));
    assert(scan_from(source, start, line) =~= (Scanned {
        tokens: seq![end_token(step.line)],
        diagnostics: seq![report(Fault::UnterminatedString, step.line)],
    }));
}

/// Where no double quote follows, the quoted stretch goes to the end of the
/// text.
proof fn lemma_quoted_to_end(source: Seq<char>, from: nat)
    requires
        from <= source.len(),
        forall|i: int| from <= i < source.len() ==> source[i] != '"',
    ensures
        stretch_end(source, from, Stretch::Quoted) == source.len(),
    decreases source.len() - from,
{
    if from < source.len() {
        lemma_quoted_to_end(source, from + 1);
    }
}

/// The text of a number literal is a decimal lexeme: digits, and after
/// them, if at all, a point and digits.
pub proof fn lemma_number_text(source: Seq<char>, start: nat)
    requires
        start < source.len(),
        is_digit(source[start as int]),
    ensures
        start < number_end(source, start) <= source.len(),
        is_decimal_literal(source.subrange(start as int, number_end(source, start) as int)),
{
    let whole = stretch_end(source, start, Stretch::Digits);
    let end = number_end(source, start);
    lemma_stretch_bounds(source, start, Stretch::Digits);
    lemma_stretch_bounds(source, start + 1, Stretch::Digits);
    lemma_stretch_bounds(source, whole + 1, Stretch::Digits);
    lemma_stretch_bounds(source, whole + 2, Stretch::Digits);
    assert(start < whole <= end <= source.len());
    let text = source.subrange(start as int, end as int);
    let digits = (whole - start) as int;
    assert forall|i: int| 0 <= i < digits implies is_digit(#[trigger] text[i]) by {
        assert(text[i] == source[start + i]);
    }
    if digits < text.len() {
        assert(text[digits] == source[whole as int]);
        assert(end >= whole + 2);
        assert forall|i: int| digits < i < text.len() implies is_digit(#[trigger] text[i]) by {
            assert(text[i] == source[start + i]);
        }
    }
    assert(digits_then_fraction(text, digits));
}

/// Digits, words and comments hold no newline: passing over them leaves the
/// line as it is.
pub proof fn lemma_no_newline(source: Seq<char>, from: nat, kind: Stretch, line: usize)
    requires
        kind != Stretch::Quoted,
    ensures
        line_after(source, from, stretch_end(source, from, kind), line) == line,
{
    lemma_stretch_bounds(source, from, kind);
    lemma_same_line(source, from, stretch_end(source, from, kind), line);
}

/// Passing over characters none of which is a newline leaves the line as it
/// is.
pub proof fn lemma_same_line(source: Seq<char>, from: nat, to: nat, line: usize)
    requires
        forall|i: int| from <= i < to ==> source[i] != '\n',
    ensures
        line_after(source, from, to, line) == line,
    decreases to,
{
    if to > from && to <= source.len() {
        lemma_same_line(source, from, (to - 1) as nat, line);
    }
}

} // verus!
