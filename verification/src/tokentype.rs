//! The closed set of lexical categories shared by the scanner and the parser.

use vstd::prelude::*;

verus! {

/// The kind of a token: punctuation, operators, literals, keywords and the
/// end-of-input marker.
#[allow(non_camel_case_types)]
#[derive(Debug, PartialEq, Eq, Structural, Clone, Copy)]
pub enum TType {
    LeftParen,
    RightParen,
    LeftBracket,
    RightBracket,
    LeftCurly,
    RightCurly,
    Comma,
    Plus,
    Minus,
    Equal,
    EqualEqual,
    PlusEqual,
    MinusEqual,
    PlusPlus,
    MinusMinus,
    Greater,
    Less,
    GreaterEqual,
    LessEqual,
    Bang,
    BangEqual,
    Semicolon,
    Dot,
    Star,
    Slash,
    Identifier,
    String_tok,
    Number,
    And,
    Or,
    Var,
    Class,
    Else,
    ElseIf,
    If,
    For,
    While,
    Return,
    True,
    False,
    Null,
    Echo,
    Fn,
    Eof,
}

} // verus!
