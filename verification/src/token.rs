//! Tokens: the unit that the scanner hands to the parser.

use crate::object::{obj, Value};
use crate::tokentype::TType;
use vstd::prelude::*;

verus! {

/// The mathematical model of a token.
#[verifier::ext_equal]
pub struct TokenView {
    pub ttype: TType,
    pub lexeme: Seq<char>,
    pub literal: Option<Value>,
    pub line: usize,
}

/// A classified, line-tagged piece of the source text.
#[derive(Debug, PartialEq)]
pub struct Token {
    /// The lexical category.
    pub ttype: TType,
    /// The exact text that the token was scanned from.
    pub lexeme: String,
    /// The value of a number or string literal; none for every other token.
    pub literal: Option<obj>,
    /// The source line, counted from 1.
    pub line: usize,
}

impl View for Token {
    type V = TokenView;

    open spec fn view(&self) -> TokenView {
        TokenView {
            ttype: self.ttype,
            lexeme: self.lexeme@,
            literal: match self.literal {
                Some(value) => Some(value@),
                None => None,
            },
            line: self.line,
        }
    }
}

/// The models of a sequence of tokens, in order.
pub open spec fn tokens_of(tokens: Seq<Token>) -> Seq<TokenView> {
    Seq::new(tokens.len(), |i: int| tokens[i]@)
}

/// True unless the token is a number token without a number or a string
/// token without a string.
pub open spec fn carries_its_kind(token: TokenView) -> bool {
    match token.ttype {
        TType::Number => match token.literal {
            Some(Value::Num(_)) => true,
            _ => false,
        },
        TType::String_tok => match token.literal {
            Some(Value::Str(_)) => true,
            _ => false,
        },
        _ => true,
    }
}

/// True when every number token carries a number and every string token a
/// string, as the tokens of a scan do.
pub open spec fn literals_valued(tokens: Seq<TokenView>) -> bool {
    forall|i: int| 0 <= i < tokens.len() ==> carries_its_kind(#[trigger] tokens[i])
}

impl Token {
    /// A token of the given kind, text, literal value and line.
    pub fn new(ttype: TType, lexeme: String, literal: Option<obj>, line: usize) -> (token: Token)
        ensures
            token == (Token { ttype, lexeme, literal, line }),
    {
        Token { ttype, lexeme, literal, line }
    }
}

impl Clone for Token {
    fn clone(&self) -> (copy: Token)
        ensures
            copy@ == self@,
    {
        let literal = match &self.literal {
            Some(value) => Some(value.clone()),
            None => None,
        };
        Token { ttype: self.ttype, lexeme: self.lexeme.clone(), literal, line: self.line }
    }
}

} // verus!
