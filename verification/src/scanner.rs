//! The scanner: it turns source text into a flat sequence of tokens.

use crate::error::{report, Diagnostic, Fault, ScrapError};
use crate::lexicon::{
    bump, char_at, end_token, goes_on, is_alpha, is_alphanumeric, keyword, lemma_no_newline,
    lemma_word_kind,
    lemma_number_text, lemma_step_advances, line_after, number_step, optional, scan_from,
    scan_step, stretch_end, string_step, valued, word_step, Step, Stretch,
};
use crate::number::{is_digit, read_decimal};
use crate::object::obj;
use crate::text::{chars_of, is_word, string_of};
use crate::token::{carries_its_kind, literals_valued, tokens_of, Token, TokenView};
use crate::tokentype::TType;
use vstd::prelude::*;

verus! {

/// Turns source text into tokens.
pub struct Scanner {
    /// The characters of the source text.
    pub source: Vec<char>,
    /// The tokens scanned so far.
    pub tokens: Vec<Token>,
    /// Where the lexeme that is being scanned starts.
    pub start: usize,
    /// The next character to read.
    pub current: usize,
    /// The line of the next character, counted from 1.
    pub line: usize,
    /// The source text as it was given.
    pub file: String,
    /// The errors found so far.
    pub diagnostics: Vec<Diagnostic>,
}

impl Scanner {
    /// True when `other` scans the same text.
    pub open spec fn same_text(&self, other: &Scanner) -> bool {
        self.source == other.source && self.file == other.file
    }

    /// True when this scanner holds the tokens and diagnostics of `before`
    /// and those of `step` after them, and stands where the step ends.
    pub open spec fn stepped(&self, before: &Scanner, step: Step) -> bool {
        &&& self.same_text(before)
        &&& self.current == step.end
        &&& self.line == step.line
        &&& tokens_of(self.tokens@) =~= tokens_of(before.tokens@) + optional(step.token)
        &&& self.diagnostics@ =~= before.diagnostics@ + optional(step.fault)
    }

    /// A scanner at the start of the given text, on line 1.
    pub fn new(source: String) -> (scanner: Scanner)
        ensures
            scanner.source@ == source@,
            scanner.file == source,
            scanner.tokens@.len() == 0,
            scanner.diagnostics@.len() == 0,
            scanner.start == 0,
            scanner.current == 0,
            scanner.line == 1,
    {
        Scanner {
            source: chars_of(source.as_str()),
            tokens: Vec::new(),
            start: 0,
            current: 0,
            line: 1,
            file: source,
            diagnostics: Vec::new(),
        }
    }

    /// Scans the rest of the text: the tokens from the current place on are
    /// added, and after them the end-of-input token.
    pub fn scan_tokens(&mut self)
        ensures
            final(self).same_text(old(self)),
            tokens_of(final(self).tokens@) =~= tokens_of(old(self).tokens@) + scan_from(
                old(self).source@,
                old(self).current as nat,
                old(self).line,
            ).tokens,
            final(self).diagnostics@ =~= old(self).diagnostics@ + scan_from(
                old(self).source@,
                old(self).current as nat,
                old(self).line,
            ).diagnostics,
            forall|i: int|
                old(self).tokens@.len() <= i < final(self).tokens@.len() ==> carries_its_kind(
                    #[trigger] final(self).tokens@[i]@,
                ),
            literals_valued(
                scan_from(old(self).source@, old(self).current as nat, old(self).line).tokens,
            ),
            final(self).line == final(self).tokens@.last().line,
            final(self).start == final(self).current,
            final(self).current == (if old(self).current < old(self).source@.len() {
                old(self).source@.len() as int
            } else {
                old(self).current as int
            }),
    {
        let ghost whole = scan_from(self.source@, self.current as nat, self.line);
        while !self.is_at_end()
            invariant
                self.same_text(old(self)),
                old(self).current <= self.current,
                old(self).current < self.source.len() ==> self.current <= self.source.len(),
                old(self).current >= self.source.len() ==> self.current == old(self).current,
                old(self).tokens@.len() <= self.tokens@.len(),
                forall|i: int|
                    old(self).tokens@.len() <= i < self.tokens@.len() ==> carries_its_kind(
                        #[trigger] self.tokens@[i]@,
                    ),
                tokens_of(self.tokens@) + scan_from(
                    self.source@,
                    self.current as nat,
                    self.line,
                ).tokens =~= tokens_of(old(self).tokens@) + whole.tokens,
                self.diagnostics@ + scan_from(
                    self.source@,
                    self.current as nat,
                    self.line,
                ).diagnostics =~= old(self).diagnostics@ + whole.diagnostics,
            decreases self.source.len() - self.current,
        {
            proof {
                lemma_step_advances(self.source@, self.current as nat, self.line);
            }
            self.start = self.current;
            let ghost before = self.tokens@;
            self.scan_token();
            proof {
                assert forall|i: int|
                    old(self).tokens@.len() <= i < self.tokens@.len() implies carries_its_kind(
                    #[trigger] self.tokens@[i]@,
                ) by {
                    assert(tokens_of(self.tokens@)[i] == self.tokens@[i]@);
                    if i < before.len() {
                        assert(tokens_of(before)[i] == before[i]@);
                    }
                }
            }
        }
        self.start = self.current;
        let end = Token::new(TType::Eof, String::new(), None, self.line);
        assert(end@ =~= end_token(self.line));
        let ghost scanned = self.tokens@;
        self.tokens.push(end);
        proof {
            let first = old(self).tokens@.len() as int;
            assert(tokens_of(self.tokens@) =~= tokens_of(scanned).push(end@));
            assert(tokens_of(self.tokens@) =~= tokens_of(old(self).tokens@) + whole.tokens);
            assert forall|i: int| 0 <= i < whole.tokens.len() implies carries_its_kind(
                #[trigger] whole.tokens[i],
            ) by {
                assert(whole.tokens[i] == tokens_of(self.tokens@)[first + i]);
                if first + i < scanned.len() {
                    assert(self.tokens@[first + i] == scanned[first + i]);
                }
            }
        }
    }

    /// Whether the whole text was read.
    fn is_at_end(&self) -> (ended: bool)
        ensures
            ended == (self.current >= self.source.len()),
    {
        self.current >= self.source.len()
    }

    /// Scans one lexeme, which starts at the current place.
    fn scan_token(&mut self)
        requires
            old(self).current < old(self).source.len(),
            old(self).start == old(self).current,
        ensures
            final(self).stepped(
                old(self),
                scan_step(old(self).source@, old(self).current as nat, old(self).line),
            ),
            valued(scan_step(old(self).source@, old(self).current as nat, old(self).line).token),
    {
        proof {
            lemma_word_kind(
                self.source@.subrange(
                    self.current as int,
                    stretch_end(self.source@, self.current as nat, Stretch::Word) as int,
                ),
            );
        }
        let c: char = self.advance();
        match c {
            '{' => self.add_token(TType::LeftCurly),
            '}' => self.add_token(TType::RightCurly),
            '(' => self.add_token(TType::LeftParen),
            ')' => self.add_token(TType::RightParen),
            '[' => self.add_token(TType::LeftBracket),
            ']' => self.add_token(TType::RightBracket),
            ',' => self.add_token(TType::Comma),
            ';' => self.add_token(TType::Semicolon),
            '.' => self.add_token(TType::Dot),
            '*' => self.add_token(TType::Star),
            '$' => self.add_token(TType::Var),
            '-' => {
                let token = if self.match_next('=') {
                    TType::MinusEqual
                } else if self.match_next('-') {
                    TType::MinusMinus
                } else {
                    TType::Minus
                };
                self.add_token(token)
            },
            '+' => {
                let token = if self.match_next('=') {
                    TType::PlusEqual
                } else if self.match_next('+') {
                    TType::PlusPlus
                } else {
                    TType::Plus
                };
                self.add_token(token)
            },
            '=' => {
                let token = if self.match_next('=') {
                    TType::EqualEqual
                } else {
                    TType::Equal
                };
                self.add_token(token)
            },
            '>' => {
                let token = if self.match_next('=') {
                    TType::GreaterEqual
                } else {
                    TType::Greater
                };
                self.add_token(token)
            },
            '<' => {
                let token = if self.match_next('=') {
                    TType::LessEqual
                } else {
                    TType::Less
                };
                self.add_token(token)
            },
            '!' => {
                let token = if self.match_next('=') {
                    TType::BangEqual
                } else {
                    TType::Bang
                };
                self.add_token(token)
            },
            '/' => {
                if self.match_next('/') {
                    proof {
                        lemma_no_newline(
                            self.source@,
                            self.current as nat,
                            Stretch::Comment,
                            self.line,
                        );
                    }
                    self.pass(Stretch::Comment);
                } else {
                    self.add_token(TType::Slash)
                }
            },
            ' ' | '\r' | '\t' => {},
            '\n' => {
                self.next_line();
            },
            '"' => {
                self.string();
            },
            '&' => {
                if self.match_next('&') {
                    self.add_token(TType::And)
                } else {
                    self.unexpected(c)
                }
            },
            '|' => {
                if self.match_next('|') {
                    self.add_token(TType::Or)
                } else {
                    self.unexpected(c)
                }
            },
            _ => {
                if Scanner::is_digit(Some(c)) {
                    self.number()
                } else if Scanner::is_alpha(Some(c)) {
                    self.identifier()
                } else {
                    self.unexpected(c)
                }
            },
        }
    }

    /// Records a character that starts no token.
    fn unexpected(&mut self, c: char)
        ensures
            final(self).same_text(old(self)),
            final(self).start == old(self).start,
            final(self).current == old(self).current,
            final(self).line == old(self).line,
            final(self).tokens == old(self).tokens,
            final(self).diagnostics@ == old(self).diagnostics@.push(
                report(Fault::UnexpectedCharacter(c), old(self).line),
            ),
    {
        self.diagnostics.push(ScrapError::error(Fault::UnexpectedCharacter(c), self.line));
    }

    /// Counts one more line.
    fn next_line(&mut self)
        ensures
            final(self).same_text(old(self)),
            final(self).start == old(self).start,
            final(self).current == old(self).current,
            final(self).line == bump(old(self).line),
            final(self).tokens == old(self).tokens,
            final(self).diagnostics == old(self).diagnostics,
    {
        if self.line < usize::MAX {
            self.line += 1;
        }
    }

    /// The keyword that a word is, if it is one: `or`, `and`, `if`, `else`,
    /// `elseif`, `true`, `false`, `while`, `for`, `fn`, `class`, `return`,
    /// `echo` and `null` are the keywords, spelled exactly so.
    pub fn keywords(check: &str) -> (reserved: Option<TType>)
        ensures
            reserved == keyword(check@),
    {
        let word = chars_of(check);
        let length = word.len();
        assert(word@.subrange(0, length as int) =~= check@);
        if is_word(&word, 0, length, "or") {
            Some(TType::Or)
        } else if is_word(&word, 0, length, "and") {
            Some(TType::And)
        } else if is_word(&word, 0, length, "if") {
            Some(TType::If)
        } else if is_word(&word, 0, length, "else") {
            Some(TType::Else)
        } else if is_word(&word, 0, length, "elseif") {
            Some(TType::ElseIf)
        } else if is_word(&word, 0, length, "true") {
            Some(TType::True)
        } else if is_word(&word, 0, length, "false") {
            Some(TType::False)
        } else if is_word(&word, 0, length, "while") {
            Some(TType::While)
        } else if is_word(&word, 0, length, "for") {
            Some(TType::For)
        } else if is_word(&word, 0, length, "fn") {
            Some(TType::Fn)
        } else if is_word(&word, 0, length, "class") {
            Some(TType::Class)
        } else if is_word(&word, 0, length, "return") {
            Some(TType::Return)
        } else if is_word(&word, 0, length, "echo") {
            Some(TType::Echo)
        } else if is_word(&word, 0, length, "null") {
            Some(TType::Null)
        } else {
            None
        }
    }

    /// Adds a token without a value for the lexeme just scanned.
    fn add_token(&mut self, ttype: TType)
        requires
            old(self).start <= old(self).current <= old(self).source.len(),
        ensures
            final(self).same_text(old(self)),
            final(self).start == old(self).start,
            final(self).current == old(self).current,
            final(self).line == old(self).line,
            final(self).diagnostics == old(self).diagnostics,
            tokens_of(final(self).tokens@) =~= tokens_of(old(self).tokens@).push(
                TokenView {
                    ttype,
                    lexeme: old(self).source@.subrange(
                        old(self).start as int,
                        old(self).current as int,
                    ),
                    literal: None,
                    line: old(self).line,
                },
            ),
    {
        self.add_token_object(ttype, None);
    }

    /// Adds a token with the given value for the lexeme just scanned.
    fn add_token_object(&mut self, ttype: TType, literal: Option<obj>)
        requires
            old(self).start <= old(self).current <= old(self).source.len(),
        ensures
            final(self).same_text(old(self)),
            final(self).start == old(self).start,
            final(self).current == old(self).current,
            final(self).line == old(self).line,
            final(self).diagnostics == old(self).diagnostics,
            tokens_of(final(self).tokens@) =~= tokens_of(old(self).tokens@).push(
                TokenView {
                    ttype,
                    lexeme: old(self).source@.subrange(
                        old(self).start as int,
                        old(self).current as int,
                    ),
                    literal: match literal {
                        Some(value) => Some(value@),
                        None => None,
                    },
                    line: old(self).line,
                },
            ),
    {
        let lexeme = string_of(&self.source, self.start, self.current);
        self.tokens.push(Token::new(ttype, lexeme, literal, self.line));
    }

    /// Reads the next character.
    fn advance(&mut self) -> (c: char)
        requires
            old(self).current < old(self).source.len(),
        ensures
            c == old(self).source@[old(self).current as int],
            final(self).same_text(old(self)),
            final(self).start == old(self).start,
            final(self).current == old(self).current + 1,
            final(self).line == old(self).line,
            final(self).tokens == old(self).tokens,
            final(self).diagnostics == old(self).diagnostics,
    {
        let c = self.source[self.current];
        self.current += 1;
        c
    }

    /// Reads the next character if it is the expected one.
    fn match_next(&mut self, expected: char) -> (matched: bool)
        ensures
            matched == (char_at(old(self).source@, old(self).current as nat) == Some(expected)),
            final(self).same_text(old(self)),
            final(self).start == old(self).start,
            final(self).current == (if matched {
                old(self).current + 1
            } else {
                old(self).current as int
            }),
            final(self).line == old(self).line,
            final(self).tokens == old(self).tokens,
            final(self).diagnostics == old(self).diagnostics,
    {
        if self.current < self.source.len() && self.source[self.current] == expected {
            self.current += 1;
            true
        } else {
            false
        }
    }

    /// The next character, if there is one.
    fn peek(&self) -> (c: Option<char>)
        ensures
            c == char_at(self.source@, self.current as nat),
    {
        if self.current < self.source.len() {
            Some(self.source[self.current])
        } else {
            None
        }
    }

    /// The character after the next one, if there is one.
    fn peek_next(&self) -> (c: Option<char>)
        ensures
            c == char_at(self.source@, self.current as nat + 1),
    {
        if self.current < self.source.len() && self.current + 1 < self.source.len() {
            Some(self.source[self.current + 1])
        } else {
            None
        }
    }

    /// Whether a stretch of the given kind goes on over `c`.
    fn continues(kind: Stretch, c: char) -> (more: bool)
        ensures
            more == goes_on(kind, c),
    {
        match kind {
            Stretch::Digits => Scanner::is_digit(Some(c)),
            Stretch::Word => Scanner::is_alphanumeric(Some(c)),
            Stretch::Comment => c != '\n',
            Stretch::Quoted => c != '"',
        }
    }

    /// Passes over the longest stretch of the given kind, counting lines.
    fn pass(&mut self, kind: Stretch)
        requires
            old(self).current <= old(self).source.len(),
        ensures
            final(self).same_text(old(self)),
            final(self).start == old(self).start,
            final(self).current == stretch_end(old(self).source@, old(self).current as nat, kind),
            final(self).current <= old(self).source.len(),
            old(self).current <= final(self).current,
            final(self).line == line_after(
                old(self).source@,
                old(self).current as nat,
                final(self).current as nat,
                old(self).line,
            ),
            final(self).tokens == old(self).tokens,
            final(self).diagnostics == old(self).diagnostics,
    {
        while self.current < self.source.len() && Scanner::continues(kind, self.source[self.current])
            invariant
                self.same_text(old(self)),
                self.start == old(self).start,
                self.tokens == old(self).tokens,
                self.diagnostics == old(self).diagnostics,
                old(self).current <= self.current <= self.source.len(),
                stretch_end(self.source@, self.current as nat, kind) == stretch_end(
                    old(self).source@,
                    old(self).current as nat,
                    kind,
                ),
                self.line == line_after(
                    self.source@,
                    old(self).current as nat,
                    self.current as nat,
                    old(self).line,
                ),
            decreases self.source.len() - self.current,
        {
            if self.source[self.current] == '\n' {
                self.next_line();
            }
            self.current += 1;
        }
    }

    /// Scans a string literal whose opening quote was just read.
    fn string(&mut self)
        requires
            old(self).start + 1 == old(self).current <= old(self).source.len(),
        ensures
            final(self).stepped(
                old(self),
                string_step(old(self).source@, old(self).start as nat, old(self).line),
            ),
    {
        self.pass(Stretch::Quoted);
        if self.is_at_end() {
            self.diagnostics.push(ScrapError::error(Fault::UnterminatedString, self.line));
        } else {
            let value = string_of(&self.source, self.start + 1, self.current);
            let _ = self.advance();
            self.add_token_object(TType::String_tok, Some(obj::Str(value)));
        }
    }

    /// Whether the character is a digit.
    fn is_digit(c: Option<char>) -> (digit: bool)
        ensures
            digit == (c matches Some(d) && is_digit(d)),
    {
        match c {
            Some(d) => '0' <= d && d <= '9',
            None => false,
        }
    }

    /// Whether the character is a letter or an underscore.
    fn is_alpha(c: Option<char>) -> (alpha: bool)
        ensures
            alpha == (c matches Some(a) && is_alpha(a)),
    {
        match c {
            Some(a) => ('a' <= a && a <= 'z') || ('A' <= a && a <= 'Z') || a == '_',
            None => false,
        }
    }

    /// Whether the character is a letter, a digit or an underscore.
    fn is_alphanumeric(c: Option<char>) -> (either: bool)
        ensures
            either == (c matches Some(a) && is_alphanumeric(a)),
    {
        Scanner::is_alpha(c) || Scanner::is_digit(c)
    }

    /// Scans a number literal whose first digit was just read.
    fn number(&mut self)
        requires
            old(self).start + 1 == old(self).current <= old(self).source.len(),
            is_digit(old(self).source@[old(self).start as int]),
        ensures
            final(self).stepped(
                old(self),
                number_step(old(self).source@, old(self).start as nat, old(self).line),
            ),
            valued(number_step(old(self).source@, old(self).start as nat, old(self).line).token),
    {
        let ghost line = self.line;
        proof {
            lemma_no_newline(self.source@, self.current as nat, Stretch::Digits, line);
        }
        self.pass(Stretch::Digits);
        if self.peek() == Some('.') && Scanner::is_digit(self.peek_next()) {
            let _ = self.advance();
            proof {
                lemma_no_newline(self.source@, self.current as nat, Stretch::Digits, line);
            }
            self.pass(Stretch::Digits);
        }
        let text = string_of(&self.source, self.start, self.current);
        proof {
            lemma_number_text(self.source@, self.start as nat);
        }
        let value = match read_decimal(text.as_str()) {
            Some(bits) => Some(obj::Num(bits)),
            None => None,
        };
        self.add_token_object(TType::Number, value);
    }

    /// Scans a word whose first character was just read: a keyword, the word
    /// `var`, which announces a declaration as the sigil does, or an
    /// identifier.
    fn identifier(&mut self)
        requires
            old(self).start + 1 == old(self).current <= old(self).source.len(),
            is_alpha(old(self).source@[old(self).start as int]),
        ensures
            final(self).stepped(
                old(self),
                word_step(old(self).source@, old(self).start as nat, old(self).line),
            ),
    {
        proof {
            lemma_no_newline(self.source@, self.current as nat, Stretch::Word, self.line);
        }
        self.pass(Stretch::Word);
        let word = string_of(&self.source, self.start, self.current);
        let ttype = match Scanner::keywords(word.as_str()) {
            Some(reserved) => reserved,
            None => if is_word(&self.source, self.start, self.current, "var") {
                TType::Var
            } else {
                TType::Identifier
            },
        };
        self.add_token(ttype);
    }
}

} // verus!
