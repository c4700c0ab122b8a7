use scrap::error::{Fault, ScrapError};
use scrap::object::obj;
use scrap::scanner::Scanner;
use scrap::token::Token;
use scrap::tokentype::TType;

fn scan(source: &str) -> Scanner {
    let mut scanner = Scanner::new(source.to_string());
    scanner.scan_tokens();
    scanner
}

fn kinds(source: &str) -> Vec<TType> {
    scan(source).tokens.iter().map(|token| token.ttype).collect()
}

fn token(ttype: TType, lexeme: &str, literal: Option<obj>, line: usize) -> Token {
    Token::new(ttype, lexeme.to_string(), literal, line)
}

#[test]
fn empty_source_gives_only_the_end_token() {
    let scanner = scan("");
    assert_eq!(scanner.tokens, vec![token(TType::Eof, "", None, 1)]);
    assert!(scanner.diagnostics.is_empty());
}

#[test]
fn new_scanner_stands_at_the_start() {
    let scanner = Scanner::new("ab".to_string());
    assert_eq!(scanner.source, vec!['a', 'b']);
    assert_eq!(scanner.file, "ab");
    assert_eq!(scanner.start, 0);
    assert_eq!(scanner.current, 0);
    assert_eq!(scanner.line, 1);
    assert!(scanner.tokens.is_empty());
    assert!(scanner.diagnostics.is_empty());
}

#[test]
fn single_characters_are_tokens() {
    assert_eq!(
        kinds("{ } ( ) [ ] , ; . * $ / + - = > < !"),
        vec![
            TType::LeftCurly,
            TType::RightCurly,
            TType::LeftParen,
            TType::RightParen,
            TType::LeftBracket,
            TType::RightBracket,
            TType::Comma,
            TType::Semicolon,
            TType::Dot,
            TType::Star,
            TType::Var,
            TType::Slash,
            TType::Plus,
            TType::Minus,
            TType::Equal,
            TType::Greater,
            TType::Less,
            TType::Bang,
            TType::Eof,
        ]
    );
}

#[test]
fn longer_operators_win() {
    assert_eq!(
        kinds("== != >= <= ++ -- += -= && ||"),
        vec![
            TType::EqualEqual,
            TType::BangEqual,
            TType::GreaterEqual,
            TType::LessEqual,
            TType::PlusPlus,
            TType::MinusMinus,
            TType::PlusEqual,
            TType::MinusEqual,
            TType::And,
            TType::Or,
            TType::Eof,
        ]
    );
    assert_eq!(kinds("==="), vec![TType::EqualEqual, TType::Equal, TType::Eof]);
    assert_eq!(kinds("+-"), vec![TType::Plus, TType::Minus, TType::Eof]);
    assert_eq!(kinds("---"), vec![TType::MinusMinus, TType::Minus, TType::Eof]);
}

#[test]
fn lexemes_are_the_exact_source_text() {
    let scanner = scan("x1 >= 10");
    assert_eq!(
        scanner.tokens,
        vec![
            token(TType::Identifier, "x1", None, 1),
            token(TType::GreaterEqual, ">=", None, 1),
            token(TType::Number, "10", Some(obj::Num(10.0f64.to_bits())), 1),
            token(TType::Eof, "", None, 1),
        ]
    );
}

#[test]
fn keywords_are_recognized_exactly() {
    assert_eq!(
        kinds("or and if else elseif true false while for fn class return echo null var"),
        vec![
            TType::Or,
            TType::And,
            TType::If,
            TType::Else,
            TType::ElseIf,
            TType::True,
            TType::False,
            TType::While,
            TType::For,
            TType::Fn,
            TType::Class,
            TType::Return,
            TType::Echo,
            TType::Null,
            TType::Var,
            TType::Eof,
        ]
    );
    assert_eq!(
        kinds("orx If _if while_ truefalse"),
        vec![
            TType::Identifier,
            TType::Identifier,
            TType::Identifier,
            TType::Identifier,
            TType::Identifier,
            TType::Eof,
        ]
    );
}

#[test]
fn numbers_take_a_point_only_before_a_digit() {
    let scanner = scan("12.50 7. .5 3.x");
    assert_eq!(
        scanner.tokens,
        vec![
            token(TType::Number, "12.50", Some(obj::Num(12.5f64.to_bits())), 1),
            token(TType::Number, "7", Some(obj::Num(7.0f64.to_bits())), 1),
            token(TType::Dot, ".", None, 1),
            token(TType::Dot, ".", None, 1),
            token(TType::Number, "5", Some(obj::Num(5.0f64.to_bits())), 1),
            token(TType::Number, "3", Some(obj::Num(3.0f64.to_bits())), 1),
            token(TType::Dot, ".", None, 1),
            token(TType::Identifier, "x", None, 1),
            token(TType::Eof, "", None, 1),
        ]
    );
    assert!(scanner.diagnostics.is_empty());
}

#[test]
fn number_literals_are_rounded_to_the_nearest_double() {
    let scanner = scan("0.1 123456789012345678901234567890 0.30000000000000004 1.7976931348623157");
    let values: Vec<Option<obj>> = scanner.tokens.into_iter().map(|token| token.literal).collect();
    assert_eq!(
        values,
        vec![
            Some(obj::Num(0.1f64.to_bits())),
            Some(obj::Num(123456789012345678901234567890f64.to_bits())),
            Some(obj::Num(0.30000000000000004f64.to_bits())),
            Some(obj::Num(1.7976931348623157f64.to_bits())),
            None,
        ]
    );
}

#[test]
fn minus_is_no_part_of_a_number() {
    let scanner = scan("-5");
    assert_eq!(
        scanner.tokens,
        vec![
            token(TType::Minus, "-", None, 1),
            token(TType::Number, "5", Some(obj::Num(5.0f64.to_bits())), 1),
            token(TType::Eof, "", None, 1),
        ]
    );
}

#[test]
fn comments_run_to_the_end_of_the_line() {
    let scanner = scan("1 // two three\n4 // five");
    assert_eq!(
        scanner.tokens,
        vec![
            token(TType::Number, "1", Some(obj::Num(1.0f64.to_bits())), 1),
            token(TType::Number, "4", Some(obj::Num(4.0f64.to_bits())), 2),
            token(TType::Eof, "", None, 2),
        ]
    );
}

#[test]
fn newlines_count_lines() {
    let scanner = scan("a\nb\r\n\n c");
    let lines: Vec<usize> = scanner.tokens.iter().map(|token| token.line).collect();
    assert_eq!(lines, vec![1, 2, 4, 4]);
    assert_eq!(scanner.line, 4);
}

#[test]
fn string_literal_holds_the_text_between_the_quotes() {
    let scanner = scan("\"hello world\"");
    assert_eq!(
        scanner.tokens,
        vec![
            token(
                TType::String_tok,
                "\"hello world\"",
                Some(obj::Str("hello world".to_string())),
                1
            ),
            token(TType::Eof, "", None, 1),
        ]
    );
    let empty = scan("\"\"");
    assert_eq!(empty.tokens[0], token(TType::String_tok, "\"\"", Some(obj::Str(String::new())), 1));
}

#[test]
fn string_literal_may_span_lines() {
    let scanner = scan("\"a\nb\nc\" x");
    assert_eq!(
        scanner.tokens,
        vec![
            token(TType::String_tok, "\"a\nb\nc\"", Some(obj::Str("a\nb\nc".to_string())), 3),
            token(TType::Identifier, "x", None, 3),
            token(TType::Eof, "", None, 3),
        ]
    );
}

#[test]
fn unterminated_string_is_reported_and_the_scan_ends_with_the_end_token() {
    let scanner = scan("echo \"abc\ndef");
    assert_eq!(
        scanner.tokens,
        vec![token(TType::Echo, "echo", None, 1), token(TType::Eof, "", None, 2)]
    );
    assert_eq!(scanner.diagnostics.len(), 1);
    assert_eq!(scanner.diagnostics[0].kind, ScrapError::ScannerError);
    assert_eq!(scanner.diagnostics[0].fault, Fault::UnterminatedString);
    assert_eq!(scanner.diagnostics[0].line, 2);
}

#[test]
fn unknown_characters_are_reported_and_scanning_goes_on() {
    let scanner = scan("1 @ 2 # 3\n& |");
    assert_eq!(
        kinds("1 @ 2 # 3\n& |"),
        vec![TType::Number, TType::Number, TType::Number, TType::Eof]
    );
    let faults: Vec<(Fault, usize)> =
        scanner.diagnostics.iter().map(|diagnostic| (diagnostic.fault, diagnostic.line)).collect();
    assert_eq!(
        faults,
        vec![
            (Fault::UnexpectedCharacter('@'), 1),
            (Fault::UnexpectedCharacter('#'), 1),
            (Fault::UnexpectedCharacter('&'), 2),
            (Fault::UnexpectedCharacter('|'), 2),
        ]
    );
    assert!(scanner.diagnostics.iter().all(|d| d.kind == ScrapError::ScannerError));
}

#[test]
fn characters_outside_ascii_are_unexpected_but_fine_in_strings() {
    let scanner = scan("é \"é\"");
    assert_eq!(scanner.diagnostics.len(), 1);
    assert_eq!(scanner.diagnostics[0].fault, Fault::UnexpectedCharacter('é'));
    assert_eq!(
        scanner.tokens[0],
        token(TType::String_tok, "\"é\"", Some(obj::Str("é".to_string())), 1)
    );
}

#[test]
fn scan_ends_with_exactly_one_end_token() {
    for source in ["", "1", "a b c", "\"open", "// only a comment", "if (x) { y; }", "@@@"] {
        let found = kinds(source);
        assert_eq!(found.last(), Some(&TType::Eof));
        assert_eq!(found.iter().filter(|kind| **kind == TType::Eof).count(), 1);
    }
}

#[test]
fn scanning_again_adds_another_end_token_only() {
    let mut scanner = scan("a");
    let before = scanner.tokens.len();
    scanner.scan_tokens();
    assert_eq!(scanner.tokens.len(), before + 1);
    assert_eq!(scanner.tokens[before].ttype, TType::Eof);
}

#[test]
fn the_keyword_table_holds_fourteen_words() {
    let table = [
        ("or", TType::Or),
        ("and", TType::And),
        ("if", TType::If),
        ("else", TType::Else),
        ("elseif", TType::ElseIf),
        ("true", TType::True),
        ("false", TType::False),
        ("while", TType::While),
        ("for", TType::For),
        ("fn", TType::Fn),
        ("class", TType::Class),
        ("return", TType::Return),
        ("echo", TType::Echo),
        ("null", TType::Null),
    ];
    for (word, kind) in table {
        assert_eq!(Scanner::keywords(word), Some(kind));
    }
    for word in ["", "If", "iffy", "i", "OR", "nul", "nulll", "var", "$", "echo ", " echo", "whilе", "else if", "true1"] {
        assert_eq!(Scanner::keywords(word), None, "{:?}", word);
    }
}

#[test]
fn the_word_var_announces_a_declaration_as_the_sigil_does() {
    assert_eq!(kinds("var x"), vec![TType::Var, TType::Identifier, TType::Eof]);
    assert_eq!(kinds("$x"), vec![TType::Var, TType::Identifier, TType::Eof]);
    assert_eq!(kinds("vars Var var1 _var"), vec![TType::Identifier; 4].into_iter().chain([TType::Eof]).collect::<Vec<TType>>());
    let scanner = scan("var");
    assert_eq!(scanner.tokens[0], token(TType::Var, "var", None, 1));
}

#[test]
fn every_literal_token_of_a_scan_carries_its_value() {
    let scanner = scan("1 2.5 \"a\" x 007 \"\" 123456789012345678901234567890.5");
    for token in &scanner.tokens {
        match token.ttype {
            TType::Number => assert!(matches!(token.literal, Some(obj::Num(_)))),
            TType::String_tok => assert!(matches!(token.literal, Some(obj::Str(_)))),
            _ => assert_eq!(token.literal, None),
        }
    }
}

#[test]
fn after_a_scan_the_scanner_stands_at_the_end_of_the_text() {
    let scanner = scan("ab + 1\n");
    assert_eq!(scanner.current, 7);
    assert_eq!(scanner.start, 7);
    assert_eq!(scanner.line, 2);
    assert_eq!(scanner.tokens.last().map(|token| token.line), Some(2));
}
