use scrap::ast::{Expr, Stmt};
use scrap::environment::Environment;
use scrap::error::{Diagnostic, Fault, ScrapError};
use scrap::evaluator::Evaluator;
use scrap::interpreter::Interpreter;
use scrap::number::{equal, less, nan, negate};
use scrap::object::obj;
use scrap::operators::{apply_binary, apply_unary, remove_first};
use scrap::parser::Parser;
use scrap::scanner::Scanner;
use scrap::session::run;
use scrap::text::{chars_of, is_word, string_of};
use scrap::token::Token;
use scrap::tokentype::TType;

fn number(value: f64) -> obj {
    obj::Num(value.to_bits())
}

fn text(value: &str) -> obj {
    obj::Str(value.to_string())
}

fn interpreter(source: &str) -> Interpreter {
    let session = run(source.to_string());
    assert!(session.scanned.is_empty());
    assert!(session.parsed.is_empty());
    session.interpreter
}

fn printed(source: &str) -> Vec<obj> {
    let interpreter = interpreter(source);
    assert_eq!(interpreter.diagnostics, Vec::<Diagnostic>::new());
    interpreter.output
}

fn value(source: &str) -> obj {
    let mut output = printed(&format!("echo {};", source));
    assert_eq!(output.len(), 1);
    output.remove(0)
}

fn failure(source: &str) -> (Vec<obj>, Vec<(Fault, usize)>) {
    let interpreter = interpreter(source);
    assert!(interpreter.diagnostics.iter().all(|d| d.kind == ScrapError::EvaluatorError));
    assert!(interpreter.diagnostics.iter().all(|d| !d.kind.is_fatal()));
    let faults = interpreter.diagnostics.iter().map(|d| (d.fault, d.line)).collect();
    (interpreter.output, faults)
}

fn parsed(source: &str) -> Vec<Stmt> {
    let mut scanner = Scanner::new(source.to_string());
    scanner.scan_tokens();
    let mut parser = Parser::new(scanner.tokens);
    parser.parse();
    assert!(parser.diagnostics.is_empty());
    parser.statements
}

fn expressions(sources: &[&str]) -> Vec<Expr> {
    let mut read = Vec::new();
    for source in sources {
        let mut scanner = Scanner::new(source.to_string());
        scanner.scan_tokens();
        let mut parser = Parser::new(scanner.tokens);
        parser.parse_expression();
        assert!(parser.diagnostics.is_empty());
        read.append(&mut parser.expressions);
    }
    read
}

#[test]
fn arithmetic_on_numbers() {
    assert_eq!(value("1 + 2"), number(3.0));
    assert_eq!(value("5 - 8"), number(-3.0));
    assert_eq!(value("6 * 7"), number(42.0));
    assert_eq!(value("7 / 2"), number(3.5));
    assert_eq!(value("0.1 + 0.2"), number(0.1 + 0.2));
    assert_eq!(value("0.1 * 3"), number(0.1 * 3.0));
    assert_eq!(value("1 / 3"), number(1.0 / 3.0));
    assert_eq!(value("1 - 0.9"), number(1.0 - 0.9));
    assert_eq!(value("123456789 * 987654321"), number(123456789.0 * 987654321.0));
    assert_eq!(value("9007199254740993 + 1"), number(9007199254740993.0 + 1.0));
}

#[test]
fn arithmetic_differs_from_its_operands() {
    assert_eq!(value("2 + 2"), number(4.0));
    assert_eq!(value("5 - 2"), number(3.0));
    assert_eq!(value("3 * 3"), number(9.0));
    assert_eq!(value("9 / 2"), number(4.5));
}

#[test]
fn division_by_zero_follows_ieee() {
    assert_eq!(value("1 / 0"), number(f64::INFINITY));
    assert_eq!(value("-1 / 0"), number(f64::NEG_INFINITY));
    match value("0 / 0") {
        obj::Num(bits) => assert!(f64::from_bits(bits).is_nan()),
        other => panic!("{:?}", other),
    }
    assert_eq!(value("1 / 0 > 1000000"), obj::Bool(true));
    assert_eq!(value("0 / 0 == 0 / 0"), obj::Bool(false));
    assert_eq!(value("0 / 0 != 0 / 0"), obj::Bool(true));
    assert_eq!(value("0 / 0 < 1"), obj::Bool(false));
    assert_eq!(value("0 / 0 >= 1"), obj::Bool(false));
}

#[test]
fn comparison_of_numbers() {
    assert_eq!(value("1 < 2"), obj::Bool(true));
    assert_eq!(value("2 < 1"), obj::Bool(false));
    assert_eq!(value("2 < 2"), obj::Bool(false));
    assert_eq!(value("2 <= 2"), obj::Bool(true));
    assert_eq!(value("3 <= 2"), obj::Bool(false));
    assert_eq!(value("3 > 2"), obj::Bool(true));
    assert_eq!(value("2 > 2"), obj::Bool(false));
    assert_eq!(value("2 >= 2"), obj::Bool(true));
    assert_eq!(value("1 >= 2"), obj::Bool(false));
    assert_eq!(value("2 == 2"), obj::Bool(true));
    assert_eq!(value("2 == 3"), obj::Bool(false));
    assert_eq!(value("2 != 3"), obj::Bool(true));
    assert_eq!(value("2 != 2"), obj::Bool(false));
    assert_eq!(value("-1 < 1"), obj::Bool(true));
    assert_eq!(value("-2 < -1"), obj::Bool(true));
    assert_eq!(value("-1 < -2"), obj::Bool(false));
    assert_eq!(value("0 == -0"), obj::Bool(true));
    assert_eq!(value("-0 < 0"), obj::Bool(false));
    assert_eq!(value("0.1 + 0.2 == 0.3"), obj::Bool(false));
}

#[test]
fn number_patterns_compare_as_doubles_do() {
    let samples = [
        0.0,
        -0.0,
        1.0,
        -1.0,
        0.5,
        -0.5,
        1e300,
        -1e300,
        5e-324,
        -5e-324,
        f64::MAX,
        f64::MIN,
        f64::INFINITY,
        f64::NEG_INFINITY,
        f64::NAN,
        -f64::NAN,
    ];
    for a in samples {
        assert_eq!(nan(a.to_bits()), a.is_nan());
        assert_eq!(negate(a.to_bits()), (-a).to_bits());
        for b in samples {
            assert_eq!(equal(a.to_bits(), b.to_bits()), a == b, "{} == {}", a, b);
            assert_eq!(less(a.to_bits(), b.to_bits()), a < b, "{} < {}", a, b);
        }
    }
}

#[test]
fn prefix_operators() {
    assert_eq!(value("-3"), number(-3.0));
    assert_eq!(value("- -3"), number(3.0));
    assert_eq!(value("-0"), number(-0.0));
    assert_eq!(value("!true"), obj::Bool(false));
    assert_eq!(value("!false"), obj::Bool(true));
    assert_eq!(value("!(1 < 2)"), obj::Bool(false));
    assert_eq!(apply_unary(TType::Minus, &number(2.0)), Ok(number(-2.0)));
    assert_eq!(apply_unary(TType::Bang, &obj::Bool(true)), Ok(obj::Bool(false)));
    assert_eq!(apply_unary(TType::Minus, &obj::Bool(true)), Err(Fault::TypeMismatch));
    assert_eq!(apply_unary(TType::Minus, &text("a")), Err(Fault::TypeMismatch));
    assert_eq!(apply_unary(TType::Minus, &obj::Null), Err(Fault::TypeMismatch));
    assert_eq!(apply_unary(TType::Bang, &number(1.0)), Err(Fault::TypeMismatch));
    assert_eq!(apply_unary(TType::Bang, &obj::Null), Err(Fault::TypeMismatch));
    assert_eq!(apply_unary(TType::Plus, &number(1.0)), Err(Fault::UndefinedOperator));
    assert_eq!(apply_unary(TType::Star, &obj::Bool(true)), Err(Fault::UndefinedOperator));
}

#[test]
fn prefix_operator_on_the_wrong_type_is_an_error() {
    assert_eq!(failure("echo -true;"), (vec![obj::Null], vec![(Fault::TypeMismatch, 1)]));
    assert_eq!(failure("echo !1;"), (vec![obj::Null], vec![(Fault::TypeMismatch, 1)]));
    assert_eq!(failure("echo -\"a\";"), (vec![obj::Null], vec![(Fault::TypeMismatch, 1)]));
}

#[test]
fn strings_concatenate() {
    assert_eq!(value("\"foo\" + \"bar\""), text("foobar"));
    assert_eq!(value("\"\" + \"\""), text(""));
    assert_eq!(value("\"a\" + \"b\" + \"c\""), text("abc"));
}

#[test]
fn string_minus_removes_the_first_occurrence() {
    assert_eq!(value("\"hello world\" - \"o\""), text("hell world"));
    assert_eq!(value("\"aaa\" - \"a\""), text("aa"));
    assert_eq!(value("\"abcabc\" - \"bc\""), text("aabc"));
    assert_eq!(value("\"abc\" - \"abc\""), text(""));
    assert_eq!(value("\"abc\" - \"abcd\""), text("abc"));
    assert_eq!(value("\"abc\" - \"\""), text("abc"));
    assert_eq!(value("\"\" - \"a\""), text(""));
    assert_eq!(value("\"abc\" - \"c\""), text("ab"));
    assert_eq!(value("\"aab\" - \"ab\""), text("a"));
    assert_eq!(remove_first(&"mississippi".to_string(), &"ss".to_string()), "miissippi");
    assert_eq!(remove_first(&"ääb".to_string(), &"äb".to_string()), "ä");
}

#[test]
fn other_operators_on_strings_are_undefined() {
    for operator in [
        TType::Star,
        TType::Slash,
        TType::EqualEqual,
        TType::BangEqual,
        TType::Less,
        TType::Greater,
        TType::LessEqual,
        TType::GreaterEqual,
        TType::And,
        TType::Or,
    ] {
        assert_eq!(apply_binary(operator, &text("a"), &text("b")), Err(Fault::UndefinedOperator));
    }
    assert_eq!(failure("echo \"a\" == \"a\";"), (vec![obj::Null], vec![(Fault::UndefinedOperator, 1)]));
}

#[test]
fn booleans_follow_the_truth_tables() {
    for a in [false, true] {
        for b in [false, true] {
            let left = obj::Bool(a);
            let right = obj::Bool(b);
            assert_eq!(apply_binary(TType::And, &left, &right), Ok(obj::Bool(a && b)));
            assert_eq!(apply_binary(TType::Or, &left, &right), Ok(obj::Bool(a || b)));
            assert_eq!(apply_binary(TType::EqualEqual, &left, &right), Ok(obj::Bool(a == b)));
            assert_eq!(apply_binary(TType::BangEqual, &left, &right), Ok(obj::Bool(a != b)));
        }
    }
    assert_eq!(value("true and false"), obj::Bool(false));
    assert_eq!(value("true && true"), obj::Bool(true));
    assert_eq!(value("false or true"), obj::Bool(true));
    assert_eq!(value("false || false"), obj::Bool(false));
    assert_eq!(value("true == false"), obj::Bool(false));
    assert_eq!(value("true != false"), obj::Bool(true));
}

#[test]
fn other_operators_on_booleans_are_undefined() {
    for operator in [
        TType::Plus,
        TType::Minus,
        TType::Star,
        TType::Slash,
        TType::Less,
        TType::Greater,
        TType::LessEqual,
        TType::GreaterEqual,
    ] {
        assert_eq!(
            apply_binary(operator, &obj::Bool(true), &obj::Bool(false)),
            Err(Fault::UndefinedOperator)
        );
    }
}

#[test]
fn logic_operators_on_numbers_are_undefined() {
    assert_eq!(apply_binary(TType::And, &number(1.0), &number(2.0)), Err(Fault::UndefinedOperator));
    assert_eq!(apply_binary(TType::Or, &number(1.0), &number(2.0)), Err(Fault::UndefinedOperator));
    assert_eq!(apply_binary(TType::Bang, &number(1.0), &number(2.0)), Err(Fault::UndefinedOperator));
}

#[test]
fn null_has_no_operators() {
    assert_eq!(apply_binary(TType::EqualEqual, &obj::Null, &obj::Null), Err(Fault::UndefinedOperator));
    assert_eq!(apply_binary(TType::Plus, &obj::Null, &obj::Null), Err(Fault::UndefinedOperator));
    assert_eq!(failure("echo null == null;"), (vec![obj::Null], vec![(Fault::UndefinedOperator, 1)]));
}

#[test]
fn operands_of_different_types_are_a_mismatch() {
    let samples = [number(1.0), text("a"), obj::Bool(true), obj::Null];
    for (i, left) in samples.iter().enumerate() {
        for (j, right) in samples.iter().enumerate() {
            if i != j {
                for operator in [TType::Plus, TType::EqualEqual, TType::And, TType::Less] {
                    assert_eq!(apply_binary(operator, left, right), Err(Fault::TypeMismatch));
                }
            }
        }
    }
}

#[test]
fn one_plus_true_is_one_error_and_the_run_goes_on() {
    let (output, faults) = failure("1 + true;\necho 7;");
    assert_eq!(faults, vec![(Fault::TypeMismatch, 1)]);
    assert_eq!(output, vec![number(7.0)]);
}

#[test]
fn an_error_inside_an_expression_gives_null_to_the_rest() {
    let (output, faults) = failure("echo (1 + true) + 2;");
    assert_eq!(output, vec![obj::Null]);
    assert_eq!(faults, vec![(Fault::TypeMismatch, 1), (Fault::TypeMismatch, 1)]);
}

#[test]
fn both_operands_of_and_and_or_are_evaluated() {
    assert_eq!(
        printed("var x = 0; echo false and (x = 1) == 1; echo x;"),
        vec![obj::Bool(false), number(1.0)]
    );
    assert_eq!(
        printed("var x = 0; echo true or (x = 2) == 2; echo x;"),
        vec![obj::Bool(true), number(2.0)]
    );
    assert_eq!(
        printed("var x = 0; echo (x = 1) == 1 and (x = x + 1) == 2; echo x;"),
        vec![obj::Bool(true), number(2.0)]
    );
}

#[test]
fn operands_are_evaluated_from_left_to_right() {
    assert_eq!(printed("var x = 1; echo (x = 5) - x;"), vec![number(0.0)]);
    assert_eq!(printed("var x = 1; echo x - (x = 5);"), vec![number(-4.0)]);
    let (output, faults) = failure("echo a\n+ b;");
    assert_eq!(output, vec![obj::Null]);
    assert_eq!(
        faults,
        vec![
            (Fault::UndefinedVariable, 1),
            (Fault::UndefinedVariable, 2),
            (Fault::UndefinedOperator, 2)
        ]
    );
}

#[test]
fn assignment_yields_the_assigned_value() {
    assert_eq!(printed("echo x = 3; echo x;"), vec![number(3.0), number(3.0)]);
    assert_eq!(printed("a = b = 2; echo a + b;"), vec![number(4.0)]);
    assert_eq!(printed("var s = \"a\"; s = s + \"b\"; echo s;"), vec![text("ab")]);
}

#[test]
fn declaration_without_initializer_binds_null() {
    assert_eq!(printed("var x; echo x;"), vec![obj::Null]);
    assert_eq!(printed("var x = 1; var x; echo x;"), vec![obj::Null]);
}

#[test]
fn the_last_assignment_is_the_one_that_is_read() {
    assert_eq!(
        printed("var x = 1; echo x; x = 2; echo x; var x = \"s\"; echo x; x = true; echo x;"),
        vec![number(1.0), number(2.0), text("s"), obj::Bool(true)]
    );
}

#[test]
fn undefined_variable_reads_as_null() {
    let (output, faults) = failure("var x = 1;\n\necho y;\necho x;");
    assert_eq!(output, vec![obj::Null, number(1.0)]);
    assert_eq!(faults, vec![(Fault::UndefinedVariable, 3)]);
    assert_eq!(Fault::UndefinedVariable.message(), "undefined variable");
}

#[test]
fn blocks_share_the_one_environment() {
    assert_eq!(
        printed("var x = 1; if (true) { var x = 2; var y = 3; } echo x; echo y;"),
        vec![number(2.0), number(3.0)]
    );
}

#[test]
fn if_needs_a_boolean() {
    let (output, faults) = failure("if (1) { echo 1; } else { echo 2; }\necho 3;");
    assert_eq!(output, vec![number(3.0)]);
    assert_eq!(faults, vec![(Fault::ConditionNotBoolean, 1)]);
    let (output, faults) = failure("\nif (null) { echo 1; }");
    assert_eq!(output, vec![]);
    assert_eq!(faults, vec![(Fault::ConditionNotBoolean, 2)]);
}

#[test]
fn if_without_else_does_nothing_on_false() {
    assert_eq!(printed("if (1 > 2) { echo 1; } echo 2;"), vec![number(2.0)]);
    assert_eq!(printed("if (1 < 2) { } echo 2;"), vec![number(2.0)]);
}

#[test]
fn nested_control_flow() {
    assert_eq!(
        printed(
            "var i = 0; var sum = 0;
             while (i < 5) {
                 i = i + 1;
                 if (i == 3) { sum = sum + 100; } else { sum = sum + i; }
                 var j = 0;
                 while (j < 2) { j = j + 1; sum = sum + 1000; }
             }
             echo sum; echo i;"
        ),
        vec![number(10112.0), number(5.0)]
    );
}

#[test]
fn while_with_a_false_condition_never_runs() {
    assert_eq!(printed("while (false) { echo 1; } echo 2;"), vec![number(2.0)]);
    assert_eq!(printed("while (false) { } echo 2;"), vec![number(2.0)]);
}

#[test]
fn while_needs_a_boolean_each_time() {
    let (output, faults) = failure("var c = true;\nwhile (c) { echo 1; c = 0; }\necho 2;");
    assert_eq!(output, vec![number(1.0), number(2.0)]);
    assert_eq!(faults, vec![(Fault::ConditionNotBoolean, 2)]);
    let (output, faults) = failure("while (\"yes\") { echo 1; }");
    assert_eq!(output, vec![]);
    assert_eq!(faults, vec![(Fault::ConditionNotBoolean, 1)]);
}

#[test]
fn while_with_an_empty_body_is_an_error() {
    let (output, faults) = failure("while (true) { }\necho 2;");
    assert_eq!(output, vec![number(2.0)]);
    assert_eq!(faults, vec![(Fault::EmptyLoopBody, 1)]);
}

#[test]
fn while_stops_at_the_loop_limit() {
    let mut interpreter = Interpreter::new(Vec::new(), parsed("var n = 0; while (true) { n = n + 1; } echo n;"));
    assert_eq!(interpreter.loop_limit, usize::MAX);
    interpreter.loop_limit = 10;
    interpreter.start();
    assert_eq!(interpreter.output, vec![number(10.0)]);
    assert_eq!(interpreter.diagnostics.len(), 1);
    assert_eq!(interpreter.diagnostics[0].fault, Fault::LoopLimit);
    assert_eq!(interpreter.diagnostics[0].kind, ScrapError::EvaluatorError);
    let mut exact = Interpreter::new(Vec::new(), parsed("var n = 0; while (n < 10) { n = n + 1; } echo n;"));
    exact.loop_limit = 10;
    exact.start();
    assert_eq!(exact.output, vec![number(10.0)]);
    assert!(exact.diagnostics.is_empty());
    let mut none = Interpreter::new(Vec::new(), parsed("while (true) { echo 1; }"));
    none.loop_limit = 0;
    none.start();
    assert!(none.output.is_empty());
    assert_eq!(none.diagnostics.len(), 1);
    assert_eq!(none.diagnostics[0].fault, Fault::LoopLimit);
}

#[test]
fn the_limit_holds_for_each_loop_on_its_own() {
    let mut interpreter = Interpreter::new(
        Vec::new(),
        parsed(
            "var n = 0; var i = 0;
             while (i < 3) { i = i + 1; var j = 0; while (j < 3) { j = j + 1; n = n + 1; } }
             echo n;",
        ),
    );
    interpreter.loop_limit = 3;
    interpreter.start();
    assert_eq!(interpreter.output, vec![number(9.0)]);
    assert!(interpreter.diagnostics.is_empty());
}

#[test]
fn echo_prints_only_the_value_of_an_expression() {
    let (output, faults) = failure("echo var x = 1;\necho x;");
    assert_eq!(faults, vec![(Fault::NotPrintable, 1), (Fault::UndefinedVariable, 2)]);
    assert_eq!(output, vec![obj::Null]);
    let (output, faults) = failure("echo echo 1;");
    assert_eq!(faults, vec![(Fault::NotPrintable, 1)]);
    assert_eq!(output, vec![]);
}

#[test]
fn echo_prints_each_kind_of_literal() {
    assert_eq!(
        printed("echo 1; echo 1.0; echo 1.50; echo \"1\"; echo true; echo false; echo null;"),
        vec![
            number(1.0),
            number(1.0),
            number(1.5),
            text("1"),
            obj::Bool(true),
            obj::Bool(false),
            obj::Null
        ]
    );
}

#[test]
fn interpreter_starts_empty_and_runs_its_statements_once() {
    let mut interpreter = Interpreter::new(expressions(&["1"]), parsed("echo 1; echo 2;"));
    assert_eq!(interpreter.index, 0);
    assert!(interpreter.output.is_empty());
    assert!(interpreter.diagnostics.is_empty());
    assert!(!interpreter.variables.contains_key(&"x".to_string()));
    interpreter.start();
    assert_eq!(interpreter.index, 2);
    assert_eq!(interpreter.statements.len(), 2);
    assert_eq!(interpreter.expressions.len(), 1);
    assert_eq!(interpreter.output, vec![number(1.0), number(2.0)]);
    interpreter.start();
    assert_eq!(interpreter.output, vec![number(1.0), number(2.0)]);
}

#[test]
fn run_stmt_runs_one_statement() {
    let program = parsed("var x = 2; echo x * x;");
    let mut interpreter = Interpreter::new(Vec::new(), Vec::new());
    Stmt::run_stmt(&program[0], &mut interpreter);
    assert_eq!(interpreter.variables.get(&"x".to_string()), Some(number(2.0)));
    assert!(interpreter.output.is_empty());
    Stmt::run_stmt(&program[1], &mut interpreter);
    assert_eq!(interpreter.output, vec![number(4.0)]);
    assert_eq!(interpreter.index, 0);
}

#[test]
fn evaluate_reads_and_assigns_variables() {
    let read = expressions(&["x = 2", "x * 3", "y"]);
    let mut variables = Environment::new();
    let mut diagnostics = Vec::new();
    assert_eq!(read[0].evaluate(&mut variables, &mut diagnostics), number(2.0));
    assert_eq!(read[1].evaluate(&mut variables, &mut diagnostics), number(6.0));
    assert!(diagnostics.is_empty());
    assert_eq!(read[2].evaluate(&mut variables, &mut diagnostics), obj::Null);
    assert_eq!(diagnostics.len(), 1);
    assert_eq!(diagnostics[0].fault, Fault::UndefinedVariable);
    assert_eq!(variables.get(&"x".to_string()), Some(number(2.0)));
    assert_eq!(variables.get(&"y".to_string()), None);
}

#[test]
fn evaluate_refuses_an_operator_token_of_another_kind() {
    let strange = Expr::Unary {
        operator: Token::new(TType::Plus, "+".to_string(), None, 4),
        right: Box::new(Expr::Literal(number(1.0))),
    };
    let mut variables = Environment::new();
    let mut diagnostics = Vec::new();
    assert_eq!(strange.evaluate(&mut variables, &mut diagnostics), obj::Null);
    assert_eq!(diagnostics.len(), 1);
    assert_eq!(diagnostics[0].fault, Fault::UndefinedOperator);
    assert_eq!(diagnostics[0].line, 4);
}

#[test]
fn evaluator_keeps_the_value_of_each_expression() {
    let mut evaluator = Evaluator::new(expressions(&["1 + 2", "x = 4", "x * 2", "1 + true", "\"a\""]));
    assert_eq!(evaluator.index, 0);
    assert!(evaluator.values.is_empty());
    evaluator.start();
    assert_eq!(evaluator.index, 5);
    assert_eq!(
        evaluator.values,
        vec![number(3.0), number(4.0), number(8.0), obj::Null, text("a")]
    );
    assert_eq!(evaluator.diagnostics.len(), 1);
    assert_eq!(evaluator.diagnostics[0].fault, Fault::TypeMismatch);
    assert_eq!(evaluator.variables.get(&"x".to_string()), Some(number(4.0)));
    evaluator.start();
    assert_eq!(evaluator.values.len(), 5);
}

#[test]
fn environment_keeps_the_last_value_of_each_name() {
    let mut variables = Environment::new();
    assert_eq!(variables.get(&"a".to_string()), None);
    assert!(!variables.contains_key(&"a".to_string()));
    variables.insert("a".to_string(), number(1.0));
    variables.insert("b".to_string(), text("x"));
    assert_eq!(variables.get(&"a".to_string()), Some(number(1.0)));
    assert_eq!(variables.get(&"b".to_string()), Some(text("x")));
    variables.insert("a".to_string(), obj::Bool(true));
    assert_eq!(variables.get(&"a".to_string()), Some(obj::Bool(true)));
    assert_eq!(variables.get(&"b".to_string()), Some(text("x")));
    assert!(variables.contains_key(&"a".to_string()));
    assert!(!variables.contains_key(&"c".to_string()));
    assert_eq!(variables.get(&"".to_string()), None);
}

#[test]
fn faults_have_kinds_and_messages() {
    let all = [
        (Fault::UnexpectedCharacter('#'), ScrapError::ScannerError, "unexpected character: '#'"),
        (Fault::UnterminatedString, ScrapError::ScannerError, "unterminated string: missing '\"'"),
        (Fault::MissingRightParen, ScrapError::ParserError, "missing ')'"),
        (Fault::MissingTerminator, ScrapError::ParserError, "missing semicolon"),
        (Fault::ExpectedExpression, ScrapError::ParserError, "expected an expression"),
        (Fault::ExpectedName, ScrapError::ParserError, "expected a variable name"),
        (Fault::MissingLeftCurly, ScrapError::ParserError, "missing '{'"),
        (Fault::MissingRightCurly, ScrapError::ParserError, "missing '}'"),
        (Fault::TypeMismatch, ScrapError::EvaluatorError, "type mismatch"),
        (Fault::UndefinedOperator, ScrapError::EvaluatorError, "undefined operator"),
        (Fault::UndefinedVariable, ScrapError::EvaluatorError, "undefined variable"),
        (Fault::ConditionNotBoolean, ScrapError::EvaluatorError, "condition must be boolean"),
        (Fault::EmptyLoopBody, ScrapError::EvaluatorError, "loop body is empty"),
        (Fault::NotPrintable, ScrapError::EvaluatorError, "unable to print statement"),
        (Fault::LoopLimit, ScrapError::EvaluatorError, "loop stopped: too many iterations"),
        (Fault::MissingArgument, ScrapError::RuntimeError, "too few arguments"),
        (Fault::UnreadableSource, ScrapError::RuntimeError, "missing file"),
    ];
    for (fault, kind, message) in all {
        assert_eq!(fault.kind(), kind);
        assert_eq!(fault.message(), message);
        assert_eq!(ScrapError::error(fault, 9), Diagnostic { kind, fault, line: 9 });
    }
    assert!(!ScrapError::ScannerError.is_fatal());
    assert!(ScrapError::ParserError.is_fatal());
    assert!(ScrapError::RuntimeError.is_fatal());
    assert!(!ScrapError::EvaluatorError.is_fatal());
}

#[test]
fn text_helpers() {
    assert_eq!(chars_of("aé\n"), vec!['a', 'é', '\n']);
    assert_eq!(chars_of(""), Vec::<char>::new());
    let chars = vec!['e', 'c', 'h', 'o', 'é'];
    assert_eq!(string_of(&chars, 1, 4), "cho");
    assert_eq!(string_of(&chars, 0, 5), "echoé");
    assert_eq!(string_of(&chars, 2, 2), "");
    assert!(is_word(&chars, 0, 4, "echo"));
    assert!(!is_word(&chars, 0, 3, "echo"));
    assert!(!is_word(&chars, 1, 5, "echo"));
    assert!(is_word(&chars, 4, 5, "é"));
    assert!(is_word(&chars, 3, 3, ""));
}

#[test]
fn values_copy_and_compare() {
    let values = [number(1.0), text("a"), obj::Bool(false), obj::Null];
    for value in &values {
        assert_eq!(&value.clone(), value);
    }
    let token = Token::new(TType::Number, "1".to_string(), Some(number(1.0)), 3);
    assert_eq!(token.clone(), token);
    assert_eq!(token.ttype, TType::Number);
    assert_eq!(token.lexeme, "1");
    assert_eq!(token.literal, Some(number(1.0)));
    assert_eq!(token.line, 3);
}

#[test]
fn a_scanner_error_does_not_stop_the_run() {
    let session = run("echo 1; @ echo 2;".to_string());
    assert_eq!(session.scanned.len(), 1);
    assert_eq!(session.scanned[0].fault, Fault::UnexpectedCharacter('@'));
    assert!(session.parsed.is_empty());
    assert_eq!(session.interpreter.output, vec![number(1.0), number(2.0)]);
}

#[test]
fn a_parser_error_stops_the_run_before_it_starts() {
    let session = run("echo 1; echo (2; echo 3;".to_string());
    assert_eq!(session.parsed.len(), 1);
    assert_eq!(session.parsed[0].fault, Fault::MissingRightParen);
    assert!(session.interpreter.output.is_empty());
    assert!(session.interpreter.statements.is_empty());
}

#[test]
fn literals_print_the_same_however_they_are_spelled() {
    assert_eq!(printed("echo 1;"), printed("echo 1.0;"));
    assert_eq!(printed("echo 1;"), printed("echo 001.000;"));
    assert_eq!(printed("echo 0.5;"), printed("echo 00.50;"));
    assert_eq!(printed("echo \"a\";"), vec![text("a")]);
    assert_eq!(printed("echo true;"), vec![obj::Bool(true)]);
    assert_eq!(printed("echo null;"), vec![obj::Null]);
}

#[test]
fn step_runs_one_statement_at_a_time() {
    let mut interpreter = Interpreter::new(Vec::new(), parsed("echo 1; var x = 2; echo x;"));
    assert!(interpreter.step());
    assert_eq!(interpreter.index, 1);
    assert_eq!(interpreter.output, vec![number(1.0)]);
    assert!(interpreter.step());
    assert_eq!(interpreter.index, 2);
    assert_eq!(interpreter.output, vec![number(1.0)]);
    assert!(interpreter.step());
    assert_eq!(interpreter.index, 3);
    assert_eq!(interpreter.output, vec![number(1.0), number(2.0)]);
    assert!(!interpreter.step());
    assert_eq!(interpreter.index, 3);
    assert_eq!(interpreter.output, vec![number(1.0), number(2.0)]);
    assert_eq!(interpreter.statements.len(), 3);
}

#[test]
fn start_goes_on_after_steps() {
    let mut interpreter = Interpreter::new(Vec::new(), parsed("echo 1; echo 2; echo 3;"));
    assert!(interpreter.step());
    interpreter.start();
    assert_eq!(interpreter.output, vec![number(1.0), number(2.0), number(3.0)]);
    assert_eq!(interpreter.index, 3);
}

#[test]
fn arithmetic_agrees_with_the_arithmetic_of_doubles() {
    let mut state: u64 = 0x1234_5678_9ABC_DEF1;
    let mut next = || {
        state ^= state << 13;
        state ^= state >> 7;
        state ^= state << 17;
        state
    };
    for round in 0..6000 {
        let (a, b) = if round % 2 == 0 {
            (f64::from_bits(next()), f64::from_bits(next()))
        } else {
            (
                f64::from_bits((next() & 0x800F_FFFF_FFFF_FFFF) | 0x3FF0_0000_0000_0000),
                f64::from_bits((next() & 0x803F_FFFF_FFFF_FFFF) | 0x3FC0_0000_0000_0000),
            )
        };
        let left = obj::Num(a.to_bits());
        let right = obj::Num(b.to_bits());
        for (operator, expected) in [
            (TType::Plus, a + b),
            (TType::Minus, a - b),
            (TType::Star, a * b),
            (TType::Slash, a / b),
        ] {
            match apply_binary(operator, &left, &right) {
                Ok(obj::Num(bits)) if expected.is_nan() => assert!(f64::from_bits(bits).is_nan()),
                Ok(obj::Num(bits)) => assert_eq!(bits, expected.to_bits(), "{:e} {:e}", a, b),
                other => panic!("{:?}", other),
            }
        }
        assert_eq!(apply_binary(TType::Less, &left, &right), Ok(obj::Bool(a < b)));
        assert_eq!(apply_binary(TType::LessEqual, &left, &right), Ok(obj::Bool(a <= b)));
        assert_eq!(apply_binary(TType::Greater, &left, &right), Ok(obj::Bool(a > b)));
        assert_eq!(apply_binary(TType::GreaterEqual, &left, &right), Ok(obj::Bool(a >= b)));
        assert_eq!(apply_binary(TType::EqualEqual, &left, &right), Ok(obj::Bool(a == b)));
        assert_eq!(apply_binary(TType::BangEqual, &left, &right), Ok(obj::Bool(a != b)));
    }
}
