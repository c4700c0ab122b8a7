//! Diagnostics: what went wrong, of which kind, and on which line.

use vstd::prelude::*;
use vstd::string::StringExecFns;

verus! {

/// The kind of an error. A scanner or evaluator error is recovered from where
/// it occurs; a parser or runtime error ends the run.
#[derive(Debug, PartialEq, Eq, Structural, Clone, Copy)]
pub enum ScrapError {
    /// An unexpected character or an unterminated string.
    ScannerError,
    /// A construct that the grammar does not allow.
    ParserError,
    /// The program could not be started: a missing argument or source file.
    RuntimeError,
    /// A failure while evaluating: a type mismatch, an undefined name, a
    /// condition that is no boolean.
    EvaluatorError,
}

/// What exactly went wrong.
#[derive(Debug, PartialEq, Eq, Structural, Clone, Copy)]
pub enum Fault {
    /// A character that starts no token.
    UnexpectedCharacter(char),
    /// A string literal without its closing quote.
    UnterminatedString,
    /// A parenthesized expression without its closing parenthesis.
    MissingRightParen,
    /// A statement that is not followed by a terminator.
    MissingTerminator,
    /// A token that cannot start an expression.
    ExpectedExpression,
    /// A declaration without the name of its variable.
    ExpectedName,
    /// A block without its opening brace.
    MissingLeftCurly,
    /// A block without its closing brace.
    MissingRightCurly,
    /// Operands whose types differ, or an operand of the wrong type.
    TypeMismatch,
    /// An operator that is not defined on operands of this type.
    UndefinedOperator,
    /// A reference to a variable that was never assigned.
    UndefinedVariable,
    /// A condition of `if` or `while` that is no boolean.
    ConditionNotBoolean,
    /// A `while` whose body holds no statement.
    EmptyLoopBody,
    /// An `echo` of a statement that yields no value.
    NotPrintable,
    /// A `while` that was stopped after the allowed number of iterations.
    LoopLimit,
    /// The command line lacks a required argument.
    MissingArgument,
    /// The source file could not be read.
    UnreadableSource,
}

/// One reported error.
#[derive(Debug, PartialEq, Eq, Structural, Clone, Copy)]
pub struct Diagnostic {
    pub kind: ScrapError,
    pub fault: Fault,
    /// The source line, counted from 1.
    pub line: usize,
}

/// The kind that a fault belongs to.
pub open spec fn kind_of(fault: Fault) -> ScrapError {
    match fault {
        Fault::UnexpectedCharacter(_) | Fault::UnterminatedString => ScrapError::ScannerError,
        Fault::MissingRightParen
        | Fault::MissingTerminator
        | Fault::ExpectedExpression
        | Fault::ExpectedName
        | Fault::MissingLeftCurly
        | Fault::MissingRightCurly => ScrapError::ParserError,
        Fault::TypeMismatch
        | Fault::UndefinedOperator
        | Fault::UndefinedVariable
        | Fault::ConditionNotBoolean
        | Fault::EmptyLoopBody
        | Fault::NotPrintable
        | Fault::LoopLimit => ScrapError::EvaluatorError,
        Fault::MissingArgument | Fault::UnreadableSource => ScrapError::RuntimeError,
    }
}

/// The diagnostic for a fault on a line.
pub open spec fn report(fault: Fault, line: usize) -> Diagnostic {
    Diagnostic { kind: kind_of(fault), fault, line }
}

/// The human-readable message of a fault.
pub open spec fn message_of(fault: Fault) -> Seq<char> {
    match fault {
        Fault::UnexpectedCharacter(c) => "unexpected character: '"@.push(c).push('\''),
        Fault::UnterminatedString => "unterminated string: missing '\"'"@,
        Fault::MissingRightParen => "missing ')'"@,
        Fault::MissingTerminator => "missing semicolon"@,
        Fault::ExpectedExpression => "expected an expression"@,
        Fault::ExpectedName => "expected a variable name"@,
        Fault::MissingLeftCurly => "missing '{'"@,
        Fault::MissingRightCurly => "missing '}'"@,
        Fault::TypeMismatch => "type mismatch"@,
        Fault::UndefinedOperator => "undefined operator"@,
        Fault::UndefinedVariable => "undefined variable"@,
        Fault::ConditionNotBoolean => "condition must be boolean"@,
        Fault::EmptyLoopBody => "loop body is empty"@,
        Fault::NotPrintable => "unable to print statement"@,
        Fault::LoopLimit => "loop stopped: too many iterations"@,
        Fault::MissingArgument => "too few arguments"@,
        Fault::UnreadableSource => "missing file"@,
    }
}

impl ScrapError {
    /// Raises a fault found on a line as a diagnostic of the fault's kind.
    pub fn error(fault: Fault, line: usize) -> (diagnostic: Diagnostic)
        ensures
            diagnostic == report(fault, line),
    {
        Diagnostic { kind: fault.kind(), fault, line }
    }

    /// Whether an error of this kind ends the run.
    pub fn is_fatal(&self) -> (fatal: bool)
        ensures
            fatal == (*self == ScrapError::ParserError || *self == ScrapError::RuntimeError),
    {
        match self {
            ScrapError::ScannerError => false,
            ScrapError::ParserError => true,
            ScrapError::RuntimeError => true,
            ScrapError::EvaluatorError => false,
        }
    }
}

impl Fault {
    /// The kind that this fault belongs to.
    pub fn kind(&self) -> (kind: ScrapError)
        ensures
            kind == kind_of(*self),
    {
        match self {
            Fault::UnexpectedCharacter(_) | Fault::UnterminatedString => ScrapError::ScannerError,
            Fault::MissingRightParen
            | Fault::MissingTerminator
            | Fault::ExpectedExpression
            | Fault::ExpectedName
            | Fault::MissingLeftCurly
            | Fault::MissingRightCurly => ScrapError::ParserError,
            Fault::TypeMismatch
            | Fault::UndefinedOperator
            | Fault::UndefinedVariable
            | Fault::ConditionNotBoolean
            | Fault::EmptyLoopBody
            | Fault::NotPrintable
            | Fault::LoopLimit => ScrapError::EvaluatorError,
            Fault::MissingArgument | Fault::UnreadableSource => ScrapError::RuntimeError,
        }
    }

    /// The human-readable message of this fault.
    pub fn message(&self) -> (text: String)
        ensures
            text@ == message_of(*self),
    {
        match self {
            Fault::UnexpectedCharacter(c) => {
                let mut text = String::from_str("unexpected character: '");
                text.push(*c);
                text.push('\'');
                text
            },
            Fault::UnterminatedString => String::from_str("unterminated string: missing '\"'"),
            Fault::MissingRightParen => String::from_str("missing ')'"),
            Fault::MissingTerminator => String::from_str("missing semicolon"),
            Fault::ExpectedExpression => String::from_str("expected an expression"),
            Fault::ExpectedName => String::from_str("expected a variable name"),
            Fault::MissingLeftCurly => String::from_str("missing '{'"),
            Fault::MissingRightCurly => String::from_str("missing '}'"),
            Fault::TypeMismatch => String::from_str("type mismatch"),
            Fault::UndefinedOperator => String::from_str("undefined operator"),
            Fault::UndefinedVariable => String::from_str("undefined variable"),
            Fault::ConditionNotBoolean => String::from_str("condition must be boolean"),
            Fault::EmptyLoopBody => String::from_str("loop body is empty"),
            Fault::NotPrintable => String::from_str("unable to print statement"),
            Fault::LoopLimit => String::from_str("loop stopped: too many iterations"),
            Fault::MissingArgument => String::from_str("too few arguments"),
            Fault::UnreadableSource => String::from_str("missing file"),
        }
    }
}

} // verus!
