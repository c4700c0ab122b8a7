//! A whole run: source text is scanned, parsed and run.

use crate::error::Diagnostic;
use crate::grammar::program;
use crate::interpreter::{program_of, Interpreter};
use crate::lexicon::scan;
use crate::parser::Parser;
use crate::scanner::Scanner;
use crate::semantics::{run_all, Run};
use crate::token::literals_valued;
use vstd::prelude::*;

verus! {

/// What a run of a source text gave.
pub struct Session {
    /// The errors that the scanner found; scanning went on after each.
    pub scanned: Vec<Diagnostic>,
    /// The errors that the parser found. Where there is one, nothing was run.
    pub parsed: Vec<Diagnostic>,
    /// The interpreter with the state in which the run left it.
    pub interpreter: Interpreter,
}

/// The state of a program that was not started.
pub open spec fn fresh() -> Run {
    Run { variables: Map::empty(), output: Seq::empty(), diagnostics: Seq::empty() }
}

/// Scans and parses the text. Where the parser found no error, the
/// interpreter holds the program, of which no statement was run yet; else it
/// holds no statement.
pub fn load(input: String) -> (session: Session)
    ensures
        session.scanned@ =~= scan(input@).diagnostics,
        literals_valued(scan(input@).tokens),
        session.parsed@ =~= program(scan(input@).tokens, 0).diagnostics,
        session.interpreter.run() =~= fresh(),
        session.interpreter.index == 0,
        session.interpreter.loop_limit == usize::MAX,
        program_of(session.interpreter.statements@) =~= (if program(
            scan(input@).tokens,
            0,
        ).diagnostics.len() == 0 {
            program(scan(input@).tokens, 0).node
        } else {
            Seq::empty()
        }),
{
    let mut scanner = Scanner::new(input);
    scanner.scan_tokens();
    let Scanner { tokens, diagnostics: scanned, .. } = scanner;
    let mut parser = Parser::new(tokens);
    parser.parse();
    let Parser { statements, diagnostics: parsed, .. } = parser;
    if parsed.len() == 0 {
        Session { scanned, parsed, interpreter: Interpreter::new(Vec::new(), statements) }
    } else {
        Session { scanned, parsed, interpreter: Interpreter::new(Vec::new(), Vec::new()) }
    }
}

/// Scans and parses the text and, where the parser found no error, runs the
/// program from its first statement to its last.
pub fn run(input: String) -> (session: Session)
    ensures
        session.scanned@ =~= scan(input@).diagnostics,
        literals_valued(scan(input@).tokens),
        session.parsed@ =~= program(scan(input@).tokens, 0).diagnostics,
        session.interpreter.run() =~= (if program(scan(input@).tokens, 0).diagnostics.len() == 0 {
            run_all(program(scan(input@).tokens, 0).node, fresh(), usize::MAX as nat, 0)
        } else {
            fresh()
        }),
{
    let mut session = load(input);
    session.interpreter.start();
    session
}

} // verus!
