//! A tree-walking interpreter for a small dynamically typed scripting
//! language: scanner, parser, abstract syntax tree and evaluator.
//!
//! Source text goes through three phases, each of which runs to its end
//! before the next begins:
//!
//! * [`scanner`] turns the text into tokens, as [`lexicon`] defines them;
//! * [`parser`] turns the tokens into statements, as [`grammar`] defines
//!   them;
//! * [`interpreter`] runs the statements against one flat environment, as
//!   [`semantics`] defines it.
//!
//! [`session`] puts the three together, and [`render`] gives the text that
//! a printed value is shown as. Values are in [`object`], what the operators
//! do to them in [`operators`] and [`number`], the variables in
//! [`environment`], diagnostics in [`error`]. The modules [`shape`] and
//! [`fidelity`] hold what is proved of the grammar beyond the parser's own
//! contract.
//!
//! Nothing here reads a file, writes to a stream or ends the process:
//! output and diagnostics are collected and handed to the caller.

pub mod ast;
pub mod environment;
pub mod error;
pub mod evaluator;
pub mod fidelity;
pub mod grammar;
pub mod interpreter;
pub mod lexicon;
pub mod number;
pub mod object;
pub mod operators;
pub mod parser;
pub mod render;
pub mod scanner;
pub mod semantics;
pub mod session;
pub mod shape;
pub mod text;
pub mod token;
pub mod tokentype;
