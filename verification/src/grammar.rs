//! The grammar, as mathematical functions from tokens to syntax trees.
//!
//! Expressions, from the loosest binding to the tightest:
//!
//! ```text
//! expression  := IDENTIFIER "=" expression | or
//! or          := and ("or" and)*
//! and         := equality ("and" equality)*
//! equality    := comparison (("!=" | "==") comparison)*
//! comparison  := term ((">" | ">=" | "<" | "<=") term)*
//! term        := factor (("+" | "-") factor)*
//! factor      := unary (("*" | "/") unary)*
//! unary       := ("-" | "!") unary | primary
//! primary     := NUMBER | STRING | "true" | "false" | "null" | IDENTIFIER
//!              | "(" expression ")"
//! ```
//!
//! Statements:
//!
//! ```text
//! program     := (declaration terminator)* EOF
//! declaration := VAR IDENTIFIER ("=" expression)? | statement
//! statement   := "echo" declaration
//!              | "if" expression block ("else" block)?
//!              | "while" expression block
//!              | expression
//! block       := "{" (declaration terminator)* "}"
//! ```
//!
//! Every function here is total: where the tokens do not fit the grammar it
//! still gives a tree, together with a diagnostic.

use crate::ast::{ExprView, StmtView};
use crate::error::{report, Diagnostic, Fault};
use crate::object::Value;
use crate::token::TokenView;
use crate::tokentype::TType;
use vstd::prelude::*;

verus! {

/// A level of binary operators, from the loosest binding to the tightest.
#[derive(Debug, PartialEq, Eq, Structural, Clone, Copy)]
pub enum Level {
    Or,
    And,
    Equality,
    Comparison,
    Term,
    Factor,
}

/// What parsing gives at one place: the tree, the number of tokens that it
/// took, and the diagnostics that it raised, in order.
#[verifier::ext_equal]
pub struct Parsed<T> {
    pub node: T,
    pub used: nat,
    pub diagnostics: Seq<Diagnostic>,
}

/// The kind of the token at a place; end of input past the last token.
pub open spec fn kind_at(tokens: Seq<TokenView>, at: nat) -> TType {
    if at < tokens.len() {
        tokens[at as int].ttype
    } else {
        TType::Eof
    }
}

/// The line of the token at a place; past the last token, the line of the
/// last token, and line 1 where there is no token at all.
pub open spec fn line_at(tokens: Seq<TokenView>, at: nat) -> usize {
    if at < tokens.len() {
        tokens[at as int].line
    } else if tokens.len() > 0 {
        tokens[tokens.len() - 1].line
    } else {
        1
    }
}

/// The number of tokens from a place on.
pub open spec fn tokens_left(tokens: Seq<TokenView>, at: nat) -> nat {
    if at <= tokens.len() {
        (tokens.len() - at) as nat
    } else {
        0
    }
}

/// True when an operator of the given kind belongs to the level.
pub open spec fn binds(level: Level, operator: TType) -> bool {
    match level {
        Level::Or => operator == TType::Or,
        Level::And => operator == TType::And,
        Level::Equality => operator == TType::BangEqual || operator == TType::EqualEqual,
        Level::Comparison => operator == TType::Greater || operator == TType::GreaterEqual
            || operator == TType::Less || operator == TType::LessEqual,
        Level::Term => operator == TType::Plus || operator == TType::Minus,
        Level::Factor => operator == TType::Star || operator == TType::Slash,
    }
}

/// How loosely a level binds: the looser, the higher.
pub open spec fn rank(level: Level) -> nat {
    match level {
        Level::Or => 40,
        Level::And => 36,
        Level::Equality => 32,
        Level::Comparison => 28,
        Level::Term => 24,
        Level::Factor => 20,
    }
}

/// A tree that took `used` tokens and raised nothing.
pub open spec fn clean<T>(node: T, used: nat) -> Parsed<T> {
    Parsed { node, used, diagnostics: Seq::empty() }
}

/// An expression: an assignment where an identifier is followed by `=`,
/// else an expression of the loosest level.
pub open spec fn expression(tokens: Seq<TokenView>, at: nat) -> Parsed<ExprView>
    decreases tokens_left(tokens, at), 50nat,
{
    if kind_at(tokens, at) == TType::Identifier && kind_at(tokens, at + 1) == TType::Equal {
        let value = expression(tokens, at + 2);
        Parsed {
            node: ExprView::VariableAssign { name: tokens[at as int], value: Box::new(value.node) },
            used: 2 + value.used,
            diagnostics: value.diagnostics,
        }
    } else {
        binary(tokens, at, Level::Or)
    }
}

/// An expression of a level: an operand, then as many operators of the level
/// with their operands as follow.
pub open spec fn binary(tokens: Seq<TokenView>, at: nat, level: Level) -> Parsed<ExprView>
    decreases tokens_left(tokens, at), rank(level),
{
    let first = operand(tokens, at, level);
    let whole = chain(tokens, first.node, at + first.used, level);
    Parsed {
        node: whole.node,
        used: first.used + whole.used,
        diagnostics: first.diagnostics + whole.diagnostics,
    }
}

/// An operand of a level: an expression of the next tighter level.
pub open spec fn operand(tokens: Seq<TokenView>, at: nat, level: Level) -> Parsed<ExprView>
    decreases tokens_left(tokens, at), (rank(level) - 1) as nat,
{
    match level {
        Level::Or => binary(tokens, at, Level::And),
        Level::And => binary(tokens, at, Level::Equality),
        Level::Equality => binary(tokens, at, Level::Comparison),
        Level::Comparison => binary(tokens, at, Level::Term),
        Level::Term => binary(tokens, at, Level::Factor),
        Level::Factor => unary(tokens, at),
    }
}

/// The operators of a level that follow the expression `left`, folded to
/// the left: each operator takes all that was parsed before it as its left
/// operand.
pub open spec fn chain(tokens: Seq<TokenView>, left: ExprView, at: nat, level: Level) -> Parsed<
    ExprView,
>
    decreases tokens_left(tokens, at), (rank(level) - 1) as nat,
{
    if binds(level, kind_at(tokens, at)) {
        let right = operand(tokens, at + 1, level);
        let joined = ExprView::Binary {
            left: Box::new(left),
            operator: tokens[at as int],
            right: Box::new(right.node),
        };
        let rest = chain(tokens, joined, at + 1 + right.used, level);
        Parsed {
            node: rest.node,
            used: 1 + right.used + rest.used,
            diagnostics: right.diagnostics + rest.diagnostics,
        }
    } else {
        clean(left, 0)
    }
}

/// A prefix operator with its operand, or a primary expression.
pub open spec fn unary(tokens: Seq<TokenView>, at: nat) -> Parsed<ExprView>
    decreases tokens_left(tokens, at), 4nat,
{
    if kind_at(tokens, at) == TType::Minus || kind_at(tokens, at) == TType::Bang {
        let right = unary(tokens, at + 1);
        Parsed {
            node: ExprView::Unary { operator: tokens[at as int], right: Box::new(right.node) },
            used: 1 + right.used,
            diagnostics: right.diagnostics,
        }
    } else {
        primary(tokens, at)
    }
}

/// A literal token as an expression: its value, or null with a diagnostic
/// where the token carries none.
pub open spec fn literal(token: TokenView) -> Parsed<ExprView> {
    match token.literal {
        Some(value) => clean(ExprView::Literal(value), 1),
        None => Parsed {
            node: ExprView::Literal(Value::Null),
            used: 1,
            diagnostics: seq![report(Fault::ExpectedExpression, token.line)],
        },
    }
}

/// A primary expression. A token that can start none gives a null literal
/// and a diagnostic, and is not taken.
pub open spec fn primary(tokens: Seq<TokenView>, at: nat) -> Parsed<ExprView>
    decreases tokens_left(tokens, at), 2nat,
{
    match kind_at(tokens, at) {
        TType::Number | TType::String_tok => literal(tokens[at as int]),
        TType::True => clean(ExprView::Literal(Value::Bool(true)), 1),
        TType::False => clean(ExprView::Literal(Value::Bool(false)), 1),
        TType::Null => clean(ExprView::Literal(Value::Null), 1),
        TType::Identifier => clean(ExprView::VariableReference { name: tokens[at as int] }, 1),
        TType::LeftParen => {
            let inner = expression(tokens, at + 1);
            let close = at + 1 + inner.used;
            if kind_at(tokens, close) == TType::RightParen {
                Parsed {
                    node: ExprView::Grouping(Box::new(inner.node)),
                    used: 2 + inner.used,
                    diagnostics: inner.diagnostics,
                }
            } else {
                Parsed {
                    node: ExprView::Grouping(Box::new(inner.node)),
                    used: 1 + inner.used,
                    diagnostics: inner.diagnostics.push(
                        report(Fault::MissingRightParen, line_at(tokens, close)),
                    ),
                }
            }
        },
        _ => Parsed {
            node: ExprView::Literal(Value::Null),
            used: 0,
            diagnostics: seq![report(Fault::ExpectedExpression, line_at(tokens, at))],
        },
    }
}

/// What is read where an expression is expected and the input has ended: a
/// null literal that takes no token, and one diagnostic.
pub open spec fn nothing(tokens: Seq<TokenView>, at: nat) -> Parsed<ExprView> {
    Parsed {
        node: ExprView::Literal(Value::Null),
        used: 0,
        diagnostics: seq![report(Fault::ExpectedExpression, line_at(tokens, at))],
    }
}

/// At the end of input every rule for expressions reads nothing.
pub proof fn lemma_expression_at_end(tokens: Seq<TokenView>, at: nat)
    requires
        kind_at(tokens, at) == TType::Eof,
    ensures
        expression(tokens, at) == nothing(tokens, at),
{
    let read = nothing(tokens, at);
    assert(primary(tokens, at) == read);
    assert(unary(tokens, at) == read);
    assert(operand(tokens, at, Level::Factor) == read);
    assert(chain(tokens, read.node, at, Level::Factor) == clean(read.node, 0));
    assert(binary(tokens, at, Level::Factor) =~= read);
    assert(operand(tokens, at, Level::Term) == read);
    assert(chain(tokens, read.node, at, Level::Term) == clean(read.node, 0));
    assert(binary(tokens, at, Level::Term) =~= read);
    assert(operand(tokens, at, Level::Comparison) == read);
    assert(chain(tokens, read.node, at, Level::Comparison) == clean(read.node, 0));
    assert(binary(tokens, at, Level::Comparison) =~= read);
    assert(operand(tokens, at, Level::Equality) == read);
    assert(chain(tokens, read.node, at, Level::Equality) == clean(read.node, 0));
    assert(binary(tokens, at, Level::Equality) =~= read);
    assert(operand(tokens, at, Level::And) == read);
    assert(chain(tokens, read.node, at, Level::And) == clean(read.node, 0));
    assert(binary(tokens, at, Level::And) =~= read);
    assert(operand(tokens, at, Level::Or) == read);
    assert(chain(tokens, read.node, at, Level::Or) == clean(read.node, 0));
    assert(binary(tokens, at, Level::Or) =~= read);
}

/// True for the statements that end with their own closing brace and need
/// no terminator after it.
pub open spec fn closes_itself(statement: StmtView) -> bool {
    statement is Ifstmt || statement is WhileStmt
}

/// What follows a statement: a semicolon, which is taken; nothing, after a
/// statement that closes itself; at the top level also a brace, which is
/// taken. Anything else is a missing terminator.
pub open spec fn terminator(tokens: Seq<TokenView>, at: nat, closed: bool, top: bool) -> Parsed<()> {
    if kind_at(tokens, at) == TType::Semicolon {
        clean((), 1)
    } else if closed {
        clean((), 0)
    } else if top && (kind_at(tokens, at) == TType::LeftCurly || kind_at(tokens, at)
        == TType::RightCurly) {
        clean((), 1)
    } else {
        Parsed {
            node: (),
            used: 0,
            diagnostics: seq![report(Fault::MissingTerminator, line_at(tokens, at))],
        }
    }
}

/// The declaration of a variable, after the token that announces it: the
/// name, and an initializer where `=` follows.
pub open spec fn variable_declaration(tokens: Seq<TokenView>, at: nat) -> Parsed<StmtView> {
    if kind_at(tokens, at) == TType::Identifier {
        let identifier = tokens[at as int].lexeme;
        if kind_at(tokens, at + 1) == TType::Equal {
            let initial = expression(tokens, at + 2);
            Parsed {
                node: StmtView::VariableDeclaration { identifier, initializer: Some(initial.node) },
                used: 2 + initial.used,
                diagnostics: initial.diagnostics,
            }
        } else {
            clean(StmtView::VariableDeclaration { identifier, initializer: None }, 1)
        }
    } else {
        Parsed {
            node: StmtView::Expression(ExprView::Literal(Value::Null)),
            used: 0,
            diagnostics: seq![report(Fault::ExpectedName, line_at(tokens, at))],
        }
    }
}

/// A declaration: of a variable, or a statement.
pub open spec fn declaration(tokens: Seq<TokenView>, at: nat) -> Parsed<StmtView>
    decreases tokens_left(tokens, at), 10nat,
{
    if kind_at(tokens, at) == TType::Var {
        let declared = variable_declaration(tokens, at + 1);
        Parsed { node: declared.node, used: 1 + declared.used, diagnostics: declared.diagnostics }
    } else {
        statement(tokens, at)
    }
}

/// A statement.
pub open spec fn statement(tokens: Seq<TokenView>, at: nat) -> Parsed<StmtView>
    decreases tokens_left(tokens, at), 8nat,
{
    match kind_at(tokens, at) {
        TType::Echo => {
            let shown = declaration(tokens, at + 1);
            Parsed {
                node: StmtView::Print { line: tokens[at as int].line, value: Box::new(shown.node) },
                used: 1 + shown.used,
                diagnostics: shown.diagnostics,
            }
        },
        TType::If => if_stmt(tokens, at),
        TType::While => while_stmt(tokens, at),
        _ => {
            let value = expression(tokens, at);
            Parsed {
                node: StmtView::Expression(value.node),
                used: value.used,
                diagnostics: value.diagnostics,
            }
        },
    }
}

/// An `if` statement, whose keyword is at `at`.
pub open spec fn if_stmt(tokens: Seq<TokenView>, at: nat) -> Parsed<StmtView>
    decreases tokens_left(tokens, at), 6nat,
{
    if kind_at(tokens, at) == TType::If {
        let condition = expression(tokens, at + 1);
        let then = block(tokens, at + 1 + condition.used);
        let after = at + 1 + condition.used + then.used;
        if kind_at(tokens, after) == TType::Else {
            let other = block(tokens, after + 1);
            Parsed {
                node: StmtView::Ifstmt {
                    line: tokens[at as int].line,
                    expr: condition.node,
                    block: Box::new(then.node),
                    elseblock: Some(Box::new(other.node)),
                },
                used: 1 + condition.used + then.used + 1 + other.used,
                diagnostics: condition.diagnostics + then.diagnostics + other.diagnostics,
            }
        } else {
            Parsed {
                node: StmtView::Ifstmt {
                    line: tokens[at as int].line,
                    expr: condition.node,
                    block: Box::new(then.node),
                    elseblock: None,
                },
                used: 1 + condition.used + then.used,
                diagnostics: condition.diagnostics + then.diagnostics,
            }
        }
    } else {
        statement_missing(tokens, at)
    }
}

/// A `while` statement, whose keyword is at `at`.
pub open spec fn while_stmt(tokens: Seq<TokenView>, at: nat) -> Parsed<StmtView>
    decreases tokens_left(tokens, at), 6nat,
{
    if kind_at(tokens, at) == TType::While {
        let condition = expression(tokens, at + 1);
        let body = block(tokens, at + 1 + condition.used);
        Parsed {
            node: StmtView::WhileStmt {
                line: tokens[at as int].line,
                expr: condition.node,
                block: Box::new(body.node),
            },
            used: 1 + condition.used + body.used,
            diagnostics: condition.diagnostics + body.diagnostics,
        }
    } else {
        statement_missing(tokens, at)
    }
}

/// What stands for a statement whose keyword is not there.
pub open spec fn statement_missing(tokens: Seq<TokenView>, at: nat) -> Parsed<StmtView> {
    Parsed {
        node: StmtView::Expression(ExprView::Literal(Value::Null)),
        used: 0,
        diagnostics: seq![report(Fault::ExpectedExpression, line_at(tokens, at))],
    }
}

/// A block: declarations in braces.
pub open spec fn block(tokens: Seq<TokenView>, at: nat) -> Parsed<StmtView>
    decreases tokens_left(tokens, at), 4nat,
{
    if kind_at(tokens, at) == TType::LeftCurly {
        let inside = body(tokens, at + 1);
        let close = at + 1 + inside.used;
        if inside.diagnostics.len() > 0 {
            Parsed {
                node: StmtView::Block(inside.node),
                used: 1 + inside.used,
                diagnostics: inside.diagnostics,
            }
        } else if kind_at(tokens, close) == TType::RightCurly {
            clean(StmtView::Block(inside.node), 2 + inside.used)
        } else {
            Parsed {
                node: StmtView::Block(inside.node),
                used: 1 + inside.used,
                diagnostics: seq![report(Fault::MissingRightCurly, line_at(tokens, close))],
            }
        }
    } else {
        Parsed {
            node: StmtView::Block(Seq::empty()),
            used: 0,
            diagnostics: seq![report(Fault::MissingLeftCurly, line_at(tokens, at))],
        }
    }
}

/// The declarations of a block, each with its terminator, up to the closing
/// brace or the end of input. The first declaration that raises a diagnostic
/// is the last one read; it is not among the statements.
pub open spec fn body(tokens: Seq<TokenView>, at: nat) -> Parsed<Seq<StmtView>>
    decreases tokens_left(tokens, at), 12nat,
{
    if kind_at(tokens, at) == TType::RightCurly || kind_at(tokens, at) == TType::Eof {
        clean(Seq::empty(), 0)
    } else {
        let first = declaration(tokens, at);
        let end = terminator(tokens, at + first.used, closes_itself(first.node), false);
        let used = first.used + end.used;
        let diagnostics = first.diagnostics + end.diagnostics;
        if diagnostics.len() > 0 || used == 0 {
            Parsed { node: Seq::empty(), used, diagnostics }
        } else {
            let rest = body(tokens, at + used);
            Parsed {
                node: seq![first.node] + rest.node,
                used: used + rest.used,
                diagnostics: rest.diagnostics,
            }
        }
    }
}

/// A program from `at` on: declarations, each with its terminator, up to the
/// end of input. A parser error is fatal: the first declaration that raises
/// a diagnostic is the last one read, it is not among the statements, and
/// only its first diagnostic is reported.
pub open spec fn program(tokens: Seq<TokenView>, at: nat) -> Parsed<Seq<StmtView>>
    decreases tokens_left(tokens, at),
{
    if kind_at(tokens, at) == TType::Eof {
        clean(Seq::empty(), 0)
    } else {
        let first = declaration(tokens, at);
        let end = terminator(tokens, at + first.used, closes_itself(first.node), true);
        let used = first.used + end.used;
        let diagnostics = first.diagnostics + end.diagnostics;
        if diagnostics.len() > 0 {
            Parsed { node: Seq::empty(), used, diagnostics: seq![diagnostics[0]] }
        } else if used == 0 {
            clean(Seq::empty(), 0)
        } else {
            let rest = program(tokens, at + used);
            Parsed {
                node: seq![first.node] + rest.node,
                used: used + rest.used,
                diagnostics: rest.diagnostics,
            }
        }
    }
}

} // verus!
