//! What a parsed tree owes to the tokens: it is made of the tokens that were
//! read, and of nothing else; and what is shown of a literal is its value.

use crate::ast::{ExprView, StmtView};
use crate::error::{report, Diagnostic, Fault, ScrapError};
use crate::grammar::{
    binary, binds, block, body, chain, clean, closes_itself, declaration, expression, if_stmt,
    kind_at, line_at, operand, primary, program, rank, statement, terminator, tokens_left,
    unary, variable_declaration, while_stmt, Level, Parsed,
};
use crate::semantics::{evaluation, run_statement, Run};
use crate::shape::{lemma_level, lemma_pair, lemma_primary_alone, level_of, pair};
use crate::object::Value;
use crate::token::{literals_valued, TokenView};
use crate::tokentype::TType;
use vstd::prelude::*;

verus! {

/// The kinds of the tokens, in order.
pub open spec fn kinds_of(tokens: Seq<TokenView>) -> Seq<TType> {
    Seq::new(tokens.len(), |i: int| tokens[i].ttype)
}

/// The kind of the token that a literal value is written as.
pub open spec fn literal_kind(value: Value) -> TType {
    match value {
        Value::Num(_) => TType::Number,
        Value::Str(_) => TType::String_tok,
        Value::Bool(true) => TType::True,
        Value::Bool(false) => TType::False,
        Value::Null => TType::Null,
    }
}

/// The kinds of the tokens that an expression is written as, in order.
pub open spec fn spelling(expr: ExprView) -> Seq<TType>
    decreases expr,
{
    match expr {
        ExprView::Literal(value) => seq![literal_kind(value)],
        ExprView::VariableReference { name } => seq![TType::Identifier],
        ExprView::Grouping(inner) => seq![TType::LeftParen] + spelling(*inner) + seq![
            TType::RightParen,
        ],
        ExprView::Unary { operator, right } => seq![operator.ttype] + spelling(*right),
        ExprView::Binary { left, operator, right } => spelling(*left) + seq![operator.ttype]
            + spelling(*right),
        ExprView::VariableAssign { name, value } => seq![TType::Identifier, TType::Equal] + spelling(
            *value,
        ),
    }
}

/// The kind of every diagnostic in the sequence is the parser's.
pub open spec fn all_fatal(diagnostics: Seq<Diagnostic>) -> bool {
    forall|i: int|
        0 <= i < diagnostics.len() ==> (#[trigger] diagnostics[i]).kind == ScrapError::ParserError
}

/// True when what was read at `at` stays inside the tokens, raised nothing
/// but parser errors and, where it raised nothing, is spelled exactly as the
/// tokens that were read.
pub open spec fn faithful(tokens: Seq<TokenView>, at: nat, read: Parsed<ExprView>) -> bool {
    &&& all_fatal(read.diagnostics)
    &&& at <= tokens.len() ==> at + read.used <= tokens.len()
    &&& at <= tokens.len() && read.diagnostics.len() == 0 ==> spelling(read.node) =~= kinds_of(
        tokens,
    ).subrange(at as int, (at + read.used) as int)
}

/// True when what was read at `at` stays inside the tokens and raised
/// nothing but parser errors.
pub open spec fn bounded<T>(tokens: Seq<TokenView>, at: nat, read: Parsed<T>) -> bool {
    &&& all_fatal(read.diagnostics)
    &&& at <= tokens.len() ==> at + read.used <= tokens.len()
}

proof fn lemma_expression(tokens: Seq<TokenView>, at: nat)
    requires
        literals_valued(tokens),
    ensures
        faithful(tokens, at, expression(tokens, at)),
    decreases tokens_left(tokens, at), 50nat,
{
    if kind_at(tokens, at) == TType::Identifier && kind_at(tokens, at + 1) == TType::Equal {
        lemma_expression(tokens, at + 2);
    } else {
        lemma_binary(tokens, at, Level::Or);
    }
}

proof fn lemma_binary(tokens: Seq<TokenView>, at: nat, level: Level)
    requires
        literals_valued(tokens),
    ensures
        faithful(tokens, at, binary(tokens, at, level)),
    decreases tokens_left(tokens, at), rank(level),
{
    lemma_operand(tokens, at, level);
    let first = operand(tokens, at, level);
    lemma_chain(tokens, at, first.node, at + first.used, level, first.diagnostics.len() == 0);
}

proof fn lemma_operand(tokens: Seq<TokenView>, at: nat, level: Level)
    requires
        literals_valued(tokens),
    ensures
        faithful(tokens, at, operand(tokens, at, level)),
    decreases tokens_left(tokens, at), (rank(level) - 1) as nat,
{
    match level {
        Level::Or => lemma_binary(tokens, at, Level::And),
        Level::And => lemma_binary(tokens, at, Level::Equality),
        Level::Equality => lemma_binary(tokens, at, Level::Comparison),
        Level::Comparison => lemma_binary(tokens, at, Level::Term),
        Level::Term => lemma_binary(tokens, at, Level::Factor),
        Level::Factor => lemma_unary(tokens, at),
    }
}

proof fn lemma_chain(
    tokens: Seq<TokenView>,
    start: nat,
    left: ExprView,
    at: nat,
    level: Level,
    exact: bool,
)
    requires
        literals_valued(tokens),
        start <= at,
        exact && at <= tokens.len() ==> spelling(left) =~= kinds_of(tokens).subrange(
            start as int,
            at as int,
        ),
    ensures
        all_fatal(chain(tokens, left, at, level).diagnostics),
        at <= tokens.len() ==> at + chain(tokens, left, at, level).used <= tokens.len(),
        exact && at <= tokens.len() && chain(tokens, left, at, level).diagnostics.len() == 0
            ==> spelling(chain(tokens, left, at, level).node) =~= kinds_of(tokens).subrange(
            start as int,
            (at + chain(tokens, left, at, level).used) as int,
        ),
    decreases tokens_left(tokens, at), (rank(level) - 1) as nat,
{
    if binds(level, kind_at(tokens, at)) {
        let right = operand(tokens, at + 1, level);
        lemma_operand(tokens, at + 1, level);
        let joined = ExprView::Binary {
            left: Box::new(left),
            operator: tokens[at as int],
            right: Box::new(right.node),
        };
        let next = at + 1 + right.used;
        let still = exact && right.diagnostics.len() == 0;
        if still {
            assert(spelling(joined) =~= kinds_of(tokens).subrange(start as int, next as int));
        }
        lemma_chain(tokens, start, joined, next, level, still);
    }
}

proof fn lemma_unary(tokens: Seq<TokenView>, at: nat)
    requires
        literals_valued(tokens),
    ensures
        faithful(tokens, at, unary(tokens, at)),
    decreases tokens_left(tokens, at), 4nat,
{
    if kind_at(tokens, at) == TType::Minus || kind_at(tokens, at) == TType::Bang {
        lemma_unary(tokens, at + 1);
    } else {
        lemma_primary(tokens, at);
    }
}

proof fn lemma_primary(tokens: Seq<TokenView>, at: nat)
    requires
        literals_valued(tokens),
    ensures
        faithful(tokens, at, primary(tokens, at)),
    decreases tokens_left(tokens, at), 2nat,
{
    if kind_at(tokens, at) == TType::LeftParen {
        lemma_expression(tokens, at + 1);
    }
}

/// No fabrication: an expression that was read without a diagnostic is
/// spelled exactly as the tokens that were read for it, in their order; and
/// reading stays inside the tokens and raises nothing but parser errors.
pub proof fn law_expression_is_its_tokens(tokens: Seq<TokenView>, at: nat)
    requires
        literals_valued(tokens),
    ensures
        faithful(tokens, at, expression(tokens, at)),
{
    lemma_expression(tokens, at);
}

proof fn lemma_terminator(tokens: Seq<TokenView>, at: nat, closed: bool, top: bool)
    ensures
        bounded(tokens, at, terminator(tokens, at, closed, top)),
{
}

proof fn lemma_variable_declaration(tokens: Seq<TokenView>, at: nat)
    requires
        literals_valued(tokens),
    ensures
        bounded(tokens, at, variable_declaration(tokens, at)),
{
    if kind_at(tokens, at) == TType::Identifier && kind_at(tokens, at + 1) == TType::Equal {
        lemma_expression(tokens, at + 2);
    }
}

proof fn lemma_declaration(tokens: Seq<TokenView>, at: nat)
    requires
        literals_valued(tokens),
    ensures
        bounded(tokens, at, declaration(tokens, at)),
    decreases tokens_left(tokens, at), 10nat,
{
    if kind_at(tokens, at) == TType::Var {
        lemma_variable_declaration(tokens, at + 1);
    } else {
        lemma_statement(tokens, at);
    }
}

proof fn lemma_statement(tokens: Seq<TokenView>, at: nat)
    requires
        literals_valued(tokens),
    ensures
        bounded(tokens, at, statement(tokens, at)),
    decreases tokens_left(tokens, at), 8nat,
{
    match kind_at(tokens, at) {
        TType::Echo => {
            lemma_declaration(tokens, at + 1);
        },
        TType::If => {
            lemma_if(tokens, at);
        },
        TType::While => {
            lemma_while(tokens, at);
        },
        _ => {
            lemma_expression(tokens, at);
        },
    }
}

proof fn lemma_if(tokens: Seq<TokenView>, at: nat)
    requires
        literals_valued(tokens),
    ensures
        bounded(tokens, at, if_stmt(tokens, at)),
    decreases tokens_left(tokens, at), 6nat,
{
    if kind_at(tokens, at) == TType::If {
        let condition = expression(tokens, at + 1);
        lemma_expression(tokens, at + 1);
        let then = block(tokens, at + 1 + condition.used);
        lemma_block(tokens, at + 1 + condition.used);
        let after = at + 1 + condition.used + then.used;
        if kind_at(tokens, after) == TType::Else {
            lemma_block(tokens, after + 1);
        }
    }
}

proof fn lemma_while(tokens: Seq<TokenView>, at: nat)
    requires
        literals_valued(tokens),
    ensures
        bounded(tokens, at, while_stmt(tokens, at)),
    decreases tokens_left(tokens, at), 6nat,
{
    if kind_at(tokens, at) == TType::While {
        let condition = expression(tokens, at + 1);
        lemma_expression(tokens, at + 1);
        lemma_block(tokens, at + 1 + condition.used);
    }
}

proof fn lemma_block(tokens: Seq<TokenView>, at: nat)
    requires
        literals_valued(tokens),
    ensures
        bounded(tokens, at, block(tokens, at)),
    decreases tokens_left(tokens, at), 4nat,
{
    if kind_at(tokens, at) == TType::LeftCurly {
        lemma_body(tokens, at + 1);
    }
}

proof fn lemma_body(tokens: Seq<TokenView>, at: nat)
    requires
        literals_valued(tokens),
    ensures
        bounded(tokens, at, body(tokens, at)),
    decreases tokens_left(tokens, at), 12nat,
{
    if !(kind_at(tokens, at) == TType::RightCurly || kind_at(tokens, at) == TType::Eof) {
        let first = declaration(tokens, at);
        lemma_declaration(tokens, at);
        let end = terminator(tokens, at + first.used, closes_itself(first.node), false);
        lemma_terminator(tokens, at + first.used, closes_itself(first.node), false);
        let used = first.used + end.used;
        if !((first.diagnostics + end.diagnostics).len() > 0 || used == 0) {
            lemma_body(tokens, at + used);
        }
    }
}

/// A parser error is fatal and reported once: a program raises at most one
/// diagnostic, of the parser's kind, and reading it stays inside the tokens.
pub proof fn law_program_fails_once(tokens: Seq<TokenView>, at: nat)
    requires
        literals_valued(tokens),
    ensures
        bounded(tokens, at, program(tokens, at)),
        program(tokens, at).diagnostics.len() <= 1,
    decreases tokens_left(tokens, at),
{
    if kind_at(tokens, at) != TType::Eof {
        let first = declaration(tokens, at);
        lemma_declaration(tokens, at);
        let end = terminator(tokens, at + first.used, closes_itself(first.node), true);
        lemma_terminator(tokens, at + first.used, closes_itself(first.node), true);
        let used = first.used + end.used;
        let diagnostics = first.diagnostics + end.diagnostics;
        if !(diagnostics.len() > 0) && used != 0 {
            law_program_fails_once(tokens, at + used);
        }
    }
}

/// An unclosed group is an error: where the expression after an opening
/// parenthesis is not followed by a closing one, the group raises a
/// diagnostic of the parser's kind that says so, on the line where the
/// closing parenthesis is missing, after the diagnostics of the expression.
/// The group is still read, with the expression inside it.
pub proof fn law_unclosed_group(tokens: Seq<TokenView>, at: nat)
    requires
        kind_at(tokens, at) == TType::LeftParen,
        kind_at(tokens, at + 1 + expression(tokens, at + 1).used) != TType::RightParen,
    ensures
        ({
            let inner = expression(tokens, at + 1);
            let missing = report(
                Fault::MissingRightParen,
                line_at(tokens, at + 1 + inner.used),
            );
            &&& primary(tokens, at).node == ExprView::Grouping(Box::new(inner.node))
            &&& primary(tokens, at).diagnostics == inner.diagnostics.push(missing)
            &&& missing.kind == ScrapError::ParserError
        }),
{
}

/// True for the tokens that are a literal: a number or a string with its
/// value, `true`, `false` and `null`.
pub open spec fn is_literal(token: TokenView) -> bool {
    match token.ttype {
        TType::Number | TType::String_tok => token.literal is Some,
        TType::True | TType::False | TType::Null => true,
        _ => false,
    }
}

/// The value of a literal token.
pub open spec fn literal_value(token: TokenView) -> Value {
    match token.ttype {
        TType::True => Value::Bool(true),
        TType::False => Value::Bool(false),
        TType::Null => Value::Null,
        _ => match token.literal {
            Some(value) => value,
            None => Value::Null,
        },
    }
}

/// A literal goes through unchanged: `echo`, a literal and a semicolon are
/// read without a diagnostic as the statement that shows the literal, and
/// running it adds the value of the literal to the output and changes
/// nothing else. What is shown depends on the value alone, not on the text
/// that the literal was written as.
pub proof fn law_literal_round_trip(tokens: Seq<TokenView>, at: nat, run: Run, limit: nat)
    requires
        kind_at(tokens, at) == TType::Echo,
        at + 1 < tokens.len(),
        is_literal(tokens[at as int + 1]),
        kind_at(tokens, at + 2) == TType::Semicolon,
    ensures
        ({
            let value = literal_value(tokens[at as int + 1]);
            let shown = StmtView::Print {
                line: tokens[at as int].line,
                value: Box::new(StmtView::Expression(ExprView::Literal(value))),
            };
            &&& declaration(tokens, at) == clean(shown, 2)
            &&& run_statement(shown, run, limit) == (Run {
                variables: run.variables,
                output: run.output.push(value),
                diagnostics: run.diagnostics,
            })
        }),
{
    let value = literal_value(tokens[at as int + 1]);
    let read = primary(tokens, at + 1);
    assert(read == clean(ExprView::Literal(value), 1));
    lemma_primary_alone(tokens, at + 1);
    assert(expression(tokens, at + 1) == read);
    assert(statement(tokens, at + 1) =~= clean(StmtView::Expression(read.node), 1));
    assert(declaration(tokens, at + 1) == statement(tokens, at + 1));
    let shown = StmtView::Print {
        line: tokens[at as int].line,
        value: Box::new(StmtView::Expression(ExprView::Literal(value))),
    };
    assert(statement(tokens, at) =~= clean(shown, 2));
    let after = run_statement(shown, run, limit);
    assert(evaluation(ExprView::Literal(value), run.variables).diagnostics =~= Seq::empty());
    assert(after.diagnostics =~= run.diagnostics);
    assert(after =~= (Run {
        variables: run.variables,
        output: run.output.push(value),
        diagnostics: run.diagnostics,
    }));
}

/// True when the tokens from `at` on spell a loop that counts: `while`, in
/// parentheses a variable, a binary operator and a number, and in braces one
/// statement that assigns to a variable what a binary operator gives of a
/// variable and a number, with its semicolon.
pub open spec fn is_counting_loop(tokens: Seq<TokenView>, at: nat) -> bool {
    &&& at + 13 < tokens.len()
    &&& kind_at(tokens, at) == TType::While
    &&& kind_at(tokens, at + 1) == TType::LeftParen
    &&& kind_at(tokens, at + 2) == TType::Identifier
    &&& level_of(kind_at(tokens, at + 3)) is Some
    &&& kind_at(tokens, at + 4) == TType::Number
    &&& tokens[at as int + 4].literal is Some
    &&& kind_at(tokens, at + 5) == TType::RightParen
    &&& kind_at(tokens, at + 6) == TType::LeftCurly
    &&& kind_at(tokens, at + 7) == TType::Identifier
    &&& kind_at(tokens, at + 8) == TType::Equal
    &&& kind_at(tokens, at + 9) == TType::Identifier
    &&& level_of(kind_at(tokens, at + 10)) is Some
    &&& kind_at(tokens, at + 11) == TType::Number
    &&& tokens[at as int + 11].literal is Some
    &&& kind_at(tokens, at + 12) == TType::Semicolon
    &&& kind_at(tokens, at + 13) == TType::RightCurly
}

/// A variable, an operator and a number, read from three tokens.
pub open spec fn variable_and_number(tokens: Seq<TokenView>, at: nat) -> ExprView {
    ExprView::Binary {
        left: Box::new(ExprView::VariableReference { name: tokens[at as int] }),
        operator: tokens[at as int + 1],
        right: Box::new(ExprView::Literal(literal_value(tokens[at as int + 2]))),
    }
}

/// The tree of a loop that counts.
pub open spec fn counting_loop(tokens: Seq<TokenView>, at: nat) -> StmtView {
    StmtView::WhileStmt {
        line: tokens[at as int].line,
        expr: ExprView::Grouping(Box::new(variable_and_number(tokens, at + 2))),
        block: Box::new(
            StmtView::Block(
                seq![
                    StmtView::Expression(
                        ExprView::VariableAssign {
                            name: tokens[at as int + 7],
                            value: Box::new(variable_and_number(tokens, at + 9)),
                        },
                    ),
                ],
            ),
        ),
    }
}

/// A variable, a binary operator and a number, followed by no binary
/// operator, are read as the operator with the two as its operands.
proof fn lemma_variable_and_number(tokens: Seq<TokenView>, at: nat)
    requires
        at + 2 < tokens.len(),
        kind_at(tokens, at) == TType::Identifier,
        level_of(kind_at(tokens, at + 1)) is Some,
        kind_at(tokens, at + 2) == TType::Number,
        tokens[at as int + 2].literal is Some,
        level_of(kind_at(tokens, at + 3)) is None,
    ensures
        expression(tokens, at) == clean(variable_and_number(tokens, at), 3),
{
    let level = level_of(kind_at(tokens, at + 1))->Some_0;
    lemma_level(level, kind_at(tokens, at + 1));
    assert(primary(tokens, at) == clean(ExprView::VariableReference { name: tokens[at as int] }, 1));
    assert(primary(tokens, at + 2) == clean(
        ExprView::Literal(literal_value(tokens[at as int + 2])),
        1,
    ));
    lemma_pair(tokens, at, level);
    assert(pair(tokens, at) =~= clean(variable_and_number(tokens, at), 3));
}

/// The loop that counts: the tokens of `while (x < 3) { x = x + 1; }`, with
/// any names, numbers and binary operators in these places, are read
/// without a diagnostic as the `while` statement whose condition is the
/// comparison in its parentheses and whose body is the block of the one
/// assignment. All fourteen tokens are taken, the closing brace as the
/// last.
pub proof fn law_counting_loop_is_read(tokens: Seq<TokenView>, at: nat)
    requires
        is_counting_loop(tokens, at),
    ensures
        while_stmt(tokens, at) == clean(counting_loop(tokens, at), 14),
        declaration(tokens, at) == clean(counting_loop(tokens, at), 14),
{
    // The condition.
    lemma_variable_and_number(tokens, at + 2);
    let compared = variable_and_number(tokens, at + 2);
    let group = clean(ExprView::Grouping(Box::new(compared)), 5);
    assert(primary(tokens, at + 1) =~= group);
    lemma_primary_alone(tokens, at + 1);
    assert(expression(tokens, at + 1) == group);
    // The assignment.
    lemma_variable_and_number(tokens, at + 9);
    let assigned = ExprView::VariableAssign {
        name: tokens[at as int + 7],
        value: Box::new(variable_and_number(tokens, at + 9)),
    };
    assert(expression(tokens, at + 7) =~= clean(assigned, 5));
    let only = StmtView::Expression(assigned);
    assert(statement(tokens, at + 7) =~= clean(only, 5));
    assert(declaration(tokens, at + 7) == statement(tokens, at + 7));
    // The block.
    assert(terminator(tokens, at + 12, closes_itself(only), false) == clean((), 1));
    assert(body(tokens, at + 13) == clean(Seq::<StmtView>::empty(), 0));
    assert(body(tokens, at + 7) =~= clean(seq![only], 6));
    assert(block(tokens, at + 6) =~= clean(StmtView::Block(seq![only]), 8));
    // The statement.
    assert(while_stmt(tokens, at) =~= clean(counting_loop(tokens, at), 14));
    assert(statement(tokens, at) == while_stmt(tokens, at));
}

} // verus!
