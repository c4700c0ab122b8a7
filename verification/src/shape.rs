//! The shape of parsed expressions: precedence and associativity, stated of
//! the trees and proved of the grammar.

use crate::ast::ExprView;
use crate::grammar::{
    binary, binds, chain, clean, expression, kind_at, operand, primary, rank, tokens_left, unary,
    Level, Parsed,
};
use crate::token::TokenView;
use crate::tokentype::TType;
use vstd::prelude::*;

verus! {

/// The level at which an operator binds, for the binary operators.
pub open spec fn level_of(operator: TType) -> Option<Level> {
    match operator {
        TType::Or => Some(Level::Or),
        TType::And => Some(Level::And),
        TType::BangEqual | TType::EqualEqual => Some(Level::Equality),
        TType::Greater | TType::GreaterEqual | TType::Less | TType::LessEqual => Some(
            Level::Comparison,
        ),
        TType::Plus | TType::Minus => Some(Level::Term),
        TType::Star | TType::Slash => Some(Level::Factor),
        _ => None,
    }
}

/// How loosely an expression binds at its top: as its operator does where it
/// joins two operands, looser than every operator where it is an
/// assignment, and not at all otherwise.
pub open spec fn looseness(expr: ExprView) -> nat {
    match expr {
        ExprView::Binary { left, operator, right } => match level_of(operator.ttype) {
            Some(level) => rank(level),
            None => 100,
        },
        ExprView::VariableAssign { name, value } => 50,
        _ => 0,
    }
}

/// True when the tree needs no parentheses beyond those it holds: in each
/// node that joins two operands the operator is a binary one, the left
/// operand binds no looser than it and the right operand binds tighter; the
/// operand of a prefix operator is another prefix operator with its operand
/// or a primary expression.
pub open spec fn nested(expr: ExprView) -> bool
    decreases expr,
{
    match expr {
        ExprView::Binary { left, operator, right } => {
            &&& level_of(operator.ttype) is Some
            &&& looseness(*left) <= looseness(expr)
            &&& looseness(*right) < looseness(expr)
            &&& nested(*left)
            &&& nested(*right)
        },
        ExprView::Unary { operator, right } => {
            &&& operator.ttype == TType::Minus || operator.ttype == TType::Bang
            &&& looseness(*right) == 0
            &&& nested(*right)
        },
        ExprView::Grouping(inner) => nested(*inner),
        ExprView::VariableAssign { name, value } => nested(*value),
        ExprView::Literal(_) => true,
        ExprView::VariableReference { name } => true,
    }
}

/// An operator binds at the level that holds it, and at no other.
pub proof fn lemma_level(level: Level, operator: TType)
    ensures
        binds(level, operator) <==> level_of(operator) == Some(level),
{
}

proof fn lemma_expression(tokens: Seq<TokenView>, at: nat)
    ensures
        nested(expression(tokens, at).node),
        looseness(expression(tokens, at).node) <= 50,
    decreases tokens_left(tokens, at), 50nat,
{
    if kind_at(tokens, at) == TType::Identifier && kind_at(tokens, at + 1) == TType::Equal {
        lemma_expression(tokens, at + 2);
    } else {
        lemma_binary(tokens, at, Level::Or);
    }
}

proof fn lemma_binary(tokens: Seq<TokenView>, at: nat, level: Level)
    ensures
        nested(binary(tokens, at, level).node),
        looseness(binary(tokens, at, level).node) <= rank(level),
    decreases tokens_left(tokens, at), rank(level),
{
    lemma_operand(tokens, at, level);
    let first = operand(tokens, at, level);
    lemma_chain(tokens, first.node, at + first.used, level);
}

proof fn lemma_operand(tokens: Seq<TokenView>, at: nat, level: Level)
    ensures
        nested(operand(tokens, at, level).node),
        looseness(operand(tokens, at, level).node) < rank(level),
    decreases tokens_left(tokens, at), (rank(level) - 1) as nat,
{
    match level {
        Level::Or => lemma_binary(tokens, at, Level::And),
        Level::And => lemma_binary(tokens, at, Level::Equality),
        Level::Equality => lemma_binary(tokens, at, Level::Comparison),
        Level::Comparison => lemma_binary(tokens, at, Level::Term),
        Level::Term => lemma_binary(tokens, at, Level::Factor),
        Level::Factor => lemma_unary(tokens, at),
    }
}

proof fn lemma_chain(tokens: Seq<TokenView>, left: ExprView, at: nat, level: Level)
    requires
        nested(left),
        looseness(left) <= rank(level),
    ensures
        nested(chain(tokens, left, at, level).node),
        looseness(chain(tokens, left, at, level).node) <= rank(level),
    decreases tokens_left(tokens, at), (rank(level) - 1) as nat,
{
    if binds(level, kind_at(tokens, at)) {
        let right = operand(tokens, at + 1, level);
        lemma_operand(tokens, at + 1, level);
        lemma_level(level, tokens[at as int].ttype);
        let joined = ExprView::Binary {
            left: Box::new(left),
            operator: tokens[at as int],
            right: Box::new(right.node),
        };
        assert(looseness(joined) == rank(level));
        assert(nested(joined));
        lemma_chain(tokens, joined, at + 1 + right.used, level);
    }
}

proof fn lemma_unary(tokens: Seq<TokenView>, at: nat)
    ensures
        nested(unary(tokens, at).node),
        looseness(unary(tokens, at).node) == 0,
    decreases tokens_left(tokens, at), 4nat,
{
    if kind_at(tokens, at) == TType::Minus || kind_at(tokens, at) == TType::Bang {
        lemma_unary(tokens, at + 1);
    } else {
        lemma_primary(tokens, at);
    }
}

proof fn lemma_primary(tokens: Seq<TokenView>, at: nat)
    ensures
        nested(primary(tokens, at).node),
        looseness(primary(tokens, at).node) == 0,
    decreases tokens_left(tokens, at), 2nat,
{
    if kind_at(tokens, at) == TType::LeftParen {
        lemma_expression(tokens, at + 1);
    }
}

/// Precedence and associativity: whatever the tokens are, the tree that an
/// expression is parsed to is nested. An operator of a tighter level is
/// never above one of a looser level unless parentheses put it there, and
/// of two operators of one level the left one is below the right one.
pub proof fn law_precedence(tokens: Seq<TokenView>, at: nat)
    ensures
        nested(expression(tokens, at).node),
{
    lemma_expression(tokens, at);
}

/// The same for an expression of one level: none of its operators outside
/// parentheses binds looser than the level.
pub proof fn law_precedence_of_level(tokens: Seq<TokenView>, at: nat, level: Level)
    ensures
        nested(binary(tokens, at, level).node),
        looseness(binary(tokens, at, level).node) <= rank(level),
{
    lemma_binary(tokens, at, level);
}

/// An expression that is one primary expression: where the token after a
/// primary expression is no binary operator, and the primary expression is
/// no target of an assignment, the expression is the primary expression.
pub proof fn lemma_primary_alone(tokens: Seq<TokenView>, at: nat)
    requires
        kind_at(tokens, at) != TType::Minus,
        kind_at(tokens, at) != TType::Bang,
        !(kind_at(tokens, at) == TType::Identifier && kind_at(tokens, at + 1) == TType::Equal),
        level_of(kind_at(tokens, at + primary(tokens, at).used)) is None,
    ensures
        expression(tokens, at) == primary(tokens, at),
{
    let read = primary(tokens, at);
    let next = kind_at(tokens, at + read.used);
    assert(unary(tokens, at) == read);
    assert(operand(tokens, at, Level::Factor) == read);
    lemma_level(Level::Factor, next);
    assert(chain(tokens, read.node, at + read.used, Level::Factor) == clean(read.node, 0));
    assert(binary(tokens, at, Level::Factor) =~= read);
    assert(operand(tokens, at, Level::Term) == read);
    lemma_level(Level::Term, next);
    assert(chain(tokens, read.node, at + read.used, Level::Term) == clean(read.node, 0));
    assert(binary(tokens, at, Level::Term) =~= read);
    assert(operand(tokens, at, Level::Comparison) == read);
    lemma_level(Level::Comparison, next);
    assert(chain(tokens, read.node, at + read.used, Level::Comparison) == clean(read.node, 0));
    assert(binary(tokens, at, Level::Comparison) =~= read);
    assert(operand(tokens, at, Level::Equality) == read);
    lemma_level(Level::Equality, next);
    assert(chain(tokens, read.node, at + read.used, Level::Equality) == clean(read.node, 0));
    assert(binary(tokens, at, Level::Equality) =~= read);
    assert(operand(tokens, at, Level::And) == read);
    lemma_level(Level::And, next);
    assert(chain(tokens, read.node, at + read.used, Level::And) == clean(read.node, 0));
    assert(binary(tokens, at, Level::And) =~= read);
    assert(operand(tokens, at, Level::Or) == read);
    lemma_level(Level::Or, next);
    assert(chain(tokens, read.node, at + read.used, Level::Or) == clean(read.node, 0));
    assert(binary(tokens, at, Level::Or) =~= read);
}

/// An operator of a level with the operand that follows it.
pub struct Link {
    pub operator: TokenView,
    pub operand: ExprView,
}

/// The operators of a level that follow one another from `at` on, each with
/// its operand, in order.
pub open spec fn links(tokens: Seq<TokenView>, at: nat, level: Level) -> Seq<Link>
    decreases tokens_left(tokens, at),
{
    if binds(level, kind_at(tokens, at)) {
        let right = operand(tokens, at + 1, level);
        seq![Link { operator: tokens[at as int], operand: right.node }] + links(
            tokens,
            at + 1 + right.used,
            level,
        )
    } else {
        Seq::empty()
    }
}

/// The tree that joins `first` to the operands of the links from the left:
/// `((first op a) op b) op c` for three links.
pub open spec fn folded(first: ExprView, rest: Seq<Link>) -> ExprView
    decreases rest.len(),
{
    if rest.len() == 0 {
        first
    } else {
        ExprView::Binary {
            left: Box::new(folded(first, rest.drop_last())),
            operator: rest.last().operator,
            right: Box::new(rest.last().operand),
        }
    }
}

/// Folding from the left may start with the first link.
proof fn lemma_folded_first(first: ExprView, head: Link, rest: Seq<Link>)
    ensures
        folded(first, seq![head] + rest) == folded(
            ExprView::Binary {
                left: Box::new(first),
                operator: head.operator,
                right: Box::new(head.operand),
            },
            rest,
        ),
    decreases rest.len(),
{
    let all = seq![head] + rest;
    if rest.len() == 0 {
        assert(all.drop_last() =~= Seq::<Link>::empty());
        assert(folded(first, all.drop_last()) == first);
    } else {
        assert(all.drop_last() =~= seq![head] + rest.drop_last());
        assert(all.last() == rest.last());
        lemma_folded_first(first, head, rest.drop_last());
    }
}

proof fn lemma_chain_folds(tokens: Seq<TokenView>, left: ExprView, at: nat, level: Level)
    ensures
        chain(tokens, left, at, level).node == folded(left, links(tokens, at, level)),
    decreases tokens_left(tokens, at),
{
    if binds(level, kind_at(tokens, at)) {
        let right = operand(tokens, at + 1, level);
        let head = Link { operator: tokens[at as int], operand: right.node };
        let joined = ExprView::Binary {
            left: Box::new(left),
            operator: tokens[at as int],
            right: Box::new(right.node),
        };
        let next = at + 1 + right.used;
        lemma_chain_folds(tokens, joined, next, level);
        lemma_folded_first(left, head, links(tokens, next, level));
    }
}

/// Left associativity, for any number of operators: an expression of a level
/// is its first operand joined from the left to the operands that follow,
/// `((a op b) op c) op d` and so on, however many operators of the level
/// follow one another.
pub proof fn law_folds_to_the_left(tokens: Seq<TokenView>, at: nat, level: Level)
    ensures
        binary(tokens, at, level).node == folded(
            operand(tokens, at, level).node,
            links(tokens, past_operand(tokens, at, level), level),
        ),
{
    lemma_chain_folds(
        tokens,
        operand(tokens, at, level).node,
        past_operand(tokens, at, level),
        level,
    );
}

/// The next tighter level; the tightest level for itself.
pub open spec fn tighter(level: Level) -> Level {
    match level {
        Level::Or => Level::And,
        Level::And => Level::Equality,
        Level::Equality => Level::Comparison,
        Level::Comparison => Level::Term,
        Level::Term => Level::Factor,
        Level::Factor => Level::Factor,
    }
}

/// True when a token is no operator that binds tighter than the level.
pub open spec fn no_tighter(level: Level, next: TType) -> bool {
    match level_of(next) {
        Some(found) => rank(found) >= rank(level),
        None => true,
    }
}

/// Where a primary expression is followed by no operator that binds tighter
/// than a level, the operand of the level is the primary expression.
pub proof fn lemma_operand_is_primary(tokens: Seq<TokenView>, at: nat, level: Level)
    requires
        kind_at(tokens, at) != TType::Minus,
        kind_at(tokens, at) != TType::Bang,
        no_tighter(level, kind_at(tokens, at + primary(tokens, at).used)),
    ensures
        operand(tokens, at, level) == primary(tokens, at),
    decreases rank(level),
{
    let read = primary(tokens, at);
    let next = kind_at(tokens, at + read.used);
    assert(unary(tokens, at) == read);
    if level != Level::Factor {
        let inner = tighter(level);
        lemma_operand_is_primary(tokens, at, inner);
        lemma_level(inner, next);
        assert(chain(tokens, read.node, at + read.used, inner) == clean(read.node, 0));
        assert(binary(tokens, at, inner) =~= read);
        assert(operand(tokens, at, level) == binary(tokens, at, inner));
    }
}

/// Where an expression of a level is followed by no binary operator, the
/// expression of every looser level is the same.
pub proof fn lemma_looser_is_same(
    tokens: Seq<TokenView>,
    at: nat,
    level: Level,
    looser: Level,
    read: Parsed<ExprView>,
)
    requires
        binary(tokens, at, level) == read,
        rank(looser) >= rank(level),
        level_of(kind_at(tokens, at + read.used)) is None,
    ensures
        binary(tokens, at, looser) == read,
    decreases rank(looser),
{
    if looser != level {
        let inner = tighter(looser);
        lemma_looser_is_same(tokens, at, level, inner, read);
        assert(operand(tokens, at, looser) == binary(tokens, at, inner));
        lemma_level(looser, kind_at(tokens, at + read.used));
        assert(chain(tokens, read.node, at + read.used, looser) == clean(read.node, 0));
        assert(binary(tokens, at, looser) =~= read);
    }
}

/// Two primary expressions joined by the operator between them.
pub open spec fn pair(tokens: Seq<TokenView>, at: nat) -> Parsed<ExprView> {
    let first = primary(tokens, at);
    let sign = at + first.used;
    let second = primary(tokens, sign + 1);
    Parsed {
        node: ExprView::Binary {
            left: Box::new(first.node),
            operator: tokens[sign as int],
            right: Box::new(second.node),
        },
        used: first.used + 1 + second.used,
        diagnostics: first.diagnostics + second.diagnostics,
    }
}

/// One operator between two primary expressions: where a primary expression
/// is followed by a binary operator and another primary expression, and
/// that by no binary operator, the expression is the operator with the two
/// as its operands.
pub proof fn lemma_pair(tokens: Seq<TokenView>, at: nat, level: Level)
    requires
        kind_at(tokens, at) != TType::Minus,
        kind_at(tokens, at) != TType::Bang,
        binds(level, kind_at(tokens, at + primary(tokens, at).used)),
        kind_at(tokens, at + primary(tokens, at).used + 1) != TType::Minus,
        kind_at(tokens, at + primary(tokens, at).used + 1) != TType::Bang,
        level_of(kind_at(tokens, at + pair(tokens, at).used)) is None,
        !(kind_at(tokens, at) == TType::Identifier && kind_at(tokens, at + 1) == TType::Equal),
    ensures
        expression(tokens, at) == pair(tokens, at),
{
    let first = primary(tokens, at);
    let sign = at + first.used;
    let second = primary(tokens, sign + 1);
    let whole = pair(tokens, at);
    lemma_level(level, kind_at(tokens, sign));
    lemma_operand_is_primary(tokens, at, level);
    lemma_operand_is_primary(tokens, sign + 1, level);
    lemma_level(level, kind_at(tokens, at + whole.used));
    assert(chain(tokens, whole.node, at + whole.used, level) == clean(whole.node, 0));
    assert(chain(tokens, first.node, sign, level) =~= (Parsed {
        node: whole.node,
        used: 1 + second.used,
        diagnostics: second.diagnostics,
    }));
    assert(binary(tokens, at, level) =~= whole);
    lemma_looser_is_same(tokens, at, level, Level::Or, whole);
}

/// The place after the operand of a level that starts at `at`.
pub open spec fn past_operand(tokens: Seq<TokenView>, at: nat, level: Level) -> nat {
    at + operand(tokens, at, level).used
}

/// Left associativity: where an operand is followed by two operators of the
/// level, each with its operand, and by no third one, the first operator
/// joins its two operands and the second operator takes that as its left
/// operand.
pub proof fn law_left_associative(tokens: Seq<TokenView>, at: nat, level: Level)
    requires
        binds(level, kind_at(tokens, past_operand(tokens, at, level))),
        binds(
            level,
            kind_at(tokens, past_operand(tokens, past_operand(tokens, at, level) + 1, level)),
        ),
        !binds(
            level,
            kind_at(
                tokens,
                past_operand(
                    tokens,
                    past_operand(tokens, past_operand(tokens, at, level) + 1, level) + 1,
                    level,
                ),
            ),
        ),
    ensures
        ({
            let first = past_operand(tokens, at, level);
            let second = past_operand(tokens, first + 1, level);
            binary(tokens, at, level).node == (ExprView::Binary {
                left: Box::new(
                    ExprView::Binary {
                        left: Box::new(operand(tokens, at, level).node),
                        operator: tokens[first as int],
                        right: Box::new(operand(tokens, first + 1, level).node),
                    },
                ),
                operator: tokens[second as int],
                right: Box::new(operand(tokens, second + 1, level).node),
            })
        }),
{
    let first = past_operand(tokens, at, level);
    let second = past_operand(tokens, first + 1, level);
    let third = past_operand(tokens, second + 1, level);
    let inner = ExprView::Binary {
        left: Box::new(operand(tokens, at, level).node),
        operator: tokens[first as int],
        right: Box::new(operand(tokens, first + 1, level).node),
    };
    let outer = ExprView::Binary {
        left: Box::new(inner),
        operator: tokens[second as int],
        right: Box::new(operand(tokens, second + 1, level).node),
    };
    assert(chain(tokens, outer, third, level) == clean(outer, 0));
    assert(chain(tokens, inner, second, level).node == outer);
    assert(chain(tokens, operand(tokens, at, level).node, first, level).node == outer);
}

} // verus!
