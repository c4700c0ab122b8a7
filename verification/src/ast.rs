//! The abstract syntax tree: expressions and statements.

use crate::object::{obj, Value};
use crate::token::{Token, TokenView};
use vstd::prelude::*;

verus! {

/// The mathematical model of an expression.
#[verifier::ext_equal]
pub enum ExprView {
    Binary { left: Box<ExprView>, operator: TokenView, right: Box<ExprView> },
    Grouping(Box<ExprView>),
    Literal(Value),
    Unary { operator: TokenView, right: Box<ExprView> },
    VariableReference { name: TokenView },
    VariableAssign { name: TokenView, value: Box<ExprView> },
}

/// The mathematical model of a statement.
#[verifier::ext_equal]
#[allow(inconsistent_fields)]
pub enum StmtView {
    Print { line: usize, value: Box<StmtView> },
    Expression(ExprView),
    Ifstmt { line: usize, expr: ExprView, block: Box<StmtView>, elseblock: Option<Box<StmtView>> },
    WhileStmt { line: usize, expr: ExprView, block: Box<StmtView> },
    Block(Seq<StmtView>),
    VariableDeclaration { identifier: Seq<char>, initializer: Option<ExprView> },
}

/// An expression. The tree is owned by the statement that holds it and is
/// never changed by evaluation.
#[derive(Debug, PartialEq)]
pub enum Expr {
    /// Two operands joined by an operator.
    Binary { left: Box<Expr>, operator: Token, right: Box<Expr> },
    /// An expression in parentheses.
    Grouping(Box<Expr>),
    /// A literal value.
    Literal(obj),
    /// A prefix operator and its operand.
    Unary { operator: Token, right: Box<Expr> },
    /// A reference to the variable that the token names.
    VariableReference { name: Token },
    /// An assignment to the variable that the token names.
    VariableAssign { name: Token, value: Box<Expr> },
}

/// A statement.
#[allow(inconsistent_fields)]
#[derive(Debug, PartialEq)]
pub enum Stmt {
    /// `echo`, on the given line, of the value of a statement.
    Print { line: usize, value: Box<Stmt> },
    /// An expression evaluated for its effect.
    Expression(Box<Expr>),
    /// `if`, on the given line, with its condition, its branch and the
    /// optional `else` branch.
    Ifstmt { line: usize, expr: Box<Expr>, block: Box<Stmt>, elseblock: Option<Box<Stmt>> },
    /// `while`, on the given line, with its condition and its body.
    WhileStmt { line: usize, expr: Box<Expr>, block: Box<Stmt> },
    /// Statements in braces, run in order.
    Block(Vec<Stmt>),
    /// The declaration of a variable with its optional initializer.
    VariableDeclaration { identifier: String, initializer: Option<Box<Expr>> },
}

impl Expr {
    /// The model of this expression.
    pub open spec fn model(self) -> ExprView
        decreases self,
    {
        match self {
            Expr::Binary { left, operator, right } => ExprView::Binary {
                left: Box::new(left.model()),
                operator: operator@,
                right: Box::new(right.model()),
            },
            Expr::Grouping(inner) => ExprView::Grouping(Box::new(inner.model())),
            Expr::Literal(value) => ExprView::Literal(value@),
            Expr::Unary { operator, right } => ExprView::Unary {
                operator: operator@,
                right: Box::new(right.model()),
            },
            Expr::VariableReference { name } => ExprView::VariableReference { name: name@ },
            Expr::VariableAssign { name, value } => ExprView::VariableAssign {
                name: name@,
                value: Box::new(value.model()),
            },
        }
    }
}

impl View for Expr {
    type V = ExprView;

    open spec fn view(&self) -> ExprView {
        self.model()
    }
}

impl Stmt {
    /// The model of this statement.
    pub open spec fn model(self) -> StmtView
        decreases self,
    {
        match self {
            Stmt::Print { line, value } => StmtView::Print { line, value: Box::new(value.model()) },
            Stmt::Expression(expr) => StmtView::Expression(expr.model()),
            Stmt::Ifstmt { line, expr, block, elseblock } => StmtView::Ifstmt {
                line,
                expr: expr.model(),
                block: Box::new(block.model()),
                elseblock: match elseblock {
                    Some(other) => Some(Box::new(other.model())),
                    None => None,
                },
            },
            Stmt::WhileStmt { line, expr, block } => StmtView::WhileStmt {
                line,
                expr: expr.model(),
                block: Box::new(block.model()),
            },
            Stmt::Block(statements) => StmtView::Block(
                Seq::new(
                    statements@.len(),
                    |i: int|
                        if 0 <= i < statements@.len() {
                            statements@[i].model()
                        } else {
                            StmtView::Block(Seq::empty())
                        },
                ),
            ),
            Stmt::VariableDeclaration { identifier, initializer } => StmtView::VariableDeclaration {
                identifier: identifier@,
                initializer: match initializer {
                    Some(expr) => Some(expr.model()),
                    None => None,
                },
            },
        }
    }
}

impl View for Stmt {
    type V = StmtView;

    open spec fn view(&self) -> StmtView {
        self.model()
    }
}

} // verus!
