//! The parser: recursive descent over the tokens, one function for each rule
//! of the grammar.

use crate::ast::{Expr, Stmt, StmtView};
use crate::error::{report, Diagnostic, Fault, ScrapError};
use crate::grammar::{
    binary, binds, block, body, chain, closes_itself, declaration, expression, if_stmt, kind_at,
    lemma_expression_at_end, line_at, operand, primary, program, rank, statement, terminator,
    unary, variable_declaration, while_stmt, Level,
};
use crate::interpreter::program_of;
use crate::object::obj;
use crate::token::{tokens_of, Token, TokenView};
use crate::tokentype::TType;
use vstd::prelude::*;

verus! {

/// Turns tokens into statements.
pub struct Parser {
    /// The tokens to parse.
    pub tokens: Vec<Token>,
    /// The next token to read.
    pub index: usize,
    /// The expressions parsed one by one.
    pub expressions: Vec<Expr>,
    /// The statements of the program parsed so far.
    pub statements: Vec<Stmt>,
    /// The errors found so far.
    pub diagnostics: Vec<Diagnostic>,
}

impl Parser {
    /// The models of the tokens.
    pub open spec fn stream(&self) -> Seq<TokenView> {
        tokens_of(self.tokens@)
    }

    /// True when this parser is `before` after it read `used` more tokens
    /// and raised `raised`: nothing else differs.
    pub open spec fn advanced(&self, before: &Parser, used: nat, raised: Seq<Diagnostic>) -> bool {
        &&& self.tokens == before.tokens
        &&& self.expressions == before.expressions
        &&& self.statements == before.statements
        &&& self.index == before.index + used
        &&& self.index <= self.tokens.len()
        &&& self.diagnostics@ =~= before.diagnostics@ + raised
    }

    /// A parser at the first of the given tokens.
    pub fn new(tokens: Vec<Token>) -> (parser: Parser)
        ensures
            parser.tokens == tokens,
            parser.index == 0,
            parser.expressions@.len() == 0,
            parser.statements@.len() == 0,
            parser.diagnostics@.len() == 0,
    {
        Parser {
            tokens,
            index: 0,
            expressions: Vec::new(),
            statements: Vec::new(),
            diagnostics: Vec::new(),
        }
    }

    /// Parses the program from the current token on. The statements read
    /// without a diagnostic are added to the statements; reading stops at the
    /// end of input and after the first statement that raises a diagnostic,
    /// of whose diagnostics the first one is kept.
    pub fn parse(&mut self)
        ensures
            final(self).tokens == old(self).tokens,
            final(self).expressions == old(self).expressions,
            final(self).index == old(self).index + program(
                old(self).stream(),
                old(self).index as nat,
            ).used,
            old(self).index <= old(self).tokens@.len() ==> final(self).index <= old(
                self,
            ).tokens@.len(),
            program_of(final(self).statements@) =~= program_of(old(self).statements@) + program(
                old(self).stream(),
                old(self).index as nat,
            ).node,
            final(self).diagnostics@ =~= old(self).diagnostics@ + program(
                old(self).stream(),
                old(self).index as nat,
            ).diagnostics,
    {
        if self.index > self.tokens.len() {
            return;
        }
        let ghost whole = program(self.stream(), self.index as nat);
        let ghost start = self.index as nat;
        let mut reading = true;
        while reading
            invariant
                self.tokens == old(self).tokens,
                self.expressions == old(self).expressions,
                start <= self.index <= self.tokens.len(),
                reading ==> {
                    let rest = program(self.stream(), self.index as nat);
                    &&& whole.used == (self.index - start) + rest.used
                    &&& program_of(self.statements@) + rest.node =~= program_of(
                        old(self).statements@,
                    ) + whole.node
                    &&& self.diagnostics@ + rest.diagnostics =~= old(self).diagnostics@
                        + whole.diagnostics
                },
                !reading ==> {
                    &&& whole.used == self.index - start
                    &&& program_of(self.statements@) =~= program_of(old(self).statements@)
                        + whole.node
                    &&& self.diagnostics@ =~= old(self).diagnostics@ + whole.diagnostics
                },
            decreases
                    if reading {
                        self.tokens.len() - self.index + 1
                    } else {
                        0
                    },
        {
            if self.is_at_end() {
                reading = false;
            } else {
                let raised = self.diagnostics.len();
                let from = self.index;
                let read = self.declaration();
                self.terminator(Parser::closes(&read), true);
                if self.diagnostics.len() > raised {
                    self.diagnostics.truncate(raised + 1);
                    reading = false;
                } else if self.index == from {
                    reading = false;
                } else {
                    self.statements.push(read);
                }
            }
        }
    }

    /// Parses one expression from the current token on and adds it to the
    /// expressions.
    pub fn parse_expression(&mut self)
        ensures
            final(self).tokens == old(self).tokens,
            final(self).statements == old(self).statements,
            final(self).index == old(self).index + expression(
                old(self).stream(),
                old(self).index as nat,
            ).used,
            old(self).index <= old(self).tokens@.len() ==> final(self).index <= old(
                self,
            ).tokens@.len(),
            final(self).expressions@.len() == old(self).expressions@.len() + 1,
            final(self).expressions@.last()@ == expression(
                old(self).stream(),
                old(self).index as nat,
            ).node,
            final(self).expressions@.drop_last() == old(self).expressions@,
            final(self).diagnostics@ =~= old(self).diagnostics@ + expression(
                old(self).stream(),
                old(self).index as nat,
            ).diagnostics,
    {
        let expr = if self.index > self.tokens.len() {
            proof {
                lemma_expression_at_end(self.stream(), self.index as nat);
            }
            let line = self.line();
            self.diagnostics.push(ScrapError::error(Fault::ExpectedExpression, line));
            Expr::Literal(obj::Null)
        } else {
            self.expression()
        };
        self.expressions.push(expr);
        assert(self.expressions@.drop_last() =~= old(self).expressions@);
    }

    /// Whether the statement ends with its own closing brace.
    fn closes(statement: &Stmt) -> (closed: bool)
        ensures
            closed == closes_itself(statement@),
    {
        match statement {
            Stmt::Ifstmt { .. } => true,
            Stmt::WhileStmt { .. } => true,
            _ => false,
        }
    }

    /// Reads the terminator of a statement.
    fn terminator(&mut self, closed: bool, top: bool)
        requires
            old(self).index <= old(self).tokens.len(),
        ensures
            final(self).advanced(
                old(self),
                terminator(old(self).stream(), old(self).index as nat, closed, top).used,
                terminator(old(self).stream(), old(self).index as nat, closed, top).diagnostics,
            ),
    {
        if self.check(TType::Semicolon) {
            self.advance();
        } else if closed {
        } else if top && (self.check(TType::LeftCurly) || self.check(TType::RightCurly)) {
            self.advance();
        } else {
            self.fail(Fault::MissingTerminator);
        }
    }

    /// Parses a declaration.
    fn declaration(&mut self) -> (read: Stmt)
        requires
            old(self).index <= old(self).tokens.len(),
        ensures
            read@ == declaration(old(self).stream(), old(self).index as nat).node,
            final(self).advanced(
                old(self),
                declaration(old(self).stream(), old(self).index as nat).used,
                declaration(old(self).stream(), old(self).index as nat).diagnostics,
            ),
        decreases old(self).tokens.len() - old(self).index, 10nat,
    {
        if self.match_next(TType::Var) {
            self.variable_declaration()
        } else {
            self.statement()
        }
    }

    /// Parses a statement.
    fn statement(&mut self) -> (read: Stmt)
        requires
            old(self).index <= old(self).tokens.len(),
        ensures
            read@ == statement(old(self).stream(), old(self).index as nat).node,
            final(self).advanced(
                old(self),
                statement(old(self).stream(), old(self).index as nat).used,
                statement(old(self).stream(), old(self).index as nat).diagnostics,
            ),
        decreases old(self).tokens.len() - old(self).index, 8nat,
    {
        if self.check(TType::Echo) {
            self.print_stmt()
        } else if self.check(TType::If) {
            self.if_stmt()
        } else if self.check(TType::While) {
            self.while_stmt()
        } else {
            Stmt::Expression(Box::new(self.expression()))
        }
    }

    /// Parses the declaration of a variable, after the token that announces
    /// it.
    fn variable_declaration(&mut self) -> (read: Stmt)
        requires
            old(self).index <= old(self).tokens.len(),
        ensures
            read@ == variable_declaration(old(self).stream(), old(self).index as nat).node,
            final(self).advanced(
                old(self),
                variable_declaration(old(self).stream(), old(self).index as nat).used,
                variable_declaration(old(self).stream(), old(self).index as nat).diagnostics,
            ),
    {
        if self.check(TType::Identifier) {
            let identifier = self.tokens[self.index].lexeme.clone();
            self.advance();
            if self.match_next(TType::Equal) {
                let value = self.expression();
                Stmt::VariableDeclaration { identifier, initializer: Some(Box::new(value)) }
            } else {
                Stmt::VariableDeclaration { identifier, initializer: None }
            }
        } else {
            self.fail(Fault::ExpectedName);
            Stmt::Expression(Box::new(Expr::Literal(obj::Null)))
        }
    }

    /// Parses an `if` statement, whose keyword is the current token.
    fn if_stmt(&mut self) -> (read: Stmt)
        requires
            old(self).index <= old(self).tokens.len(),
            kind_at(old(self).stream(), old(self).index as nat) == TType::If,
        ensures
            read@ == if_stmt(old(self).stream(), old(self).index as nat).node,
            final(self).advanced(
                old(self),
                if_stmt(old(self).stream(), old(self).index as nat).used,
                if_stmt(old(self).stream(), old(self).index as nat).diagnostics,
            ),
        decreases old(self).tokens.len() - old(self).index, 6nat,
    {
        let line = self.tokens[self.index].line;
        self.advance();
        let expr = Box::new(self.expression());
        let block = Box::new(self.block());
        if self.match_next(TType::Else) {
            let other = self.block();
            Stmt::Ifstmt { line, expr, block, elseblock: Some(Box::new(other)) }
        } else {
            Stmt::Ifstmt { line, expr, block, elseblock: None }
        }
    }

    /// Parses a `while` statement, whose keyword is the current token.
    fn while_stmt(&mut self) -> (read: Stmt)
        requires
            old(self).index <= old(self).tokens.len(),
            kind_at(old(self).stream(), old(self).index as nat) == TType::While,
        ensures
            read@ == while_stmt(old(self).stream(), old(self).index as nat).node,
            final(self).advanced(
                old(self),
                while_stmt(old(self).stream(), old(self).index as nat).used,
                while_stmt(old(self).stream(), old(self).index as nat).diagnostics,
            ),
        decreases old(self).tokens.len() - old(self).index, 6nat,
    {
        let line = self.tokens[self.index].line;
        self.advance();
        let expr = Box::new(self.expression());
        let block = Box::new(self.block());
        Stmt::WhileStmt { line, expr, block }
    }

    /// Parses an `echo` statement, whose keyword is the current token.
    fn print_stmt(&mut self) -> (read: Stmt)
        requires
            old(self).index <= old(self).tokens.len(),
            kind_at(old(self).stream(), old(self).index as nat) == TType::Echo,
        ensures
            read@ == statement(old(self).stream(), old(self).index as nat).node,
            final(self).advanced(
                old(self),
                statement(old(self).stream(), old(self).index as nat).used,
                statement(old(self).stream(), old(self).index as nat).diagnostics,
            ),
        decreases old(self).tokens.len() - old(self).index, 7nat,
    {
        let line = self.tokens[self.index].line;
        self.advance();
        let value = self.declaration();
        Stmt::Print { line, value: Box::new(value) }
    }

    /// Parses a block.
    fn block(&mut self) -> (read: Stmt)
        requires
            old(self).index <= old(self).tokens.len(),
        ensures
            read@ == block(old(self).stream(), old(self).index as nat).node,
            final(self).advanced(
                old(self),
                block(old(self).stream(), old(self).index as nat).used,
                block(old(self).stream(), old(self).index as nat).diagnostics,
            ),
        decreases old(self).tokens.len() - old(self).index, 4nat,
    {
        if self.match_next(TType::LeftCurly) {
            let raised = self.diagnostics.len();
            let ghost inside = body(self.stream(), self.index as nat);
            let ghost opened = *self;
            let mut statements: Vec<Stmt> = Vec::new();
            let mut reading = true;
            while reading
                invariant
                    self.tokens == old(self).tokens,
                    self.expressions == old(self).expressions,
                    self.statements == old(self).statements,
                    opened.index == old(self).index + 1,
                    opened.tokens == old(self).tokens,
                    inside == body(self.stream(), opened.index as nat),
                    raised == opened.diagnostics@.len(),
                    opened.index <= self.index <= self.tokens.len(),
                    reading ==> {
                        let rest = body(self.stream(), self.index as nat);
                        &&& inside.used == (self.index - opened.index) + rest.used
                        &&& program_of(statements@) + rest.node =~= inside.node
                        &&& self.diagnostics@ =~= opened.diagnostics@
                        &&& rest.diagnostics =~= inside.diagnostics
                    },
                    !reading ==> {
                        &&& inside.used == self.index - opened.index
                        &&& program_of(statements@) =~= inside.node
                        &&& self.diagnostics@ =~= opened.diagnostics@ + inside.diagnostics
                    },
                decreases
                        if reading {
                            self.tokens.len() - self.index + 1
                        } else {
                            0
                        },
            {
                if self.check(TType::RightCurly) || self.is_at_end() {
                    reading = false;
                } else {
                    let from = self.index;
                    let read = self.declaration();
                    self.terminator(Parser::closes(&read), false);
                    if self.diagnostics.len() > raised || self.index == from {
                        reading = false;
                    } else {
                        statements.push(read);
                    }
                }
            }
            let read = Stmt::Block(statements);
            assert(read@->Block_0 =~= inside.node);
            if self.diagnostics.len() > raised {
            } else if self.match_next(TType::RightCurly) {
            } else {
                self.fail(Fault::MissingRightCurly);
            }
            read
        } else {
            self.fail(Fault::MissingLeftCurly);
            let read = Stmt::Block(Vec::new());
            assert(read@->Block_0 =~= Seq::<StmtView>::empty());
            read
        }
    }

    /// Parses an expression.
    fn expression(&mut self) -> (read: Expr)
        requires
            old(self).index <= old(self).tokens.len(),
        ensures
            read@ == expression(old(self).stream(), old(self).index as nat).node,
            final(self).advanced(
                old(self),
                expression(old(self).stream(), old(self).index as nat).used,
                expression(old(self).stream(), old(self).index as nat).diagnostics,
            ),
        decreases old(self).tokens.len() - old(self).index, 50nat,
    {
        if self.check(TType::Identifier) && self.check_next(TType::Equal) {
            let name = self.tokens[self.index].clone();
            self.advance();
            self.advance();
            let value = self.expression();
            Expr::VariableAssign { name, value: Box::new(value) }
        } else {
            self.or()
        }
    }

    /// Parses an expression of the `or` level.
    fn or(&mut self) -> (read: Expr)
        requires
            old(self).index <= old(self).tokens.len(),
        ensures
            read@ == binary(old(self).stream(), old(self).index as nat, Level::Or).node,
            final(self).advanced(
                old(self),
                binary(old(self).stream(), old(self).index as nat, Level::Or).used,
                binary(old(self).stream(), old(self).index as nat, Level::Or).diagnostics,
            ),
        decreases old(self).tokens.len() - old(self).index, 41nat,
    {
        self.binary(Level::Or)
    }

    /// Parses an expression of the `and` level.
    fn and(&mut self) -> (read: Expr)
        requires
            old(self).index <= old(self).tokens.len(),
        ensures
            read@ == binary(old(self).stream(), old(self).index as nat, Level::And).node,
            final(self).advanced(
                old(self),
                binary(old(self).stream(), old(self).index as nat, Level::And).used,
                binary(old(self).stream(), old(self).index as nat, Level::And).diagnostics,
            ),
        decreases old(self).tokens.len() - old(self).index, 37nat,
    {
        self.binary(Level::And)
    }

    /// Parses an expression of the equality level.
    fn equality(&mut self) -> (read: Expr)
        requires
            old(self).index <= old(self).tokens.len(),
        ensures
            read@ == binary(old(self).stream(), old(self).index as nat, Level::Equality).node,
            final(self).advanced(
                old(self),
                binary(old(self).stream(), old(self).index as nat, Level::Equality).used,
                binary(old(self).stream(), old(self).index as nat, Level::Equality).diagnostics,
            ),
        decreases old(self).tokens.len() - old(self).index, 33nat,
    {
        self.binary(Level::Equality)
    }

    /// Parses an expression of the comparison level.
    fn comparison(&mut self) -> (read: Expr)
        requires
            old(self).index <= old(self).tokens.len(),
        ensures
            read@ == binary(old(self).stream(), old(self).index as nat, Level::Comparison).node,
            final(self).advanced(
                old(self),
                binary(old(self).stream(), old(self).index as nat, Level::Comparison).used,
                binary(old(self).stream(), old(self).index as nat, Level::Comparison).diagnostics,
            ),
        decreases old(self).tokens.len() - old(self).index, 29nat,
    {
        self.binary(Level::Comparison)
    }

    /// Parses an expression of the term level.
    fn term(&mut self) -> (read: Expr)
        requires
            old(self).index <= old(self).tokens.len(),
        ensures
            read@ == binary(old(self).stream(), old(self).index as nat, Level::Term).node,
            final(self).advanced(
                old(self),
                binary(old(self).stream(), old(self).index as nat, Level::Term).used,
                binary(old(self).stream(), old(self).index as nat, Level::Term).diagnostics,
            ),
        decreases old(self).tokens.len() - old(self).index, 25nat,
    {
        self.binary(Level::Term)
    }

    /// Parses an expression of the factor level.
    fn factor(&mut self) -> (read: Expr)
        requires
            old(self).index <= old(self).tokens.len(),
        ensures
            read@ == binary(old(self).stream(), old(self).index as nat, Level::Factor).node,
            final(self).advanced(
                old(self),
                binary(old(self).stream(), old(self).index as nat, Level::Factor).used,
                binary(old(self).stream(), old(self).index as nat, Level::Factor).diagnostics,
            ),
        decreases old(self).tokens.len() - old(self).index, 21nat,
    {
        self.binary(Level::Factor)
    }

    /// Parses an operand of a level.
    fn operand(&mut self, level: Level) -> (read: Expr)
        requires
            old(self).index <= old(self).tokens.len(),
        ensures
            read@ == operand(old(self).stream(), old(self).index as nat, level).node,
            final(self).advanced(
                old(self),
                operand(old(self).stream(), old(self).index as nat, level).used,
                operand(old(self).stream(), old(self).index as nat, level).diagnostics,
            ),
        decreases old(self).tokens.len() - old(self).index, (rank(level) - 1) as nat,
    {
        match level {
            Level::Or => self.and(),
            Level::And => self.equality(),
            Level::Equality => self.comparison(),
            Level::Comparison => self.term(),
            Level::Term => self.factor(),
            Level::Factor => self.unary(),
        }
    }

    /// Whether the current token is an operator of the level.
    fn at_operator(&self, level: Level) -> (found: bool)
        requires
            self.index <= self.tokens.len(),
        ensures
            found == binds(level, kind_at(self.stream(), self.index as nat)),
            found ==> self.index < self.tokens.len(),
    {
        match level {
            Level::Or => self.check(TType::Or),
            Level::And => self.check(TType::And),
            Level::Equality => self.check(TType::BangEqual) || self.check(TType::EqualEqual),
            Level::Comparison => self.check(TType::Greater) || self.check(TType::GreaterEqual)
                || self.check(TType::Less) || self.check(TType::LessEqual),
            Level::Term => self.check(TType::Plus) || self.check(TType::Minus),
            Level::Factor => self.check(TType::Star) || self.check(TType::Slash),
        }
    }

    /// Parses an expression of a level: an operand, then the operators of the
    /// level that follow, each joined to all that was read before it.
    fn binary(&mut self, level: Level) -> (read: Expr)
        requires
            old(self).index <= old(self).tokens.len(),
        ensures
            read@ == binary(old(self).stream(), old(self).index as nat, level).node,
            final(self).advanced(
                old(self),
                binary(old(self).stream(), old(self).index as nat, level).used,
                binary(old(self).stream(), old(self).index as nat, level).diagnostics,
            ),
        decreases old(self).tokens.len() - old(self).index, rank(level),
    {
        let mut expr = self.operand(level);
        let ghost first = *self;
        let ghost whole = chain(self.stream(), expr@, self.index as nat, level);
        while self.at_operator(level)
            invariant
                self.tokens == old(self).tokens,
                self.expressions == old(self).expressions,
                self.statements == old(self).statements,
                first.tokens == old(self).tokens,
                old(self).index <= first.index <= self.index <= self.tokens.len(),
                ({
                    let rest = chain(self.stream(), expr@, self.index as nat, level);
                    &&& rest.node == whole.node
                    &&& whole.used == (self.index - first.index) + rest.used
                    &&& self.diagnostics@ + rest.diagnostics =~= first.diagnostics@
                        + whole.diagnostics
                }),
            decreases self.tokens.len() - self.index,
        {
            let operator = self.tokens[self.index].clone();
            self.advance();
            let right = self.operand(level);
            expr = Expr::Binary { left: Box::new(expr), operator, right: Box::new(right) };
        }
        expr
    }

    /// Parses a prefix operator with its operand, or a primary expression.
    fn unary(&mut self) -> (read: Expr)
        requires
            old(self).index <= old(self).tokens.len(),
        ensures
            read@ == unary(old(self).stream(), old(self).index as nat).node,
            final(self).advanced(
                old(self),
                unary(old(self).stream(), old(self).index as nat).used,
                unary(old(self).stream(), old(self).index as nat).diagnostics,
            ),
        decreases old(self).tokens.len() - old(self).index, 4nat,
    {
        if self.check(TType::Minus) || self.check(TType::Bang) {
            let operator = self.tokens[self.index].clone();
            self.advance();
            let right = self.unary();
            Expr::Unary { operator, right: Box::new(right) }
        } else {
            self.parse_primary()
        }
    }

    /// Parses a primary expression.
    fn parse_primary(&mut self) -> (read: Expr)
        requires
            old(self).index <= old(self).tokens.len(),
        ensures
            read@ == primary(old(self).stream(), old(self).index as nat).node,
            final(self).advanced(
                old(self),
                primary(old(self).stream(), old(self).index as nat).used,
                primary(old(self).stream(), old(self).index as nat).diagnostics,
            ),
        decreases old(self).tokens.len() - old(self).index, 2nat,
    {
        match self.peek() {
            TType::Number | TType::String_tok => {
                let value = match &self.tokens[self.index].literal {
                    Some(value) => value.clone(),
                    None => {
                        self.fail(Fault::ExpectedExpression);
                        obj::Null
                    },
                };
                self.advance();
                Expr::Literal(value)
            },
            TType::True => {
                self.advance();
                Expr::Literal(obj::Bool(true))
            },
            TType::False => {
                self.advance();
                Expr::Literal(obj::Bool(false))
            },
            TType::Null => {
                self.advance();
                Expr::Literal(obj::Null)
            },
            TType::Identifier => {
                let name = self.tokens[self.index].clone();
                self.advance();
                Expr::VariableReference { name }
            },
            TType::LeftParen => {
                self.advance();
                let expr = self.expression();
                if self.check(TType::RightParen) {
                    self.advance();
                } else {
                    self.fail(Fault::MissingRightParen);
                }
                Expr::Grouping(Box::new(expr))
            },
            _ => {
                self.fail(Fault::ExpectedExpression);
                Expr::Literal(obj::Null)
            },
        }
    }

    /// Records a fault found at the current token.
    fn fail(&mut self, fault: Fault)
        requires
            old(self).index <= old(self).tokens.len(),
        ensures
            final(self).advanced(
                old(self),
                0,
                seq![report(fault, line_at(old(self).stream(), old(self).index as nat))],
            ),
    {
        let line = self.line();
        self.diagnostics.push(ScrapError::error(fault, line));
    }

    /// The line of the current token.
    fn line(&self) -> (line: usize)
        ensures
            line == line_at(self.stream(), self.index as nat),
    {
        if self.index < self.tokens.len() {
            self.tokens[self.index].line
        } else if self.tokens.len() > 0 {
            self.tokens[self.tokens.len() - 1].line
        } else {
            1
        }
    }

    /// Reads the current token if it is of the given kind.
    fn match_next(&mut self, ttype: TType) -> (matched: bool)
        requires
            old(self).index <= old(self).tokens.len(),
            ttype != TType::Eof,
        ensures
            matched == (kind_at(old(self).stream(), old(self).index as nat) == ttype),
            final(self).advanced(
                old(self),
                if matched {
                    1nat
                } else {
                    0nat
                },
                Seq::empty(),
            ),
    {
        if self.check(ttype) {
            self.advance();
            true
        } else {
            false
        }
    }

    /// Goes on to the next token.
    fn advance(&mut self)
        requires
            old(self).index < old(self).tokens.len(),
        ensures
            final(self).advanced(old(self), 1, Seq::empty()),
    {
        self.index += 1;
    }

    /// Whether the tokens are used up: the current token ends the input, or
    /// there is none.
    fn is_at_end(&self) -> (ended: bool)
        ensures
            ended == (kind_at(self.stream(), self.index as nat) == TType::Eof),
    {
        self.peek() == TType::Eof
    }

    /// Whether the current token is of the given kind.
    fn check(&self, ttype: TType) -> (found: bool)
        ensures
            found == (kind_at(self.stream(), self.index as nat) == ttype),
            found && ttype != TType::Eof ==> self.index < self.tokens.len(),
    {
        self.peek() == ttype
    }

    /// Whether the token after the current one is of the given kind.
    fn check_next(&self, ttype: TType) -> (found: bool)
        requires
            self.index < self.tokens.len(),
        ensures
            found == (kind_at(self.stream(), self.index as nat + 1) == ttype),
            found && ttype != TType::Eof ==> self.index + 1 < self.tokens.len(),
    {
        let next = self.index + 1;
        if next < self.tokens.len() {
            self.tokens[next].ttype == ttype
        } else {
            ttype == TType::Eof
        }
    }

    /// The kind of the current token.
    fn peek(&self) -> (ttype: TType)
        ensures
            ttype == kind_at(self.stream(), self.index as nat),
            ttype != TType::Eof ==> self.index < self.tokens.len(),
    {
        if self.index < self.tokens.len() {
            self.tokens[self.index].ttype
        } else {
            TType::Eof
        }
    }
}

} // verus!
