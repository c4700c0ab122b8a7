//! The tree-walking interpreter: it evaluates expressions and runs
//! statements against one flat environment.

use crate::ast::{Expr, Stmt, StmtView};
use crate::environment::Environment;
use crate::error::{Diagnostic, Fault, ScrapError};
use crate::object::{obj, Value};
use crate::operators::{apply_binary, apply_unary};
use crate::semantics::{
    after, evaluation, failed, is_empty_block, run_all, run_loop, run_statement, Run,
};
use core::mem::swap;
use vstd::prelude::*;

verus! {

/// The models of a sequence of values, in order.
pub open spec fn values_of(values: Seq<obj>) -> Seq<Value> {
    Seq::new(values.len(), |i: int| values[i]@)
}

/// The models of a sequence of statements, in order.
pub open spec fn program_of(statements: Seq<Stmt>) -> Seq<StmtView> {
    Seq::new(statements.len(), |i: int| statements[i]@)
}

/// Runs a program: a sequence of statements, against one environment that
/// lives as long as the interpreter does.
pub struct Interpreter {
    /// Expressions handed over together with the statements; they are kept
    /// and not run.
    pub expressions: Vec<Expr>,
    /// The variables of the program.
    pub variables: Environment,
    /// The program.
    pub statements: Vec<Stmt>,
    /// The number of statements of the program that were run.
    pub index: usize,
    /// The values printed so far, in order.
    pub output: Vec<obj>,
    /// The diagnostics raised so far, in order.
    pub diagnostics: Vec<Diagnostic>,
    /// How many times in a row a `while` may go through its body.
    pub loop_limit: usize,
}

impl Expr {
    /// Evaluates the expression in `variables`. Assignments in it change
    /// `variables`; each failure adds a diagnostic and yields null.
    pub fn evaluate(
        &self,
        variables: &mut Environment,
        diagnostics: &mut Vec<Diagnostic>,
    ) -> (value: obj)
        ensures
            value@ == evaluation(self@, old(variables)@).value,
            final(variables)@ == evaluation(self@, old(variables)@).variables,
            final(diagnostics)@ == old(diagnostics)@ + evaluation(
                self@,
                old(variables)@,
            ).diagnostics,
        decreases self,
    {
        match self {
            Expr::Literal(value) => value.clone(),
            Expr::Grouping(inner) => inner.evaluate(variables, diagnostics),
            Expr::Unary { operator, right } => {
                let operand = right.evaluate(variables, diagnostics);
                match apply_unary(operator.ttype, &operand) {
                    Ok(value) => value,
                    Err(fault) => {
                        diagnostics.push(ScrapError::error(fault, operator.line));
                        obj::Null
                    },
                }
            },
            Expr::Binary { left, operator, right } => {
                let first = left.evaluate(variables, diagnostics);
                let second = right.evaluate(variables, diagnostics);
                match apply_binary(operator.ttype, &first, &second) {
                    Ok(value) => value,
                    Err(fault) => {
                        diagnostics.push(ScrapError::error(fault, operator.line));
                        obj::Null
                    },
                }
            },
            Expr::VariableReference { name } => {
                match variables.get(&name.lexeme) {
                    Some(value) => value,
                    None => {
                        diagnostics.push(ScrapError::error(Fault::UndefinedVariable, name.line));
                        obj::Null
                    },
                }
            },
            Expr::VariableAssign { name, value } => {
                let assigned = value.evaluate(variables, diagnostics);
                variables.insert(name.lexeme.clone(), assigned.clone());
                assigned
            },
        }
    }
}

impl Interpreter {
    /// The state of the program that this interpreter runs.
    pub open spec fn run(&self) -> Run {
        Run {
            variables: self.variables@,
            output: values_of(self.output@),
            diagnostics: self.diagnostics@,
        }
    }

    /// True when `other` holds the same program and the same limit, at the
    /// same place.
    pub open spec fn same_program(&self, other: &Interpreter) -> bool {
        &&& self.expressions == other.expressions
        &&& self.statements == other.statements
        &&& self.index == other.index
        &&& self.loop_limit == other.loop_limit
    }

    /// An interpreter for the given program, with no variable, nothing
    /// printed, and the highest loop limit.
    pub fn new(expressions: Vec<Expr>, statements: Vec<Stmt>) -> (interpreter: Interpreter)
        ensures
            interpreter.expressions == expressions,
            interpreter.statements == statements,
            interpreter.index == 0,
            interpreter.loop_limit == usize::MAX,
            interpreter.run() =~= (Run {
                variables: Map::empty(),
                output: Seq::empty(),
                diagnostics: Seq::empty(),
            }),
    {
        Interpreter {
            expressions,
            variables: Environment::new(),
            statements,
            index: 0,
            output: Vec::new(),
            diagnostics: Vec::new(),
            loop_limit: usize::MAX,
        }
    }

    /// Evaluates an expression in the state of this interpreter.
    fn evaluate(&mut self, expr: &Expr) -> (value: obj)
        ensures
            value@ == evaluation(expr@, old(self).run().variables).value,
            final(self).run() =~= after(old(self).run(), evaluation(expr@, old(self).run().variables)),
            final(self).same_program(old(self)),
    {
        expr.evaluate(&mut self.variables, &mut self.diagnostics)
    }

    /// Records a fault found on a line.
    fn fail(&mut self, fault: Fault, line: usize)
        ensures
            final(self).run() =~= failed(old(self).run(), fault, line),
            final(self).same_program(old(self)),
    {
        self.diagnostics.push(ScrapError::error(fault, line));
    }

    /// Runs the next statement of the program, if one is left, and says
    /// whether it ran one.
    pub fn step(&mut self) -> (ran: bool)
        ensures
            ran == (old(self).index < old(self).statements@.len()),
            final(self).expressions == old(self).expressions,
            final(self).statements == old(self).statements,
            final(self).loop_limit == old(self).loop_limit,
            ran ==> final(self).index == old(self).index + 1 && final(self).run() =~= run_statement(
                old(self).statements@[old(self).index as int]@,
                old(self).run(),
                old(self).loop_limit as nat,
            ),
            !ran ==> final(self).index == old(self).index && final(self).run() =~= old(self).run(),
    {
        if self.index < self.statements.len() {
            let mut program: Vec<Stmt> = Vec::new();
            swap(&mut self.statements, &mut program);
            Stmt::run_stmt(&program[self.index], self);
            self.index += 1;
            swap(&mut self.statements, &mut program);
            true
        } else {
            false
        }
    }

    /// Runs the statements of the program that were not run yet, in order.
    pub fn start(&mut self)
        ensures
            final(self).run() =~= run_all(
                program_of(old(self).statements@),
                old(self).run(),
                old(self).loop_limit as nat,
                old(self).index as nat,
            ),
            final(self).expressions == old(self).expressions,
            final(self).statements == old(self).statements,
            final(self).loop_limit == old(self).loop_limit,
            final(self).index == (if old(self).index < old(self).statements@.len() {
                old(self).statements@.len() as int
            } else {
                old(self).index as int
            }),
    {
        let mut program: Vec<Stmt> = Vec::new();
        swap(&mut self.statements, &mut program);
        let ghost before = self.run();
        let ghost start = self.index as nat;
        while self.index < program.len()
            invariant
                self.expressions == old(self).expressions,
                self.loop_limit == old(self).loop_limit,
                self.statements@.len() == 0,
                program == old(self).statements,
                start <= self.index,
                start < program.len() ==> self.index <= program.len(),
                start >= program.len() ==> self.index == start,
                run_all(program_of(program@), before, self.loop_limit as nat, start) == run_all(
                    program_of(program@),
                    self.run(),
                    self.loop_limit as nat,
                    self.index as nat,
                ),
            decreases program.len() - self.index,
        {
            Stmt::run_stmt(&program[self.index], self);
            self.index += 1;
        }
        swap(&mut self.statements, &mut program);
    }
}

/// Whether the statement is a block without any statement.
fn empty_block(statement: &Stmt) -> (empty: bool)
    ensures
        empty == is_empty_block(statement@),
{
    match statement {
        Stmt::Block(statements) => statements.len() == 0,
        _ => false,
    }
}

impl Stmt {
    /// Runs one statement in the state of the interpreter.
    pub fn run_stmt(stmt: &Stmt, interpreter: &mut Interpreter)
        ensures
            final(interpreter).run() =~= run_statement(
                stmt@,
                old(interpreter).run(),
                old(interpreter).loop_limit as nat,
            ),
            final(interpreter).same_program(old(interpreter)),
        decreases stmt,
    {
        let ghost before = interpreter.run();
        let ghost limit = interpreter.loop_limit as nat;
        match stmt {
            Stmt::Expression(expr) => {
                let _ = interpreter.evaluate(expr);
            },
            Stmt::Print { line, value } => {
                match &**value {
                    Stmt::Expression(expr) => {
                        assert(value.model() == StmtView::Expression(expr@));
                        let shown = interpreter.evaluate(expr);
                        interpreter.output.push(shown);
                    },
                    _ => {
                        assert(!(value.model() is Expression));
                        interpreter.fail(Fault::NotPrintable, *line);
                    },
                }
            },
            Stmt::VariableDeclaration { identifier, initializer } => {
                match initializer {
                    Some(expr) => {
                        let initial = interpreter.evaluate(expr);
                        interpreter.variables.insert(identifier.clone(), initial);
                    },
                    None => {
                        interpreter.variables.insert(identifier.clone(), obj::Null);
                    },
                }
            },
            Stmt::Block(statements) => {
                let ghost models = program_of(statements@);
                assert(stmt@->Block_0 =~= models);
                let mut i: usize = 0;
                while i < statements.len()
                    invariant
                        i <= statements.len(),
                        stmt == Stmt::Block(*statements),
                        models == program_of(statements@),
                        limit == interpreter.loop_limit,
                        interpreter.same_program(old(interpreter)),
                        run_all(models, before, limit, 0) == run_all(
                            models,
                            interpreter.run(),
                            limit,
                            i as nat,
                        ),
                    decreases statements.len() - i,
                {
                    assert(decreases_to!(*stmt => stmt->Block_0));
                    assert(decreases_to!(stmt->Block_0 => stmt->Block_0[i as int]));
                    Stmt::run_stmt(&statements[i], interpreter);
                    i += 1;
                }
            },
            Stmt::Ifstmt { line, expr, block, elseblock } => {
                let condition = interpreter.evaluate(expr);
                match condition {
                    obj::Bool(true) => {
                        Stmt::run_stmt(block, interpreter);
                    },
                    obj::Bool(false) => {
                        match elseblock {
                            Some(other) => {
                                Stmt::run_stmt(other, interpreter);
                            },
                            None => {},
                        }
                    },
                    _ => {
                        interpreter.fail(Fault::ConditionNotBoolean, *line);
                    },
                }
            },
            Stmt::WhileStmt { line, expr, block } => {
                let mut remaining: usize = interpreter.loop_limit;
                let mut running = true;
                while running
                    invariant
                        stmt == (Stmt::WhileStmt { line: *line, expr: *expr, block: *block }),
                        interpreter.same_program(old(interpreter)),
                        limit == interpreter.loop_limit,
                        running ==> run_loop(stmt@, before, limit, limit) == run_loop(
                            stmt@,
                            interpreter.run(),
                            limit,
                            remaining as nat,
                        ),
                        !running ==> run_loop(stmt@, before, limit, limit) == interpreter.run(),
                    decreases
                            if running {
                                remaining + 1
                            } else {
                                0
                            },
                {
                    let condition = interpreter.evaluate(expr);
                    match condition {
                        obj::Bool(true) => {
                            if empty_block(block) {
                                interpreter.fail(Fault::EmptyLoopBody, *line);
                                running = false;
                            } else if remaining == 0 {
                                interpreter.fail(Fault::LoopLimit, *line);
                                running = false;
                            } else {
                                Stmt::run_stmt(block, interpreter);
                                remaining -= 1;
                            }
                        },
                        obj::Bool(false) => {
                            running = false;
                        },
                        _ => {
                            interpreter.fail(Fault::ConditionNotBoolean, *line);
                            running = false;
                        },
                    }
                }
            },
        }
    }
}

} // verus!
