//! The meaning of expressions and statements, as mathematical functions.
//!
//! Evaluation is strict and goes from left to right: the operands of a
//! binary operator are both evaluated, the left one first, whatever the
//! operator is. A failure is recorded as a diagnostic and yields null.

use crate::ast::{ExprView, StmtView};
use crate::error::{report, Diagnostic, Fault, ScrapError};
use crate::object::Value;
use crate::token::TokenView;
use crate::operators::{binary_result, unary_result};
use vstd::prelude::*;

verus! {

/// What evaluating an expression gives: its value, the variables as the
/// evaluation left them, and the diagnostics that it raised, in order.
#[verifier::ext_equal]
pub struct Evaluation {
    pub value: Value,
    pub variables: Map<Seq<char>, Value>,
    pub diagnostics: Seq<Diagnostic>,
}

/// The state of a running program: its variables, the values printed so
/// far and the diagnostics raised so far, both in order.
#[verifier::ext_equal]
pub struct Run {
    pub variables: Map<Seq<char>, Value>,
    pub output: Seq<Value>,
    pub diagnostics: Seq<Diagnostic>,
}

/// The value of an operation that may have failed: null after a failure.
pub open spec fn settled(result: Result<Value, Fault>) -> Value {
    match result {
        Ok(value) => value,
        Err(_) => Value::Null,
    }
}

/// The diagnostics of an operation on `line` that may have failed.
pub open spec fn raised(result: Result<Value, Fault>, line: usize) -> Seq<Diagnostic> {
    match result {
        Ok(_) => Seq::empty(),
        Err(fault) => seq![report(fault, line)],
    }
}

/// The evaluation of an expression in the given variables.
pub open spec fn evaluation(expr: ExprView, variables: Map<Seq<char>, Value>) -> Evaluation
    decreases expr,
{
    match expr {
        ExprView::Literal(value) => Evaluation { value, variables, diagnostics: Seq::empty() },
        ExprView::Grouping(inner) => evaluation(*inner, variables),
        ExprView::Unary { operator, right } => {
            let operand = evaluation(*right, variables);
            let result = unary_result(operator.ttype, operand.value);
            Evaluation {
                value: settled(result),
                variables: operand.variables,
                diagnostics: operand.diagnostics + raised(result, operator.line),
            }
        },
        ExprView::Binary { left, operator, right } => {
            let first = evaluation(*left, variables);
            let second = evaluation(*right, first.variables);
            let result = binary_result(operator.ttype, first.value, second.value);
            Evaluation {
                value: settled(result),
                variables: second.variables,
                diagnostics: first.diagnostics + second.diagnostics + raised(
                    result,
                    operator.line,
                ),
            }
        },
        ExprView::VariableReference { name } => {
            if variables.contains_key(name.lexeme) {
                Evaluation {
                    value: variables[name.lexeme],
                    variables,
                    diagnostics: Seq::empty(),
                }
            } else {
                Evaluation {
                    value: Value::Null,
                    variables,
                    diagnostics: seq![report(Fault::UndefinedVariable, name.line)],
                }
            }
        },
        ExprView::VariableAssign { name, value } => {
            let assigned = evaluation(*value, variables);
            Evaluation {
                value: assigned.value,
                variables: assigned.variables.insert(name.lexeme, assigned.value),
                diagnostics: assigned.diagnostics,
            }
        },
    }
}

/// The state after an expression was evaluated in it.
pub open spec fn after(run: Run, evaluated: Evaluation) -> Run {
    Run {
        variables: evaluated.variables,
        output: run.output,
        diagnostics: run.diagnostics + evaluated.diagnostics,
    }
}

/// The state with one more diagnostic.
pub open spec fn failed(run: Run, fault: Fault, line: usize) -> Run {
    Run {
        variables: run.variables,
        output: run.output,
        diagnostics: run.diagnostics.push(report(fault, line)),
    }
}

/// The state after a statement was run in `run`. No `while` goes through its
/// body more than `limit` times in a row.
pub open spec fn run_statement(statement: StmtView, run: Run, limit: nat) -> Run
    decreases statement, 1nat, 0nat,
{
    match statement {
        StmtView::Expression(expr) => after(run, evaluation(expr, run.variables)),
        StmtView::Print { line, value } => match *value {
            StmtView::Expression(expr) => {
                let shown = evaluation(expr, run.variables);
                let next = after(run, shown);
                Run {
                    variables: next.variables,
                    output: next.output.push(shown.value),
                    diagnostics: next.diagnostics,
                }
            },
            _ => failed(run, Fault::NotPrintable, line),
        },
        StmtView::VariableDeclaration { identifier, initializer } => match initializer {
            Some(expr) => {
                let initial = evaluation(expr, run.variables);
                let next = after(run, initial);
                Run {
                    variables: next.variables.insert(identifier, initial.value),
                    output: next.output,
                    diagnostics: next.diagnostics,
                }
            },
            None => Run {
                variables: run.variables.insert(identifier, Value::Null),
                output: run.output,
                diagnostics: run.diagnostics,
            },
        },
        StmtView::Block(statements) => run_all(statements, run, limit, 0),
        StmtView::Ifstmt { line, expr, block, elseblock } => {
            let condition = evaluation(expr, run.variables);
            let next = after(run, condition);
            match condition.value {
                Value::Bool(true) => run_statement(*block, next, limit),
                Value::Bool(false) => match elseblock {
                    Some(other) => run_statement(*other, next, limit),
                    None => next,
                },
                _ => failed(next, Fault::ConditionNotBoolean, line),
            }
        },
        StmtView::WhileStmt { line, expr, block } => run_loop(statement, run, limit, limit),
    }
}

/// The state after the statements from `from` on were run in order.
pub open spec fn run_all(statements: Seq<StmtView>, run: Run, limit: nat, from: nat) -> Run
    decreases statements, 0nat, statements.len() - from,
{
    if from >= statements.len() {
        run
    } else {
        run_all(statements, run_statement(statements[from as int], run, limit), limit, from + 1)
    }
}

/// True for a block without any statement.
pub open spec fn is_empty_block(statement: StmtView) -> bool {
    statement matches StmtView::Block(statements) && statements.len() == 0
}

/// The state after a `while` was run that may go through its body
/// `remaining` more times. The loop ends when its condition is false. It
/// ends with a diagnostic when the condition is no boolean, when the body is
/// an empty block, and when the condition still holds after the last
/// iteration allowed.
pub open spec fn run_loop(statement: StmtView, run: Run, limit: nat, remaining: nat) -> Run
    decreases statement, 0nat, remaining,
{
    match statement {
        StmtView::WhileStmt { line, expr, block } => {
            let condition = evaluation(expr, run.variables);
            let next = after(run, condition);
            match condition.value {
                Value::Bool(true) => {
                    if is_empty_block(*block) {
                        failed(next, Fault::EmptyLoopBody, line)
                    } else if remaining == 0 {
                        failed(next, Fault::LoopLimit, line)
                    } else {
                        run_loop(
                            statement,
                            run_statement(*block, next, limit),
                            limit,
                            (remaining - 1) as nat,
                        )
                    }
                },
                Value::Bool(false) => next,
                _ => failed(next, Fault::ConditionNotBoolean, line),
            }
        },
        _ => run,
    }
}

/// The kind of every diagnostic in the sequence is the evaluator's.
pub open spec fn all_recoverable(diagnostics: Seq<Diagnostic>) -> bool {
    forall|i: int|
        0 <= i < diagnostics.len() ==> (#[trigger] diagnostics[i]).kind
            == ScrapError::EvaluatorError
}

/// No operator is skipped over: both operands of a binary operator are
/// evaluated, the left one first and the right one in the variables that
/// the left one left, whatever operator it is and whatever the left operand
/// gave. So an assignment in the right operand of `and` or `or` always
/// takes effect.
pub proof fn law_operands_both_evaluated(
    left: ExprView,
    operator: TokenView,
    right: ExprView,
    variables: Map<Seq<char>, Value>,
)
    ensures
        ({
            let whole = evaluation(
                ExprView::Binary { left: Box::new(left), operator, right: Box::new(right) },
                variables,
            );
            let first = evaluation(left, variables);
            let second = evaluation(right, first.variables);
            let result = binary_result(operator.ttype, first.value, second.value);
            &&& whole.variables == second.variables
            &&& whole.diagnostics == first.diagnostics + second.diagnostics + raised(
                result,
                operator.line,
            )
            &&& whole.value == settled(result)
        }),
{
}

/// True when both values are of one type.
pub open spec fn same_type(a: Value, b: Value) -> bool {
    ||| a is Num && b is Num
    ||| a is Str && b is Str
    ||| a is Bool && b is Bool
    ||| a is Null && b is Null
}

/// An operator between values of two different types is a type mismatch,
/// whatever the operator is: the result is null, and one diagnostic of the
/// evaluator's kind is raised on the line of the operator.
pub proof fn law_mismatch_is_one_error(
    a: Value,
    operator: TokenView,
    b: Value,
    variables: Map<Seq<char>, Value>,
)
    requires
        !same_type(a, b),
    ensures
        binary_result(operator.ttype, a, b) == Err::<Value, Fault>(Fault::TypeMismatch),
        ({
            let whole = evaluation(
                ExprView::Binary {
                    left: Box::new(ExprView::Literal(a)),
                    operator,
                    right: Box::new(ExprView::Literal(b)),
                },
                variables,
            );
            &&& whole.value == Value::Null
            &&& whole.variables == variables
            &&& whole.diagnostics == seq![report(Fault::TypeMismatch, operator.line)]
            &&& whole.diagnostics[0].kind == ScrapError::EvaluatorError
        }),
{
    let whole = evaluation(
        ExprView::Binary {
            left: Box::new(ExprView::Literal(a)),
            operator,
            right: Box::new(ExprView::Literal(b)),
        },
        variables,
    );
    let first = evaluation(ExprView::Literal(a), variables);
    let second = evaluation(ExprView::Literal(b), first.variables);
    assert(first.value == a && first.variables == variables);
    assert(second.value == b && second.variables == variables);
    assert(first.diagnostics + second.diagnostics =~= Seq::<Diagnostic>::empty());
    assert(whole.diagnostics =~= seq![report(Fault::TypeMismatch, operator.line)]);
}

/// Evaluation raises nothing but errors of the evaluator's kind, from which
/// the run recovers.
pub proof fn law_evaluation_recovers(expr: ExprView, variables: Map<Seq<char>, Value>)
    ensures
        all_recoverable(evaluation(expr, variables).diagnostics),
    decreases expr,
{
    match expr {
        ExprView::Literal(value) => {},
        ExprView::Grouping(inner) => {
            law_evaluation_recovers(*inner, variables);
        },
        ExprView::Unary { operator, right } => {
            law_evaluation_recovers(*right, variables);
        },
        ExprView::Binary { left, operator, right } => {
            law_evaluation_recovers(*left, variables);
            law_evaluation_recovers(*right, evaluation(*left, variables).variables);
        },
        ExprView::VariableReference { name } => {},
        ExprView::VariableAssign { name, value } => {
            law_evaluation_recovers(*value, variables);
        },
    }
}

/// Running a statement raises nothing but errors of the evaluator's kind.
pub proof fn law_statement_recovers(statement: StmtView, run: Run, limit: nat)
    requires
        all_recoverable(run.diagnostics),
    ensures
        all_recoverable(run_statement(statement, run, limit).diagnostics),
    decreases statement, 1nat, 0nat,
{
    match statement {
        StmtView::Expression(expr) => {
            law_evaluation_recovers(expr, run.variables);
        },
        StmtView::Print { line, value } => match *value {
            StmtView::Expression(expr) => {
                law_evaluation_recovers(expr, run.variables);
            },
            _ => {},
        },
        StmtView::VariableDeclaration { identifier, initializer } => match initializer {
            Some(expr) => {
                law_evaluation_recovers(expr, run.variables);
            },
            None => {},
        },
        StmtView::Block(statements) => {
            law_program_recovers(statements, run, limit, 0);
        },
        StmtView::Ifstmt { line, expr, block, elseblock } => {
            let condition = evaluation(expr, run.variables);
            law_evaluation_recovers(expr, run.variables);
            let next = after(run, condition);
            match condition.value {
                Value::Bool(true) => {
                    law_statement_recovers(*block, next, limit);
                },
                Value::Bool(false) => match elseblock {
                    Some(other) => {
                        law_statement_recovers(*other, next, limit);
                    },
                    None => {},
                },
                _ => {},
            }
        },
        StmtView::WhileStmt { line, expr, block } => {
            lemma_loop_recovers(statement, run, limit, limit);
        },
    }
}

/// Running a program raises nothing but errors of the evaluator's kind.
pub proof fn law_program_recovers(statements: Seq<StmtView>, run: Run, limit: nat, from: nat)
    requires
        all_recoverable(run.diagnostics),
    ensures
        all_recoverable(run_all(statements, run, limit, from).diagnostics),
    decreases statements, 0nat, statements.len() - from,
{
    if from < statements.len() {
        law_statement_recovers(statements[from as int], run, limit);
        law_program_recovers(
            statements,
            run_statement(statements[from as int], run, limit),
            limit,
            from + 1,
        );
    }
}

proof fn lemma_loop_recovers(statement: StmtView, run: Run, limit: nat, remaining: nat)
    requires
        all_recoverable(run.diagnostics),
    ensures
        all_recoverable(run_loop(statement, run, limit, remaining).diagnostics),
    decreases statement, 0nat, remaining,
{
    match statement {
        StmtView::WhileStmt { line, expr, block } => {
            let condition = evaluation(expr, run.variables);
            law_evaluation_recovers(expr, run.variables);
            let next = after(run, condition);
            match condition.value {
                Value::Bool(true) => {
                    if !is_empty_block(*block) && remaining != 0 {
                        law_statement_recovers(*block, next, limit);
                        lemma_loop_recovers(
                            statement,
                            run_statement(*block, next, limit),
                            limit,
                            (remaining - 1) as nat,
                        );
                    }
                },
                _ => {},
            }
        },
        _ => {},
    }
}

/// A variable that was never assigned reads as null, with one diagnostic on
/// the line of its name; the variables stay as they are.
pub proof fn law_undefined_variable(name: TokenView, variables: Map<Seq<char>, Value>)
    requires
        !variables.contains_key(name.lexeme),
    ensures
        evaluation(ExprView::VariableReference { name }, variables) == (Evaluation {
            value: Value::Null,
            variables,
            diagnostics: seq![report(Fault::UndefinedVariable, name.line)],
        }),
{
}

/// A variable reads as the value that was last assigned to it: after an
/// assignment, a reference to the same name gives the assigned value and
/// raises nothing, whatever the variable held before.
pub proof fn law_read_after_assign(
    name: TokenView,
    value: ExprView,
    reference: TokenView,
    variables: Map<Seq<char>, Value>,
)
    requires
        reference.lexeme == name.lexeme,
    ensures
        ({
            let assigned = evaluation(ExprView::VariableAssign { name, value: Box::new(value) }, variables);
            let read = evaluation(ExprView::VariableReference { name: reference }, assigned.variables);
            &&& assigned.value == evaluation(value, variables).value
            &&& read.value == assigned.value
            &&& read.diagnostics.len() == 0
            &&& read.variables == assigned.variables
        }),
{
}

/// `if` runs exactly one branch: the first where its condition is true, the
/// second where it is false and there is one, and none where it is false and
/// there is none. The condition is evaluated once, before the branch.
pub proof fn law_if_takes_one_branch(
    line: usize,
    expr: ExprView,
    block: StmtView,
    elseblock: Option<StmtView>,
    run: Run,
    limit: nat,
)
    requires
        evaluation(expr, run.variables).value is Bool,
    ensures
        ({
            let whole = StmtView::Ifstmt {
                line,
                expr,
                block: Box::new(block),
                elseblock: match elseblock {
                    Some(other) => Some(Box::new(other)),
                    None => None,
                },
            };
            let condition = evaluation(expr, run.variables);
            let next = after(run, condition);
            run_statement(whole, run, limit) == (if condition.value == Value::Bool(true) {
                run_statement(block, next, limit)
            } else {
                match elseblock {
                    Some(other) => run_statement(other, next, limit),
                    None => next,
                }
            })
        }),
{
}

/// `while` goes on as long as its condition is true: where the condition is
/// true, the body holds a statement and an iteration is left, the loop is
/// its body followed by the loop again; where the condition is false the
/// loop ends at once, with the condition evaluated and nothing else done.
pub proof fn law_while_unrolls(
    line: usize,
    expr: ExprView,
    block: StmtView,
    run: Run,
    limit: nat,
    remaining: nat,
)
    requires
        evaluation(expr, run.variables).value is Bool,
        !is_empty_block(block),
        remaining > 0,
    ensures
        ({
            let whole = StmtView::WhileStmt { line, expr, block: Box::new(block) };
            let condition = evaluation(expr, run.variables);
            let next = after(run, condition);
            run_loop(whole, run, limit, remaining) == (if condition.value == Value::Bool(true) {
                run_loop(whole, run_statement(block, next, limit), limit, (remaining - 1) as nat)
            } else {
                next
            })
        }),
{
}

/// A failure does not end the run: whatever a statement raised, the
/// statements after it are run, in the state that it left.
pub proof fn law_run_goes_on(statements: Seq<StmtView>, run: Run, limit: nat, from: nat)
    requires
        from < statements.len(),
    ensures
        run_all(statements, run, limit, from) == run_all(
            statements,
            run_statement(statements[from as int], run, limit),
            limit,
            from + 1,
        ),
{
}

} // verus!
