//! The expression evaluator: it evaluates a list of expressions in order and
//! keeps the value of each.

use crate::ast::{Expr, ExprView};
use crate::environment::Environment;
use crate::error::Diagnostic;
use crate::interpreter::values_of;
use crate::object::obj;
use crate::semantics::{after, evaluation, Run};
use vstd::prelude::*;

verus! {

/// The models of a sequence of expressions, in order.
pub open spec fn expressions_of(expressions: Seq<Expr>) -> Seq<ExprView> {
    Seq::new(expressions.len(), |i: int| expressions[i]@)
}

/// The state after the expressions from `from` on were evaluated in order,
/// the value of each added to the output.
pub open spec fn evaluate_all(expressions: Seq<ExprView>, run: Run, from: nat) -> Run
    decreases expressions.len() - from,
{
    if from >= expressions.len() {
        run
    } else {
        let evaluated = evaluation(expressions[from as int], run.variables);
        let next = after(run, evaluated);
        evaluate_all(
            expressions,
            Run {
                variables: next.variables,
                output: next.output.push(evaluated.value),
                diagnostics: next.diagnostics,
            },
            from + 1,
        )
    }
}

/// Evaluates expressions against one environment.
pub struct Evaluator {
    /// The expressions to evaluate.
    pub expressions: Vec<Expr>,
    /// The variables that the expressions read and assign.
    pub variables: Environment,
    /// The number of expressions that were evaluated.
    pub index: usize,
    /// The values of the expressions evaluated so far, in order.
    pub values: Vec<obj>,
    /// The diagnostics raised so far, in order.
    pub diagnostics: Vec<Diagnostic>,
}

impl Evaluator {
    /// The state of this evaluator, the values taken as the output.
    pub open spec fn run(&self) -> Run {
        Run {
            variables: self.variables@,
            output: values_of(self.values@),
            diagnostics: self.diagnostics@,
        }
    }

    /// An evaluator for the given expressions, with no variable and no value.
    pub fn new(expressions: Vec<Expr>) -> (evaluator: Evaluator)
        ensures
            evaluator.expressions == expressions,
            evaluator.index == 0,
            evaluator.run() =~= (Run {
                variables: Map::empty(),
                output: Seq::empty(),
                diagnostics: Seq::empty(),
            }),
    {
        Evaluator {
            expressions,
            variables: Environment::new(),
            index: 0,
            values: Vec::new(),
            diagnostics: Vec::new(),
        }
    }

    /// Evaluates the expressions that were not evaluated yet, in order.
    pub fn start(&mut self)
        ensures
            final(self).run() =~= evaluate_all(
                expressions_of(old(self).expressions@),
                old(self).run(),
                old(self).index as nat,
            ),
            final(self).expressions == old(self).expressions,
            final(self).index == (if old(self).index < old(self).expressions@.len() {
                old(self).expressions@.len() as int
            } else {
                old(self).index as int
            }),
    {
        let ghost before = self.run();
        let ghost start = self.index as nat;
        let ghost models = expressions_of(self.expressions@);
        while self.index < self.expressions.len()
            invariant
                self.expressions == old(self).expressions,
                models == expressions_of(self.expressions@),
                start <= self.index,
                start < self.expressions.len() ==> self.index <= self.expressions.len(),
                start >= self.expressions.len() ==> self.index == start,
                evaluate_all(models, before, start) == evaluate_all(
                    models,
                    self.run(),
                    self.index as nat,
                ),
            decreases self.expressions.len() - self.index,
        {
            let ghost current = self.run();
            let value = self.expressions[self.index].evaluate(
                &mut self.variables,
                &mut self.diagnostics,
            );
            self.values.push(value);
            self.index += 1;
            assert(self.run() =~= {
                let evaluated = evaluation(models[self.index - 1], current.variables);
                let next = after(current, evaluated);
                Run {
                    variables: next.variables,
                    output: next.output.push(evaluated.value),
                    diagnostics: next.diagnostics,
                }
            });
        }
    }
}

} // verus!
