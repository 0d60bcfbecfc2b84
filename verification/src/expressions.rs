//! Decoded expressions, their evaluation, and what holds of it.

use vstd::prelude::*;
use crate::error::GepError;
use crate::scalar::{all_finite, lemma_zero_and_max_are_finite, Scalar, ZERO_BITS};
use crate::stack_operation::{
    function_of, is_function, step, step_depth, step_model, Calculation, Stack, StackOperation,
    Step,
};

verus! {

/// The top of a stack, or zero where the stack is empty.
pub open spec fn top_or_zero(stack: Seq<Scalar>) -> Scalar {
    if stack.len() == 0 {
        Scalar { bits: ZERO_BITS }
    } else {
        stack.last()
    }
}

/// The mathematical content of a list of steps: that of each step, in order.
pub open spec fn program_model(ops: Seq<StackOperation>) -> Seq<Step>
    decreases ops,
{
    if ops.len() == 0 {
        Seq::empty()
    } else {
        program_model(ops.drop_last()).push(step_model(ops.last()))
    }
}

/// The content of a list of steps has one entry for each step.
pub proof fn lemma_program_model(ops: Seq<StackOperation>)
    ensures
        program_model(ops).len() == ops.len(),
        forall|i: int| 0 <= i < ops.len() ==> program_model(ops)[i] == #[trigger] step_model(ops[i]),
    decreases ops.len(),
{
    if ops.len() > 0 {
        lemma_program_model(ops.drop_last());
        assert forall|i: int| 0 <= i < ops.len() implies program_model(ops)[i] == #[trigger] step_model(
            ops[i],
        ) by {
            if i < ops.len() - 1 {
                assert(ops.drop_last()[i] == ops[i]);
            }
        }
    }
}

/// The stack that running `ops` in order leaves, starting from an empty one,
/// or the first fault met on the way.
pub open spec fn run(
    ops: Seq<Step>,
    args: Seq<Scalar>,
    arith: spec_fn(Calculation) -> Scalar,
) -> Result<Seq<Scalar>, GepError>
    decreases ops,
{
    if ops.len() == 0 {
        Ok(Seq::empty())
    } else {
        match run(ops.drop_last(), args, arith) {
            Ok(stack) => step(ops.last(), stack, args, arith),
            Err(fault) => Err(fault),
        }
    }
}

/// How many numbers running `ops` in order leaves on the stack, where
/// `supplied` arguments can be read, or the first fault met on the way.
pub open spec fn depth_after(ops: Seq<Step>, supplied: nat) -> Result<nat, GepError>
    decreases ops,
{
    if ops.len() == 0 {
        Ok(0)
    } else {
        match depth_after(ops.drop_last(), supplied) {
            Ok(depth) => step_depth(ops.last(), depth, supplied),
            Err(fault) => Err(fault),
        }
    }
}

/// The number that `ops` compute from `args`, or the first fault.
pub open spec fn value(
    ops: Seq<Step>,
    args: Seq<Scalar>,
    arith: spec_fn(Calculation) -> Scalar,
) -> Result<Scalar, GepError> {
    match run(ops, args, arith) {
        Ok(stack) => Ok(top_or_zero(stack)),
        Err(fault) => Err(fault),
    }
}

/// A decoded program for one number: steps to carry out in order.
#[derive(Debug, Clone, PartialEq)]
pub struct Expression {
    pub operations: Vec<StackOperation>,
}

impl View for Expression {
    type V = Seq<Step>;

    open spec fn view(&self) -> Seq<Step> {
        program_model(self.operations@)
    }
}

impl Expression {
    pub fn new(operations: Vec<StackOperation>) -> (expr: Expression)
        ensures
            expr.operations == operations,
    {
        Expression { operations }
    }

    /// Runs the expression on `args`, asking `arith` for the arithmetic.
    ///
    /// The run faults exactly when `depth_after` does, and with its fault,
    /// and its result is finite where the arguments are, whatever `arith`
    /// returns. Where `arith` computes a function, the result is the number
    /// that `value` gives for that function.
    pub fn compute_result<F: Fn(Calculation) -> Scalar>(
        &self,
        args: &Vec<Scalar>,
        arith: &F,
    ) -> (outcome: Result<Scalar, GepError>)
        requires
            forall|c: Calculation| arith.requires((c,)),
        ensures
            match depth_after(self@, args@.len()) {
                Ok(_) => outcome is Ok,
                Err(fault) => outcome == Err::<Scalar, GepError>(fault),
            },
            all_finite(args@) ==> (outcome matches Ok(result) ==> result.spec_is_finite()),
            is_function(arith) ==> outcome == value(self@, args@, function_of(arith)),
        decreases self,
    {
        let mut stack = Stack::new(args);
        let mut done: usize = 0;
        while done < self.operations.len()
            invariant
                done <= self.operations.len(),
                stack.args() == args@,
                forall|c: Calculation| arith.requires((c,)),
                depth_after(self@.take(done as int), args@.len()) == Ok::<nat, GepError>(
                    stack@.len(),
                ),
                all_finite(args@) ==> all_finite(stack@),
                is_function(arith) ==> run(
                    self@.take(done as int),
                    args@,
                    function_of(arith),
                ) == Ok::<Seq<Scalar>, GepError>(stack@),
            decreases self.operations.len() - done,
        {
            proof {
                lemma_program_model(self.operations@);
            }
            assert(self@.take(done + 1).drop_last() =~= self@.take(done as int));
            match self.operations[done].update_stack(&mut stack, arith) {
                Ok(()) => {},
                Err(fault) => {
                    proof {
                        lemma_depth_fault_stays(self@, done + 1, args@.len());
                        if is_function(arith) {
                            lemma_fault_stays(
                                self@,
                                done + 1,
                                args@,
                                function_of(arith),
                            );
                        }
                    }
                    return Err(fault);
                },
            }
            done += 1;
        }
        proof {
            lemma_program_model(self.operations@);
            lemma_zero_and_max_are_finite();
        }
        assert(self@.take(done as int) =~= self@);
        Ok(stack.result())
    }
}

/// The numbers that the programs compute from the same arguments, in order,
/// or the first fault that one of them meets.
pub open spec fn values(
    programs: Seq<Seq<Step>>,
    args: Seq<Scalar>,
    arith: spec_fn(Calculation) -> Scalar,
) -> Result<Seq<Scalar>, GepError>
    decreases programs.len(),
{
    if programs.len() == 0 {
        Ok(Seq::empty())
    } else {
        match values(programs.drop_last(), args, arith) {
            Ok(results) => match value(programs.last(), args, arith) {
                Ok(result) => Ok(results.push(result)),
                Err(fault) => Err(fault),
            },
            Err(fault) => Err(fault),
        }
    }
}

/// The first fault that one of the programs meets where `supplied`
/// arguments can be read, if one does.
pub open spec fn first_fault(programs: Seq<Seq<Step>>, supplied: nat) -> Option<GepError>
    decreases programs.len(),
{
    if programs.len() == 0 {
        None
    } else {
        match first_fault(programs.drop_last(), supplied) {
            Some(fault) => Some(fault),
            None => match depth_after(programs.last(), supplied) {
                Ok(_) => None,
                Err(fault) => Some(fault),
            },
        }
    }
}

/// A fault met on the first programs is the first fault of them all.
pub proof fn lemma_first_fault_stays(programs: Seq<Seq<Step>>, n: int, supplied: nat)
    requires
        0 <= n <= programs.len(),
        first_fault(programs.take(n), supplied) is Some,
    ensures
        first_fault(programs, supplied) == first_fault(programs.take(n), supplied),
    decreases programs.len() - n,
{
    if n == programs.len() {
        assert(programs.take(n) =~= programs);
    } else {
        assert(programs.take(n + 1).drop_last() =~= programs.take(n));
        lemma_first_fault_stays(programs, n + 1, supplied);
    }
}

/// A fault met on the first programs is the fault of them all.
pub proof fn lemma_values_fault_stays(
    programs: Seq<Seq<Step>>,
    n: int,
    args: Seq<Scalar>,
    arith: spec_fn(Calculation) -> Scalar,
)
    requires
        0 <= n <= programs.len(),
        values(programs.take(n), args, arith) is Err,
    ensures
        values(programs, args, arith) == values(programs.take(n), args, arith),
    decreases programs.len() - n,
{
    if n == programs.len() {
        assert(programs.take(n) =~= programs);
    } else {
        assert(programs.take(n + 1).drop_last() =~= programs.take(n));
        lemma_values_fault_stays(programs, n + 1, args, arith);
    }
}

/// A decoded genotype: one expression for each number it computes, all
/// reading the same arguments.
pub struct RootExpression {
    pub exprs: Vec<Expression>,
    pub args_count: u32,
}

impl RootExpression {
    /// The mathematical content of the expressions, in order.
    pub open spec fn programs(&self) -> Seq<Seq<Step>> {
        Seq::new(self.exprs@.len(), |i: int| self.exprs@[i]@)
    }

    /// Runs every expression on `args`, asking `arith` for the arithmetic.
    ///
    /// Fails with a count mismatch exactly when `args` does not hold as many
    /// numbers as the expressions expect, and otherwise exactly when
    /// `first_fault` finds a fault; the results are finite where the
    /// arguments are. All that holds whatever `arith` returns. Where `arith`
    /// computes a function, the results are those that `values` gives for
    /// that function.
    pub fn compute_result<F: Fn(Calculation) -> Scalar>(
        &self,
        args: &Vec<Scalar>,
        arith: &F,
    ) -> (outcome: Result<Vec<Scalar>, GepError>)
        requires
            forall|c: Calculation| arith.requires((c,)),
        ensures
            args.len() != self.args_count ==> (outcome matches Err(e) && e
                == (GepError::ArgumentCountMismatch {
                declared: self.args_count,
                supplied: args.len(),
            })),
            args.len() == self.args_count ==> match first_fault(self.programs(), args@.len()) {
                None => (outcome matches Ok(computed) && computed@.len() == self.exprs@.len()),
                Some(fault) => (outcome matches Err(e) && e == fault),
            },
            all_finite(args@) ==> (outcome matches Ok(computed) ==> all_finite(computed@)),
            args.len() == self.args_count && is_function(arith) ==> match values(
                self.programs(),
                args@,
                function_of(arith),
            ) {
                Ok(results) => (outcome matches Ok(computed) && computed@ == results),
                Err(fault) => (outcome matches Err(e) && e == fault),
            },
    {
        if args.len() != self.args_count as usize {
            return Err(
                GepError::ArgumentCountMismatch {
                    declared: self.args_count,
                    supplied: args.len(),
                },
            );
        }
        let mut results: Vec<Scalar> = Vec::new();
        let mut done: usize = 0;
        while done < self.exprs.len()
            invariant
                done <= self.exprs.len(),
                args.len() == self.args_count,
                forall|c: Calculation| arith.requires((c,)),
                results@.len() == done,
                first_fault(self.programs().take(done as int), args@.len()) is None,
                all_finite(args@) ==> all_finite(results@),
                is_function(arith) ==> values(
                    self.programs().take(done as int),
                    args@,
                    function_of(arith),
                ) == Ok::<Seq<Scalar>, GepError>(results@),
            decreases self.exprs.len() - done,
        {
            assert(self.programs().take(done + 1).drop_last() =~= self.programs().take(
                done as int,
            ));
            match self.exprs[done].compute_result(args, arith) {
                Ok(result) => {
                    results.push(result);
                },
                Err(fault) => {
                    proof {
                        lemma_first_fault_stays(self.programs(), done + 1, args@.len());
                        if is_function(arith) {
                            lemma_values_fault_stays(
                                self.programs(),
                                done + 1,
                                args@,
                                function_of(arith),
                            );
                        }
                    }
                    return Err(fault);
                },
            }
            done += 1;
        }
        assert(self.programs().take(done as int) =~= self.programs());
        Ok(results)
    }
}

/// A fault met on a prefix of the steps is the fault of them all.
pub proof fn lemma_depth_fault_stays(ops: Seq<Step>, n: int, supplied: nat)
    requires
        0 <= n <= ops.len(),
        depth_after(ops.take(n), supplied) is Err,
    ensures
        depth_after(ops, supplied) == depth_after(ops.take(n), supplied),
    decreases ops.len() - n,
{
    if n == ops.len() {
        assert(ops.take(n) =~= ops);
    } else {
        assert(ops.take(n + 1).drop_last() =~= ops.take(n));
        lemma_depth_fault_stays(ops, n + 1, supplied);
    }
}

/// A fault met on a prefix of the steps is the fault of the whole run.
pub proof fn lemma_fault_stays(
    ops: Seq<Step>,
    n: int,
    args: Seq<Scalar>,
    arith: spec_fn(Calculation) -> Scalar,
)
    requires
        0 <= n <= ops.len(),
        run(ops.take(n), args, arith) is Err,
    ensures
        run(ops, args, arith) == run(ops.take(n), args, arith),
    decreases ops.len() - n,
{
    if n == ops.len() {
        assert(ops.take(n) =~= ops);
    } else {
        assert(ops.take(n + 1).drop_last() =~= ops.take(n));
        lemma_fault_stays(ops, n + 1, args, arith);
    }
}

} // verus!
