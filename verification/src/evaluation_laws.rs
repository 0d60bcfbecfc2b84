//! What holds of evaluation: faults do not depend on the numbers, and
//! numeric faults do not spread.

use vstd::prelude::*;
use crate::error::GepError;
use crate::expressions::{depth_after, first_fault, run, top_or_zero, value, values};
use crate::primitive_operations::{lemma_constants_are_finite, PrimitiveOperation};
use crate::scalar::{all_finite, lemma_sanitized_is_finite, lemma_zero_and_max_are_finite, Scalar};
use crate::stack_operation::{step, step_depth, Calculation, Step};

verus! {

/// Whether a run faults, with which fault, and how many numbers it leaves
/// does not depend on the numbers or on the arithmetic: `run` agrees with
/// `depth_after` for every `arith` and all `args` of one length.
pub proof fn lemma_run_shape(
    ops: Seq<Step>,
    args: Seq<Scalar>,
    arith: spec_fn(Calculation) -> Scalar,
)
    ensures
        match run(ops, args, arith) {
            Ok(stack) => depth_after(ops, args.len()) == Ok::<nat, GepError>(stack.len()),
            Err(fault) => depth_after(ops, args.len()) == Err::<nat, GepError>(fault),
        },
    decreases ops,
{
    if ops.len() > 0 {
        lemma_run_shape(ops.drop_last(), args, arith);
        match run(ops.drop_last(), args, arith) {
            Ok(stack) => {
                lemma_step_shape(ops.last(), stack, args, arith);
            },
            Err(_) => {},
        }
    }
}

/// One step agrees with `step_depth` for every `arith` and every stack.
pub proof fn lemma_step_shape(
    op: Step,
    stack: Seq<Scalar>,
    args: Seq<Scalar>,
    arith: spec_fn(Calculation) -> Scalar,
)
    ensures
        match step(op, stack, args, arith) {
            Ok(after) => step_depth(op, stack.len(), args.len()) == Ok::<nat, GepError>(
                after.len(),
            ),
            Err(fault) => step_depth(op, stack.len(), args.len()) == Err::<nat, GepError>(fault),
        },
    decreases op,
{
    match op {
        Step::Primitive(_) => {},
        Step::Call(program, _) => {
            if stack.len() >= 2 {
                lemma_run_shape(program, seq![stack[stack.len() - 2], stack.last()], arith);
            }
        },
    }
}

/// The only fault that running steps can meet is an argument that was not
/// supplied: a run never meets an identifier that is out of range.
pub proof fn lemma_run_faults(ops: Seq<Step>, supplied: nat)
    ensures
        depth_after(ops, supplied) matches Err(fault) ==> fault is ArgumentIndexOutOfRange,
    decreases ops,
{
    if ops.len() > 0 {
        lemma_run_faults(ops.drop_last(), supplied);
        match depth_after(ops.drop_last(), supplied) {
            Ok(depth) => {
                lemma_step_faults(ops.last(), depth, supplied);
            },
            Err(_) => {},
        }
    }
}

/// The only fault that a step can meet is an argument that was not
/// supplied.
pub proof fn lemma_step_faults(op: Step, depth: nat, supplied: nat)
    ensures
        step_depth(op, depth, supplied) matches Err(fault) ==> fault is ArgumentIndexOutOfRange,
    decreases op,
{
    match op {
        Step::Primitive(_) => {},
        Step::Call(program, _) => {
            if depth >= 2 {
                lemma_run_faults(program, 2);
            }
        },
    }
}

/// Numeric faults do not spread: run on finite arguments, steps leave only
/// finite numbers on the stack, whatever the arithmetic returns, and so
/// compute a finite number.
pub proof fn lemma_run_finite(
    ops: Seq<Step>,
    args: Seq<Scalar>,
    arith: spec_fn(Calculation) -> Scalar,
)
    requires
        all_finite(args),
    ensures
        run(ops, args, arith) matches Ok(stack) ==> all_finite(stack),
        value(ops, args, arith) matches Ok(result) ==> result.spec_is_finite(),
    decreases ops,
{
    lemma_zero_and_max_are_finite();
    if ops.len() > 0 {
        lemma_run_finite(ops.drop_last(), args, arith);
        match run(ops.drop_last(), args, arith) {
            Ok(stack) => {
                lemma_step_finite(ops.last(), stack, args, arith);
            },
            Err(_) => {},
        }
    }
    match run(ops, args, arith) {
        Ok(stack) => {
            if stack.len() > 0 {
                assert(stack.last() == stack[stack.len() - 1]);
            }
        },
        Err(_) => {},
    }
}

/// One step on a stack of finite numbers, with finite arguments to read,
/// leaves a stack of finite numbers.
pub proof fn lemma_step_finite(
    op: Step,
    stack: Seq<Scalar>,
    args: Seq<Scalar>,
    arith: spec_fn(Calculation) -> Scalar,
)
    requires
        all_finite(stack),
        all_finite(args),
    ensures
        step(op, stack, args, arith) matches Ok(after) ==> all_finite(after),
    decreases op,
{
    match op {
        Step::Primitive(PrimitiveOperation::Constant(c)) => {
            lemma_constants_are_finite(c);
        },
        Step::Primitive(PrimitiveOperation::Argument(_)) => {},
        Step::Primitive(PrimitiveOperation::Modifier(m)) => {
            if stack.len() >= 1 {
                lemma_sanitized_is_finite(arith(Calculation::Modifier(m, stack.last())));
            }
        },
        Step::Primitive(PrimitiveOperation::Operator(o)) => {
            if stack.len() >= 2 {
                lemma_sanitized_is_finite(
                    arith(Calculation::Operator(o, stack[stack.len() - 2], stack.last())),
                );
            }
        },
        Step::Call(program, _) => {
            if stack.len() >= 2 {
                let inner_args = seq![stack[stack.len() - 2], stack.last()];
                lemma_run_finite(program, inner_args, arith);
                match run(program, inner_args, arith) {
                    Ok(inner) => {
                        lemma_sanitized_is_finite(top_or_zero(inner));
                    },
                    Err(_) => {},
                }
            }
        },
    }
}

/// Whether evaluating root expressions faults, and with which fault, does
/// not depend on the numbers or on the arithmetic: `values` agrees with
/// `first_fault` for every `arith` and all `args` of one length, and gives
/// one number for each expression where there is no fault.
pub proof fn lemma_values_shape(
    programs: Seq<Seq<Step>>,
    args: Seq<Scalar>,
    arith: spec_fn(Calculation) -> Scalar,
)
    ensures
        match values(programs, args, arith) {
            Ok(results) => first_fault(programs, args.len()) is None && results.len()
                == programs.len(),
            Err(fault) => first_fault(programs, args.len()) == Some(fault),
        },
    decreases programs.len(),
{
    if programs.len() > 0 {
        lemma_values_shape(programs.drop_last(), args, arith);
        lemma_run_shape(programs.last(), args, arith);
    }
}

/// The only fault that evaluating root expressions can meet is an argument
/// that was not supplied: no identifier is found out of range then.
pub proof fn lemma_values_faults(
    programs: Seq<Seq<Step>>,
    args: Seq<Scalar>,
    arith: spec_fn(Calculation) -> Scalar,
)
    ensures
        values(programs, args, arith) matches Err(fault) ==> fault is ArgumentIndexOutOfRange,
{
    lemma_values_shape(programs, args, arith);
    lemma_first_fault_kind(programs, args.len());
}

/// The only faults that evaluating root expressions can meet are an
/// argument that was not supplied.
pub proof fn lemma_first_fault_kind(programs: Seq<Seq<Step>>, supplied: nat)
    ensures
        first_fault(programs, supplied) matches Some(fault) ==> fault is ArgumentIndexOutOfRange,
    decreases programs.len(),
{
    if programs.len() > 0 {
        lemma_first_fault_kind(programs.drop_last(), supplied);
        lemma_run_faults(programs.last(), supplied);
    }
}

} // verus!
