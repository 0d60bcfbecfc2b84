//! Steps of a decoded expression and what they do to a stack.

use vstd::prelude::*;
use vstd::string::StringExecFns;
use std::rc::Rc;
use crate::error::GepError;
use crate::expressions::{depth_after, program_model, run, top_or_zero, Expression};
use crate::primitive_operations::{
    lemma_constants_are_finite, Argument, Constant, Modifier, Operator, PrimitiveOperation,
};
use crate::scalar::{all_finite, lemma_sanitized_is_finite, Scalar};
use crate::text::{decimal, decimal_string};

verus! {

/// One step of a decoded expression: a primitive of the vocabulary, or a call
/// of an expression decoded earlier. The number beside the expression is the
/// slot it was registered under; it only serves to show the step.
#[derive(Debug, Clone, PartialEq)]
pub enum StackOperation {
    Primitive(PrimitiveOperation),
    Expression(Rc<Expression>, usize),
}

/// A piece of arithmetic that the evaluator asks its caller to carry out.
#[derive(Debug, Clone, Copy, PartialEq, Eq, Structural)]
pub enum Calculation {
    Modifier(Modifier, Scalar),
    Operator(Operator, Scalar, Scalar),
}

/// The mathematical content of a step: a primitive, or a call of a program
/// given by its own steps, with the slot it is shown under.
pub enum Step {
    Primitive(PrimitiveOperation),
    Call(Seq<Step>, usize),
}

/// The mathematical content of `op`.
pub open spec fn step_model(op: StackOperation) -> Step
    decreases op,
{
    match op {
        StackOperation::Primitive(p) => Step::Primitive(p),
        StackOperation::Expression(e, slot) => Step::Call(program_model(e.operations@), slot),
    }
}

impl View for StackOperation {
    type V = Step;

    open spec fn view(&self) -> Step {
        step_model(*self)
    }
}

/// The arithmetic `arith` returns one number for each request.
pub open spec fn is_function<F: Fn(Calculation) -> Scalar>(arith: &F) -> bool {
    forall|c: Calculation, r1: Scalar, r2: Scalar|
        arith.ensures((c,), r1) && arith.ensures((c,), r2) ==> r1 == r2
}

/// The mathematical function that `arith` computes, where it is one.
pub open spec fn function_of<F: Fn(Calculation) -> Scalar>(arith: &F) -> spec_fn(
    Calculation,
) -> Scalar {
    |c: Calculation| choose|r: Scalar| arith.ensures((c,), r)
}

/// What one primitive does to a stack.
///
/// A constant and an argument push a number; an argument that was not
/// supplied is a fault. A modifier replaces the top number, an operator the
/// top two, by the sanitized result of the arithmetic; where the stack holds
/// too few numbers for that, it stays as it is.
pub open spec fn apply_primitive(
    p: PrimitiveOperation,
    stack: Seq<Scalar>,
    args: Seq<Scalar>,
    arith: spec_fn(Calculation) -> Scalar,
) -> Result<Seq<Scalar>, GepError> {
    match p {
        PrimitiveOperation::Constant(c) => Ok(stack.push(c.spec_value())),
        PrimitiveOperation::Argument(a) => if a.spec_index() < args.len() {
            Ok(stack.push(args[a.spec_index() as int]))
        } else {
            Err(GepError::ArgumentIndexOutOfRange { argument: a.spec_index() })
        },
        PrimitiveOperation::Modifier(m) => if stack.len() >= 1 {
            Ok(
                stack.drop_last().push(
                    arith(Calculation::Modifier(m, stack.last())).spec_sanitized(),
                ),
            )
        } else {
            Ok(stack)
        },
        PrimitiveOperation::Operator(o) => if stack.len() >= 2 {
            Ok(
                stack.take(stack.len() - 2).push(
                    arith(
                        Calculation::Operator(o, stack[stack.len() - 2], stack.last()),
                    ).spec_sanitized(),
                ),
            )
        } else {
            Ok(stack)
        },
    }
}

/// What one step does to a stack.
///
/// A call takes the top two numbers as the two arguments of the called
/// expression and replaces them by its sanitized result; where the stack
/// holds fewer than two numbers, it stays as it is.
pub open spec fn step(
    op: Step,
    stack: Seq<Scalar>,
    args: Seq<Scalar>,
    arith: spec_fn(Calculation) -> Scalar,
) -> Result<Seq<Scalar>, GepError>
    decreases op,
{
    match op {
        Step::Primitive(p) => apply_primitive(p, stack, args, arith),
        Step::Call(program, _) => if stack.len() >= 2 {
            match run(program, seq![stack[stack.len() - 2], stack.last()], arith) {
                Ok(inner) => Ok(
                    stack.take(stack.len() - 2).push(top_or_zero(inner).spec_sanitized()),
                ),
                Err(fault) => Err(fault),
            }
        } else {
            Ok(stack)
        },
    }
}

/// How many numbers a stack of `depth` numbers holds after one step, where
/// `supplied` arguments can be read, or the fault that the step meets.
///
/// Neither depends on the numbers themselves: a primitive faults exactly when
/// it is an argument that was not supplied, and a call exactly when it finds
/// its two arguments and the called program, run on two arguments, faults.
pub open spec fn step_depth(op: Step, depth: nat, supplied: nat) -> Result<nat, GepError>
    decreases op,
{
    match op {
        Step::Primitive(PrimitiveOperation::Constant(_)) => Ok(depth + 1),
        Step::Primitive(PrimitiveOperation::Argument(a)) => if a.spec_index() < supplied {
            Ok(depth + 1)
        } else {
            Err(GepError::ArgumentIndexOutOfRange { argument: a.spec_index() })
        },
        Step::Primitive(PrimitiveOperation::Modifier(_)) => Ok(depth),
        Step::Primitive(PrimitiveOperation::Operator(_)) => if depth >= 2 {
            Ok((depth - 1) as nat)
        } else {
            Ok(depth)
        },
        Step::Call(program, _) => if depth >= 2 {
            match depth_after(program, 2) {
                Ok(_) => Ok((depth - 1) as nat),
                Err(fault) => Err(fault),
            }
        } else {
            Ok(depth)
        },
    }
}

/// The numbers an expression works on, and the arguments it may read.
pub struct Stack<'a> {
    value: Vec<Scalar>,
    args: &'a Vec<Scalar>,
}

impl<'a> View for Stack<'a> {
    type V = Seq<Scalar>;

    /// The numbers on the stack, the top one last.
    closed spec fn view(&self) -> Seq<Scalar> {
        self.value@
    }
}

impl<'a> Stack<'a> {
    /// The arguments that the stack was made with.
    pub closed spec fn args(&self) -> Seq<Scalar> {
        self.args@
    }

    pub fn new(args: &'a Vec<Scalar>) -> (stack: Stack<'a>)
        ensures
            stack@ == Seq::<Scalar>::empty(),
            stack.args() == args@,
    {
        Stack { value: Vec::new(), args }
    }

    pub fn push(&mut self, value: Scalar)
        ensures
            final(self)@ == old(self)@.push(value),
            final(self).args() == old(self).args(),
    {
        self.value.push(value);
    }

    /// Reads an argument. Fails exactly when no argument has that index.
    pub fn get_arg(&self, index: u32) -> (found: Result<Scalar, GepError>)
        ensures
            match found {
                Ok(value) => index < self.args().len() && value == self.args()[index as int],
                Err(e) => index >= self.args().len() && e == (GepError::ArgumentIndexOutOfRange {
                    argument: index,
                }),
            },
    {
        let position = index as usize;
        if position < self.args.len() {
            Ok(self.args[position])
        } else {
            Err(GepError::ArgumentIndexOutOfRange { argument: index })
        }
    }

    pub fn pop(&mut self) -> (top: Scalar)
        requires
            old(self)@.len() > 0,
        ensures
            top == old(self)@.last(),
            final(self)@ == old(self)@.drop_last(),
            final(self).args() == old(self).args(),
    {
        match self.value.pop() {
            Some(top) => top,
            None => Scalar::zero(),
        }
    }

    pub fn len(&self) -> (n: usize)
        ensures
            n == self@.len(),
    {
        self.value.len()
    }

    /// The top of the stack, or zero where the stack is empty.
    pub fn result(&self) -> (top: Scalar)
        ensures
            top == top_or_zero(self@),
    {
        let n = self.value.len();
        if n == 0 {
            Scalar::zero()
        } else {
            self.value[n - 1]
        }
    }
}

impl Step {
    /// The text by which the step is shown: that of the primitive, or the
    /// slot of the called program between `EXP[` and `]`.
    pub open spec fn display(&self) -> Seq<char> {
        match self {
            Step::Primitive(p) => p.display(),
            Step::Call(_, slot) => "EXP["@ + decimal(*slot as nat) + "]"@,
        }
    }
}

impl StackOperation {
    pub fn to_string(&self) -> (s: String)
        ensures
            s@ == self@.display(),
    {
        match self {
            StackOperation::Primitive(p) => p.to_string(),
            StackOperation::Expression(_, index) => {
                let mut s = String::from_str("EXP[");
                let digits = decimal_string(*index as u64);
                s.append(digits.as_str());
                s.append("]");
                s
            },
        }
    }

    /// Carries out the step on `stack`, asking `arith` for the arithmetic.
    ///
    /// Whether the step faults, with which fault, and how many numbers the
    /// stack holds afterwards is as `step_depth` says, and a stack of finite
    /// numbers with finite arguments to read stays one, whatever `arith`
    /// returns. Where `arith` computes a function, the stack afterwards is
    /// the one that `step` gives for that function.
    pub fn update_stack<F: Fn(Calculation) -> Scalar>(
        &self,
        stack: &mut Stack,
        arith: &F,
    ) -> (outcome: Result<(), GepError>)
        requires
            forall|c: Calculation| arith.requires((c,)),
        ensures
            final(stack).args() == old(stack).args(),
            match step_depth(self@, old(stack)@.len(), old(stack).args().len()) {
                Ok(depth) => outcome is Ok && final(stack)@.len() == depth,
                Err(fault) => outcome == Err::<(), GepError>(fault),
            },
            all_finite(old(stack)@) && all_finite(old(stack).args()) && outcome is Ok ==> all_finite(
                final(stack)@,
            ),
            is_function(arith) ==> match step(
                self@,
                old(stack)@,
                old(stack).args(),
                function_of(arith),
            ) {
                Ok(after) => outcome is Ok && final(stack)@ == after,
                Err(fault) => outcome == Err::<(), GepError>(fault),
            },
        decreases self,
    {
        match self {
            StackOperation::Expression(expression, _) => {
                if stack.len() >= 2 {
                    let arg2 = stack.pop();
                    let arg1 = stack.pop();
                    let inner_args = vec![arg1, arg2];
                    assert(inner_args@ =~= seq![arg1, arg2]);
                    match expression.compute_result(&inner_args, arith) {
                        Ok(result) => {
                            proof {
                                lemma_sanitized_is_finite(result);
                            }
                            stack.push(result.sanitized());
                            assert(old(stack)@.drop_last().drop_last() =~= old(stack)@.take(
                                old(stack)@.len() - 2,
                            ));
                            Ok(())
                        },
                        Err(fault) => Err(fault),
                    }
                } else {
                    Ok(())
                }
            },
            StackOperation::Primitive(prim_op) => {
                match prim_op {
                    PrimitiveOperation::Constant(cons) => {
                        proof {
                            lemma_constants_are_finite(*cons);
                        }
                        stack.push(cons.value());
                        Ok(())
                    },
                    PrimitiveOperation::Argument(arg) => {
                        match stack.get_arg(arg.index()) {
                            Ok(arg_value) => {
                                stack.push(arg_value);
                                Ok(())
                            },
                            Err(fault) => Err(fault),
                        }
                    },
                    PrimitiveOperation::Modifier(modifier) => {
                        if stack.len() >= 1 {
                            let arg = stack.pop();
                            let result = arith(Calculation::Modifier(*modifier, arg));
                            proof {
                                lemma_sanitized_is_finite(result);
                            }
                            stack.push(result.sanitized());
                        }
                        Ok(())
                    },
                    PrimitiveOperation::Operator(op) => {
                        if stack.len() >= 2 {
                            let arg2 = stack.pop();
                            let arg1 = stack.pop();
                            let result = arith(Calculation::Operator(*op, arg1, arg2));
                            proof {
                                lemma_sanitized_is_finite(result);
                            }
                            stack.push(result.sanitized());
                            assert(old(stack)@.drop_last().drop_last() =~= old(stack)@.take(
                                old(stack)@.len() - 2,
                            ));
                        }
                        Ok(())
                    },
                }
            },
        }
    }

    pub fn construct<T: StackOperationConstructor>(operation: T) -> (op: StackOperation)
        ensures
            op@ == operation.as_step(),
    {
        operation.stack_operation()
    }
}

/// Whatever can stand as a step of an expression.
pub trait StackOperationConstructor: Sized {
    /// The step that the value turns into.
    spec fn as_step(self) -> Step;

    fn stack_operation(self) -> (op: StackOperation)
        ensures
            op@ == self.as_step(),
    ;
}

impl StackOperationConstructor for Expression {
    /// An expression built by hand has no slot: it gets the largest number.
    open spec fn as_step(self) -> Step {
        Step::Call(self@, usize::MAX)
    }

    fn stack_operation(self) -> (op: StackOperation) {
        StackOperation::Expression(Rc::new(self), usize::MAX)
    }
}

impl StackOperationConstructor for PrimitiveOperation {
    open spec fn as_step(self) -> Step {
        Step::Primitive(self)
    }

    fn stack_operation(self) -> (op: StackOperation) {
        StackOperation::Primitive(self)
    }
}

impl StackOperationConstructor for Argument {
    open spec fn as_step(self) -> Step {
        Step::Primitive(PrimitiveOperation::Argument(self))
    }

    fn stack_operation(self) -> (op: StackOperation) {
        PrimitiveOperation::Argument(self).stack_operation()
    }
}

impl StackOperationConstructor for Constant {
    open spec fn as_step(self) -> Step {
        Step::Primitive(PrimitiveOperation::Constant(self))
    }

    fn stack_operation(self) -> (op: StackOperation) {
        PrimitiveOperation::Constant(self).stack_operation()
    }
}

impl StackOperationConstructor for Modifier {
    open spec fn as_step(self) -> Step {
        Step::Primitive(PrimitiveOperation::Modifier(self))
    }

    fn stack_operation(self) -> (op: StackOperation) {
        PrimitiveOperation::Modifier(self).stack_operation()
    }
}

impl StackOperationConstructor for Operator {
    open spec fn as_step(self) -> Step {
        Step::Primitive(PrimitiveOperation::Operator(self))
    }

    fn stack_operation(self) -> (op: StackOperation) {
        PrimitiveOperation::Operator(self).stack_operation()
    }
}

} // verus!
