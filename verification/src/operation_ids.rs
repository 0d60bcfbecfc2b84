//! The identifier space that gene values are drawn from.

use vstd::prelude::*;
use rand::Rng;
use crate::error::GepError;

verus! {

/// The range of gene values that are legal at some moment: the identifiers of
/// the primitives, followed by those of the sub-expressions found so far.
pub struct OperationIds {
    operations_count: u32,
    expr_count: u32,
}

/// Draws a number below `bound` from `rand`'s thread-local generator, by
/// `Rng::gen_range` with the bounds `0` and `bound`. That method returns a
/// value of the half-open range and panics where the range is empty, which
/// the precondition rules out. Nothing more is claimed of the value drawn.
#[verifier::external_body]
pub(crate) fn draw_below(bound: u32) -> (id: u32)
    requires
        bound > 0,
    ensures
        id < bound,
{
    rand::thread_rng().gen_range(0, bound)
}

impl OperationIds {
    #[verifier::type_invariant]
    spec fn fits(&self) -> bool {
        self.operations_count + self.expr_count <= u32::MAX
    }

    /// How many primitives are addressable.
    pub closed spec fn spec_operations_count(&self) -> u32 {
        self.operations_count
    }

    /// How many sub-expression slots have been added.
    pub closed spec fn spec_expr_count(&self) -> u32 {
        self.expr_count
    }

    /// The number of legal identifiers: they are `0`, ..., `available() - 1`.
    pub open spec fn spec_available(&self) -> int {
        self.spec_operations_count() + self.spec_expr_count()
    }

    pub fn new(operations_count: u32) -> (ids: OperationIds)
        ensures
            ids.spec_operations_count() == operations_count,
            ids.spec_expr_count() == 0,
    {
        OperationIds { operations_count, expr_count: 0 }
    }

    #[verifier::when_used_as_spec(spec_operations_count)]
    pub fn operations_count(&self) -> (n: u32)
        ensures
            n == self.spec_operations_count(),
    {
        self.operations_count
    }

    #[verifier::when_used_as_spec(spec_expr_count)]
    pub fn expr_count(&self) -> (n: u32)
        ensures
            n == self.spec_expr_count(),
    {
        self.expr_count
    }

    pub fn available(&self) -> (n: u32)
        ensures
            n == self.spec_available(),
    {
        proof {
            use_type_invariant(self);
        }
        self.operations_count + self.expr_count
    }

    /// Draws one legal identifier. Fails exactly when there is none.
    pub fn random_id(&self) -> (drawn: Result<u32, GepError>)
        ensures
            match drawn {
                Ok(id) => id < self.spec_available(),
                Err(e) => e == GepError::EmptySpace && self.spec_available() == 0,
            },
    {
        let available_items = self.available();
        if available_items == 0 {
            return Err(GepError::EmptySpace);
        }
        Ok(draw_below(available_items))
    }

    /// Draws `length` legal identifiers, all from the same range. Fails
    /// exactly when some are asked for and there is none to draw.
    pub fn random_ids(&self, length: u32) -> (drawn: Result<Vec<u32>, GepError>)
        ensures
            match drawn {
                Ok(ids) => {
                    &&& ids.len() == length
                    &&& forall|i: int| 0 <= i < ids.len() ==> ids[i] < self.spec_available()
                    &&& length > 0 ==> self.spec_available() > 0
                },
                Err(e) => e == GepError::EmptySpace && self.spec_available() == 0 && length > 0,
            },
    {
        let mut value: Vec<u32> = Vec::new();
        let mut drawn_count: u32 = 0;
        while drawn_count < length
            invariant
                drawn_count <= length,
                value.len() == drawn_count,
                forall|i: int| 0 <= i < value.len() ==> value[i] < self.spec_available(),
                drawn_count > 0 ==> self.spec_available() > 0,
            decreases length - drawn_count,
        {
            match self.random_id() {
                Ok(id) => {
                    value.push(id);
                },
                Err(e) => {
                    return Err(e);
                },
            }
            drawn_count += 1;
        }
        Ok(value)
    }

    /// Adds `add_count` sub-expression slots. The count never shrinks.
    pub fn add_exprs(&mut self, add_count: u32)
        requires
            old(self).spec_available() + add_count <= u32::MAX,
        ensures
            final(self).spec_operations_count() == old(self).spec_operations_count(),
            final(self).spec_expr_count() == old(self).spec_expr_count() + add_count,
    {
        self.expr_count += add_count;
    }
}

} // verus!
