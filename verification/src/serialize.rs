//! Genotypes in the form in which they are persisted.

use vstd::prelude::*;
use std::sync::Arc;
use crate::decoding::{decode, genotype_text};
use crate::k_expression::{KExpression, KExpressionParams};
use crate::operation_set::PrimitiveOperationSet;
use crate::primitive_operations::PrimitiveOperation;

verus! {

/// A genotype in the form in which it is persisted: with a vocabulary of its
/// own in place of a shared one.
#[derive(Clone)]
pub struct KExpressionSer {
    value: Vec<u32>,
    params: KExpressionParams,
    primitives_set: PrimitiveOperationSet,
}

impl KExpressionSer {
    /// The gene values.
    pub closed spec fn genes(&self) -> Seq<u32> {
        self.value@
    }

    /// The layout.
    pub closed spec fn params(&self) -> KExpressionParams {
        self.params
    }

    /// The entries of the vocabulary.
    pub closed spec fn vocabulary(&self) -> Seq<PrimitiveOperation> {
        self.primitives_set@
    }

    /// How many arguments the vocabulary declares.
    pub closed spec fn args_count(&self) -> u32 {
        self.primitives_set.spec_args_count()
    }

    /// The record holds the genes, the layout and the vocabulary of
    /// `k_expr`.
    pub open spec fn holds(&self, k_expr: KExpression) -> bool {
        &&& self.genes() == k_expr.value@
        &&& self.params() == k_expr.params
        &&& self.vocabulary() == k_expr.primitives_set@
        &&& self.args_count() == k_expr.primitives_set.spec_args_count()
    }

    pub fn from_k_expr(k_expr: &KExpression) -> (data: KExpressionSer)
        ensures
            data.holds(*k_expr),
    {
        let mut value: Vec<u32> = Vec::new();
        let mut copied: usize = 0;
        while copied < k_expr.value.len()
            invariant
                copied <= k_expr.value.len(),
                value@ =~= k_expr.value@.take(copied as int),
            decreases k_expr.value.len() - copied,
        {
            value.push(k_expr.value[copied]);
            copied += 1;
        }
        assert(value@ =~= k_expr.value@);
        KExpressionSer {
            value,
            params: k_expr.params,
            primitives_set: (*k_expr.primitives_set).clone(),
        }
    }

    pub fn to_k_expr(self) -> (k_expr: KExpression)
        ensures
            self.holds(k_expr),
    {
        KExpression {
            value: self.value,
            params: self.params,
            primitives_set: Arc::new(self.primitives_set),
        }
    }

    /// Puts a record together from its parts.
    pub fn from_parts(
        value: Vec<u32>,
        params: KExpressionParams,
        primitives_set: PrimitiveOperationSet,
    ) -> (data: KExpressionSer)
        ensures
            data.genes() == value@,
            data.params() == params,
            data.vocabulary() == primitives_set@,
            data.args_count() == primitives_set.spec_args_count(),
    {
        KExpressionSer { value, params, primitives_set }
    }

    /// Takes a record apart.
    pub fn into_parts(self) -> (parts: (Vec<u32>, KExpressionParams, PrimitiveOperationSet))
        ensures
            parts.0@ == self.genes(),
            parts.1 == self.params(),
            parts.2@ == self.vocabulary(),
            parts.2.spec_args_count() == self.args_count(),
    {
        (self.value, self.params, self.primitives_set)
    }
}

/// A genotype that went into a record and the genotype that comes out of
/// it have the same genes, layout and vocabulary: they are legal together,
/// decode to the same root expressions for the same number of arguments,
/// and are written alike.
pub proof fn lemma_record_round_trip(stored: KExpression, data: KExpressionSer, restored: KExpression)
    requires
        data.holds(stored),
        data.holds(restored),
    ensures
        restored.value@ == stored.value@,
        restored.params == stored.params,
        restored.primitives_set@ == stored.primitives_set@,
        restored.primitives_set.spec_args_count() == stored.primitives_set.spec_args_count(),
        restored.legal() == stored.legal(),
        decode(restored.value@, restored.params, restored.primitives_set@) == decode(
            stored.value@,
            stored.params,
            stored.primitives_set@,
        ),
        genotype_text(restored.value@, restored.params, restored.primitives_set@) == genotype_text(
            stored.value@,
            stored.params,
            stored.primitives_set@,
        ),
{
}

} // verus!
