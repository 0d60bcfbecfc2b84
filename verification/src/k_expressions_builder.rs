//! Random genotypes of a layout over a vocabulary.

use vstd::prelude::*;
use std::sync::Arc;
use crate::error::GepError;
use crate::decoding::{lemma_nonnegative_product, lemma_segment_bounds};
use crate::decoding_laws::lemma_locus_in_segment;
use crate::k_expression::{KExpression, KExpressionParams};
use crate::operation_ids::OperationIds;
use crate::operation_set::PrimitiveOperationSet;
use crate::primitive_operations::PrimitiveOperation;

verus! {

/// What a genotype is built from: a layout and a vocabulary.
#[derive(Clone)]
pub struct KExpressions {
    pub params: KExpressionParams,
    pub operations_set: Arc<PrimitiveOperationSet>,
}

impl Default for KExpressions {
    /// The default layout over a vocabulary without entries.
    fn default() -> (ctx: Self)
        ensures
            ctx.params == (KExpressionParams {
                sub_length: 0,
                subs_count: 0,
                root_length: 0,
                roots_count: 1,
                reuse_sub_expr: false,
            }),
            ctx.operations_set@ == Seq::<PrimitiveOperation>::empty(),
            ctx.operations_set.spec_args_count() == 0,
    {
        let no_operations: Vec<PrimitiveOperation> = Vec::new();
        match PrimitiveOperationSet::new(no_operations, 0) {
            Ok(set) => {
                assert(set@ =~= Seq::<PrimitiveOperation>::empty());
                KExpressions { params: KExpressionParams::default(), operations_set: Arc::new(set) }
            },
            Err(_) => vstd::pervasive::unreached(),
        }
    }
}

impl KExpressions {
    /// Whether every draw that building a genotype needs finds an
    /// identifier: the vocabulary has an entry, or the only segments that
    /// hold genes are root segments that can call a sub-expression, or no
    /// segment holds a gene.
    pub open spec fn drawable(&self) -> bool {
        ||| self.operations_set@.len() > 0
        ||| self.params.sub_length == 0 && self.params.subs_count > 0
        ||| (self.params.sub_length == 0 || self.params.subs_count == 0) && (self.params.root_length
            == 0 || self.params.roots_count == 0)
    }

    /// One root segment of `length` genes, and no sub-expression.
    pub fn single_root_primitives(operations_set: PrimitiveOperationSet, length: u32) -> (ctx:
        KExpressions)
        ensures
            ctx.params == (KExpressionParams {
                sub_length: 0,
                subs_count: 0,
                root_length: length,
                roots_count: 1,
                reuse_sub_expr: false,
            }),
            ctx.operations_set@ == operations_set@,
            ctx.operations_set.spec_args_count() == operations_set.spec_args_count(),
    {
        KExpressions::new(operations_set, KExpressionParams::new(0, 0, length, 1, false))
    }

    /// One root segment, and sub-expressions that do not call one another.
    pub fn single_root_adfs(
        operations_set: PrimitiveOperationSet,
        root_length: u32,
        sub_length: u32,
        sub_count: u32,
    ) -> (ctx: KExpressions)
        ensures
            ctx.params == (KExpressionParams {
                sub_length,
                subs_count: sub_count,
                root_length,
                roots_count: 1,
                reuse_sub_expr: false,
            }),
            ctx.operations_set@ == operations_set@,
            ctx.operations_set.spec_args_count() == operations_set.spec_args_count(),
    {
        KExpressions::new(
            operations_set,
            KExpressionParams::new(sub_length, sub_count, root_length, 1, false),
        )
    }

    pub fn new(operations_set: PrimitiveOperationSet, params: KExpressionParams) -> (ctx:
        KExpressions)
        ensures
            ctx.params == params,
            ctx.operations_set@ == operations_set@,
            ctx.operations_set.spec_args_count() == operations_set.spec_args_count(),
    {
        KExpressions { params, operations_set: Arc::new(operations_set) }
    }

    /// Builds a random genotype of the layout over the vocabulary.
    ///
    /// The genotype holds as many genes as the layout asks for, and every
    /// gene is drawn from the identifiers that are legal at its locus, so
    /// the genotype is legal. Building fails exactly when some draw finds no
    /// identifier.
    pub fn new_k_expr(&self) -> (made: Result<KExpression, GepError>)
        requires
            self.operations_set@.len() + self.params.subs_count <= u32::MAX,
        ensures
            match made {
                Ok(k_expr) => {
                    &&& self.drawable()
                    &&& k_expr.value@.len() == self.params.sub_length * self.params.subs_count
                        + self.params.root_length * self.params.roots_count
                    &&& k_expr.legal()
                    &&& k_expr.params == self.params
                    &&& k_expr.primitives_set == self.operations_set
                },
                Err(e) => e == GepError::EmptySpace && !self.drawable(),
            },
    {
        let mut builder = KExpressionBuilder::new(self);
        let mut added: u32 = 0;
        while added < self.params.subs_count
            invariant
                builder.wf(),
                builder.params() == self.params,
                builder.vocabulary() == self.operations_set,
                builder.added() == added,
                added <= self.params.subs_count,
                added > 0 && self.params.sub_length > 0 ==> self.operations_set@.len() > 0,
            decreases self.params.subs_count - added,
        {
            match builder.add_sub_expression() {
                Ok(()) => {},
                Err(e) => {
                    return Err(e);
                },
            }
            added += 1;
        }
        builder.build()
    }
}

/// A genotype under construction: the sub-expression segments drawn so far.
pub struct KExpressionBuilder {
    value: Vec<u32>,
    params: KExpressionParams,
    operations_set: Arc<PrimitiveOperationSet>,
    ids: OperationIds,
    subs_added: u32,
}

impl KExpressionBuilder {
    /// The genes drawn so far.
    pub closed spec fn genes(&self) -> Seq<u32> {
        self.value@
    }

    /// The layout that is being filled.
    pub closed spec fn params(&self) -> KExpressionParams {
        self.params
    }

    /// The vocabulary that the genes name.
    pub closed spec fn vocabulary(&self) -> Arc<PrimitiveOperationSet> {
        self.operations_set
    }

    /// How many sub-expression segments have been drawn.
    pub closed spec fn added(&self) -> u32 {
        self.subs_added
    }

    /// The segments drawn so far are whole and legal, and the identifier
    /// space stands where the next segment needs it.
    pub closed spec fn wf(&self) -> bool {
        &&& self.subs_added <= self.params.subs_count
        &&& self.operations_set@.len() + self.params.subs_count <= u32::MAX
        &&& self.value@.len() == self.subs_added * self.params.sub_length
        &&& self.ids.spec_operations_count() == self.operations_set@.len()
        &&& self.ids.spec_expr_count() == if self.params.reuse_sub_expr {
            self.subs_added
        } else {
            0
        }
        &&& forall|locus: int|
            0 <= locus < self.value@.len() ==> #[trigger] self.value@[locus]
                < self.operations_set@.len() + self.params.slots_at(locus)
    }

    /// Starts a genotype of the layout and vocabulary of `ctx`, with no
    /// segment drawn.
    pub fn new(ctx: &KExpressions) -> (builder: KExpressionBuilder)
        requires
            ctx.operations_set@.len() + ctx.params.subs_count <= u32::MAX,
        ensures
            builder.wf(),
            builder.genes() == Seq::<u32>::empty(),
            builder.params() == ctx.params,
            builder.vocabulary() == ctx.operations_set,
            builder.added() == 0,
    {
        KExpressionBuilder {
            value: Vec::new(),
            params: ctx.params,
            operations_set: Arc::clone(&ctx.operations_set),
            ids: ctx.operations_set.operation_ids(),
            subs_added: 0,
        }
    }

    /// Draws the next sub-expression segment.
    ///
    /// Fails with a configuration error exactly when the layout has no
    /// further sub-expression, and with an empty-space error exactly when
    /// the segment holds genes and no identifier is legal in it. A failed
    /// call changes nothing.
    pub fn add_sub_expression(&mut self) -> (outcome: Result<(), GepError>)
        requires
            old(self).wf(),
        ensures
            final(self).wf(),
            final(self).params() == old(self).params(),
            final(self).vocabulary() == old(self).vocabulary(),
            match outcome {
                Ok(()) => {
                    &&& old(self).added() < old(self).params().subs_count
                    &&& final(self).added() == old(self).added() + 1
                    &&& final(self).genes().len() == old(self).genes().len() + old(
                        self,
                    ).params().sub_length
                    &&& final(self).genes().take(old(self).genes().len() as int) == old(
                        self,
                    ).genes()
                    &&& old(self).params().sub_length > 0 ==> old(self).vocabulary()@.len() > 0
                        || (old(self).params().reuse_sub_expr && old(self).added() > 0)
                },
                Err(e) => {
                    &&& *final(self) == *old(self)
                    &&& if old(self).added() == old(self).params().subs_count {
                        e == GepError::Configuration
                    } else {
                        &&& e == GepError::EmptySpace
                        &&& old(self).params().sub_length > 0
                        &&& old(self).vocabulary()@.len() == 0
                        &&& !old(self).params().reuse_sub_expr || old(self).added() == 0
                    }
                },
            },
    {
        if self.subs_added == self.params.subs_count {
            return Err(GepError::Configuration);
        }
        match self.add_inner_expression() {
            Ok(()) => Ok(()),
            Err(e) => Err(e),
        }
    }

    fn add_inner_expression(&mut self) -> (outcome: Result<(), GepError>)
        requires
            old(self).wf(),
            old(self).subs_added < old(self).params.subs_count,
        ensures
            final(self).wf(),
            final(self).params == old(self).params,
            final(self).operations_set == old(self).operations_set,
            match outcome {
                Ok(()) => {
                    &&& final(self).subs_added == old(self).subs_added + 1
                    &&& final(self).value@.len() == old(self).value@.len() + old(
                        self,
                    ).params.sub_length
                    &&& final(self).value@.take(old(self).value@.len() as int) == old(self).value@
                    &&& old(self).params.sub_length > 0 ==> old(self).ids.spec_available() > 0
                },
                Err(e) => {
                    &&& *final(self) == *old(self)
                    &&& e == GepError::EmptySpace
                    &&& old(self).params.sub_length > 0
                    &&& old(self).ids.spec_available() == 0
                },
            },
    {
        let ghost before = self.value@;
        let ghost segment = self.subs_added as int;
        let ghost length = self.params.sub_length as int;
        let mut sub_expr_ops = match self.ids.random_ids(self.params.sub_length) {
            Ok(drawn) => drawn,
            Err(e) => {
                return Err(e);
            },
        };
        let ghost drawn = sub_expr_ops@;
        self.value.append(&mut sub_expr_ops);
        if self.params.reuse_sub_expr {
            self.ids.add_exprs(1);
        }
        self.subs_added += 1;
        proof {
            lemma_segment_bounds(segment, self.params.subs_count as int, length);
            assert(self.value@.take(before.len() as int) =~= before);
            assert forall|locus: int| 0 <= locus < self.value@.len() implies #[trigger] self.value@[locus]
                < self.operations_set@.len() + self.params.slots_at(locus) by {
                if locus >= before.len() {
                    lemma_locus_in_segment(self.params, segment, locus);
                    assert(self.value@[locus] == drawn[locus - before.len()]);
                } else {
                    assert(self.value@[locus] == before[locus]);
                }
            }
        }
        Ok(())
    }

    /// Draws the root segments and hands the genotype out.
    ///
    /// Fails with a configuration error exactly when sub-expression segments
    /// are still missing, and with an empty-space error exactly when the
    /// root segments hold genes and no identifier is legal in them.
    pub fn build(self) -> (made: Result<KExpression, GepError>)
        requires
            self.wf(),
        ensures
            match made {
                Ok(k_expr) => {
                    &&& self.added() == self.params().subs_count
                    &&& k_expr.legal()
                    &&& k_expr.params == self.params()
                    &&& k_expr.primitives_set == self.vocabulary()
                    &&& k_expr.value@.take(self.genes().len() as int) == self.genes()
                    &&& self.params().root_length > 0 && self.params().roots_count > 0
                        ==> self.vocabulary()@.len() + self.params().subs_count > 0
                },
                Err(e) => if self.added() != self.params().subs_count {
                    e == GepError::Configuration
                } else {
                    &&& e == GepError::EmptySpace
                    &&& self.params().root_length > 0
                    &&& self.params().roots_count > 0
                    &&& self.vocabulary()@.len() + self.params().subs_count == 0
                },
            },
    {
        if self.subs_added != self.params.subs_count {
            return Err(GepError::Configuration);
        }
        let ghost sub_genes = self.value@;
        let ghost root_length = self.params.root_length as int;
        let params = self.params;
        let operations_set = self.operations_set;
        let mut value = self.value;
        let mut ids = operations_set.operation_ids();
        ids.add_exprs(params.subs_count);
        proof {
            assert(params.subs_count * params.sub_length == params.sub_length * params.subs_count)
                by (nonlinear_arith);
        }
        let mut roots_added: u32 = 0;
        while roots_added < params.roots_count
            invariant
                self.subs_added == self.params.subs_count,
                params == self.params,
                operations_set == self.operations_set,
                roots_added <= params.roots_count,
                root_length == params.root_length,
                sub_genes.len() == params.sub_total(),
                value@.len() == params.sub_total() + roots_added * root_length,
                value@.take(sub_genes.len() as int) == sub_genes,
                ids.spec_available() == operations_set@.len() + params.subs_count,
                roots_added > 0 && root_length > 0 ==> ids.spec_available() > 0,
                forall|locus: int|
                    0 <= locus < value@.len() ==> #[trigger] value@[locus] < operations_set@.len()
                        + params.slots_at(locus),
            decreases params.roots_count - roots_added,
        {
            let ghost before = value@;
            let mut root_expr_ops = match ids.random_ids(params.root_length) {
                Ok(drawn) => drawn,
                Err(e) => {
                    return Err(e);
                },
            };
            let ghost drawn = root_expr_ops@;
            value.append(&mut root_expr_ops);
            proof {
                lemma_segment_bounds(roots_added as int, params.roots_count as int, root_length);
                lemma_nonnegative_product(roots_added as int, root_length);
                assert(value@.take(sub_genes.len() as int) =~= before.take(sub_genes.len() as int));
                assert forall|locus: int| 0 <= locus < value@.len() implies #[trigger] value@[locus]
                    < operations_set@.len() + params.slots_at(locus) by {
                    if locus >= before.len() {
                        assert(value@[locus] == drawn[locus - before.len()]);
                    } else {
                        assert(value@[locus] == before[locus]);
                    }
                }
            }
            roots_added += 1;
        }
        proof {
            assert(params.roots_count * root_length == root_length * params.roots_count)
                by (nonlinear_arith);
        }
        Ok(KExpression { value, params, primitives_set: operations_set })
    }
}

} // verus!
