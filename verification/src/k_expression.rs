//! Genotypes: their layout, decoding, mutation and text.

use vstd::prelude::*;
use vstd::string::StringExecFns;
use std::ops::Range;
use std::sync::Arc;
use crate::decoding::{
    decode, decode_roots, decode_subs, genotype_text, lemma_decode_roots_fault_stays,
    lemma_decode_subs_fault_stays, lemma_nonnegative_product, lemma_resolve_fault_stays,
    lemma_root_texts_fault_stays, lemma_segment_bounds, lemma_sub_texts_fault_stays, placeholders,
    resolve_all, root_texts, segment_text, sub_texts,
};
use crate::error::GepError;
use crate::expressions::{program_model, Expression, RootExpression};
use crate::operation_set::{OperationSet, PrimitiveOperationSet};
use crate::stack_operation::{StackOperation, Step};
use crate::text::{join, texts_of};

verus! {

/// The ways of reading a genotype as a tree. Only the linear one is decoded.
#[derive(Debug, Clone, Copy, PartialEq, Eq, Structural)]
pub enum ExpressionTreeType {
    GEP,
    PGEP,
    RGEP,
}

/// The layout of a genotype: sub-expression segments first, root segments
/// after them, each kind of a fixed length.
#[derive(Debug, Clone, Copy, PartialEq, Eq, Structural)]
pub struct KExpressionParams {
    pub sub_length: u32,
    pub subs_count: u32,
    pub root_length: u32,
    pub roots_count: u32,
    /// Whether a sub-expression may call the sub-expressions before it.
    pub reuse_sub_expr: bool,
}

impl KExpressionParams {
    /// The number of genes in the sub-expression segments.
    pub open spec fn sub_total(&self) -> int {
        self.sub_length * self.subs_count
    }

    /// The number of genes in a genotype of this layout.
    pub open spec fn total(&self) -> int {
        self.sub_length * self.subs_count + self.root_length * self.roots_count
    }

    /// How many sub-expressions a gene at `locus` may call: inside a
    /// sub-expression segment those before the segment, or none where calls
    /// among sub-expressions are off; inside a root segment all of them.
    pub open spec fn slots_at(&self, locus: int) -> int {
        if locus < self.sub_total() {
            if self.reuse_sub_expr {
                locus / (self.sub_length as int)
            } else {
                0
            }
        } else {
            self.subs_count as int
        }
    }

    /// How many sub-expressions are registered when the gene at `locus` is
    /// resolved: inside a sub-expression segment those before the segment,
    /// inside a root segment all of them.
    pub open spec fn registered_at(&self, locus: int) -> int {
        if locus < self.sub_total() {
            locus / (self.sub_length as int)
        } else {
            self.subs_count as int
        }
    }

    /// Computes `slots_at` for a locus.
    pub fn slots_before(&self, locus: usize) -> (slots: u32)
        ensures
            slots == self.slots_at(locus as int),
            slots <= self.subs_count,
    {
        let sub_length = self.sub_length as u64;
        let subs_count = self.subs_count as u64;
        assert(sub_length * subs_count <= 0xffff_ffff * 0xffff_ffff) by (nonlinear_arith)
            requires
                0 <= sub_length <= 0xffff_ffff,
                0 <= subs_count <= 0xffff_ffff,
        ;
        let sub_total: u64 = sub_length * subs_count;
        if (locus as u64) < sub_total {
            if self.reuse_sub_expr {
                assert(sub_length > 0) by (nonlinear_arith)
                    requires
                        0 < sub_length * subs_count,
                        0 <= sub_length,
                ;
                let segment = (locus as u64) / sub_length;
                assert(segment < subs_count) by (nonlinear_arith)
                    requires
                        segment == (locus as int) / (sub_length as int),
                        0 <= locus < sub_length * subs_count,
                        0 < sub_length,
                ;
                segment as u32
            } else {
                0
            }
        } else {
            self.subs_count
        }
    }

    /// One root segment of no genes, and no sub-expression.
    pub fn default() -> (params: KExpressionParams)
        ensures
            params == (KExpressionParams {
                sub_length: 0,
                subs_count: 0,
                root_length: 0,
                roots_count: 1,
                reuse_sub_expr: false,
            }),
    {
        KExpressionParams {
            sub_length: 0,
            subs_count: 0,
            root_length: 0,
            roots_count: 1,
            reuse_sub_expr: false,
        }
    }

    pub fn new(
        sub_length: u32,
        sub_count: u32,
        root_length: u32,
        root_count: u32,
        subs_in_subs: bool,
    ) -> (params: KExpressionParams)
        ensures
            params == (KExpressionParams {
                sub_length,
                subs_count: sub_count,
                root_length,
                roots_count: root_count,
                reuse_sub_expr: subs_in_subs,
            }),
    {
        KExpressionParams {
            sub_length,
            subs_count: sub_count,
            root_length,
            roots_count: root_count,
            reuse_sub_expr: subs_in_subs,
        }
    }
}

/// A genotype: gene values laid out as its parameters say, to be read
/// against its vocabulary.
#[derive(Clone)]
pub struct KExpression {
    pub value: Vec<u32>,
    pub params: KExpressionParams,
    pub primitives_set: Arc<PrimitiveOperationSet>,
}

impl KExpression {
    /// The genotype holds as many genes as its layout asks for.
    pub open spec fn well_shaped(&self) -> bool {
        self.value@.len() == self.params.total()
    }

    /// Every gene names a primitive, or a sub-expression that a gene at its
    /// locus may call.
    pub open spec fn legal(&self) -> bool {
        &&& self.well_shaped()
        &&& forall|locus: int|
            0 <= locus < self.value@.len() ==> #[trigger] self.value@[locus]
                < self.primitives_set@.len() + self.params.slots_at(locus)
    }

    /// Every gene names a primitive, or a sub-expression that is registered
    /// when the gene is resolved.
    pub open spec fn resolvable(&self) -> bool {
        &&& self.well_shaped()
        &&& forall|locus: int|
            0 <= locus < self.value@.len() ==> #[trigger] self.value@[locus]
                < self.primitives_set@.len() + self.params.registered_at(locus)
    }

    /// Whether the genotype holds as many genes as its layout asks for.
    pub fn is_well_shaped(&self) -> (r: bool)
        ensures
            r == self.well_shaped(),
    {
        let sub_length = self.params.sub_length as u128;
        let subs_count = self.params.subs_count as u128;
        let root_length = self.params.root_length as u128;
        let roots_count = self.params.roots_count as u128;
        assert(sub_length * subs_count <= 0xffff_ffff * 0xffff_ffff) by (nonlinear_arith)
            requires
                0 <= sub_length <= 0xffff_ffff,
                0 <= subs_count <= 0xffff_ffff,
        ;
        assert(root_length * roots_count <= 0xffff_ffff * 0xffff_ffff) by (nonlinear_arith)
            requires
                0 <= root_length <= 0xffff_ffff,
                0 <= roots_count <= 0xffff_ffff,
        ;
        let total: u128 = sub_length * subs_count + root_length * roots_count;
        self.value.len() as u128 == total
    }

    /// Whether every gene names a primitive, or a sub-expression that a gene
    /// at its locus may call, and the genotype has the length of its layout.
    pub fn is_legal(&self) -> (r: bool)
        ensures
            r == self.legal(),
    {
        if !self.is_well_shaped() {
            return false;
        }
        let base = self.primitives_set.len() as u64;
        let mut locus: usize = 0;
        while locus < self.value.len()
            invariant
                locus <= self.value@.len(),
                base == self.primitives_set@.len(),
                base <= u32::MAX,
                self.well_shaped(),
                forall|i: int|
                    0 <= i < locus ==> #[trigger] self.value@[i] < self.primitives_set@.len()
                        + self.params.slots_at(i),
            decreases self.value.len() - locus,
        {
            let slots = self.params.slots_before(locus) as u64;
            if self.value[locus] as u64 >= base + slots {
                return false;
            }
            locus += 1;
        }
        true
    }

    /// Puts `id` in place of the gene at `index`, where `id` is legal at
    /// that locus; refuses it, and changes nothing, where it is not.
    pub fn replace_gene(&mut self, index: usize, id: u32) -> (outcome: Result<(), GepError>)
        requires
            index < old(self).value@.len(),
        ensures
            final(self).params == old(self).params,
            final(self).primitives_set == old(self).primitives_set,
            match outcome {
                Ok(()) => {
                    &&& id < old(self).primitives_set@.len() + old(self).params.slots_at(
                        index as int,
                    )
                    &&& final(self).value@ == old(self).value@.update(index as int, id)
                },
                Err(e) => {
                    &&& id >= old(self).primitives_set@.len() + old(self).params.slots_at(
                        index as int,
                    )
                    &&& e == (GepError::IdentifierOutOfRange { id })
                    &&& final(self).value@ == old(self).value@
                },
            },
    {
        let base = self.primitives_set.len() as u64;
        let slots = self.params.slots_before(index) as u64;
        if id as u64 >= base + slots {
            return Err(GepError::IdentifierOutOfRange { id });
        }
        self.value[index] = id;
        Ok(())
    }

    /// Replaces the gene at `index` by one drawn from the identifiers that
    /// are legal at that locus: those of the vocabulary, and of as many
    /// sub-expressions as `slots_at` counts there.
    ///
    /// No other gene changes, so a legal genotype stays legal. The call
    /// fails, and changes nothing, exactly when no identifier is legal at
    /// the locus.
    pub fn mutate(&mut self, index: usize) -> (outcome: Result<(), GepError>)
        requires
            index < old(self).value@.len(),
            old(self).primitives_set@.len() + old(self).params.subs_count <= u32::MAX,
        ensures
            final(self).params == old(self).params,
            final(self).primitives_set == old(self).primitives_set,
            final(self).value@.len() == old(self).value@.len(),
            forall|locus: int|
                0 <= locus < old(self).value@.len() && locus != index ==> final(self).value@[locus]
                    == old(self).value@[locus],
            old(self).legal() ==> final(self).legal(),
            match outcome {
                Ok(()) => final(self).value@[index as int] < old(self).primitives_set@.len()
                    + old(self).params.slots_at(index as int),
                Err(e) => {
                    &&& e == GepError::EmptySpace
                    &&& old(self).primitives_set@.len() + old(self).params.slots_at(index as int)
                        == 0
                    &&& final(self).value@ == old(self).value@
                },
            },
    {
        let mut ids = self.primitives_set.operation_ids();
        let exp_included = self.params.slots_before(index);
        ids.add_exprs(exp_included);
        match ids.random_id() {
            Ok(id) => self.replace_gene(index, id),
            Err(e) => Err(e),
        }
    }

    /// Writes one segment, as `segment_text` says.
    fn segment_to_string(
        &self,
        expr_range: Range<usize>,
        operations_set: &OperationSet,
        label: &str,
    ) -> (written: Result<String, GepError>)
        requires
            expr_range.start <= expr_range.end <= self.value@.len(),
            operations_set.sub_exprs() == placeholders(operations_set.sub_exprs().len()),
        ensures
            match segment_text(
                self.value@.subrange(expr_range.start as int, expr_range.end as int),
                operations_set.primitives(),
                operations_set.sub_exprs().len(),
                label@,
            ) {
                Ok(text) => (written matches Ok(s) && s@ == text),
                Err(fault) => (written matches Err(e) && e == fault),
            },
    {
        let ghost genes = self.value@.subrange(expr_range.start as int, expr_range.end as int);
        let ghost show = |s: Step| s.display();
        let mut expr_str: Vec<String> = Vec::new();
        let mut cursor: usize = expr_range.start;
        while cursor < expr_range.end
            invariant
                expr_range.start <= cursor <= expr_range.end <= self.value@.len(),
                genes == self.value@.subrange(expr_range.start as int, expr_range.end as int),
                show == |s: Step| s.display(),
                operations_set.sub_exprs() == placeholders(operations_set.sub_exprs().len()),
                resolve_all(
                    genes.take(cursor - expr_range.start),
                    operations_set.primitives(),
                    operations_set.sub_exprs(),
                ) matches Ok(steps) && steps.map_values(show) == texts_of(expr_str@),
            decreases expr_range.end - cursor,
        {
            let ghost before = texts_of(expr_str@);
            let ghost steps = resolve_all(
                genes.take(cursor - expr_range.start),
                operations_set.primitives(),
                operations_set.sub_exprs(),
            )->Ok_0;
            assert(genes.take(cursor + 1 - expr_range.start).drop_last() =~= genes.take(
                cursor - expr_range.start,
            ));
            assert(genes.take(cursor + 1 - expr_range.start).last() == self.value@[cursor as int]);
            match operations_set.operation_by_id(self.value[cursor]) {
                Ok(operation) => {
                    expr_str.push(operation.to_string());
                    assert(texts_of(expr_str@) =~= before.push(operation@.display()));
                    assert(steps.push(operation@).map_values(show) =~= steps.map_values(show).push(
                        show(operation@),
                    ));
                },
                Err(fault) => {
                    proof {
                        lemma_resolve_fault_stays(
                            genes,
                            cursor + 1 - expr_range.start,
                            operations_set.primitives(),
                            operations_set.sub_exprs(),
                        );
                    }
                    return Err(fault);
                },
            }
            cursor += 1;
        }
        assert(genes.take(cursor - expr_range.start) =~= genes);
        let mut s = String::from_str(label);
        s.append("[");
        let inner = join(&expr_str);
        s.append(inner.as_str());
        s.append("]");
        Ok(s)
    }

    /// Writes the genotype, as `genotype_text` says: each gene by the text
    /// of the step it stands for, a call by its slot.
    pub fn to_string(&self) -> (written: Result<String, GepError>)
        requires
            self.well_shaped(),
        ensures
            match genotype_text(self.value@, self.params, self.primitives_set@) {
                Ok(text) => (written matches Ok(s) && s@ == text),
                Err(fault) => (written matches Err(e) && e == fault),
            },
    {
        let ghost sub_length = self.params.sub_length as int;
        let ghost root_length = self.params.root_length as int;
        let mut operations_set = OperationSet::from_primitive_set(&self.primitives_set);
        let mut cursor: usize = 0;
        let mut exprs_str: Vec<String> = Vec::new();
        let mut written_subs: u32 = 0;
        assert(operations_set.sub_exprs() =~= placeholders(0));
        assert(texts_of(exprs_str@) =~= Seq::<Seq<char>>::empty());
        while written_subs < self.params.subs_count
            invariant
                self.well_shaped(),
                sub_length == self.params.sub_length,
                root_length == self.params.root_length,
                written_subs <= self.params.subs_count,
                cursor == written_subs * sub_length,
                operations_set.primitives() == self.primitives_set@,
                operations_set.sub_exprs() == placeholders(written_subs as nat),
                sub_texts(self.value@, sub_length, written_subs as nat, self.primitives_set@)
                    == Ok::<Seq<Seq<char>>, GepError>(texts_of(exprs_str@)),
            decreases self.params.subs_count - written_subs,
        {
            proof {
                lemma_segment_bounds(
                    written_subs as int,
                    self.params.subs_count as int,
                    sub_length,
                );
                lemma_nonnegative_product(root_length, self.params.roots_count as int);
                assert(self.value@.len() == self.value.len());
            }
            let ghost before = texts_of(exprs_str@);
            let end = cursor + self.params.sub_length as usize;
            match self.segment_to_string(cursor..end, &operations_set, "EXP") {
                Ok(text) => {
                    exprs_str.push(text);
                    assert(texts_of(exprs_str@) =~= before.push(text@));
                },
                Err(fault) => {
                    proof {
                        lemma_sub_texts_fault_stays(
                            self.value@,
                            sub_length,
                            (written_subs + 1) as nat,
                            self.params.subs_count as nat,
                            self.primitives_set@,
                        );
                    }
                    return Err(fault);
                },
            }
            operations_set.add_sub_expr(Expression::new(Vec::new()));
            assert(operations_set.sub_exprs() =~= placeholders((written_subs + 1) as nat));
            cursor = end;
            written_subs += 1;
        }
        let ghost start = cursor as int;
        let mut roots_str: Vec<String> = Vec::new();
        let mut written_roots: u32 = 0;
        proof {
            assert(self.params.subs_count * sub_length == sub_length * self.params.subs_count)
                by (nonlinear_arith);
            assert(texts_of(roots_str@) =~= Seq::<Seq<char>>::empty());
        }
        while written_roots < self.params.roots_count
            invariant
                self.well_shaped(),
                root_length == self.params.root_length,
                start == self.params.sub_total(),
                written_roots <= self.params.roots_count,
                cursor == start + written_roots * root_length,
                operations_set.primitives() == self.primitives_set@,
                operations_set.sub_exprs() == placeholders(self.params.subs_count as nat),
                sub_texts(
                    self.value@,
                    self.params.sub_length as int,
                    self.params.subs_count as nat,
                    self.primitives_set@,
                ) == Ok::<Seq<Seq<char>>, GepError>(texts_of(exprs_str@)),
                root_texts(
                    self.value@,
                    start,
                    root_length,
                    written_roots as nat,
                    self.primitives_set@,
                    self.params.subs_count as nat,
                ) == Ok::<Seq<Seq<char>>, GepError>(texts_of(roots_str@)),
            decreases self.params.roots_count - written_roots,
        {
            proof {
                lemma_segment_bounds(
                    written_roots as int,
                    self.params.roots_count as int,
                    root_length,
                );
                assert(self.value@.len() == self.value.len());
            }
            let ghost before = texts_of(roots_str@);
            let end = cursor + self.params.root_length as usize;
            match self.segment_to_string(cursor..end, &operations_set, "ROOT") {
                Ok(text) => {
                    roots_str.push(text);
                    assert(texts_of(roots_str@) =~= before.push(text@));
                },
                Err(fault) => {
                    proof {
                        lemma_root_texts_fault_stays(
                            self.value@,
                            start,
                            root_length,
                            (written_roots + 1) as nat,
                            self.params.roots_count as nat,
                            self.primitives_set@,
                            self.params.subs_count as nat,
                        );
                    }
                    return Err(fault);
                },
            }
            cursor = end;
            written_roots += 1;
        }
        let mut s = String::from_str("[");
        let subs = join(&exprs_str);
        s.append(subs.as_str());
        s.append(" - ");
        let roots = join(&roots_str);
        s.append(roots.as_str());
        s.append("]");
        Ok(s)
    }

    fn expression_from_part(&self, expr_range: Range<usize>, operations_set: &OperationSet) -> (part:
        Result<Expression, GepError>)
        requires
            expr_range.start <= expr_range.end <= self.value@.len(),
        ensures
            match resolve_all(
                self.value@.subrange(expr_range.start as int, expr_range.end as int),
                operations_set.primitives(),
                operations_set.sub_exprs(),
            ) {
                Ok(steps) => (part matches Ok(expr) && expr@ == steps),
                Err(fault) => (part matches Err(e) && e == fault),
            },
    {
        let ghost genes = self.value@.subrange(expr_range.start as int, expr_range.end as int);
        let mut expr_operations: Vec<StackOperation> = Vec::new();
        let mut cursor: usize = expr_range.start;
        while cursor < expr_range.end
            invariant
                expr_range.start <= cursor <= expr_range.end <= self.value@.len(),
                genes == self.value@.subrange(expr_range.start as int, expr_range.end as int),
                resolve_all(
                    genes.take(cursor - expr_range.start),
                    operations_set.primitives(),
                    operations_set.sub_exprs(),
                ) == Ok::<Seq<Step>, GepError>(program_model(expr_operations@)),
            decreases expr_range.end - cursor,
        {
            let ghost before = expr_operations@;
            assert(genes.take(cursor + 1 - expr_range.start).drop_last() =~= genes.take(
                cursor - expr_range.start,
            ));
            assert(genes.take(cursor + 1 - expr_range.start).last() == self.value@[cursor as int]);
            match operations_set.operation_by_id(self.value[cursor]) {
                Ok(operation) => {
                    expr_operations.push(operation);
                    assert(expr_operations@.drop_last() =~= before);
                },
                Err(fault) => {
                    proof {
                        lemma_resolve_fault_stays(
                            genes,
                            cursor + 1 - expr_range.start,
                            operations_set.primitives(),
                            operations_set.sub_exprs(),
                        );
                    }
                    return Err(fault);
                },
            }
            cursor += 1;
        }
        assert(genes.take(cursor - expr_range.start) =~= genes);
        Ok(Expression::new(expr_operations))
    }

    /// Decodes the genotype into its root expressions.
    ///
    /// Only the linear tree type is decoded; the others are refused. A gene
    /// that stands for nothing is reported as `decode` says.
    pub fn expression(&self, expr_type: ExpressionTreeType) -> (decoded: Result<
        RootExpression,
        GepError,
    >)
        requires
            self.well_shaped(),
        ensures
            match expr_type {
                ExpressionTreeType::RGEP => match decode(
                    self.value@,
                    self.params,
                    self.primitives_set@,
                ) {
                    Ok(programs) => (decoded matches Ok(root) && root.programs() == programs
                        && root.args_count == self.primitives_set.spec_args_count()),
                    Err(fault) => (decoded matches Err(e) && e == fault),
                },
                _ => (decoded matches Err(e) && e == GepError::DecodeUnsupported),
            },
    {
        match expr_type {
            ExpressionTreeType::GEP => Err(GepError::DecodeUnsupported),
            ExpressionTreeType::PGEP => Err(GepError::DecodeUnsupported),
            ExpressionTreeType::RGEP => {
                let ghost sub_length = self.params.sub_length as int;
                let ghost root_length = self.params.root_length as int;
                let mut cursor: usize = 0;
                let mut operations_set = OperationSet::from_primitive_set(&self.primitives_set);
                let mut decoded_subs: u32 = 0;
                while decoded_subs < self.params.subs_count
                    invariant
                        expr_type is RGEP,
                        self.well_shaped(),
                        sub_length == self.params.sub_length,
                        root_length == self.params.root_length,
                        decoded_subs <= self.params.subs_count,
                        cursor == decoded_subs * sub_length,
                        operations_set.primitives() == self.primitives_set@,
                        decode_subs(
                            self.value@,
                            sub_length,
                            decoded_subs as nat,
                            self.primitives_set@,
                        ) == Ok::<Seq<Seq<Step>>, GepError>(operations_set.sub_exprs()),
                    decreases self.params.subs_count - decoded_subs,
                {
                    proof {
                        lemma_segment_bounds(
                            decoded_subs as int,
                            self.params.subs_count as int,
                            sub_length,
                        );
                        lemma_nonnegative_product(root_length, self.params.roots_count as int);
                        assert(self.value@.len() == self.value.len());
                    }
                    let end = cursor + self.params.sub_length as usize;
                    match self.expression_from_part(cursor..end, &operations_set) {
                        Ok(expr) => {
                            operations_set.add_sub_expr(expr);
                        },
                        Err(fault) => {
                            proof {
                                lemma_decode_subs_fault_stays(
                                    self.value@,
                                    sub_length,
                                    (decoded_subs + 1) as nat,
                                    self.params.subs_count as nat,
                                    self.primitives_set@,
                                );
                            }
                            return Err(fault);
                        },
                    }
                    cursor = end;
                    decoded_subs += 1;
                }
                let ghost start = cursor as int;
                let ghost subs = operations_set.sub_exprs();
                let mut root_exprs: Vec<Expression> = Vec::new();
                let mut decoded_roots: u32 = 0;
                proof {
                    assert(self.params.subs_count * sub_length == sub_length
                        * self.params.subs_count) by (nonlinear_arith);
                    assert(Seq::new(root_exprs@.len(), |i: int| root_exprs@[i]@) =~= Seq::<
                        Seq<Step>,
                    >::empty());
                }
                while decoded_roots < self.params.roots_count
                    invariant
                        expr_type is RGEP,
                        self.well_shaped(),
                        root_length == self.params.root_length,
                        start == self.params.sub_total(),
                        decoded_roots <= self.params.roots_count,
                        cursor == start + decoded_roots * root_length,
                        operations_set.primitives() == self.primitives_set@,
                        operations_set.sub_exprs() == subs,
                        decode_subs(
                            self.value@,
                            self.params.sub_length as int,
                            self.params.subs_count as nat,
                            self.primitives_set@,
                        ) == Ok::<Seq<Seq<Step>>, GepError>(subs),
                        decode_roots(
                            self.value@,
                            start,
                            root_length,
                            decoded_roots as nat,
                            self.primitives_set@,
                            subs,
                        ) == Ok::<Seq<Seq<Step>>, GepError>(
                            Seq::new(root_exprs@.len(), |i: int| root_exprs@[i]@),
                        ),
                    decreases self.params.roots_count - decoded_roots,
                {
                    proof {
                        lemma_segment_bounds(
                            decoded_roots as int,
                            self.params.roots_count as int,
                            root_length,
                        );
                        assert(self.value@.len() == self.value.len());
                    }
                    let ghost before = Seq::new(root_exprs@.len(), |i: int| root_exprs@[i]@);
                    let end = cursor + self.params.root_length as usize;
                    match self.expression_from_part(cursor..end, &operations_set) {
                        Ok(expr) => {
                            root_exprs.push(expr);
                            assert(Seq::new(root_exprs@.len(), |i: int| root_exprs@[i]@)
                                =~= before.push(expr@));
                        },
                        Err(fault) => {
                            proof {
                                lemma_decode_roots_fault_stays(
                                    self.value@,
                                    start,
                                    root_length,
                                    (decoded_roots + 1) as nat,
                                    self.params.roots_count as nat,
                                    self.primitives_set@,
                                    subs,
                                );
                            }
                            return Err(fault);
                        },
                    }
                    cursor = end;
                    decoded_roots += 1;
                }
                Ok(RootExpression { exprs: root_exprs, args_count: self.primitives_set.args_count() })
            },
        }
    }
}

} // verus!
