//! What a genotype stands for: the rule by which its genes are resolved
//! into expressions, and the text by which it is written.

use vstd::prelude::*;
use crate::error::GepError;
use crate::k_expression::KExpressionParams;
use crate::operation_set::resolve;
use crate::primitive_operations::PrimitiveOperation;
use crate::stack_operation::Step;
use crate::text::joined;

verus! {

/// The steps that `genes` stand for, in order, or the fault of the first
/// gene that stands for nothing.
pub open spec fn resolve_all(
    genes: Seq<u32>,
    primitives: Seq<PrimitiveOperation>,
    subs: Seq<Seq<Step>>,
) -> Result<Seq<Step>, GepError>
    decreases genes.len(),
{
    if genes.len() == 0 {
        Ok(Seq::empty())
    } else {
        match resolve_all(genes.drop_last(), primitives, subs) {
            Ok(steps) => match resolve(primitives, subs, genes.last()) {
                Ok(step) => Ok(steps.push(step)),
                Err(fault) => Err(fault),
            },
            Err(fault) => Err(fault),
        }
    }
}

/// The first `count` sub-expressions of a genotype. Each segment is resolved
/// against the vocabulary and the sub-expressions before it.
pub open spec fn decode_subs(
    value: Seq<u32>,
    length: int,
    count: nat,
    primitives: Seq<PrimitiveOperation>,
) -> Result<Seq<Seq<Step>>, GepError>
    decreases count,
{
    if count == 0 {
        Ok(Seq::empty())
    } else {
        match decode_subs(value, length, (count - 1) as nat, primitives) {
            Ok(subs) => match resolve_all(
                value.subrange((count - 1) * length, count * length),
                primitives,
                subs,
            ) {
                Ok(program) => Ok(subs.push(program)),
                Err(fault) => Err(fault),
            },
            Err(fault) => Err(fault),
        }
    }
}

/// The first `count` root expressions of a genotype whose root segments
/// begin at `start`. Each segment is resolved against the vocabulary and all
/// the sub-expressions.
pub open spec fn decode_roots(
    value: Seq<u32>,
    start: int,
    length: int,
    count: nat,
    primitives: Seq<PrimitiveOperation>,
    subs: Seq<Seq<Step>>,
) -> Result<Seq<Seq<Step>>, GepError>
    decreases count,
{
    if count == 0 {
        Ok(Seq::empty())
    } else {
        match decode_roots(value, start, length, (count - 1) as nat, primitives, subs) {
            Ok(roots) => match resolve_all(
                value.subrange(start + (count - 1) * length, start + count * length),
                primitives,
                subs,
            ) {
                Ok(program) => Ok(roots.push(program)),
                Err(fault) => Err(fault),
            },
            Err(fault) => Err(fault),
        }
    }
}

/// The root expressions that a genotype stands for, or the fault of the
/// first gene, in the order of the genotype, that stands for nothing.
pub open spec fn decode(
    value: Seq<u32>,
    params: KExpressionParams,
    primitives: Seq<PrimitiveOperation>,
) -> Result<Seq<Seq<Step>>, GepError> {
    match decode_subs(value, params.sub_length as int, params.subs_count as nat, primitives) {
        Ok(subs) => decode_roots(
            value,
            params.sub_total(),
            params.root_length as int,
            params.roots_count as nat,
            primitives,
            subs,
        ),
        Err(fault) => Err(fault),
    }
}

/// As many programs without steps as `count` says. They stand for the
/// sub-expressions where only the slot of a call matters.
pub open spec fn placeholders(count: nat) -> Seq<Seq<Step>> {
    Seq::new(count, |i: int| Seq::<Step>::empty())
}

/// The text of one segment: `label`, and between square brackets the texts
/// of the steps that its genes stand for where `slots` sub-expressions can
/// be called, joined by `", "`.
pub open spec fn segment_text(
    genes: Seq<u32>,
    primitives: Seq<PrimitiveOperation>,
    slots: nat,
    label: Seq<char>,
) -> Result<Seq<char>, GepError> {
    match resolve_all(genes, primitives, placeholders(slots)) {
        Ok(steps) => Ok(label + "["@ + joined(steps.map_values(|s: Step| s.display())) + "]"@),
        Err(fault) => Err(fault),
    }
}

/// The texts of the first `count` sub-expression segments. A gene of a
/// segment may call every sub-expression before the segment.
pub open spec fn sub_texts(
    value: Seq<u32>,
    length: int,
    count: nat,
    primitives: Seq<PrimitiveOperation>,
) -> Result<Seq<Seq<char>>, GepError>
    decreases count,
{
    if count == 0 {
        Ok(Seq::empty())
    } else {
        match sub_texts(value, length, (count - 1) as nat, primitives) {
            Ok(texts) => match segment_text(
                value.subrange((count - 1) * length, count * length),
                primitives,
                (count - 1) as nat,
                "EXP"@,
            ) {
                Ok(text) => Ok(texts.push(text)),
                Err(fault) => Err(fault),
            },
            Err(fault) => Err(fault),
        }
    }
}

/// The texts of the first `count` root segments, which begin at `start`
/// and may call `slots` sub-expressions.
pub open spec fn root_texts(
    value: Seq<u32>,
    start: int,
    length: int,
    count: nat,
    primitives: Seq<PrimitiveOperation>,
    slots: nat,
) -> Result<Seq<Seq<char>>, GepError>
    decreases count,
{
    if count == 0 {
        Ok(Seq::empty())
    } else {
        match root_texts(value, start, length, (count - 1) as nat, primitives, slots) {
            Ok(texts) => match segment_text(
                value.subrange(start + (count - 1) * length, start + count * length),
                primitives,
                slots,
                "ROOT"@,
            ) {
                Ok(text) => Ok(texts.push(text)),
                Err(fault) => Err(fault),
            },
            Err(fault) => Err(fault),
        }
    }
}

/// The text of a genotype: between square brackets the texts of its
/// sub-expression segments, `" - "`, and the texts of its root segments,
/// each list joined by `", "`; or the fault of the first gene that stands
/// for nothing.
pub open spec fn genotype_text(
    value: Seq<u32>,
    params: KExpressionParams,
    primitives: Seq<PrimitiveOperation>,
) -> Result<Seq<char>, GepError> {
    match sub_texts(value, params.sub_length as int, params.subs_count as nat, primitives) {
        Ok(subs) => match root_texts(
            value,
            params.sub_total(),
            params.root_length as int,
            params.roots_count as nat,
            primitives,
            params.subs_count as nat,
        ) {
            Ok(roots) => Ok("["@ + joined(subs) + " - "@ + joined(roots) + "]"@),
            Err(fault) => Err(fault),
        },
        Err(fault) => Err(fault),
    }
}

/// A fault met on the first sub-expression segments is the fault of them
/// all.
pub proof fn lemma_sub_texts_fault_stays(
    value: Seq<u32>,
    length: int,
    n: nat,
    count: nat,
    primitives: Seq<PrimitiveOperation>,
)
    requires
        n <= count,
        sub_texts(value, length, n, primitives) is Err,
    ensures
        sub_texts(value, length, count, primitives) == sub_texts(value, length, n, primitives),
    decreases count - n,
{
    if n < count {
        lemma_sub_texts_fault_stays(value, length, n + 1, count, primitives);
    }
}

/// A fault met on the first root segments is the fault of them all.
pub proof fn lemma_root_texts_fault_stays(
    value: Seq<u32>,
    start: int,
    length: int,
    n: nat,
    count: nat,
    primitives: Seq<PrimitiveOperation>,
    slots: nat,
)
    requires
        n <= count,
        root_texts(value, start, length, n, primitives, slots) is Err,
    ensures
        root_texts(value, start, length, count, primitives, slots) == root_texts(
            value,
            start,
            length,
            n,
            primitives,
            slots,
        ),
    decreases count - n,
{
    if n < count {
        lemma_root_texts_fault_stays(value, start, length, n + 1, count, primitives, slots);
    }
}

/// Segment `n` of `count` segments of one length ends where the next one
/// begins, and no later than the last one ends.
pub proof fn lemma_segment_bounds(n: int, count: int, length: int)
    requires
        0 <= n < count,
        0 <= length,
    ensures
        (n + 1) * length == n * length + length,
        0 <= n * length,
        (n + 1) * length <= count * length,
        count * length == length * count,
{
    assert(count * length == length * count) by (nonlinear_arith);
    assert((n + 1) * length == n * length + length) by (nonlinear_arith);
    assert(0 <= n * length) by (nonlinear_arith)
        requires
            0 <= n,
            0 <= length,
    ;
    assert((n + 1) * length <= count * length) by (nonlinear_arith)
        requires
            n + 1 <= count,
            0 <= length,
    ;
}

/// A product of two numbers that are not negative is not negative.
pub proof fn lemma_nonnegative_product(a: int, b: int)
    requires
        0 <= a,
        0 <= b,
    ensures
        0 <= a * b,
{
    assert(0 <= a * b) by (nonlinear_arith)
        requires
            0 <= a,
            0 <= b,
    ;
}

/// A fault met on the first genes is the fault of them all.
pub proof fn lemma_resolve_fault_stays(
    genes: Seq<u32>,
    n: int,
    primitives: Seq<PrimitiveOperation>,
    subs: Seq<Seq<Step>>,
)
    requires
        0 <= n <= genes.len(),
        resolve_all(genes.take(n), primitives, subs) is Err,
    ensures
        resolve_all(genes, primitives, subs) == resolve_all(genes.take(n), primitives, subs),
    decreases genes.len() - n,
{
    if n == genes.len() {
        assert(genes.take(n) =~= genes);
    } else {
        assert(genes.take(n + 1).drop_last() =~= genes.take(n));
        lemma_resolve_fault_stays(genes, n + 1, primitives, subs);
    }
}

/// A fault met on the first sub-expressions is the fault of them all.
pub proof fn lemma_decode_subs_fault_stays(
    value: Seq<u32>,
    length: int,
    n: nat,
    count: nat,
    primitives: Seq<PrimitiveOperation>,
)
    requires
        n <= count,
        decode_subs(value, length, n, primitives) is Err,
    ensures
        decode_subs(value, length, count, primitives) == decode_subs(value, length, n, primitives),
    decreases count - n,
{
    if n < count {
        lemma_decode_subs_fault_stays(value, length, n + 1, count, primitives);
    }
}

/// A fault met on the first root expressions is the fault of them all.
pub proof fn lemma_decode_roots_fault_stays(
    value: Seq<u32>,
    start: int,
    length: int,
    n: nat,
    count: nat,
    primitives: Seq<PrimitiveOperation>,
    subs: Seq<Seq<Step>>,
)
    requires
        n <= count,
        decode_roots(value, start, length, n, primitives, subs) is Err,
    ensures
        decode_roots(value, start, length, count, primitives, subs) == decode_roots(
            value,
            start,
            length,
            n,
            primitives,
            subs,
        ),
    decreases count - n,
{
    if n < count {
        lemma_decode_roots_fault_stays(value, start, length, n + 1, count, primitives, subs);
    }
}

} // verus!
