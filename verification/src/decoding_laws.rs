//! What holds of decoding: which genotypes decode, and what the decoded
//! expressions call.

use vstd::prelude::*;
use crate::decoding::{
    decode, decode_roots, decode_subs, genotype_text, lemma_nonnegative_product,
    lemma_segment_bounds, placeholders, resolve_all, root_texts, sub_texts,
};
use crate::evaluation_laws::lemma_values_faults;
use crate::expressions::values;
use crate::k_expression::{KExpression, KExpressionParams};
use crate::primitive_operations::PrimitiveOperation;
use crate::scalar::Scalar;
use crate::stack_operation::{Calculation, Step};

verus! {

/// Genes resolve exactly when each of them names a primitive or a
/// registered program, and then to as many steps as there are genes.
pub proof fn lemma_resolve_all(
    genes: Seq<u32>,
    primitives: Seq<PrimitiveOperation>,
    subs: Seq<Seq<Step>>,
)
    ensures
        resolve_all(genes, primitives, subs) is Ok <==> forall|i: int|
            0 <= i < genes.len() ==> #[trigger] genes[i] < primitives.len() + subs.len(),
        resolve_all(genes, primitives, subs) matches Ok(steps) ==> steps.len() == genes.len(),
    decreases genes.len(),
{
    if genes.len() > 0 {
        let front = genes.drop_last();
        lemma_resolve_all(front, primitives, subs);
        assert(genes.last() == genes[genes.len() - 1]);
        if forall|i: int| 0 <= i < genes.len() ==> #[trigger] genes[i] < primitives.len() + subs.len() {
            assert forall|i: int| 0 <= i < front.len() implies #[trigger] front[i] < primitives.len()
                + subs.len() by {
                assert(front[i] == genes[i]);
            }
        }
        if resolve_all(genes, primitives, subs) is Ok {
            assert forall|i: int| 0 <= i < genes.len() implies #[trigger] genes[i] < primitives.len()
                + subs.len() by {
                if i < genes.len() - 1 {
                    assert(front[i] == genes[i]);
                }
            }
        }
    }
}

/// A locus inside segment `segment` of segments of one length, divided by
/// that length, gives the segment.
pub proof fn lemma_segment_of_locus(segment: int, length: int, locus: int)
    requires
        0 <= segment,
        segment * length <= locus < (segment + 1) * length,
    ensures
        0 < length,
        locus / length == segment,
{
    assert(0 < length) by (nonlinear_arith)
        requires
            segment * length < (segment + 1) * length,
    ;
    assert(segment * length == length * segment) by (nonlinear_arith);
    assert((segment + 1) * length == segment * length + length) by (nonlinear_arith);
    vstd::arithmetic::div_mod::lemma_div_multiples_vanish_fancy(
        segment,
        locus - length * segment,
        length,
    );
}

/// A gene inside sub-expression segment `segment` lies in the
/// sub-expression region, where `segment` sub-expressions are registered
/// before it and it may call them or, where calls among sub-expressions are
/// off, none.
pub proof fn lemma_locus_in_segment(params: KExpressionParams, segment: int, locus: int)
    requires
        0 <= segment < params.subs_count,
        segment * params.sub_length <= locus < (segment + 1) * params.sub_length,
    ensures
        0 <= locus < params.sub_total(),
        params.registered_at(locus) == segment,
        params.slots_at(locus) == if params.reuse_sub_expr {
            segment
        } else {
            0
        },
{
    let length = params.sub_length as int;
    lemma_segment_bounds(segment, params.subs_count as int, length);
    lemma_segment_of_locus(segment, length, locus);
}

/// The first `n` sub-expressions of a genotype decode exactly when every
/// gene of their segments names a primitive or a sub-expression before its
/// segment.
pub proof fn lemma_subs_decode(k_expr: KExpression, n: nat)
    requires
        k_expr.well_shaped(),
        n <= k_expr.params.subs_count,
    ensures
        decode_subs(k_expr.value@, k_expr.params.sub_length as int, n, k_expr.primitives_set@)
            is Ok <==> forall|locus: int|
            0 <= locus < n * k_expr.params.sub_length ==> #[trigger] k_expr.value@[locus]
                < k_expr.primitives_set@.len() + k_expr.params.registered_at(locus),
        decode_subs(k_expr.value@, k_expr.params.sub_length as int, n, k_expr.primitives_set@)
            matches Ok(subs) ==> subs.len() == n,
    decreases n,
{
    let value = k_expr.value@;
    let params = k_expr.params;
    let primitives = k_expr.primitives_set@;
    let length = params.sub_length as int;
    if n == 0 {
        assert(n * length == 0) by (nonlinear_arith)
            requires
                n == 0,
        ;
    } else {
        let segment = n - 1;
        lemma_subs_decode(k_expr, segment as nat);
        lemma_segment_bounds(segment, params.subs_count as int, length);
        lemma_nonnegative_product(params.root_length as int, params.roots_count as int);
        let genes = value.subrange(segment * length, n * length);
        let before = decode_subs(value, length, segment as nat, primitives);
        if before is Ok {
            lemma_resolve_all(genes, primitives, before->Ok_0);
        }
        if decode_subs(value, length, n, primitives) is Ok {
            assert forall|locus: int| 0 <= locus < n * length implies #[trigger] value[locus]
                < primitives.len() + params.registered_at(locus) by {
                if locus >= segment * length {
                    lemma_locus_in_segment(params, segment, locus);
                    assert(genes[locus - segment * length] == value[locus]);
                }
            }
        }
        if forall|locus: int|
            0 <= locus < n * length ==> #[trigger] value[locus] < primitives.len()
                + params.registered_at(locus) {
            assert(before is Ok);
            assert forall|i: int| 0 <= i < genes.len() implies #[trigger] genes[i] < primitives.len()
                + before->Ok_0.len() by {
                let locus = segment * length + i;
                lemma_locus_in_segment(params, segment, locus);
                assert(genes[i] == value[locus]);
            }
        }
    }
}

/// The first `n` root expressions of a genotype decode exactly when every
/// gene of their segments names a primitive or a sub-expression.
pub proof fn lemma_roots_decode(k_expr: KExpression, subs: Seq<Seq<Step>>, n: nat)
    requires
        k_expr.well_shaped(),
        n <= k_expr.params.roots_count,
        subs.len() == k_expr.params.subs_count,
    ensures
        decode_roots(
            k_expr.value@,
            k_expr.params.sub_total(),
            k_expr.params.root_length as int,
            n,
            k_expr.primitives_set@,
            subs,
        ) is Ok <==> forall|locus: int|
            k_expr.params.sub_total() <= locus < k_expr.params.sub_total() + n
                * k_expr.params.root_length ==> #[trigger] k_expr.value@[locus]
                < k_expr.primitives_set@.len() + k_expr.params.registered_at(locus),
        decode_roots(
            k_expr.value@,
            k_expr.params.sub_total(),
            k_expr.params.root_length as int,
            n,
            k_expr.primitives_set@,
            subs,
        ) matches Ok(roots) ==> roots.len() == n,
    decreases n,
{
    let value = k_expr.value@;
    let params = k_expr.params;
    let primitives = k_expr.primitives_set@;
    let start = params.sub_total();
    let length = params.root_length as int;
    lemma_nonnegative_product(params.sub_length as int, params.subs_count as int);
    if n == 0 {
        assert(n * length == 0) by (nonlinear_arith)
            requires
                n == 0,
        ;
    } else {
        let segment = n - 1;
        lemma_roots_decode(k_expr, subs, segment as nat);
        lemma_segment_bounds(segment, params.roots_count as int, length);
        let genes = value.subrange(start + segment * length, start + n * length);
        lemma_resolve_all(genes, primitives, subs);
        if decode_roots(value, start, length, n, primitives, subs) is Ok {
            assert forall|locus: int| start <= locus < start + n * length implies #[trigger] value[locus]
                < primitives.len() + params.registered_at(locus) by {
                if locus >= start + segment * length {
                    assert(genes[locus - start - segment * length] == value[locus]);
                }
            }
        }
        if forall|locus: int|
            start <= locus < start + n * length ==> #[trigger] value[locus] < primitives.len()
                + params.registered_at(locus) {
            assert forall|i: int| 0 <= i < genes.len() implies #[trigger] genes[i] < primitives.len()
                + subs.len() by {
                let locus = start + segment * length + i;
                assert(genes[i] == value[locus]);
            }
        }
    }
}

/// A genotype of the length of its layout decodes exactly when it is
/// resolvable, and then to as many root expressions as its layout counts.
pub proof fn lemma_decodes_when_resolvable(k_expr: KExpression)
    requires
        k_expr.well_shaped(),
    ensures
        decode(k_expr.value@, k_expr.params, k_expr.primitives_set@) is Ok <==> k_expr.resolvable(),
        decode(k_expr.value@, k_expr.params, k_expr.primitives_set@) matches Ok(roots)
            ==> roots.len() == k_expr.params.roots_count,
{
    let value = k_expr.value@;
    let params = k_expr.params;
    let primitives = k_expr.primitives_set@;
    lemma_subs_decode(k_expr, params.subs_count as nat);
    assert(params.subs_count * params.sub_length == params.sub_total()) by (nonlinear_arith)
        requires
            params.sub_total() == params.sub_length * params.subs_count,
    ;
    assert(params.roots_count * params.root_length == params.root_length * params.roots_count)
        by (nonlinear_arith);
    lemma_nonnegative_product(params.sub_length as int, params.subs_count as int);
    lemma_nonnegative_product(params.root_length as int, params.roots_count as int);
    match decode_subs(value, params.sub_length as int, params.subs_count as nat, primitives) {
        Ok(subs) => {
            lemma_roots_decode(k_expr, subs, params.roots_count as nat);
        },
        Err(_) => {},
    }
}

/// The first `n` sub-expression segments of a genotype can be written
/// exactly when every gene of them names a primitive or a sub-expression
/// before its segment.
pub proof fn lemma_sub_texts(k_expr: KExpression, n: nat)
    requires
        k_expr.well_shaped(),
        n <= k_expr.params.subs_count,
    ensures
        sub_texts(k_expr.value@, k_expr.params.sub_length as int, n, k_expr.primitives_set@)
            is Ok <==> forall|locus: int|
            0 <= locus < n * k_expr.params.sub_length ==> #[trigger] k_expr.value@[locus]
                < k_expr.primitives_set@.len() + k_expr.params.registered_at(locus),
    decreases n,
{
    let value = k_expr.value@;
    let params = k_expr.params;
    let primitives = k_expr.primitives_set@;
    let length = params.sub_length as int;
    if n == 0 {
        assert(n * length == 0) by (nonlinear_arith)
            requires
                n == 0,
        ;
    } else {
        let segment = n - 1;
        lemma_sub_texts(k_expr, segment as nat);
        lemma_segment_bounds(segment, params.subs_count as int, length);
        lemma_nonnegative_product(params.root_length as int, params.roots_count as int);
        let genes = value.subrange(segment * length, n * length);
        lemma_resolve_all(genes, primitives, placeholders(segment as nat));
        if sub_texts(value, length, n, primitives) is Ok {
            assert forall|locus: int| 0 <= locus < n * length implies #[trigger] value[locus]
                < primitives.len() + params.registered_at(locus) by {
                if locus >= segment * length {
                    lemma_locus_in_segment(params, segment, locus);
                    assert(genes[locus - segment * length] == value[locus]);
                }
            }
        }
        if forall|locus: int|
            0 <= locus < n * length ==> #[trigger] value[locus] < primitives.len()
                + params.registered_at(locus) {
            assert forall|i: int| 0 <= i < genes.len() implies #[trigger] genes[i] < primitives.len()
                + placeholders(segment as nat).len() by {
                let locus = segment * length + i;
                lemma_locus_in_segment(params, segment, locus);
                assert(genes[i] == value[locus]);
            }
        }
    }
}

/// The first `n` root segments of a genotype can be written exactly when
/// every gene of them names a primitive or a sub-expression.
pub proof fn lemma_root_texts(k_expr: KExpression, n: nat)
    requires
        k_expr.well_shaped(),
        n <= k_expr.params.roots_count,
    ensures
        root_texts(
            k_expr.value@,
            k_expr.params.sub_total(),
            k_expr.params.root_length as int,
            n,
            k_expr.primitives_set@,
            k_expr.params.subs_count as nat,
        ) is Ok <==> forall|locus: int|
            k_expr.params.sub_total() <= locus < k_expr.params.sub_total() + n
                * k_expr.params.root_length ==> #[trigger] k_expr.value@[locus]
                < k_expr.primitives_set@.len() + k_expr.params.registered_at(locus),
    decreases n,
{
    let value = k_expr.value@;
    let params = k_expr.params;
    let primitives = k_expr.primitives_set@;
    let start = params.sub_total();
    let length = params.root_length as int;
    lemma_nonnegative_product(params.sub_length as int, params.subs_count as int);
    if n == 0 {
        assert(n * length == 0) by (nonlinear_arith)
            requires
                n == 0,
        ;
    } else {
        let segment = n - 1;
        lemma_root_texts(k_expr, segment as nat);
        lemma_segment_bounds(segment, params.roots_count as int, length);
        let genes = value.subrange(start + segment * length, start + n * length);
        lemma_resolve_all(genes, primitives, placeholders(params.subs_count as nat));
        if root_texts(value, start, length, n, primitives, params.subs_count as nat) is Ok {
            assert forall|locus: int| start <= locus < start + n * length implies #[trigger] value[locus]
                < primitives.len() + params.registered_at(locus) by {
                if locus >= start + segment * length {
                    assert(genes[locus - start - segment * length] == value[locus]);
                }
            }
        }
        if forall|locus: int|
            start <= locus < start + n * length ==> #[trigger] value[locus] < primitives.len()
                + params.registered_at(locus) {
            assert forall|i: int| 0 <= i < genes.len() implies #[trigger] genes[i] < primitives.len()
                + placeholders(params.subs_count as nat).len() by {
                let locus = start + segment * length + i;
                assert(genes[i] == value[locus]);
            }
        }
    }
}

/// A genotype of the length of its layout can be written exactly when it
/// is resolvable, that is, exactly when it decodes.
pub proof fn lemma_written_when_resolvable(k_expr: KExpression)
    requires
        k_expr.well_shaped(),
    ensures
        genotype_text(k_expr.value@, k_expr.params, k_expr.primitives_set@) is Ok
            <==> k_expr.resolvable(),
        genotype_text(k_expr.value@, k_expr.params, k_expr.primitives_set@) is Ok <==> decode(
            k_expr.value@,
            k_expr.params,
            k_expr.primitives_set@,
        ) is Ok,
{
    let params = k_expr.params;
    lemma_decodes_when_resolvable(k_expr);
    lemma_sub_texts(k_expr, params.subs_count as nat);
    lemma_root_texts(k_expr, params.roots_count as nat);
    assert(params.subs_count * params.sub_length == params.sub_total()) by (nonlinear_arith)
        requires
            params.sub_total() == params.sub_length * params.subs_count,
    ;
    assert(params.roots_count * params.root_length == params.root_length * params.roots_count)
        by (nonlinear_arith);
    lemma_nonnegative_product(params.sub_length as int, params.subs_count as int);
    lemma_nonnegative_product(params.root_length as int, params.roots_count as int);
}

/// A legal genotype is resolvable: where a gene may call a sub-expression,
/// that sub-expression is registered when the gene is resolved.
pub proof fn lemma_legal_is_resolvable(k_expr: KExpression)
    requires
        k_expr.legal(),
    ensures
        k_expr.resolvable(),
{
    let params = k_expr.params;
    assert forall|locus: int| 0 <= locus < k_expr.value@.len() implies #[trigger] k_expr.value@[locus]
        < k_expr.primitives_set@.len() + params.registered_at(locus) by {
        if locus < params.sub_total() && !params.reuse_sub_expr {
            let length = params.sub_length as int;
            let count = params.subs_count as int;
            assert(length > 0) by (nonlinear_arith)
                requires
                    0 <= locus < length * count,
                    0 <= length,
            ;
            vstd::arithmetic::div_mod::lemma_div_pos_is_pos(locus, length);
        }
    }
}

/// A legal genotype decodes: no gene of it is out of range, and it stands
/// for as many root expressions as its layout counts.
pub proof fn lemma_legal_genotype_decodes(k_expr: KExpression)
    requires
        k_expr.legal(),
    ensures
        decode(k_expr.value@, k_expr.params, k_expr.primitives_set@) matches Ok(roots)
            && roots.len() == k_expr.params.roots_count,
{
    lemma_legal_is_resolvable(k_expr);
    lemma_decodes_when_resolvable(k_expr);
}

/// A legal genotype decodes, and evaluating what it decodes to never finds
/// an identifier out of range, whatever the arguments and the arithmetic:
/// the only fault left is an argument that was not supplied.
pub proof fn lemma_legal_genotype_evaluates(
    k_expr: KExpression,
    args: Seq<Scalar>,
    arith: spec_fn(Calculation) -> Scalar,
)
    requires
        k_expr.legal(),
    ensures
        decode(k_expr.value@, k_expr.params, k_expr.primitives_set@) matches Ok(roots) && (values(
            roots,
            args,
            arith,
        ) matches Err(fault) ==> fault is ArgumentIndexOutOfRange),
{
    lemma_legal_genotype_decodes(k_expr);
    let roots = decode(k_expr.value@, k_expr.params, k_expr.primitives_set@)->Ok_0;
    lemma_values_faults(roots, args, arith);
}

/// Every call among `steps` names a slot below `bound`.
pub open spec fn calls_below(steps: Seq<Step>, bound: int) -> bool {
    forall|i: int|
        0 <= i < steps.len() ==> (#[trigger] steps[i] matches Step::Call(_, slot) ==> slot < bound)
}

/// Genes resolve to calls of registered programs only: every call names a
/// slot below the number of programs registered.
pub proof fn lemma_resolved_calls(
    genes: Seq<u32>,
    primitives: Seq<PrimitiveOperation>,
    subs: Seq<Seq<Step>>,
)
    ensures
        resolve_all(genes, primitives, subs) matches Ok(steps) ==> steps.len() == genes.len()
            && calls_below(steps, subs.len() as int),
    decreases genes.len(),
{
    if genes.len() > 0 {
        lemma_resolved_calls(genes.drop_last(), primitives, subs);
    }
}

/// A decoded sub-expression calls only the sub-expressions before it: none
/// calls itself or a later one.
pub proof fn lemma_sub_expressions_call_back(
    value: Seq<u32>,
    length: int,
    count: nat,
    primitives: Seq<PrimitiveOperation>,
)
    ensures
        decode_subs(value, length, count, primitives) matches Ok(subs) ==> subs.len() == count
            && forall|t: int| 0 <= t < count ==> calls_below(#[trigger] subs[t], t),
    decreases count,
{
    if count > 0 {
        lemma_sub_expressions_call_back(value, length, (count - 1) as nat, primitives);
        match decode_subs(value, length, (count - 1) as nat, primitives) {
            Ok(subs) => {
                lemma_resolved_calls(
                    value.subrange((count - 1) * length, count * length),
                    primitives,
                    subs,
                );
            },
            Err(_) => {},
        }
    }
}

/// A decoded root expression calls sub-expressions of the genotype only:
/// every call names a slot below their number.
pub proof fn lemma_roots_call_sub_expressions(
    value: Seq<u32>,
    params: KExpressionParams,
    primitives: Seq<PrimitiveOperation>,
)
    ensures
        decode(value, params, primitives) matches Ok(roots) ==> roots.len() == params.roots_count
            && forall|r: int|
            0 <= r < roots.len() ==> calls_below(#[trigger] roots[r], params.subs_count as int),
{
    lemma_sub_expressions_call_back(
        value,
        params.sub_length as int,
        params.subs_count as nat,
        primitives,
    );
    match decode_subs(value, params.sub_length as int, params.subs_count as nat, primitives) {
        Ok(subs) => {
            lemma_decoded_roots_call(
                value,
                params.sub_total(),
                params.root_length as int,
                params.roots_count as nat,
                primitives,
                subs,
            );
        },
        Err(_) => {},
    }
}

/// The first `count` decoded root expressions call registered programs
/// only.
pub proof fn lemma_decoded_roots_call(
    value: Seq<u32>,
    start: int,
    length: int,
    count: nat,
    primitives: Seq<PrimitiveOperation>,
    subs: Seq<Seq<Step>>,
)
    ensures
        decode_roots(value, start, length, count, primitives, subs) matches Ok(roots)
            ==> roots.len() == count && forall|r: int|
            0 <= r < count ==> calls_below(#[trigger] roots[r], subs.len() as int),
    decreases count,
{
    if count > 0 {
        lemma_decoded_roots_call(value, start, length, (count - 1) as nat, primitives, subs);
        lemma_resolved_calls(
            value.subrange(start + (count - 1) * length, start + count * length),
            primitives,
            subs,
        );
    }
}

} // verus!
