use std::sync::Arc;

use gep_toolkit::error::GepError;
use gep_toolkit::k_expression::{ExpressionTreeType, KExpression, KExpressionParams};
use gep_toolkit::k_expressions_builder::{KExpressionBuilder, KExpressions};
use gep_toolkit::operation_set::PrimitiveOperationSet;
use gep_toolkit::primitive_operations::{Argument, Constant, Modifier, Operator, PrimitiveOperation};
use gep_toolkit::scalar::Scalar;
use gep_toolkit::serialize::KExpressionSer;
use gep_toolkit::stack_operation::{Calculation, StackOperation, StackOperationConstructor};

fn num(x: f64) -> Scalar {
    Scalar::from_bits(x.to_bits())
}

fn float(s: Scalar) -> f64 {
    f64::from_bits(s.to_bits())
}

fn arith(c: Calculation) -> Scalar {
    match c {
        Calculation::Modifier(m, x) => {
            let x = float(x);
            num(match m {
                Modifier::Sqr => x.powi(2),
                Modifier::Pow3 => x.powi(3),
                Modifier::Sqrt => x.sqrt(),
                Modifier::Log2 => x.log2(),
                Modifier::Log10 => x.log10(),
                Modifier::Sin => x.sin(),
                Modifier::Cos => x.cos(),
                Modifier::Tanh => x.tanh(),
                Modifier::Sigmoid => 1_f64 / (1_f64 + std::f64::consts::E.powf(-x)),
            })
        }
        Calculation::Operator(o, x, y) => {
            let (x, y) = (float(x), float(y));
            num(match o {
                Operator::Plus => x + y,
                Operator::Minus => x - y,
                Operator::Multiply => x * y,
                Operator::Divide => x / y,
                Operator::Pow => x.powf(y),
                Operator::Root => x.powf(1_f64 / y),
                Operator::Log => x.log(y),
            })
        }
    }
}

fn three_primitives() -> PrimitiveOperationSet {
    PrimitiveOperationSet::new(
        vec![
            PrimitiveOperation::Constant(Constant::C1),
            PrimitiveOperation::Modifier(Modifier::Sqr),
            PrimitiveOperation::Operator(Operator::Plus),
        ],
        2,
    )
    .unwrap()
}

fn genotype(value: Vec<u32>, params: KExpressionParams) -> KExpression {
    KExpression { value, params, primitives_set: Arc::new(three_primitives()) }
}

fn slots_allowed(params: &KExpressionParams, locus: usize) -> u32 {
    let sub_total = (params.sub_length * params.subs_count) as usize;
    if locus < sub_total {
        if params.reuse_sub_expr {
            (locus / params.sub_length as usize) as u32
        } else {
            0
        }
    } else {
        params.subs_count
    }
}

#[test]
fn k_expr_contains_generated_genes() {
    let ctx = KExpressions::single_root_primitives(three_primitives(), 1000);

    let k_expr = ctx.new_k_expr().unwrap();
    assert_eq!(k_expr.value.len(), 1000);

    let root = k_expr.expression(ExpressionTreeType::RGEP).unwrap();
    let operations = &root.exprs[0].operations;
    for (locus, gene_id) in k_expr.value.iter().enumerate() {
        let gene = &operations[locus];
        match gene_id {
            0 => assert_eq!(*gene, Constant::C1.stack_operation()),
            1 => assert_eq!(*gene, Modifier::Sqr.stack_operation()),
            2 => assert_eq!(*gene, Operator::Plus.stack_operation()),
            3 => assert_eq!(*gene, Argument::Arg(0).stack_operation()),
            4 => assert_eq!(*gene, Argument::Arg(1).stack_operation()),
            x => panic!("Unexpected gene_id: {}", x),
        }
    }
}

#[test]
fn k_expr_builds_correct_expr_tree() {
    let ctx = KExpressions::single_root_adfs(three_primitives(), 1000, 100, 5);

    let k_expr = ctx.new_k_expr().unwrap();
    let root_expr = k_expr.expression(ExpressionTreeType::RGEP).unwrap();

    assert_eq!(root_expr.args_count, 2);
    assert_eq!(root_expr.exprs.len(), 1);
    for expr in root_expr.exprs {
        assert_eq!(expr.operations.len(), 1000);
        for gene in expr.operations {
            match gene {
                StackOperation::Primitive(_) => {}
                StackOperation::Expression(sub, slot) => {
                    assert!(slot < 5);
                    assert_eq!(sub.operations.len(), 100);
                    for inner in &sub.operations {
                        assert!(matches!(inner, StackOperation::Primitive(_)));
                    }
                }
            }
        }
    }
}

#[test]
fn built_genotype_has_the_length_of_its_layout() {
    for reuse in [false, true] {
        for (sub_length, subs_count, root_length, roots_count) in
            [(0, 0, 0, 1), (3, 4, 5, 2), (1, 1, 1, 1), (7, 0, 2, 3), (0, 6, 4, 1), (10, 3, 5, 1)]
        {
            let params =
                KExpressionParams::new(sub_length, subs_count, root_length, roots_count, reuse);
            let k_expr = KExpressions::new(three_primitives(), params).new_k_expr().unwrap();
            assert_eq!(
                k_expr.value.len() as u32,
                sub_length * subs_count + root_length * roots_count
            );
            assert!(k_expr.is_well_shaped());
            assert_eq!(k_expr.params, params);
        }
    }
}

#[test]
fn built_genotype_decodes_and_evaluates() {
    for reuse in [false, true] {
        let params = KExpressionParams::new(6, 4, 9, 3, reuse);
        let ctx = KExpressions::new(three_primitives(), params);
        for _ in 0..200 {
            let k_expr = ctx.new_k_expr().unwrap();
            for (locus, gene) in k_expr.value.iter().enumerate() {
                assert!(*gene < 5 + slots_allowed(&params, locus));
                assert_eq!(params.slots_before(locus), slots_allowed(&params, locus));
            }
            let root = k_expr.expression(ExpressionTreeType::RGEP).unwrap();
            assert_eq!(root.exprs.len(), 3);
            let results = root.compute_result(&vec![num(1.5), num(-2.0)], &arith).unwrap();
            assert_eq!(results.len(), 3);
            for r in results {
                assert!(float(r).is_finite());
            }
        }
    }
}

#[test]
fn slots_follow_the_layout() {
    let nested = KExpressionParams::new(3, 4, 5, 2, true);
    let expected = [0, 0, 0, 1, 1, 1, 2, 2, 2, 3, 3, 3, 4, 4, 4, 4, 4, 4, 4, 4, 4, 4];
    for (locus, slots) in expected.iter().enumerate() {
        assert_eq!(nested.slots_before(locus), *slots);
    }
    assert_eq!(nested.slots_before(1000), 4);

    let apart = KExpressionParams::new(3, 4, 5, 2, false);
    let expected = [0, 0, 0, 0, 0, 0, 0, 0, 0, 0, 0, 0, 4, 4, 4, 4, 4, 4, 4, 4, 4, 4];
    for (locus, slots) in expected.iter().enumerate() {
        assert_eq!(apart.slots_before(locus), *slots);
    }

    let no_subs = KExpressionParams::new(3, 0, 5, 1, true);
    assert_eq!(no_subs.slots_before(0), 0);
    let empty_subs = KExpressionParams::new(0, 7, 5, 1, true);
    assert_eq!(empty_subs.slots_before(0), 7);
    let huge = KExpressionParams::new(u32::MAX, u32::MAX, 1, 1, true);
    assert_eq!(huge.slots_before(usize::MAX), if usize::MAX as u128 >= (u32::MAX as u128).pow(2) {
        u32::MAX
    } else {
        (usize::MAX as u128 / u32::MAX as u128) as u32
    });
}

#[test]
fn sub_expressions_call_only_earlier_ones() {
    let params = KExpressionParams::new(20, 5, 10, 1, true);
    let ctx = KExpressions::new(three_primitives(), params);
    let mut seen_call = false;
    for _ in 0..50 {
        let k_expr = ctx.new_k_expr().unwrap();
        for segment in 0..5_usize {
            for gene in &k_expr.value[segment * 20..(segment + 1) * 20] {
                assert!((*gene as usize) < 5 + segment);
                seen_call = seen_call || *gene >= 5;
            }
        }
        for gene in &k_expr.value[100..] {
            assert!(*gene < 10);
        }
    }
    assert!(seen_call);

    let apart = KExpressions::new(three_primitives(), KExpressionParams::new(20, 5, 10, 1, false));
    for _ in 0..50 {
        let k_expr = apart.new_k_expr().unwrap();
        for gene in &k_expr.value[..100] {
            assert!(*gene < 5);
        }
        for gene in &k_expr.value[100..] {
            assert!(*gene < 10);
        }
    }
}

#[test]
fn roots_reach_every_sub_expression() {
    for reuse in [false, true] {
        let ctx = KExpressions::new(three_primitives(), KExpressionParams::new(1, 3, 2000, 1, reuse));
        let k_expr = ctx.new_k_expr().unwrap();
        let mut seen = vec![false; 8];
        for gene in &k_expr.value[3..] {
            seen[*gene as usize] = true;
        }
        assert_eq!(seen, vec![true; 8]);
    }
}

#[test]
fn building_fails_where_nothing_can_be_drawn() {
    let empty = || PrimitiveOperationSet::new(vec![], 0).unwrap();
    let build = |params: KExpressionParams| KExpressions::new(empty(), params).new_k_expr();

    assert_eq!(build(KExpressionParams::new(0, 0, 3, 1, false)).err(), Some(GepError::EmptySpace));
    assert_eq!(build(KExpressionParams::new(2, 1, 0, 1, false)).err(), Some(GepError::EmptySpace));
    assert_eq!(build(KExpressionParams::new(2, 3, 4, 1, true)).err(), Some(GepError::EmptySpace));

    assert_eq!(build(KExpressionParams::new(0, 0, 0, 1, false)).unwrap().value, vec![]);
    assert_eq!(build(KExpressionParams::new(5, 0, 0, 4, false)).unwrap().value, vec![]);
    assert_eq!(build(KExpressionParams::new(0, 1, 3, 1, false)).unwrap().value, vec![0, 0, 0]);
    assert_eq!(build(KExpressionParams::new(0, 1, 2, 2, true)).unwrap().value, vec![0, 0, 0, 0]);
}

#[test]
fn default_context_builds_the_empty_genotype() {
    let ctx = KExpressions::default();
    assert_eq!(ctx.params, KExpressionParams::default());
    assert_eq!(ctx.params, KExpressionParams::new(0, 0, 0, 1, false));
    assert_eq!(ctx.operations_set.len(), 0);
    let k_expr = ctx.new_k_expr().unwrap();
    assert_eq!(k_expr.value, vec![]);
    let root = k_expr.expression(ExpressionTreeType::RGEP).unwrap();
    assert_eq!(root.exprs.len(), 1);
    assert_eq!(root.args_count, 0);
    assert_eq!(root.compute_result(&vec![], &arith).unwrap(), vec![Scalar::zero()]);
}

#[test]
fn builder_draws_segment_by_segment() {
    let ctx = KExpressions::new(three_primitives(), KExpressionParams::new(4, 2, 3, 2, true));
    let mut builder = KExpressionBuilder::new(&ctx);
    assert_eq!(builder.add_sub_expression(), Ok(()));
    assert_eq!(builder.add_sub_expression(), Ok(()));
    assert_eq!(builder.add_sub_expression(), Err(GepError::Configuration));
    let k_expr = builder.build().unwrap();
    assert_eq!(k_expr.value.len(), 14);
    for gene in &k_expr.value[..4] {
        assert!(*gene < 5);
    }
    for gene in &k_expr.value[4..8] {
        assert!(*gene < 6);
    }
    for gene in &k_expr.value[8..] {
        assert!(*gene < 7);
    }
}

#[test]
fn builder_refuses_to_build_before_the_sub_expressions_are_drawn() {
    let ctx = KExpressions::new(three_primitives(), KExpressionParams::new(4, 2, 3, 1, false));
    let mut builder = KExpressionBuilder::new(&ctx);
    assert_eq!(builder.add_sub_expression(), Ok(()));
    assert_eq!(builder.build().err(), Some(GepError::Configuration));
    let fresh = KExpressionBuilder::new(&ctx);
    assert_eq!(fresh.build().err(), Some(GepError::Configuration));
}

#[test]
fn decodes_sub_expressions_and_roots() {
    // sub 0: a b +      sub 1: a a sub0     root: 1 b sub1 sqr
    let params = KExpressionParams::new(3, 2, 4, 1, true);
    let k_expr = genotype(vec![3, 4, 2, 3, 3, 5, 0, 4, 6, 1], params);
    let root = k_expr.expression(ExpressionTreeType::RGEP).unwrap();
    assert_eq!(root.args_count, 2);
    assert_eq!(root.exprs.len(), 1);
    let operations = &root.exprs[0].operations;
    assert_eq!(operations.len(), 4);
    assert_eq!(operations[0], Constant::C1.stack_operation());
    assert_eq!(operations[1], Argument::Arg(1).stack_operation());
    assert_eq!(operations[3], Modifier::Sqr.stack_operation());
    match &operations[2] {
        StackOperation::Expression(sub1, slot) => {
            assert_eq!(*slot, 1);
            assert_eq!(sub1.operations[0], Argument::Arg(0).stack_operation());
            assert_eq!(sub1.operations[1], Argument::Arg(0).stack_operation());
            match &sub1.operations[2] {
                StackOperation::Expression(sub0, slot) => {
                    assert_eq!(*slot, 0);
                    assert_eq!(
                        sub0.operations,
                        vec![
                            Argument::Arg(0).stack_operation(),
                            Argument::Arg(1).stack_operation(),
                            Operator::Plus.stack_operation(),
                        ]
                    );
                }
                other => panic!("expected a call, found {:?}", other),
            }
        }
        other => panic!("expected a call, found {:?}", other),
    }
    // sub1(1, 7) = sub0(1, 1) = 2, squared
    let result = root.compute_result(&vec![num(0.0), num(7.0)], &arith).unwrap();
    assert_eq!(float(result[0]), 4.0);
}

#[test]
fn decodes_several_roots() {
    let params = KExpressionParams::new(0, 0, 2, 3, false);
    let k_expr = genotype(vec![3, 1, 4, 1, 0, 0], params);
    let root = k_expr.expression(ExpressionTreeType::RGEP).unwrap();
    let results = root.compute_result(&vec![num(3.0), num(-4.0)], &arith).unwrap();
    let results: Vec<f64> = results.into_iter().map(float).collect();
    assert_eq!(results, vec![9.0, 16.0, 1.0]);
}

#[test]
fn gene_out_of_range_is_a_fault() {
    let params = KExpressionParams::new(2, 2, 2, 1, true);
    // the first sub-expression may call none
    let early = genotype(vec![0, 5, 0, 0, 0, 0], params);
    assert_eq!(
        early.expression(ExpressionTreeType::RGEP).err(),
        Some(GepError::IdentifierOutOfRange { id: 5 })
    );
    // the second may call the first, not itself
    let own = genotype(vec![0, 0, 5, 6, 0, 0], params);
    assert_eq!(
        own.expression(ExpressionTreeType::RGEP).err(),
        Some(GepError::IdentifierOutOfRange { id: 6 })
    );
    // a root may call both, and no third
    let root = genotype(vec![0, 0, 5, 0, 6, 7], params);
    assert_eq!(
        root.expression(ExpressionTreeType::RGEP).err(),
        Some(GepError::IdentifierOutOfRange { id: 7 })
    );
    let fine = genotype(vec![0, 0, 5, 0, 6, 5], params);
    assert!(fine.expression(ExpressionTreeType::RGEP).is_ok());
    // the first fault in the order of the genotype is the one reported
    let two = genotype(vec![9, 0, 8, 0, 7, 7], params);
    assert_eq!(
        two.expression(ExpressionTreeType::RGEP).err(),
        Some(GepError::IdentifierOutOfRange { id: 9 })
    );
}

#[test]
fn other_tree_types_are_refused() {
    let k_expr = genotype(vec![0, 1], KExpressionParams::new(0, 0, 2, 1, false));
    assert_eq!(
        k_expr.expression(ExpressionTreeType::GEP).err(),
        Some(GepError::DecodeUnsupported)
    );
    assert_eq!(
        k_expr.expression(ExpressionTreeType::PGEP).err(),
        Some(GepError::DecodeUnsupported)
    );
    assert!(k_expr.expression(ExpressionTreeType::RGEP).is_ok());
}

#[test]
fn shape_is_checked() {
    let params = KExpressionParams::new(2, 2, 3, 1, false);
    assert!(genotype(vec![0; 7], params).is_well_shaped());
    assert!(!genotype(vec![0; 6], params).is_well_shaped());
    assert!(!genotype(vec![0; 8], params).is_well_shaped());
    let huge = KExpressionParams::new(u32::MAX, u32::MAX, u32::MAX, u32::MAX, false);
    assert!(!genotype(vec![0; 2], huge).is_well_shaped());
}

#[test]
fn legality_is_checked() {
    let params = KExpressionParams::new(2, 2, 2, 1, true);
    assert!(genotype(vec![0, 4, 5, 0, 6, 6], params).is_legal());
    assert!(!genotype(vec![0, 5, 5, 0, 6, 6], params).is_legal());
    assert!(!genotype(vec![0, 4, 6, 0, 6, 6], params).is_legal());
    assert!(!genotype(vec![0, 4, 5, 0, 7, 6], params).is_legal());
    assert!(!genotype(vec![0, 4, 5, 0, 6], params).is_legal());
    assert!(!genotype(vec![0, 4, 5, 0, 6, 6, 0], params).is_legal());

    let apart = KExpressionParams::new(2, 2, 2, 1, false);
    assert!(genotype(vec![0, 4, 4, 0, 6, 6], apart).is_legal());
    assert!(!genotype(vec![0, 4, 5, 0, 6, 6], apart).is_legal());

    for reuse in [false, true] {
        let ctx = KExpressions::new(three_primitives(), KExpressionParams::new(6, 4, 9, 3, reuse));
        for _ in 0..100 {
            let mut k_expr = ctx.new_k_expr().unwrap();
            assert!(k_expr.is_legal());
            k_expr.mutate(11).unwrap();
            k_expr.mutate(30).unwrap();
            assert!(k_expr.is_legal());
        }
    }
}

#[test]
fn legal_genotypes_decode_and_illegal_ones_do_not() {
    let params = KExpressionParams::new(1, 2, 1, 1, true);
    for a in 0..8 {
        for b in 0..8 {
            for c in 0..8 {
                let k_expr = genotype(vec![a, b, c], params);
                let decoded = k_expr.expression(ExpressionTreeType::RGEP);
                assert_eq!(k_expr.is_legal(), decoded.is_ok());
                assert_eq!(k_expr.is_legal(), k_expr.to_string().is_ok());
            }
        }
    }
}

#[test]
fn gene_is_replaced_where_the_new_one_is_legal() {
    let params = KExpressionParams::new(2, 2, 2, 1, true);
    let mut k_expr = genotype(vec![0, 0, 0, 0, 0, 0], params);
    assert_eq!(k_expr.replace_gene(0, 4), Ok(()));
    assert_eq!(k_expr.replace_gene(0, 5), Err(GepError::IdentifierOutOfRange { id: 5 }));
    assert_eq!(k_expr.replace_gene(3, 5), Ok(()));
    assert_eq!(k_expr.replace_gene(3, 6), Err(GepError::IdentifierOutOfRange { id: 6 }));
    assert_eq!(k_expr.replace_gene(5, 6), Ok(()));
    assert_eq!(k_expr.replace_gene(5, 7), Err(GepError::IdentifierOutOfRange { id: 7 }));
    assert_eq!(k_expr.replace_gene(4, u32::MAX), Err(GepError::IdentifierOutOfRange { id: u32::MAX }));
    assert_eq!(k_expr.value, vec![4, 0, 0, 5, 0, 6]);
    assert!(k_expr.is_legal());
}

#[test]
fn mutation_changes_one_locus_only() {
    for reuse in [false, true] {
        let params = KExpressionParams::new(5, 3, 7, 2, reuse);
        let ctx = KExpressions::new(three_primitives(), params);
        let mut k_expr = ctx.new_k_expr().unwrap();
        for round in 0..2000_usize {
            let locus = (round * 7) % k_expr.value.len();
            let before = k_expr.value.clone();
            k_expr.mutate(locus).unwrap();
            assert_eq!(k_expr.value.len(), before.len());
            for other in 0..before.len() {
                if other != locus {
                    assert_eq!(k_expr.value[other], before[other]);
                }
            }
            assert!(k_expr.value[locus] < 5 + slots_allowed(&params, locus));
            assert_eq!(k_expr.params, params);
        }
        assert!(k_expr.expression(ExpressionTreeType::RGEP).is_ok());
    }
}

#[test]
fn mutation_reaches_every_legal_identifier() {
    let params = KExpressionParams::new(2, 3, 2, 1, true);
    let mut k_expr = genotype(vec![0; 8], params);
    let allowed: [usize; 8] = [5, 5, 6, 6, 7, 7, 8, 8];
    for locus in 0..8 {
        let mut seen = vec![false; allowed[locus]];
        for _ in 0..2000 {
            k_expr.mutate(locus).unwrap();
            seen[k_expr.value[locus] as usize] = true;
        }
        assert!(seen.iter().all(|s| *s));
    }
    let apart = KExpressionParams::new(2, 3, 2, 1, false);
    let mut k_expr = genotype(vec![0; 8], apart);
    let allowed: [usize; 8] = [5, 5, 5, 5, 5, 5, 8, 8];
    for locus in 0..8 {
        let mut seen = vec![false; allowed[locus]];
        for _ in 0..2000 {
            k_expr.mutate(locus).unwrap();
            seen[k_expr.value[locus] as usize] = true;
        }
        assert!(seen.iter().all(|s| *s));
    }
}

#[test]
fn mutation_fails_where_nothing_is_legal() {
    let mut k_expr = KExpression {
        value: vec![0, 0, 0],
        params: KExpressionParams::new(1, 2, 1, 1, true),
        primitives_set: Arc::new(PrimitiveOperationSet::new(vec![], 0).unwrap()),
    };
    assert_eq!(k_expr.mutate(0), Err(GepError::EmptySpace));
    assert_eq!(k_expr.value, vec![0, 0, 0]);
    k_expr.value = vec![7, 7, 7];
    assert_eq!(k_expr.mutate(1), Ok(()));
    assert_eq!(k_expr.value, vec![7, 0, 7]);
    for _ in 0..100 {
        assert_eq!(k_expr.mutate(2), Ok(()));
        assert!(k_expr.value[2] < 2);
    }
}

#[test]
fn genotype_is_written_segment_by_segment() {
    let params = KExpressionParams::new(3, 2, 4, 1, true);
    let k_expr = genotype(vec![3, 4, 2, 3, 3, 5, 0, 4, 6, 1], params);
    assert_eq!(
        k_expr.to_string().unwrap(),
        "[EXP[Arg(0), Arg(1), Plus], EXP[Arg(0), Arg(0), EXP[0]] - ROOT[C1, Arg(1), EXP[1], Sqr]]"
    );
    let roots_only = genotype(vec![0, 1, 2, 3], KExpressionParams::new(0, 0, 2, 2, false));
    assert_eq!(roots_only.to_string().unwrap(), "[ - ROOT[C1, Sqr], ROOT[Plus, Arg(0)]]");
    let nothing = genotype(vec![], KExpressionParams::new(0, 0, 0, 0, false));
    assert_eq!(nothing.to_string().unwrap(), "[ - ]");
    let empty_segments = genotype(vec![], KExpressionParams::new(0, 2, 0, 1, false));
    assert_eq!(empty_segments.to_string().unwrap(), "[EXP[], EXP[] - ROOT[]]");
}

#[test]
fn writing_resolves_calls_by_position_alone() {
    // sub-expressions that do not call one another are still written with
    // the slots before them available
    let params = KExpressionParams::new(1, 2, 1, 1, false);
    let k_expr = genotype(vec![0, 5, 6], params);
    assert_eq!(k_expr.to_string().unwrap(), "[EXP[C1], EXP[EXP[0]] - ROOT[EXP[1]]]");
    let bad = genotype(vec![5, 0, 0], params);
    assert_eq!(bad.to_string().err(), Some(GepError::IdentifierOutOfRange { id: 5 }));
}

#[test]
fn record_round_trip_keeps_the_genotype() {
    let params = KExpressionParams::new(3, 2, 4, 1, true);
    let k_expr = genotype(vec![3, 4, 2, 3, 3, 5, 0, 4, 6, 1], params);
    let record = KExpressionSer::from_k_expr(&k_expr);
    let restored = record.clone().to_k_expr();
    assert_eq!(restored.value, k_expr.value);
    assert_eq!(restored.params, k_expr.params);
    assert_eq!(restored.primitives_set.operations(), k_expr.primitives_set.operations());
    assert_eq!(restored.primitives_set.args_count(), 2);
    assert_eq!(restored.to_string(), k_expr.to_string());

    let args = vec![num(0.5), num(7.0)];
    let before = k_expr.expression(ExpressionTreeType::RGEP).unwrap();
    let after = restored.expression(ExpressionTreeType::RGEP).unwrap();
    assert_eq!(
        before.compute_result(&args, &arith).unwrap(),
        after.compute_result(&args, &arith).unwrap()
    );

    let (value, kept_params, vocabulary) = record.into_parts();
    assert_eq!(value, k_expr.value);
    assert_eq!(kept_params, params);
    let again = KExpressionSer::from_parts(value, kept_params, vocabulary).to_k_expr();
    assert_eq!(again.value, k_expr.value);
    assert_eq!(again.primitives_set.len(), 5);
}
