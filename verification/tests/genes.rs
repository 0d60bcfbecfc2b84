use std::rc::Rc;

use gep_toolkit::error::GepError;
use gep_toolkit::expressions::Expression;
use gep_toolkit::genes::{GenesDictionary, GenesProducer, GenesSet};
use gep_toolkit::primitive_operations::{Argument, Constant, Modifier, Operator, PrimitiveOperation};
use gep_toolkit::stack_operation::{StackOperation, StackOperationConstructor};

#[test]
fn genes_should_panic_when_passed_arguments_to_constructor() {
    let made = GenesSet::new(vec![PrimitiveOperation::Argument(Argument::Arg(0))], 1);
    assert_eq!(made.err(), Some(GepError::Configuration));
}

#[test]
fn genes_producing_test() {
    let operations = vec![
        PrimitiveOperation::Constant(Constant::C1),
        PrimitiveOperation::Modifier(Modifier::Sqr),
        PrimitiveOperation::Operator(Operator::Plus),
    ];
    let plain = GenesSet::new(operations, 1).unwrap();
    for _ in 0..1000 {
        let id = plain.random_gene_id().unwrap();
        assert_eq!(id < 4, true);
    }

    let set = GenesProducer::with_adfs(&plain, 1);

    let initial_set = set.clone();
    let gp = set;

    let mut drawn = vec![false; 5];
    for _ in 0..1000 {
        let id = gp.random_gene_id().unwrap();
        assert_eq!(id < 5, true);
        drawn[id as usize] = true;
    }
    assert_eq!(drawn, vec![true; 5]);

    let dict_0 = gp.dictionary();
    assert_eq!(dict_0.gene_by_id(0), Ok(Constant::C1.stack_operation()));
    assert_eq!(dict_0.gene_by_id(1), Ok(Modifier::Sqr.stack_operation()));
    assert_eq!(dict_0.gene_by_id(2), Ok(Operator::Plus.stack_operation()));
    assert_eq!(dict_0.gene_by_id(3), Ok(Argument::Arg(0).stack_operation()));
    assert_eq!(dict_0.gene_by_id(3), initial_set.gene_by_id(3));
    assert_eq!(dict_0.gene_by_id(4), Err(GepError::IdentifierOutOfRange { id: 4 }));

    // (b^2) + a
    let sub_expr = Rc::new(Expression::new(vec![
        Argument::Arg(1).stack_operation(),
        Modifier::Sqr.stack_operation(),
        Argument::Arg(0).stack_operation(),
        Operator::Plus.stack_operation(),
    ]));

    let dict_1 = GenesDictionary::with_adfs(&dict_0, vec![Rc::clone(&sub_expr)]).unwrap();
    assert_eq!(dict_1.gene_by_id(0), Ok(Constant::C1.stack_operation()));
    assert_eq!(dict_1.gene_by_id(1), Ok(Modifier::Sqr.stack_operation()));
    assert_eq!(dict_1.gene_by_id(2), Ok(Operator::Plus.stack_operation()));
    assert_eq!(dict_1.gene_by_id(3), Ok(Argument::Arg(0).stack_operation()));

    match dict_1.gene_by_id(4) {
        Ok(StackOperation::Expression(found, slot)) => {
            assert!(Rc::ptr_eq(&found, &sub_expr));
            assert_eq!(slot, 0);
        }
        other => panic!("expected the stored sub-expression, found {:?}", other),
    }
    assert_eq!(dict_1.gene_by_id(5), Err(GepError::IdentifierOutOfRange { id: 5 }));
    assert_eq!(dict_1.args_amount(), 1);
}

#[test]
fn dictionary_refuses_a_wrong_number_of_sub_expressions() {
    let set = GenesSet::new(vec![PrimitiveOperation::Constant(Constant::C1)], 0).unwrap();
    let none: Vec<Rc<Expression>> = vec![];
    assert!(GenesDictionary::with_adfs(&set, none.clone()).is_ok());
    let one = vec![Rc::new(Expression::new(vec![]))];
    assert_eq!(
        GenesDictionary::with_adfs(&set, one.clone()).err(),
        Some(GepError::Configuration)
    );

    let two_declared = GenesProducer::with_adfs(&set, 2);
    assert_eq!(
        GenesDictionary::with_adfs(&two_declared, one).err(),
        Some(GepError::Configuration)
    );
    assert_eq!(
        GenesDictionary::with_adfs(&two_declared, none).err(),
        Some(GepError::Configuration)
    );
    let two = vec![Rc::new(Expression::new(vec![])), Rc::new(Expression::new(vec![]))];
    let dict = GenesDictionary::with_adfs(&two_declared, two).unwrap();
    assert!(dict.gene_by_id(1).is_ok());
    assert!(dict.gene_by_id(2).is_ok());
    assert!(dict.gene_by_id(3).is_err());
}

#[test]
fn empty_set_draws_nothing() {
    let set = GenesSet::new(vec![], 0).unwrap();
    assert_eq!(set.random_gene_id(), Err(GepError::EmptySpace));
    let grown = GenesProducer::with_adfs(&set, 1);
    assert_eq!(grown.random_gene_id(), Ok(0));
    assert_eq!(grown.args_amount(), 0);
}
