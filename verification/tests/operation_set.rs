use std::rc::Rc;
use std::sync::Arc;

use gep_toolkit::error::GepError;
use gep_toolkit::expressions::Expression;
use gep_toolkit::operation_set::{OperationSet, PrimitiveOperationSet};
use gep_toolkit::primitive_operations::{Argument, Constant, Modifier, Operator, PrimitiveOperation};
use gep_toolkit::stack_operation::{StackOperation, StackOperationConstructor};

fn three_primitives() -> Vec<PrimitiveOperation> {
    vec![
        PrimitiveOperation::Constant(Constant::C1),
        PrimitiveOperation::Modifier(Modifier::Sqr),
        PrimitiveOperation::Operator(Operator::Plus),
    ]
}

#[test]
fn operation_set_should_generate_correct_number_of_args() {
    let ops_set = PrimitiveOperationSet::new(three_primitives(), 2).unwrap();

    assert_eq!(ops_set.args_count(), 2);

    assert_eq!(ops_set.operations().len(), 5);
    assert_eq!(ops_set.operations()[3], PrimitiveOperation::Argument(Argument::Arg(0)));
    assert_eq!(ops_set.operations()[4], PrimitiveOperation::Argument(Argument::Arg(1)));
}

#[test]
fn op_set_should_generate_correct_number_of_args() {
    let ops_set = PrimitiveOperationSet::new(three_primitives(), 2).unwrap();

    assert_eq!(ops_set.args_count(), 2);

    assert_eq!(ops_set.len(), 5);
    assert_eq!(ops_set.operations()[0], PrimitiveOperation::Constant(Constant::C1));
    assert_eq!(ops_set.operations()[1], PrimitiveOperation::Modifier(Modifier::Sqr));
    assert_eq!(ops_set.operations()[2], PrimitiveOperation::Operator(Operator::Plus));
    assert_eq!(ops_set.operations()[3], PrimitiveOperation::Argument(Argument::Arg(0)));
    assert_eq!(ops_set.operations()[4], PrimitiveOperation::Argument(Argument::Arg(1)));
}

#[test]
fn operation_set_should_create_operation_ids() {
    let ops_set = PrimitiveOperationSet::new(three_primitives(), 2).unwrap();

    let ids = ops_set.operation_ids();
    let max = *ids.random_ids(10000).unwrap().iter().max().unwrap();
    assert_eq!(max, 4)
}

#[test]
fn op_set_should_create_operation_ids() {
    let ops_set = PrimitiveOperationSet::new(three_primitives(), 2).unwrap();

    let ids = ops_set.operation_ids();
    assert_eq!(ids.operations_count(), 5);
    assert_eq!(ids.expr_count(), 0);
    let max = *ids.random_ids(10000).unwrap().iter().max().unwrap();
    assert_eq!(max, 4)
}

#[test]
fn operation_set_should_panic_when_passed_arguments_to_constructor() {
    let made =
        PrimitiveOperationSet::new(vec![PrimitiveOperation::Argument(Argument::Arg(0))], 1);
    assert_eq!(made.err(), Some(GepError::Configuration));
}

#[test]
fn op_set_should_panic_when_passed_arguments_to_constructor() {
    let made = PrimitiveOperationSet::new(
        vec![
            PrimitiveOperation::Constant(Constant::C1),
            PrimitiveOperation::Argument(Argument::Arg(7)),
            PrimitiveOperation::Operator(Operator::Plus),
        ],
        0,
    );
    assert_eq!(made.err(), Some(GepError::Configuration));
}

#[test]
fn operation_set_should_return_correct_primitives_by_indexes() {
    let primitive_set = Arc::new(PrimitiveOperationSet::new(three_primitives(), 2).unwrap());
    let ops_set = OperationSet::from_primitive_set(&primitive_set);

    assert_eq!(ops_set.operation_by_id(0), Ok(Constant::C1.stack_operation()));
    assert_eq!(ops_set.operation_by_id(1), Ok(Modifier::Sqr.stack_operation()));
    assert_eq!(ops_set.operation_by_id(2), Ok(Operator::Plus.stack_operation()));
    assert_eq!(ops_set.operation_by_id(3), Ok(Argument::Arg(0).stack_operation()));
    assert_eq!(ops_set.operation_by_id(4), Ok(Argument::Arg(1).stack_operation()));
}

#[test]
fn op_set_should_return_correct_primitives_by_indexes() {
    let primitive_set = Arc::new(PrimitiveOperationSet::new(three_primitives(), 2).unwrap());
    let ops_set = OperationSet::from_primitive_set(&primitive_set);

    assert_eq!(
        ops_set.operation_by_id(0),
        Ok(PrimitiveOperation::Constant(Constant::C1).stack_operation())
    );
    assert_eq!(
        ops_set.operation_by_id(1),
        Ok(PrimitiveOperation::Modifier(Modifier::Sqr).stack_operation())
    );
    assert_eq!(
        ops_set.operation_by_id(2),
        Ok(PrimitiveOperation::Operator(Operator::Plus).stack_operation())
    );
    assert_eq!(
        ops_set.operation_by_id(3),
        Ok(PrimitiveOperation::Argument(Argument::Arg(0)).stack_operation())
    );
    assert_eq!(
        ops_set.operation_by_id(4),
        Ok(PrimitiveOperation::Argument(Argument::Arg(1)).stack_operation())
    );
    assert_eq!(ops_set.operation_by_id(5), Err(GepError::IdentifierOutOfRange { id: 5 }));
}

#[test]
fn operation_set_should_panic_when_operation_id_not_found() {
    let primitive_set = Arc::new(
        PrimitiveOperationSet::new(vec![PrimitiveOperation::Constant(Constant::C1)], 1).unwrap(),
    );
    let ops_set = OperationSet::from_primitive_set(&primitive_set);

    assert_eq!(ops_set.operation_by_id(2), Err(GepError::IdentifierOutOfRange { id: 2 }));
}

#[test]
fn op_set_should_panic_when_operation_id_not_found() {
    let primitive_set = Arc::new(
        PrimitiveOperationSet::new(vec![PrimitiveOperation::Constant(Constant::C1)], 1).unwrap(),
    );
    let ops_set = OperationSet::from_primitive_set(&primitive_set);

    assert!(ops_set.operation_by_id(1).is_ok());
    assert_eq!(
        ops_set.operation_by_id(u32::MAX),
        Err(GepError::IdentifierOutOfRange { id: u32::MAX })
    );
}

#[test]
fn operation_set_should_return_correct_expressions_by_indexes() {
    let primitive_set = Arc::new(
        PrimitiveOperationSet::new(
            vec![
                PrimitiveOperation::Constant(Constant::C1),
                PrimitiveOperation::Modifier(Modifier::Sqr),
            ],
            1,
        )
        .unwrap(),
    );
    let mut ops_set = OperationSet::from_primitive_set(&primitive_set);

    let expr1 = Expression::new(vec![
        Constant::C100.stack_operation(),
        Modifier::Sigmoid.stack_operation(),
    ]);
    ops_set.add_sub_expr(expr1.clone());

    let expr2 = Expression::new(vec![
        Argument::Arg(0).stack_operation(),
        Argument::Arg(1).stack_operation(),
        Operator::Plus.stack_operation(),
    ]);
    ops_set.add_sub_expr(expr2.clone());

    assert_eq!(ops_set.operation_by_id(3), Ok(StackOperation::Expression(Rc::new(expr1), 0)));
    assert_eq!(ops_set.operation_by_id(4), Ok(StackOperation::Expression(Rc::new(expr2), 1)));
}

#[test]
fn op_set_should_return_correct_expressions_by_indexes() {
    let primitive_set = Arc::new(PrimitiveOperationSet::new(vec![], 0).unwrap());
    let mut ops_set = OperationSet::from_primitive_set(&primitive_set);
    assert_eq!(ops_set.operation_by_id(0), Err(GepError::IdentifierOutOfRange { id: 0 }));

    let expr1 = Expression::new(vec![Constant::C100.stack_operation()]);
    ops_set.add_sub_expr(expr1.clone());
    assert_eq!(ops_set.operation_by_id(0), Ok(StackOperation::Expression(Rc::new(expr1), 0)));
    assert_eq!(ops_set.operation_by_id(1), Err(GepError::IdentifierOutOfRange { id: 1 }));
}

#[test]
fn operation_set_should_panic_when_expression_id_not_found() {
    let primitive_set = Arc::new(PrimitiveOperationSet::new(vec![], 1).unwrap());
    let mut ops_set = OperationSet::from_primitive_set(&primitive_set);

    let expr1 = Expression::new(vec![]);
    ops_set.add_sub_expr(expr1.clone());

    assert_eq!(ops_set.operation_by_id(2), Err(GepError::IdentifierOutOfRange { id: 2 }));
}

#[test]
fn op_set_should_panic_when_expression_id_not_found() {
    let primitive_set = Arc::new(PrimitiveOperationSet::new(vec![], 1).unwrap());
    let mut ops_set = OperationSet::from_primitive_set(&primitive_set);

    let expr1 = Expression::new(vec![]);
    ops_set.add_sub_expr(expr1.clone());

    assert!(ops_set.operation_by_id(0).is_ok());
    assert!(ops_set.operation_by_id(1).is_ok());
    assert!(ops_set.operation_by_id(2).is_err());
    assert!(ops_set.operation_by_id(3).is_err());
}

#[test]
fn vocabulary_of_arguments_only() {
    let set = PrimitiveOperationSet::new(vec![], 3).unwrap();
    assert_eq!(set.len(), 3);
    assert_eq!(set.args_count(), 3);
    assert_eq!(
        *set.operations(),
        vec![
            PrimitiveOperation::Argument(Argument::Arg(0)),
            PrimitiveOperation::Argument(Argument::Arg(1)),
            PrimitiveOperation::Argument(Argument::Arg(2)),
        ]
    );
    let empty = PrimitiveOperationSet::new(vec![], 0).unwrap();
    assert_eq!(empty.len(), 0);
    assert_eq!(empty.operation_ids().available(), 0);
}

#[test]
fn clone_keeps_the_entries() {
    let set = PrimitiveOperationSet::new(three_primitives(), 2).unwrap();
    let copy = set.clone();
    assert_eq!(copy.operations(), set.operations());
    assert_eq!(copy.args_count(), 2);
}

fn texts(items: &[&str]) -> Vec<String> {
    items.iter().map(|s| s.to_string()).collect()
}

#[test]
fn validate_accepts_the_texts_of_the_entries() {
    let set = PrimitiveOperationSet::new(three_primitives(), 2).unwrap();
    assert_eq!(set.validate(&texts(&["C1", "Sqr", "Plus", "Arg(0)", "Arg(1)"])), Ok(()));
    assert_eq!(set.validate(&texts(&["C1", "Sqr"])), Ok(()));
    assert_eq!(set.validate(&texts(&[])), Ok(()));
    assert_eq!(set.displays(), texts(&["C1", "Sqr", "Plus", "Arg(0)", "Arg(1)"]));
    assert_eq!(set.validate(&set.displays()), Ok(()));
}

#[test]
fn validate_names_the_first_text_that_differs() {
    let set = PrimitiveOperationSet::new(three_primitives(), 2).unwrap();
    assert_eq!(
        set.validate(&texts(&["C1", "Sqrt", "Minus", "Arg(0)", "Arg(1)"])),
        Err(GepError::SchemaMismatch {
            index: 1,
            expected: "Sqrt".to_string(),
            actual: "Sqr".to_string(),
        })
    );
    assert_eq!(
        set.validate(&texts(&["C1", "Sqr", "Plus", "Arg(0)", "Arg(2)"])),
        Err(GepError::SchemaMismatch {
            index: 4,
            expected: "Arg(2)".to_string(),
            actual: "Arg(1)".to_string(),
        })
    );
    assert_eq!(
        set.validate(&texts(&[""])),
        Err(GepError::SchemaMismatch {
            index: 0,
            expected: "".to_string(),
            actual: "C1".to_string(),
        })
    );
}

#[test]
fn validate_refuses_a_text_without_an_entry() {
    let set = PrimitiveOperationSet::new(three_primitives(), 2).unwrap();
    assert_eq!(
        set.validate(&texts(&["C1", "Sqr", "Plus", "Arg(0)", "Arg(1)", "Arg(2)"])),
        Err(GepError::SchemaMismatch {
            index: 5,
            expected: "Arg(2)".to_string(),
            actual: "".to_string(),
        })
    );
    let empty = PrimitiveOperationSet::new(vec![], 0).unwrap();
    assert_eq!(
        empty.validate(&texts(&[""])),
        Err(GepError::SchemaMismatch {
            index: 0,
            expected: "".to_string(),
            actual: "".to_string(),
        })
    );
    assert_eq!(empty.validate(&texts(&[])), Ok(()));
}

#[test]
fn validate_bytes_reads_the_persisted_texts() {
    let set = PrimitiveOperationSet::new(three_primitives(), 2).unwrap();
    let bytes = bincode::serialize(&set.displays()).unwrap();
    assert_eq!(set.validate_bytes(&bytes), Ok(()));

    let other = PrimitiveOperationSet::new(
        vec![
            PrimitiveOperation::Constant(Constant::C1),
            PrimitiveOperation::Modifier(Modifier::Sqr),
            PrimitiveOperation::Operator(Operator::Minus),
        ],
        2,
    )
    .unwrap();
    assert_eq!(
        other.validate_bytes(&bytes),
        Err(GepError::SchemaMismatch {
            index: 2,
            expected: "Plus".to_string(),
            actual: "Minus".to_string(),
        })
    );

    let prefix = bincode::serialize(&texts(&["C1", "Sqr"])).unwrap();
    assert_eq!(set.validate_bytes(&prefix), Ok(()));
    assert_eq!(other.validate_bytes(&prefix), Ok(()));
}

#[test]
fn validate_bytes_refuses_what_is_no_list_of_texts() {
    let set = PrimitiveOperationSet::new(three_primitives(), 2).unwrap();
    assert_eq!(set.validate_bytes(&[]), Err(GepError::IoFault));
    assert_eq!(set.validate_bytes(&[1, 2, 3]), Err(GepError::IoFault));
    let mut cut = bincode::serialize(&set.displays()).unwrap();
    cut.truncate(cut.len() - 1);
    assert_eq!(set.validate_bytes(&cut), Err(GepError::IoFault));
    // one text of two bytes that are not UTF-8
    let not_text = [1, 0, 0, 0, 0, 0, 0, 0, 2, 0, 0, 0, 0, 0, 0, 0, 0xff, 0xfe];
    assert_eq!(set.validate_bytes(&not_text), Err(GepError::IoFault));
    // an empty list
    assert_eq!(set.validate_bytes(&[0, 0, 0, 0, 0, 0, 0, 0]), Ok(()));
}
