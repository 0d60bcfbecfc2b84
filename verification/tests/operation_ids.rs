use gep_toolkit::error::GepError;
use gep_toolkit::operation_ids::OperationIds;

#[test]
fn test_empty_operation_ids_panics() {
    let op_ids = OperationIds::new(0);
    assert_eq!(op_ids.random_id(), Err(GepError::EmptySpace));
}

#[test]
fn test_random_ids_are_within_range() {
    let op_ids = OperationIds::new(10);
    let ids = op_ids.random_ids(10000).unwrap();
    assert_eq!(ids.len(), 10000);

    let mut options: Vec<bool> = vec![false; 10];
    for id in ids {
        options[id as usize] = true;
    }

    for i in 0..10_usize {
        assert_eq!(options[i], true)
    }
}

#[test]
fn test_random_expr_ids_are_within_range() {
    let mut op_ids = OperationIds::new(10);
    op_ids.add_exprs(10);

    let ids = op_ids.random_ids(10000).unwrap();

    let mut options: Vec<bool> = vec![false; 20];
    for id in ids {
        options[id as usize] = true;
    }

    for i in 0..20_usize {
        assert_eq!(options[i], true)
    }
}

#[test]
fn random_ids_never_reach_the_bound() {
    let op_ids = OperationIds::new(10);
    for id in op_ids.random_ids(10000).unwrap() {
        assert!(id < 10);
    }
    let mut grown = OperationIds::new(3);
    grown.add_exprs(2);
    grown.add_exprs(1);
    assert_eq!(grown.operations_count(), 3);
    assert_eq!(grown.expr_count(), 3);
    assert_eq!(grown.available(), 6);
    for _ in 0..1000 {
        assert!(grown.random_id().unwrap() < 6);
    }
}

#[test]
fn random_ids_of_an_empty_space() {
    let op_ids = OperationIds::new(0);
    assert_eq!(op_ids.random_ids(0), Ok(vec![]));
    assert_eq!(op_ids.random_ids(3), Err(GepError::EmptySpace));
    let mut grown = OperationIds::new(0);
    grown.add_exprs(1);
    assert_eq!(grown.random_ids(4), Ok(vec![0, 0, 0, 0]));
}

#[test]
fn random_ids_are_not_all_alike() {
    let op_ids = OperationIds::new(1000);
    let ids = op_ids.random_ids(100).unwrap();
    assert!(ids.iter().any(|id| *id != ids[0]));
}
