use query_engine::worker::contains;
use query_engine::{CyclicQuery, Worker};

#[test]
fn new_worker_is_idle() {
    let worker = Worker::new(3);
    assert_eq!(worker.thread_id, 3);
    assert!(worker.stack.is_empty());
    assert!(worker.dependencies.is_empty());
}

#[test]
fn contains_finds_each_element() {
    let list = vec![4u64, 8, 15, 16, 23, 42];
    for query in [4u64, 8, 15, 16, 23, 42] {
        assert!(contains(&list, query));
    }
    assert!(!contains(&list, 0));
    assert!(!contains(&list, 5));
    assert!(!contains(&Vec::new(), 4));
}

#[test]
fn begin_rule_saves_the_buffer_and_extends_the_chain() {
    let mut worker = Worker::new(1);
    worker.stack = vec![10];
    worker.dependencies = vec![7, 8];
    let saved = worker.begin_rule(11);
    assert_eq!(saved, Ok(vec![7, 8]));
    assert_eq!(worker.stack, vec![10, 11]);
    assert!(worker.dependencies.is_empty());
    assert_eq!(worker.thread_id, 1);
}

#[test]
fn begin_rule_refuses_a_query_on_the_chain() {
    let mut worker = Worker::new(1);
    worker.stack = vec![10, 11, 12];
    worker.dependencies = vec![7];
    for query in [10u64, 11, 12] {
        assert_eq!(worker.begin_rule(query), Err(CyclicQuery::Local));
        assert_eq!(worker.stack, vec![10, 11, 12]);
        assert_eq!(worker.dependencies, vec![7]);
    }
}

#[test]
fn end_rule_records_the_query_in_the_outer_buffer() {
    let mut worker = Worker::new(1);
    worker.stack = vec![10, 11];
    worker.dependencies = vec![20, 21];
    let recorded = worker.end_rule(11, vec![7, 8]);
    assert_eq!(recorded, vec![20, 21]);
    assert_eq!(worker.stack, vec![10]);
    assert_eq!(worker.dependencies, vec![7, 8, 11]);
}

#[test]
fn end_rule_on_an_empty_chain_leaves_it_empty() {
    let mut worker = Worker::new(1);
    let recorded = worker.end_rule(5, Vec::new());
    assert!(recorded.is_empty());
    assert!(worker.stack.is_empty());
    assert_eq!(worker.dependencies, vec![5]);
}

#[test]
fn nested_rules_are_recorded_in_order() {
    let mut worker = Worker::new(1);
    let outer = worker.begin_rule(10).unwrap();
    for nested in [11u64, 12, 13] {
        let saved = worker.begin_rule(nested).unwrap();
        let inner = worker.begin_rule(nested + 100).unwrap();
        assert!(worker.end_rule(nested + 100, inner).is_empty());
        assert_eq!(worker.end_rule(nested, saved), vec![nested + 100]);
    }
    assert_eq!(worker.stack, vec![10]);
    let recorded = worker.end_rule(10, outer);
    assert_eq!(recorded, vec![11, 12, 13]);
    assert!(worker.stack.is_empty());
    assert_eq!(worker.dependencies, vec![10]);
}

#[test]
fn the_same_nested_rule_twice_is_recorded_twice() {
    let mut worker = Worker::new(1);
    let outer = worker.begin_rule(1).unwrap();
    for _ in 0..2 {
        let saved = worker.begin_rule(2).unwrap();
        worker.end_rule(2, saved);
    }
    assert_eq!(worker.end_rule(1, outer), vec![2, 2]);
}

#[test]
fn swap_stack_exchanges_the_chains() {
    let mut worker = Worker::new(1);
    worker.stack = vec![1, 2, 3];
    worker.dependencies = vec![9];
    let previous = worker.swap_stack(vec![4, 5]);
    assert_eq!(previous, vec![1, 2, 3]);
    assert_eq!(worker.stack, vec![4, 5]);
    assert_eq!(worker.dependencies, vec![9]);
    let stolen = worker.swap_stack(previous);
    assert_eq!(stolen, vec![4, 5]);
    assert_eq!(worker.stack, vec![1, 2, 3]);
}
