use crossbeam::sync::Parker;
use query_engine::storage::Claim;
use query_engine::{Entry, Storage};

fn waiters_of(storage: &Storage<String>, query: u64) -> Vec<u64> {
    match storage.get(query) {
        Some(Entry::InProgress { waiters, .. }) => waiters.iter().map(|waiter| waiter.0).collect(),
        _ => panic!("query {} is not in progress", query),
    }
}

#[test]
fn new_storage_is_empty() {
    let storage: Storage<String> = Storage::new();
    assert!(storage.get(0).is_none());
    assert!(storage.get(17).is_none());
}

#[test]
fn first_claim_wins() {
    let mut storage: Storage<String> = Storage::new();
    assert!(storage.claim(5, 1));
    assert!(!storage.claim(5, 2));
    assert!(!storage.claim(5, 1));
    let entry = storage.get(5).unwrap();
    assert_eq!(entry.owner(), Some(1));
    assert!(!entry.is_complete());
    assert!(entry.result().is_none());
    assert!(waiters_of(&storage, 5).is_empty());
}

#[test]
fn claims_of_different_queries_are_independent() {
    let mut storage: Storage<String> = Storage::new();
    for query in 0..100u64 {
        assert!(storage.claim(query, query % 3));
    }
    for query in 0..100u64 {
        assert_eq!(storage.get(query).unwrap().owner(), Some(query % 3));
        assert!(!storage.claim(query, 9));
    }
    assert!(storage.get(100).is_none());
}

#[test]
fn enlist_appends_waiters_in_order() {
    let mut storage: Storage<String> = Storage::new();
    assert!(storage.claim(5, 1));
    assert!(storage.claim(6, 1));
    for waiter in [4u64, 2, 3] {
        let parker = Parker::new();
        assert!(storage.enlist(5, waiter, parker.unparker().clone()));
    }
    assert_eq!(waiters_of(&storage, 5), vec![4, 2, 3]);
    assert!(waiters_of(&storage, 6).is_empty());
    assert_eq!(storage.get(5).unwrap().owner(), Some(1));
}

#[test]
fn enlist_needs_an_entry_in_progress() {
    let mut storage: Storage<String> = Storage::new();
    let parker = Parker::new();
    assert!(!storage.enlist(5, 2, parker.unparker().clone()));
    assert!(storage.get(5).is_none());
    assert!(storage.claim(5, 1));
    assert!(storage.publish(5, 1, "done".to_string(), vec![]).is_some());
    assert!(!storage.enlist(5, 2, parker.unparker().clone()));
    assert!(storage.get(5).unwrap().is_complete());
}

#[test]
fn publish_stores_result_and_dependencies() {
    let mut storage: Storage<String> = Storage::new();
    assert!(storage.claim(5, 1));
    let parker = Parker::new();
    assert!(storage.enlist(5, 2, parker.unparker().clone()));
    assert!(storage.enlist(5, 3, parker.unparker().clone()));
    let woken = storage.publish(5, 1, "five".to_string(), vec![8, 9]).unwrap();
    let threads: Vec<u64> = woken.iter().map(|waiter| waiter.0).collect();
    assert_eq!(threads, vec![2, 3]);
    match storage.get(5) {
        Some(Entry::Complete { result, dependencies }) => {
            assert_eq!(result, "five");
            assert_eq!(dependencies, &vec![8, 9]);
        }
        _ => panic!("query 5 is not complete"),
    }
    let entry = storage.get(5).unwrap();
    assert!(entry.is_complete());
    assert_eq!(entry.owner(), None);
    assert_eq!(entry.result(), Some(&"five".to_string()));
}

#[test]
fn publish_is_for_the_owner_alone() {
    let mut storage: Storage<String> = Storage::new();
    assert!(storage.publish(5, 1, "early".to_string(), vec![]).is_none());
    assert!(storage.get(5).is_none());
    assert!(storage.claim(5, 1));
    assert!(storage.publish(5, 2, "stranger".to_string(), vec![]).is_none());
    assert_eq!(storage.get(5).unwrap().owner(), Some(1));
    assert!(storage.publish(5, 1, "owner".to_string(), vec![]).is_some());
    assert_eq!(storage.get(5).unwrap().result(), Some(&"owner".to_string()));
}

#[test]
fn publish_happens_once() {
    let mut storage: Storage<String> = Storage::new();
    assert!(storage.claim(5, 1));
    assert!(storage.publish(5, 1, "first".to_string(), vec![1]).is_some());
    assert!(storage.publish(5, 1, "second".to_string(), vec![2]).is_none());
    match storage.get(5) {
        Some(Entry::Complete { result, dependencies }) => {
            assert_eq!(result, "first");
            assert_eq!(dependencies, &vec![1]);
        }
        _ => panic!("query 5 is not complete"),
    }
}

#[test]
fn publishing_one_query_leaves_the_others() {
    let mut storage: Storage<String> = Storage::new();
    assert!(storage.claim(1, 10));
    assert!(storage.claim(2, 20));
    assert!(storage.claim(3, 30));
    assert!(storage.publish(2, 20, "two".to_string(), vec![]).is_some());
    assert_eq!(storage.get(1).unwrap().owner(), Some(10));
    assert_eq!(storage.get(3).unwrap().owner(), Some(30));
    assert_eq!(storage.get(2).unwrap().result(), Some(&"two".to_string()));
}

#[test]
fn entries_can_be_cloned() {
    let mut storage: Storage<String> = Storage::new();
    assert!(storage.claim(1, 10));
    let copy = storage.get(1).unwrap().clone();
    assert_eq!(copy.owner(), Some(10));
    assert!(storage.publish(1, 10, "one".to_string(), vec![4]).is_some());
    let copy = storage.get(1).unwrap().clone();
    assert_eq!(copy.result(), Some(&"one".to_string()));
}

#[test]
fn get_or_claim_tells_the_three_cases_apart() {
    let mut storage: Storage<String> = Storage::new();
    assert!(matches!(storage.get_or_claim(5, 1), Claim::ClaimedByMe));
    assert!(matches!(storage.get_or_claim(5, 2), Claim::AlreadyInProgress(1)));
    assert!(matches!(storage.get_or_claim(5, 1), Claim::AlreadyInProgress(1)));
    assert_eq!(storage.get(5).unwrap().owner(), Some(1));
    assert!(storage.publish(5, 1, "five".to_string(), vec![]).is_some());
    for thread in 1..4u64 {
        match storage.get_or_claim(5, thread) {
            Claim::AlreadyComplete(result) => assert_eq!(result, "five"),
            _ => panic!("query 5 is not complete"),
        }
    }
    assert!(matches!(storage.get_or_claim(6, 2), Claim::ClaimedByMe));
    assert_eq!(storage.get(6).unwrap().owner(), Some(2));
}
