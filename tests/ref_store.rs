use forge::ref_store::{RefStore, RefUpdate};

fn h(b: u8) -> Vec<u8> {
    vec![b; 32]
}

fn update(name: &str, expected: Option<Vec<u8>>, new: Vec<u8>) -> RefUpdate {
    RefUpdate { name: name.to_string(), expected, new }
}

#[test]
fn compare_and_swap_creates_then_moves_a_ref() {
    let mut refs = RefStore::new();
    let main = "main".to_string();
    assert!(refs.compare_and_swap(&main, &None, h(1)).is_ok());
    assert_eq!(refs.resolve(&main), Some(h(1)));
    assert!(refs.compare_and_swap(&main, &Some(h(1)), h(2)).is_ok());
    assert_eq!(refs.resolve(&main), Some(h(2)));
}

#[test]
fn stale_expectation_reports_the_actual_value() {
    let mut refs = RefStore::new();
    let main = "main".to_string();
    refs.compare_and_swap(&main, &None, h(1)).unwrap();
    let err = refs.compare_and_swap(&main, &Some(h(9)), h(2)).unwrap_err();
    assert_eq!(err.name, "main");
    assert_eq!(err.actual, Some(h(1)));
    assert_eq!(refs.resolve(&main), Some(h(1)));
    let err = refs.compare_and_swap(&main, &None, h(3)).unwrap_err();
    assert_eq!(err.actual, Some(h(1)));
}

#[test]
fn batch_with_one_stale_update_applies_nothing() {
    let mut refs = RefStore::new();
    refs.compare_and_swap_batch(&vec![update("main", None, h(1)), update("dev", None, h(2))]).unwrap();
    let before = refs.entries();
    let err = refs
        .compare_and_swap_batch(&vec![
            update("main", Some(h(1)), h(3)),
            update("dev", Some(h(7)), h(4)),
            update("tag", None, h(5)),
        ])
        .unwrap_err();
    assert_eq!(err.name, "dev");
    assert_eq!(err.actual, Some(h(2)));
    assert_eq!(refs.entries(), before);
    assert_eq!(refs.resolve(&"main".to_string()), Some(h(1)));
    assert_eq!(refs.resolve(&"tag".to_string()), None);
}

#[test]
fn racing_batches_on_a_shared_ref_commit_exactly_one() {
    let mut refs = RefStore::new();
    refs.compare_and_swap_batch(&vec![update("main", None, h(0))]).unwrap();
    let first = vec![update("main", Some(h(0)), h(1)), update("a", None, h(5))];
    let second = vec![update("main", Some(h(0)), h(2)), update("b", None, h(6))];
    assert!(refs.compare_and_swap_batch(&first).is_ok());
    assert!(refs.compare_and_swap_batch(&second).is_err());
    assert_eq!(refs.resolve(&"main".to_string()), Some(h(1)));
    assert_eq!(refs.resolve(&"b".to_string()), None);
}

#[test]
fn later_update_of_the_same_ref_wins_in_a_batch() {
    let mut refs = RefStore::new();
    refs.compare_and_swap_batch(&vec![update("main", None, h(1)), update("main", None, h(2))]).unwrap();
    assert_eq!(refs.resolve(&"main".to_string()), Some(h(2)));
    assert_eq!(refs.entries().len(), 1);
}
