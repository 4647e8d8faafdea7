use forge::coordinator::{Admission, Release, WriteCoordinator};

#[test]
fn second_push_to_a_held_repository_waits_then_is_refused() {
    let mut c = WriteCoordinator::new(1);
    let r = "acme".to_string();
    assert_eq!(c.acquire(&r), Admission::Granted);
    assert_eq!(c.acquire(&r), Admission::Queued);
    assert_eq!(c.acquire(&r), Admission::Busy);
    assert_eq!(c.section(&r), (true, 1));
}

#[test]
fn release_hands_the_section_to_the_next_waiter() {
    let mut c = WriteCoordinator::new(4);
    let r = "acme".to_string();
    c.acquire(&r);
    c.acquire(&r);
    assert_eq!(c.release(&r), Release::HandedOver);
    assert_eq!(c.section(&r), (true, 0));
    assert_eq!(c.release(&r), Release::Freed);
    assert_eq!(c.section(&r), (false, 0));
    assert_eq!(c.release(&r), Release::NotHeld);
    assert_eq!(c.acquire(&r), Admission::Granted);
}

#[test]
fn different_repositories_do_not_block_each_other() {
    let mut c = WriteCoordinator::new(0);
    let r1 = "one".to_string();
    let r2 = "two".to_string();
    assert_eq!(c.acquire(&r1), Admission::Granted);
    assert_eq!(c.acquire(&r2), Admission::Granted);
    assert_eq!(c.acquire(&r1), Admission::Busy);
    assert_eq!(c.release(&r2), Release::Freed);
    assert_eq!(c.section(&r1), (true, 0));
}

#[test]
fn abandoned_wait_leaves_the_queue() {
    let mut c = WriteCoordinator::new(2);
    let r = "acme".to_string();
    c.acquire(&r);
    c.acquire(&r);
    assert!(c.abandon_wait(&r));
    assert_eq!(c.section(&r), (true, 0));
    assert!(!c.abandon_wait(&r));
    assert_eq!(c.release(&r), Release::Freed);
}
