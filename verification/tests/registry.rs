use msg_relay::frame::{decode, encode_text};
use msg_relay::registry::{Delivery, Registry, WriteOutcome};

fn report(conn: u64, outcome: WriteOutcome) -> Delivery {
    Delivery { conn, outcome }
}

fn registry_of(n: usize) -> Registry {
    let mut registry = Registry::new();
    for _ in 0..n {
        registry.register().unwrap();
    }
    registry
}

#[test]
fn new_registry_is_empty() {
    let registry = Registry::new();
    assert!(registry.is_empty());
    assert_eq!(registry.len(), 0);
    assert_eq!(registry.ids(), Vec::<u64>::new());
    assert!(!registry.contains(0));
}

#[test]
fn register_issues_identities_in_turn() {
    let mut registry = Registry::new();
    assert_eq!(registry.register(), Some(0));
    assert_eq!(registry.register(), Some(1));
    assert_eq!(registry.register(), Some(2));
    assert_eq!(registry.ids(), vec![0, 1, 2]);
    assert_eq!(registry.len(), 3);
    assert!(!registry.is_empty());
    assert!(registry.contains(1));
    assert!(!registry.contains(3));
}

#[test]
fn broadcast_goes_to_everyone() {
    let registry = registry_of(3);
    let plan = registry.broadcast("hello");
    assert_eq!(plan.targets, vec![0, 1, 2]);
    assert_eq!(plan.frame, encode_text("hello"));
    assert_eq!(decode(&plan.frame), Ok(String::from("hello")));
}

#[test]
fn broadcast_on_empty_registry_has_no_target() {
    let registry = Registry::new();
    let plan = registry.broadcast("hello");
    assert!(plan.targets.is_empty());
    assert_eq!(plan.frame, encode_text("hello"));
}

#[test]
fn pass_without_failure_keeps_everyone() {
    let mut registry = registry_of(3);
    let reports = [
        report(0, WriteOutcome::Written),
        report(1, WriteOutcome::Written),
        report(2, WriteOutcome::Written),
    ];
    assert_eq!(registry.prune(&reports), Vec::<u64>::new());
    assert_eq!(registry.ids(), vec![0, 1, 2]);
}

#[test]
fn closed_connection_leaves_after_the_next_pass() {
    let mut registry = registry_of(2);
    let first = registry.broadcast("one");
    assert_eq!(first.targets, vec![0, 1]);
    let reports = [report(0, WriteOutcome::Failed), report(1, WriteOutcome::Written)];
    assert_eq!(registry.prune(&reports), vec![0]);
    assert!(!registry.contains(0));
    assert!(registry.contains(1));
    let second = registry.broadcast("two");
    assert_eq!(second.targets, vec![1]);
    assert_eq!(decode(&second.frame), Ok(String::from("two")));
}

#[test]
fn failure_of_one_spares_the_others() {
    let mut registry = registry_of(5);
    let plan = registry.broadcast("hello");
    assert_eq!(plan.targets, vec![0, 1, 2, 3, 4]);
    let reports = [
        report(0, WriteOutcome::Written),
        report(1, WriteOutcome::Failed),
        report(2, WriteOutcome::Written),
        report(3, WriteOutcome::Failed),
        report(4, WriteOutcome::Written),
    ];
    assert_eq!(registry.prune(&reports), vec![1, 3]);
    assert_eq!(registry.ids(), vec![0, 2, 4]);
}

#[test]
fn would_block_is_no_failure() {
    let mut registry = registry_of(2);
    let reports = [report(0, WriteOutcome::WouldBlock), report(1, WriteOutcome::Written)];
    assert_eq!(registry.prune(&reports), Vec::<u64>::new());
    assert_eq!(registry.ids(), vec![0, 1]);
}

#[test]
fn one_failure_among_several_reports_is_enough() {
    let mut registry = registry_of(1);
    let reports = [report(0, WriteOutcome::Written), report(0, WriteOutcome::Failed)];
    assert_eq!(registry.prune(&reports), vec![0]);
    assert!(registry.is_empty());
}

#[test]
fn reports_on_strangers_change_nothing() {
    let mut registry = registry_of(1);
    let reports = [report(99, WriteOutcome::Failed)];
    assert_eq!(registry.prune(&reports), Vec::<u64>::new());
    assert_eq!(registry.ids(), vec![0]);
}

#[test]
fn prune_without_reports_changes_nothing() {
    let mut registry = registry_of(2);
    assert_eq!(registry.prune(&[]), Vec::<u64>::new());
    assert_eq!(registry.ids(), vec![0, 1]);
}

#[test]
fn late_comer_gets_only_later_broadcasts() {
    let mut registry = registry_of(1);
    let early = registry.broadcast("early");
    assert_eq!(registry.register(), Some(1));
    let late = registry.broadcast("late");
    assert_eq!(early.targets, vec![0]);
    assert_eq!(late.targets, vec![0, 1]);
}

#[test]
fn identity_of_a_dropped_connection_is_not_issued_again() {
    let mut registry = registry_of(2);
    assert_eq!(registry.prune(&[report(1, WriteOutcome::Failed)]), vec![1]);
    assert_eq!(registry.register(), Some(2));
    assert_eq!(registry.ids(), vec![0, 2]);
}
