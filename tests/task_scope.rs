use ownership_demos::task_scope::{demo_numbers, TaskScope};

#[test]
fn demo_numbers_are_one_to_ten() {
    assert_eq!(demo_numbers(), vec![1, 2, 3, 4, 5, 6, 7, 8, 9, 10]);
    assert_eq!(demo_numbers().len(), 10);
}

#[test]
fn scope_waits_for_both_tasks() {
    let mut scope = TaskScope::new();
    let first = scope.spawn();
    let second = scope.spawn();
    assert_eq!((first, second), (0, 1));
    assert!(!scope.may_exit());
    scope.finish(second);
    assert!(!scope.may_exit());
    scope.finish(first);
    assert!(scope.may_exit());
}

#[test]
fn empty_scope_may_exit() {
    assert!(TaskScope::new().may_exit());
}

#[test]
fn numbers_readable_by_both_tasks_and_after_scope() {
    let numbers = demo_numbers();
    let shared = &numbers;
    let mut scope = TaskScope::new();
    let first = scope.spawn();
    let seen_first = shared.len();
    scope.finish(first);
    let second = scope.spawn();
    let seen_second = shared.len();
    scope.finish(second);
    assert!(scope.may_exit());
    assert_eq!((seen_first, seen_second), (10, 10));
    assert_eq!(numbers.len(), 10);
}
