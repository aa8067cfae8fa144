use agentic_protos::migration::{is_applied, pending_migrations};

#[test]
fn pending_is_what_is_not_on_record() {
    assert_eq!(pending_migrations(&vec![1, 2], &vec![1, 2, 3, 4]), vec![3, 4]);
    assert_eq!(pending_migrations(&Vec::new(), &vec![5, 6]), vec![5, 6]);
    assert_eq!(pending_migrations(&vec![5, 6], &vec![5, 6]), Vec::<i64>::new());
    assert_eq!(pending_migrations(&vec![5, 6], &Vec::new()), Vec::<i64>::new());
}

#[test]
fn pending_keeps_the_order_and_names_each_marker_once() {
    assert_eq!(pending_migrations(&vec![2], &vec![3, 1, 3, 2, 1, 0]), vec![3, 1, 0]);
    assert_eq!(pending_migrations(&vec![i64::MAX], &vec![i64::MIN, i64::MAX, -1]), vec![i64::MIN, -1]);
}

#[test]
fn nothing_is_pending_after_it_was_applied() {
    let mut applied = vec![10, 20];
    let migrations = vec![20, 30, 40];
    let mut pending = pending_migrations(&applied, &migrations);
    applied.append(&mut pending);
    assert_eq!(applied, vec![10, 20, 30, 40]);
    assert_eq!(pending_migrations(&applied, &migrations), Vec::<i64>::new());
}

#[test]
fn is_applied_finds_a_marker() {
    assert!(is_applied(&vec![3, 1, 2], 2));
    assert!(is_applied(&vec![3, 1, 2], 3));
    assert!(!is_applied(&vec![3, 1, 2], 4));
    assert!(!is_applied(&Vec::new(), 0));
}
