use agentic_protos::counter::CounterStats;

#[test]
fn a_new_counter_is_all_zero() {
    assert_eq!(
        CounterStats::new(),
        CounterStats { value: 0, total_increments: 0, increment_sum: 0, highest_value: 0 }
    );
}

#[test]
fn incremented_moves_every_field() {
    let stats = CounterStats::new().incremented(5);
    assert_eq!(stats, CounterStats { value: 5, total_increments: 1, increment_sum: 5, highest_value: 5 });
    let stats = stats.incremented(-8);
    assert_eq!(stats, CounterStats { value: -3, total_increments: 2, increment_sum: -3, highest_value: 5 });
    let stats = stats.incremented(8);
    assert_eq!(stats, CounterStats { value: 5, total_increments: 3, increment_sum: 5, highest_value: 5 });
    let stats = stats.incremented(1);
    assert_eq!(stats, CounterStats { value: 6, total_increments: 4, increment_sum: 6, highest_value: 6 });
}

#[test]
fn with_value_touches_the_value_alone() {
    let stats = CounterStats { value: 3, total_increments: 2, increment_sum: 3, highest_value: 9 };
    assert_eq!(
        stats.with_value(40),
        CounterStats { value: 40, total_increments: 2, increment_sum: 3, highest_value: 9 }
    );
}

#[test]
fn can_increment_checks_every_field() {
    let stats = CounterStats { value: i32::MAX, total_increments: 0, increment_sum: 0, highest_value: 0 };
    assert!(!stats.can_increment(1));
    assert!(stats.can_increment(0));
    assert!(stats.can_increment(-1));

    let stats = CounterStats { value: i32::MIN, total_increments: 0, increment_sum: 0, highest_value: 0 };
    assert!(!stats.can_increment(-1));
    assert!(stats.can_increment(1));

    let stats = CounterStats { value: 0, total_increments: i32::MAX, increment_sum: 0, highest_value: 0 };
    assert!(!stats.can_increment(0));
    let stats = CounterStats { value: 0, total_increments: i32::MAX - 1, increment_sum: 0, highest_value: 0 };
    assert!(stats.can_increment(0));
    assert_eq!(stats.incremented(0).total_increments, i32::MAX);

    let stats = CounterStats { value: 0, total_increments: 0, increment_sum: i64::MAX, highest_value: 0 };
    assert!(!stats.can_increment(1));
    assert!(stats.can_increment(-1));
    let stats = CounterStats { value: 0, total_increments: 0, increment_sum: i64::MIN, highest_value: 0 };
    assert!(!stats.can_increment(-1));
    assert!(stats.can_increment(1));
}

#[test]
fn or_new_falls_back_to_a_new_counter() {
    let held = CounterStats { value: 3, total_increments: 2, increment_sum: 3, highest_value: 9 };
    assert_eq!(CounterStats::or_new(Some(held)), held);
    assert_eq!(CounterStats::or_new(None), CounterStats::new());
}
