use agentic_protos::counter::CounterStats;
use agentic_protos::database::{Database, MAIN_COUNTER_ID};

fn open() -> Database {
    Database::connect(None, &vec![1, 2, 3])
}

fn average(stats: &CounterStats) -> f64 {
    if stats.total_increments == 0 {
        0.0
    } else {
        stats.increment_sum as f64 / stats.total_increments as f64
    }
}

#[test]
fn test_counter_operations() {
    // An in-memory store, created on the spot.
    let mut db = Database::connect(None, &Vec::new());

    // Getting a counter that does not exist creates it and returns 0.
    assert_eq!(db.get_counter("test_counter"), 0);

    // Incrementing the counter.
    assert_eq!(db.increment_counter("test_counter", 5), 5);

    // Getting the counter after the increment.
    assert_eq!(db.get_counter("test_counter"), 5);

    // Incrementing again.
    assert_eq!(db.increment_counter("test_counter", 3), 8);

    // Setting the counter directly.
    db.set_counter("test_counter", 10);
    assert_eq!(db.get_counter("test_counter"), 10);

    // Listing counters.
    let counters = db.list_counters();
    assert!(counters.len() >= 1);

    // The main counter exists.
    assert!(counters.iter().any(|(id, _)| id == MAIN_COUNTER_ID));

    // The test counter exists with value 10.
    assert!(counters.iter().any(|(id, val)| id == "test_counter" && *val == 10));

    // Deleting the counter.
    assert!(db.delete_counter("test_counter"));

    // After deletion, getting it creates a new one with value 0.
    assert_eq!(db.get_counter("test_counter"), 0);
}

#[test]
fn main_counter_id_is_spelled_out() {
    assert_eq!(MAIN_COUNTER_ID, "main_counter");
}

#[test]
fn connect_creates_the_main_counter() {
    let db = open();
    assert_eq!(db.list_counters(), vec![(String::from("main_counter"), 0)]);
    assert_eq!(
        db.get_counter_stats(MAIN_COUNTER_ID),
        Some(CounterStats { value: 0, total_increments: 0, increment_sum: 0, highest_value: 0 })
    );
    assert_eq!(db.applied_migrations(), vec![1, 2, 3]);
}

#[test]
fn unseen_id_reads_zero_and_has_no_increments() {
    let mut db = open();
    assert_eq!(db.get_counter_stats("fresh"), None);
    assert_eq!(db.get_counter("fresh"), 0);
    let stats = db.get_counter_stats("fresh").unwrap();
    assert_eq!(stats.total_increments, 0);
    assert_eq!(stats, CounterStats { value: 0, total_increments: 0, increment_sum: 0, highest_value: 0 });
    assert_eq!(average(&stats), 0.0);
}

#[test]
fn stats_of_a_missing_counter_creates_nothing() {
    let db = open();
    assert_eq!(db.get_counter_stats("nobody"), None);
    assert_eq!(db.get_counter_stats("nobody"), None);
    assert_eq!(db.list_counters().len(), 1);
}

#[test]
fn increments_add_up() {
    let mut db = open();
    let amounts = [7, -3, 0, 12, -20, 4];
    let mut sum = 0;
    for amount in amounts {
        sum += amount;
        assert_eq!(db.increment_counter("c", amount), sum);
    }
    let stats = db.get_counter_stats("c").unwrap();
    assert_eq!(stats.value, 0);
    assert_eq!(stats.total_increments, 6);
    assert_eq!(stats.increment_sum, 0);
    assert_eq!(db.get_counter("c"), 0);
}

#[test]
fn highest_value_is_the_peak() {
    let mut db = open();
    // Values in turn: 7, 4, 4, 16, -4, 0.
    for amount in [7, -3, 0, 12, -20, 4] {
        db.increment_counter("c", amount);
    }
    assert_eq!(db.get_counter_stats("c").unwrap().highest_value, 16);
}

#[test]
fn highest_value_of_a_counter_that_only_fell_is_zero() {
    let mut db = open();
    assert_eq!(db.increment_counter("down", -5), -5);
    assert_eq!(db.increment_counter("down", -1), -6);
    assert_eq!(
        db.get_counter_stats("down"),
        Some(CounterStats { value: -6, total_increments: 2, increment_sum: -6, highest_value: 0 })
    );
}

#[test]
fn average_is_the_mean_of_the_amounts() {
    let mut db = open();
    for amount in [10, 20, -6] {
        db.increment_counter("c", amount);
    }
    let stats = db.get_counter_stats("c").unwrap();
    // The mean of 10, 20, -6 is 8; the mean of the values 10, 30, 24 is not.
    assert_eq!(stats.increment_sum, 24);
    assert_eq!(stats.total_increments, 3);
    assert_eq!(average(&stats), 8.0);
}

#[test]
fn main_scenario() {
    let mut db = Database::connect(None, &Vec::new());
    assert_eq!(db.increment_counter("main", 1), 1);
    assert_eq!(db.increment_counter("main", 2), 3);
    assert_eq!(db.increment_counter("main", 5), 8);
    assert_eq!(db.increment_counter("main", 10), 18);
    let stats = db.get_counter_stats("main").unwrap();
    assert_eq!(
        (stats.value, stats.total_increments, average(&stats), stats.highest_value),
        (18, 4, 4.5, 18)
    );
}

#[test]
fn set_replaces_the_value_and_keeps_the_statistics() {
    let mut db = open();
    db.increment_counter("c", 4);
    db.increment_counter("c", 6);
    db.set_counter("c", 100);
    assert_eq!(
        db.get_counter_stats("c"),
        Some(CounterStats { value: 100, total_increments: 2, increment_sum: 10, highest_value: 10 })
    );
    // The next increment counts from the value that was set.
    assert_eq!(db.increment_counter("c", 1), 101);
    assert_eq!(
        db.get_counter_stats("c"),
        Some(CounterStats { value: 101, total_increments: 3, increment_sum: 11, highest_value: 101 })
    );
}

#[test]
fn set_creates_a_missing_counter() {
    let mut db = open();
    db.set_counter("new", -7);
    assert_eq!(
        db.get_counter_stats("new"),
        Some(CounterStats { value: -7, total_increments: 0, increment_sum: 0, highest_value: 0 })
    );
    assert_eq!(db.get_counter("new"), -7);
}

#[test]
fn delete_tells_whether_the_counter_existed() {
    let mut db = open();
    db.increment_counter("c", 9);
    assert!(db.delete_counter("c"));
    assert_eq!(db.get_counter_stats("c"), None);
    assert!(!db.delete_counter("c"));
    assert!(!db.delete_counter("never"));
    assert_eq!(db.get_counter("c"), 0);
    assert_eq!(db.get_counter_stats("c").unwrap().total_increments, 0);
    assert!(db.delete_counter("c"));
}

#[test]
fn the_main_counter_can_be_deleted_and_comes_back_on_connect() {
    let mut db = open();
    assert!(db.delete_counter(MAIN_COUNTER_ID));
    assert_eq!(db.list_counters(), Vec::new());
    let db = Database::connect(Some(db), &vec![1, 2, 3]);
    assert_eq!(db.list_counters(), vec![(String::from("main_counter"), 0)]);
}

#[test]
fn list_is_ascending_by_id() {
    let mut db = open();
    let ids = ["zeta", "alpha", "main", "", "Zulu", "alph", "alpha2", "\u{e9}t\u{e9}", "\u{1F600}", "~"];
    let mut value = 0;
    for id in ids {
        value += 1;
        db.set_counter(id, value);
    }
    let listing = db.list_counters();
    let mut expected: Vec<(String, i32)> = vec![(String::from(MAIN_COUNTER_ID), 0)];
    let mut value = 0;
    for id in ids {
        value += 1;
        expected.push((String::from(id), value));
    }
    expected.sort();
    assert_eq!(listing, expected);
    for pair in listing.windows(2) {
        assert!(pair[0].0 < pair[1].0);
    }
}

#[test]
fn counters_do_not_disturb_each_other() {
    let mut db = open();
    db.increment_counter("a", 1);
    db.increment_counter("b", 10);
    db.increment_counter("a", 2);
    db.set_counter("c", 5);
    db.delete_counter("b");
    assert_eq!(
        db.list_counters(),
        vec![
            (String::from("a"), 3),
            (String::from("c"), 5),
            (String::from("main_counter"), 0),
        ]
    );
    assert_eq!(db.get_counter_stats("a").unwrap().total_increments, 2);
}

#[test]
fn connect_twice_is_connect_once() {
    let migrations = vec![20240101, 20240215, 20240301];
    let mut once = Database::connect(None, &migrations);
    once.increment_counter(MAIN_COUNTER_ID, 3);
    once.set_counter("other", 4);
    let listing = once.list_counters();
    let applied = once.applied_migrations();
    let main = once.get_counter_stats(MAIN_COUNTER_ID);

    let twice = Database::connect(Some(once), &migrations);
    assert_eq!(twice.list_counters(), listing);
    assert_eq!(twice.applied_migrations(), applied);
    assert_eq!(twice.get_counter_stats(MAIN_COUNTER_ID), main);
    assert_eq!(applied, vec![20240101, 20240215, 20240301]);
}

#[test]
fn connect_applies_only_what_is_pending() {
    let db = Database::connect(None, &vec![1, 2]);
    assert_eq!(db.applied_migrations(), vec![1, 2]);
    let db = Database::connect(Some(db), &vec![1, 2, 3, 4]);
    assert_eq!(db.applied_migrations(), vec![1, 2, 3, 4]);
    let db = Database::connect(Some(db), &vec![4, 4, 0, 2, 0]);
    assert_eq!(db.applied_migrations(), vec![1, 2, 3, 4, 0]);
    let db = Database::connect(Some(db), &Vec::new());
    assert_eq!(db.applied_migrations(), vec![1, 2, 3, 4, 0]);
}

#[test]
fn can_increment_guards_the_range() {
    let mut db = open();
    db.set_counter("top", i32::MAX - 1);
    assert!(db.can_increment("top", 1));
    assert!(!db.can_increment("top", 2));
    assert!(db.can_increment("top", i32::MIN));
    assert_eq!(db.increment_counter("top", 1), i32::MAX);
    assert!(!db.can_increment("top", 1));
    assert!(db.can_increment("top", 0));

    db.set_counter("bottom", i32::MIN);
    assert!(!db.can_increment("bottom", -1));
    assert!(db.can_increment("bottom", i32::MAX));
    assert_eq!(db.increment_counter("bottom", i32::MAX), -1);

    // A counter that is missing counts from 0.
    assert!(db.can_increment("missing", i32::MAX));
    assert!(db.can_increment("missing", i32::MIN));
    assert_eq!(db.get_counter_stats("missing"), None);
}

#[test]
fn two_increments_by_one_give_two() {
    let db = std::sync::Mutex::new(open());
    let first = db.lock().unwrap().increment_counter("fresh", 1);
    let second = db.lock().unwrap().increment_counter("fresh", 1);
    assert_eq!((first, second), (1, 2));
    assert_eq!(db.lock().unwrap().get_counter("fresh"), 2);
}

#[test]
fn two_increments_in_either_order_lose_nothing() {
    let mut first = open();
    first.set_counter("c", 10);
    first.increment_counter("c", 7);
    first.increment_counter("c", -9);

    let mut second = open();
    second.set_counter("c", 10);
    second.increment_counter("c", -9);
    second.increment_counter("c", 7);

    let first = first.get_counter_stats("c").unwrap();
    let second = second.get_counter_stats("c").unwrap();
    assert_eq!((first.value, first.total_increments, first.increment_sum), (8, 2, -2));
    assert_eq!((second.value, second.total_increments, second.increment_sum), (8, 2, -2));
    // Only the peak tells the two orders apart.
    assert_eq!((first.highest_value, second.highest_value), (17, 8));
}

#[test]
fn increments_of_two_ids_commute() {
    let mut first = open();
    first.increment_counter("x", 3);
    first.increment_counter("y", 4);

    let mut second = open();
    second.increment_counter("y", 4);
    second.increment_counter("x", 3);

    assert_eq!(first.list_counters(), second.list_counters());
    assert_eq!(first.get_counter_stats("x"), second.get_counter_stats("x"));
    assert_eq!(first.get_counter_stats("y"), second.get_counter_stats("y"));
}

#[test]
fn reading_a_counter_that_exists_changes_nothing() {
    let mut db = open();
    db.increment_counter("c", 5);
    let before = (db.list_counters(), db.get_counter_stats("c"));
    assert_eq!(db.get_counter("c"), 5);
    assert_eq!((db.list_counters(), db.get_counter_stats("c")), before);
}

#[test]
fn many_counters_are_found_again() {
    let mut db = open();
    for n in 0..200 {
        let id = format!("counter-{}", (n * 37) % 200);
        assert_eq!(db.increment_counter(&id, n), n);
    }
    for n in 0..200 {
        let id = format!("counter-{}", (n * 37) % 200);
        assert_eq!(db.get_counter(&id), n);
    }
    assert_eq!(db.list_counters().len(), 201);
    for n in 0..200 {
        let id = format!("counter-{}", n);
        assert!(db.delete_counter(&id));
    }
    assert_eq!(db.list_counters(), vec![(String::from("main_counter"), 0)]);
}
