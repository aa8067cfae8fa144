use agentic_protos::ids::{id_equal, id_less};

const IDS: [&str; 12] = [
    "", "a", "A", "ab", "abc", "abd", "b", "main", "main_counter", "\u{e9}", "\u{7ff}x", "\u{10000}",
];

#[test]
fn id_less_is_the_order_of_str() {
    for a in IDS {
        for b in IDS {
            assert_eq!(id_less(a, b), a < b, "{:?} {:?}", a, b);
        }
    }
}

#[test]
fn id_equal_is_equality_of_str() {
    for a in IDS {
        for b in IDS {
            assert_eq!(id_equal(a, b), a == b, "{:?} {:?}", a, b);
        }
    }
}

#[test]
fn a_prefix_comes_first() {
    assert!(id_less("", "a"));
    assert!(id_less("main", "main_counter"));
    assert!(!id_less("main_counter", "main"));
    assert!(!id_less("main", "main"));
}

#[test]
fn upper_case_comes_before_lower_case() {
    assert!(id_less("Zulu", "alpha"));
    assert!(!id_less("alpha", "Zulu"));
}
