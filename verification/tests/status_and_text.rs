use apalis_surrealdb::status::{calculate_status, filter_status_name, TaskStatus};
use apalis_surrealdb::text::{contains_exec, count_text, decimal_text, digits_text, text_order, TextOrder};

#[test]
fn success_is_done() {
    assert_eq!(calculate_status(true, 3, 5, true), TaskStatus::Done);
}

#[test]
fn exhausted_attempts_kill() {
    assert_eq!(calculate_status(false, 3, 3, false), TaskStatus::Killed);
    assert_eq!(calculate_status(false, 3, 4, false), TaskStatus::Killed);
    assert_eq!(calculate_status(false, 0, 0, false), TaskStatus::Killed);
}

#[test]
fn abort_kills_and_other_failures_retry() {
    assert_eq!(calculate_status(false, 3, 1, true), TaskStatus::Killed);
    assert_eq!(calculate_status(false, 3, 1, false), TaskStatus::Failed);
    // a negative maximum, read as an unsigned count, never runs out
    assert_eq!(calculate_status(false, -1, 1000, false), TaskStatus::Failed);
}

#[test]
fn status_names_round_trip() {
    for s in [
        TaskStatus::Pending,
        TaskStatus::Queued,
        TaskStatus::Running,
        TaskStatus::Done,
        TaskStatus::Failed,
        TaskStatus::Killed,
    ] {
        assert_eq!(TaskStatus::from_name(&s.name()), Some(s));
    }
    assert_eq!(TaskStatus::Killed.name(), "Killed");
    assert_eq!(TaskStatus::from_name("done"), None);
    assert_eq!(TaskStatus::from_name("Running"), Some(TaskStatus::Running));
}

#[test]
fn listing_filters_on_pending_by_default() {
    assert_eq!(filter_status_name(None), "Pending");
    assert_eq!(filter_status_name(Some(TaskStatus::Failed)), "Failed");
}

#[test]
fn decimal_rendering() {
    assert_eq!(decimal_text(0), "0");
    assert_eq!(decimal_text(7), "7");
    assert_eq!(decimal_text(1234567890), "1234567890");
    assert_eq!(decimal_text(-42), "-42");
    assert_eq!(decimal_text(i64::MIN), i64::MIN.to_string());
    assert_eq!(decimal_text(i64::MAX), i64::MAX.to_string());
    assert_eq!(digits_text(u64::MAX), u64::MAX.to_string());
    assert_eq!(count_text(100), "100");
}

#[test]
fn name_order_is_string_order() {
    let names = ["", "a", "ab", "b", "B", "é", "zz", "z"];
    for x in names {
        for y in names {
            let expected = match x.cmp(y) {
                std::cmp::Ordering::Less => TextOrder::Before,
                std::cmp::Ordering::Equal => TextOrder::Same,
                std::cmp::Ordering::Greater => TextOrder::After,
            };
            assert_eq!(text_order(x, y), expected, "{x} vs {y}");
        }
    }
}

#[test]
fn substring_search() {
    assert!(contains_exec("hello world", "lo w"));
    assert!(contains_exec("abc", ""));
    assert!(!contains_exec("abc", "abcd"));
    assert!(!contains_exec("abc", "ac"));
}


#[test]
fn parsing_a_status_names_the_unknown_one() {
    assert_eq!(TaskStatus::parse("Queued"), Ok(TaskStatus::Queued));
    assert_eq!(TaskStatus::parse("Finished"), Err("Unknown state: Finished".to_string()));
    assert_eq!(TaskStatus::parse(""), Err("Unknown state: ".to_string()));
}
