use gdq_schedule::entry::Entry;
use gdq_schedule::instant::Instant;
use gdq_schedule::timeline::{select, select_in_order, sort_entries, Failure};

fn at(secs: i64) -> Instant {
    Instant { secs, nanos: 0 }
}

fn entry(title: &str, start: i64, length: Option<u64>) -> Entry {
    Entry {
        start_time: at(start),
        length,
        setup_time: None,
        title: title.to_string(),
        runner: String::new(),
        category: String::new(),
        host: String::new(),
    }
}

fn titles(entries: &[Entry]) -> Vec<&str> {
    entries.iter().map(|entry| entry.title.as_str()).collect()
}

#[test]
fn zero_length_entries_that_started_are_skipped() {
    let entries =
        vec![entry("t0", 100, Some(0)), entry("t1", 200, Some(0)), entry("t2", 300, Some(0))];
    let selection = select(entries, at(250)).unwrap();
    assert_eq!(selection.current.title, "t2");
    assert!(selection.next.is_none());
}

#[test]
fn next_is_the_entry_after_the_current_one() {
    let entries = vec![
        entry("t0", 100, None),
        entry("t1", 200, None),
        entry("t2", 300, None),
        entry("t3", 400, None),
    ];
    let selection = select(entries, at(250)).unwrap();
    assert_eq!(selection.current.title, "t2");
    assert_eq!(selection.next.unwrap().title, "t3");
}

#[test]
fn running_entry_is_current_and_nothing_follows() {
    let entries = vec![entry("run", 1000, Some(1800))];
    let selection = select(entries, at(1600)).unwrap();
    assert_eq!(selection.current.title, "run");
    assert_eq!(selection.current.length, Some(1800));
    assert!(selection.next.is_none());
}

#[test]
fn no_entries_give_no_current_event() {
    assert_eq!(select(Vec::new(), at(0)).unwrap_err(), Failure::NoCurrentEvent);
    assert_eq!(select_in_order(Vec::new(), at(0)).unwrap_err(), Failure::NoCurrentEvent);
}

#[test]
fn all_entries_ended_give_no_current_event() {
    let entries = vec![entry("a", 100, Some(50)), entry("b", 200, Some(100))];
    assert_eq!(select(entries, at(300)).unwrap_err(), Failure::NoCurrentEvent);
}

#[test]
fn window_end_is_exclusive() {
    let entries = vec![entry("a", 100, Some(50)), entry("b", 200, Some(100))];
    let selection = select(entries, at(150)).unwrap();
    assert_eq!(selection.current.title, "b");
    assert!(selection.next.is_none());
    let entries = vec![entry("a", 100, Some(50)), entry("b", 200, Some(100))];
    let selection = select(entries, at(149)).unwrap();
    assert_eq!(selection.current.title, "a");
    assert_eq!(selection.next.unwrap().title, "b");
}

#[test]
fn zero_length_entry_is_not_current_at_its_start() {
    let entries = vec![entry("a", 100, None), entry("b", 200, None)];
    let selection = select(entries, at(100)).unwrap();
    assert_eq!(selection.current.title, "b");
    assert!(selection.next.is_none());
}

#[test]
fn entry_ahead_is_current_and_the_one_after_it_next() {
    let entries = vec![entry("a", 100, None), entry("b", 200, None), entry("c", 300, None)];
    let selection = select(entries, at(50)).unwrap();
    assert_eq!(selection.current.title, "a");
    assert_eq!(selection.next.unwrap().title, "b");
}

#[test]
fn overlapping_windows_pick_the_earliest_start() {
    let entries = vec![
        entry("narrow", 150, Some(20)),
        entry("wide", 100, Some(1000)),
        entry("later", 500, Some(10)),
    ];
    let selection = select(entries, at(160)).unwrap();
    assert_eq!(selection.current.title, "wide");
    assert_eq!(selection.next.unwrap().title, "later");
}

#[test]
fn next_may_start_before_the_current_ends() {
    let entries = vec![entry("wide", 100, Some(1000)), entry("inside", 300, Some(10))];
    let selection = select(entries, at(200)).unwrap();
    assert_eq!(selection.current.title, "wide");
    assert_eq!(selection.next.unwrap().title, "inside");
}

#[test]
fn select_sorts_unordered_entries() {
    let entries = vec![
        entry("d", 400, Some(10)),
        entry("b", 200, Some(10)),
        entry("c", 300, Some(10)),
        entry("a", 100, Some(10)),
    ];
    let selection = select(entries, at(205)).unwrap();
    assert_eq!(selection.current.title, "b");
    assert_eq!(selection.next.unwrap().title, "c");
}

#[test]
fn select_in_order_scans_the_list_as_it_stands() {
    let entries = vec![entry("d", 400, Some(10)), entry("b", 200, Some(10)), entry("c", 300, None)];
    let selection = select_in_order(entries, at(205)).unwrap();
    assert_eq!(selection.current.title, "d");
    assert_eq!(selection.next.unwrap().title, "c");
}

#[test]
fn equal_starts_go_in_the_order_given() {
    let entries = vec![
        entry("first", 300, Some(10)),
        entry("second", 300, Some(10)),
        entry("third", 300, Some(10)),
    ];
    let selection = select(entries, at(200)).unwrap();
    assert_eq!(selection.current.title, "first");
    assert_eq!(selection.next.unwrap().title, "second");
}

#[test]
fn sort_is_ascending() {
    let entries = vec![
        entry("c", 300, None),
        entry("a", -5, None),
        entry("d", 400, None),
        entry("b", 200, None),
    ];
    let sorted = sort_entries(entries);
    assert_eq!(titles(&sorted), vec!["a", "b", "c", "d"]);
}

#[test]
fn sort_is_stable() {
    let entries = vec![
        entry("b1", 200, None),
        entry("a1", 100, Some(5)),
        entry("b2", 200, Some(7)),
        entry("a2", 100, None),
        entry("b3", 200, None),
        entry("a3", 100, None),
    ];
    let sorted = sort_entries(entries);
    assert_eq!(titles(&sorted), vec!["a1", "a2", "a3", "b1", "b2", "b3"]);
    assert_eq!(sorted[0].length, Some(5));
    assert_eq!(sorted[4].length, Some(7));
}

#[test]
fn sort_orders_by_nanoseconds_within_a_second() {
    let mut late = entry("late", 100, None);
    late.start_time.nanos = 2;
    let mut early = entry("early", 100, None);
    early.start_time.nanos = 1;
    let sorted = sort_entries(vec![late, early]);
    assert_eq!(titles(&sorted), vec!["early", "late"]);
}

#[test]
fn sort_of_nothing_and_of_one() {
    assert_eq!(sort_entries(Vec::new()).len(), 0);
    let sorted = sort_entries(vec![entry("only", 1, None)]);
    assert_eq!(titles(&sorted), vec!["only"]);
}

#[test]
fn sort_keeps_every_entry_of_a_long_list() {
    let mut entries = Vec::new();
    for i in 0..200i64 {
        entries.push(entry(&i.to_string(), (i * 37) % 50, None));
    }
    let sorted = sort_entries(entries);
    assert_eq!(sorted.len(), 200);
    for k in 1..sorted.len() {
        let before = &sorted[k - 1];
        let after = &sorted[k];
        assert!(!after.start_time.is_before(&before.start_time));
        if before.start_time == after.start_time {
            let a: i64 = before.title.parse().unwrap();
            let b: i64 = after.title.parse().unwrap();
            assert!(a < b);
        }
    }
}

#[test]
fn entry_tests_window_and_start() {
    let run = entry("run", 1000, Some(1800));
    assert!(run.ends_after(&at(2799)));
    assert!(!run.ends_after(&at(2800)));
    assert!(run.starts_after(&at(999)));
    assert!(!run.starts_after(&at(1000)));
    let point = entry("point", 1000, None);
    assert!(point.ends_after(&at(999)));
    assert!(!point.ends_after(&at(1000)));
}
