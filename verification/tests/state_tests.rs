use std::cmp::Ordering;
use suntrack::state::{ActivityKey, SharedState, UsageRow, DEFAULT_SESSION_ID, IDLE, sort_rows, comes_before};

#[test]
fn activity_keys() {
    let k = ActivityKey::new("firefox", "Docs");
    assert_eq!(k.app, "firefox");
    assert_eq!(k.title, "Docs");
    let i = ActivityKey::idle();
    assert_eq!(i.app, IDLE);
    assert_eq!(i.title, "");
    assert_eq!(k.duplicate(), k);
}

#[test]
fn by_usage_desc_most_time_first_then_name() {
    let a = UsageRow::new("Code", 100);
    let b = UsageRow::new("Browser", 50);
    let c = UsageRow::new("Alpha", 100);
    assert_eq!(UsageRow::by_usage_desc(&a, &b), Ordering::Less);
    assert_eq!(UsageRow::by_usage_desc(&b, &a), Ordering::Greater);
    assert_eq!(UsageRow::by_usage_desc(&c, &a), Ordering::Less);
    assert_eq!(UsageRow::by_usage_desc(&a, &a.clone()), Ordering::Equal);
    assert!(comes_before(&c, &a));
    assert!(!comes_before(&a, &a));
}

#[test]
fn sort_rows_matches_sort_by() {
    let rows = vec![
        UsageRow::new("b", 5),
        UsageRow::new("a", 5),
        UsageRow::new("z", 90),
        UsageRow::new("m", 0),
        UsageRow::new("c", 5),
    ];
    let mut expected = rows.clone();
    expected.sort_by(UsageRow::by_usage_desc);
    let sorted = sort_rows(rows);
    assert_eq!(sorted, expected);
    let names: Vec<&str> = sorted.iter().map(|r| r.name.as_str()).collect();
    assert_eq!(names, vec!["z", "a", "b", "c", "m"]);
}

#[test]
fn shared_state_new_and_default() {
    let s = SharedState::new(false, 7);
    assert!(!s.tracking);
    assert_eq!(s.current_session, 7);
    assert!(s.current_app.is_none());
    assert!(!s.wants_mini);
    assert!(s.usage.is_empty());
    let d = SharedState::default();
    assert!(d.tracking);
    assert_eq!(d.current_session, DEFAULT_SESSION_ID);
}

#[test]
fn shared_state_app_totals_sum_titles() {
    let mut s = SharedState::new(true, 1);
    s.usage.credit(ActivityKey::new("code", "a.rs"), 10);
    s.usage.credit(ActivityKey::new("code", "b.rs"), 5);
    s.usage.credit(ActivityKey::new("web", "news"), 7);
    s.usage.credit(ActivityKey::idle(), 3);
    let mut totals = s.app_totals();
    totals.sort_by(|a, b| a.name.cmp(&b.name));
    assert_eq!(totals, vec![
        UsageRow::new("Idle", 3),
        UsageRow::new("code", 15),
        UsageRow::new("web", 7),
    ]);
}
