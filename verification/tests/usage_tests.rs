use suntrack::state::{ActivityKey, UsageRow};
use suntrack::usage::UsageMap;

#[test]
fn credit_accumulates_per_key() {
    let mut m = UsageMap::new();
    let k = ActivityKey::new("code", "main.rs");
    m.credit(k.clone(), 4);
    m.credit(k.clone(), 6);
    m.credit(ActivityKey::new("code", "lib.rs"), 1);
    assert_eq!(m.get(&k), 10);
    assert_eq!(m.get(&ActivityKey::new("code", "lib.rs")), 1);
    assert_eq!(m.get(&ActivityKey::new("web", "x")), 0);
    assert_eq!(m.len(), 2);
}

#[test]
fn insert_replaces() {
    let mut m = UsageMap::new();
    let k = ActivityKey::new("a", "t");
    m.insert(k.clone(), 4);
    m.insert(k.clone(), 9);
    assert_eq!(m.get(&k), 9);
    assert_eq!(m.len(), 1);
}

#[test]
fn from_rows_last_row_wins() {
    let rows = vec![
        (ActivityKey::new("a", "t"), 1),
        (ActivityKey::new("b", "t"), 2),
        (ActivityKey::new("a", "t"), 3),
    ];
    let m = UsageMap::from_rows(&rows);
    assert_eq!(m.len(), 2);
    assert_eq!(m.get(&ActivityKey::new("a", "t")), 3);
    assert_eq!(m.get(&ActivityKey::new("b", "t")), 2);
}

#[test]
fn snapshot_then_reload_restores() {
    let mut m = UsageMap::new();
    m.credit(ActivityKey::new("a", "1"), 5);
    m.credit(ActivityKey::new("b", "2"), 6);
    let snap = m.entries();
    assert_eq!(snap.len(), 2);
    let back = UsageMap::from_rows(&snap);
    assert_eq!(back.get(&ActivityKey::new("a", "1")), 5);
    assert_eq!(back.get(&ActivityKey::new("b", "2")), 6);
}

#[test]
fn clear_empties() {
    let mut m = UsageMap::new();
    m.credit(ActivityKey::new("a", "1"), 5);
    m.clear();
    assert!(m.is_empty());
    assert_eq!(m.get(&ActivityKey::new("a", "1")), 0);
}

#[test]
fn titles_for_lists_one_app() {
    let mut m = UsageMap::new();
    m.credit(ActivityKey::new("code", "a.rs"), 3);
    m.credit(ActivityKey::new("web", "news"), 4);
    m.credit(ActivityKey::new("code", "b.rs"), 8);
    assert_eq!(m.titles_for("code"), vec![UsageRow::new("a.rs", 3), UsageRow::new("b.rs", 8)]);
    assert!(m.titles_for("none").is_empty());
}

#[test]
fn app_totals_overflow_is_reported() {
    let mut m = UsageMap::new();
    m.credit(ActivityKey::new("x", "1"), u64::MAX);
    m.credit(ActivityKey::new("x", "2"), 1);
    assert!(m.checked_app_totals().is_none());
    let mut ok = UsageMap::new();
    ok.credit(ActivityKey::new("x", "1"), 2);
    ok.credit(ActivityKey::new("x", "2"), 3);
    assert_eq!(ok.checked_app_totals(), Some(vec![UsageRow::new("x", 5)]));
    assert_eq!(ok.app_totals(), vec![UsageRow::new("x", 5)]);
}
