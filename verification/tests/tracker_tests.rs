use suntrack::config::Config;
use suntrack::state::{ActivityKey, SharedState, IDLE, UNKNOWN};
use suntrack::tracker::{advance_clock, sample_key, split_at_midnight, TickError, TickInput, TrackerState};

fn input(ms: u64, today: &str, sfm: u64, idle: u64, window: Option<ActivityKey>, since_save: u64) -> TickInput {
    TickInput {
        measured_ms: ms,
        today: today.to_string(),
        secs_from_midnight: sfm,
        idle_secs: idle,
        window,
        since_save_secs: since_save,
    }
}

#[test]
fn clock_carries_subsecond_time() {
    assert_eq!(advance_clock(0, 1500, 1), (1, 500));
    assert_eq!(advance_clock(500, 1600, 1), (2, 100));
    // A stall is clamped to five sampling intervals.
    assert_eq!(advance_clock(0, 3_600_000, 1), (5, 0));
    assert_eq!(advance_clock(900, 50, 1), (0, 950));
    assert_eq!(advance_clock(999, u64::MAX, u64::MAX / 5), (u64::MAX / 1000, u64::MAX % 1000));
}

#[test]
fn midnight_split() {
    assert_eq!(split_at_midnight(5, 2), (3, 2));
    assert_eq!(split_at_midnight(5, 100), (0, 5));
    assert_eq!(split_at_midnight(0, 0), (0, 0));
}

#[test]
fn sampled_key_prefers_idle_then_window_then_unknown() {
    let w = ActivityKey::new("code", "main.rs");
    assert_eq!(sample_key(60, 60, Some(w.clone())).app, IDLE);
    assert_eq!(sample_key(59, 60, Some(w.clone())), w);
    let u = sample_key(0, 60, None);
    assert_eq!(u.app, UNKNOWN);
    assert_eq!(u.title, "");
}

#[test]
fn recording_tick_credits_the_window() {
    let mut t = TrackerState::new("2024-05-01".to_string(), 1);
    let mut s = SharedState::new(true, 1);
    let c = Config::default();
    let w = ActivityKey::new("code", "main.rs");
    let out = t.tick(&mut s, input(2300, "2024-05-01", 5000, 0, Some(w.clone()), 3), &c).unwrap();
    assert!(out.flushes.is_empty());
    assert!(!out.reset_save_timer);
    assert_eq!(s.usage.get(&w), 2);
    assert_eq!(t.carried_ms, 300);
    assert_eq!(s.current_app.as_deref(), Some("code"));
    // The carried 300 ms complete a second with the next 700 ms.
    let out = t.tick(&mut s, input(700, "2024-05-01", 5001, 0, Some(w.clone()), 20), &c).unwrap();
    assert_eq!(s.usage.get(&w), 3);
    assert_eq!(t.carried_ms, 0);
    // The save interval has passed: the map is persisted.
    assert_eq!(out.flushes.len(), 1);
    assert_eq!(out.flushes[0].date, "2024-05-01");
    assert_eq!(out.flushes[0].session, 1);
    assert_eq!(out.flushes[0].rows, vec![(w.clone(), 3)]);
    assert!(out.reset_save_timer);
}

#[test]
fn pause_flushes_exactly_once() {
    let mut t = TrackerState::new("2024-05-01".to_string(), 4);
    let mut s = SharedState::new(true, 4);
    let c = Config::default();
    let w = ActivityKey::new("code", "x");
    t.tick(&mut s, input(1000, "2024-05-01", 10, 0, Some(w.clone()), 0), &c).unwrap();
    s.tracking = false;
    let out = t.tick(&mut s, input(1000, "2024-05-01", 11, 0, Some(w.clone()), 1), &c).unwrap();
    assert_eq!(out.flushes.len(), 1);
    assert_eq!(out.flushes[0].rows, vec![(w.clone(), 1)]);
    assert!(s.current_app.is_none());
    let out = t.tick(&mut s, input(1000, "2024-05-01", 12, 0, Some(w.clone()), 1), &c).unwrap();
    assert!(out.flushes.is_empty());
    assert_eq!(s.usage.get(&w), 1);
}

#[test]
fn tick_across_midnight_splits_between_days() {
    let mut t = TrackerState::new("2024-05-01".to_string(), 2);
    let mut s = SharedState::new(true, 2);
    let c = Config::default();
    let w = ActivityKey::new("code", "x");
    s.usage.credit(w.clone(), 10);
    let out = t.tick(&mut s, input(4000, "2024-05-02", 1, 0, Some(w.clone()), 0), &c).unwrap();
    assert_eq!(out.flushes.len(), 1);
    assert_eq!(out.flushes[0].date, "2024-05-01");
    assert_eq!(out.flushes[0].rows, vec![(w.clone(), 13)]);
    assert!(out.reset_save_timer);
    assert_eq!(t.current_date, "2024-05-02");
    assert_eq!(s.usage.get(&w), 1);
    assert_eq!(s.usage.len(), 1);
}

#[test]
fn subsecond_tick_still_rolls_the_day() {
    let mut t = TrackerState::new("2024-05-01".to_string(), 2);
    let mut s = SharedState::new(true, 2);
    let c = Config::default();
    s.usage.credit(ActivityKey::new("a", "b"), 7);
    let out = t.tick(&mut s, input(400, "2024-05-02", 0, 0, None, 0), &c).unwrap();
    assert_eq!(out.flushes.len(), 1);
    assert_eq!(out.flushes[0].date, "2024-05-01");
    assert!(s.usage.is_empty());
    assert_eq!(t.carried_ms, 400);
    let out = t.tick(&mut s, input(400, "2024-05-02", 0, 0, None, 0), &c).unwrap();
    assert!(out.flushes.is_empty());
}

#[test]
fn idle_time_is_tracked_under_idle() {
    let mut t = TrackerState::new("d".to_string(), 1);
    let mut s = SharedState::new(true, 1);
    let c = Config::default();
    t.tick(&mut s, input(2000, "d", 100, 61, Some(ActivityKey::new("code", "x")), 0), &c).unwrap();
    assert_eq!(s.usage.get(&ActivityKey::idle()), 2);
    assert_eq!(s.current_app.as_deref(), Some(IDLE));
}

#[test]
fn overflow_is_an_error() {
    let mut t = TrackerState::new("d".to_string(), 1);
    let mut s = SharedState::new(true, 1);
    let c = Config::default();
    let w = ActivityKey::new("a", "b");
    s.usage.credit(w.clone(), u64::MAX);
    let r = t.tick(&mut s, input(1000, "d", 100, 0, Some(w.clone()), 0), &c);
    assert!(matches!(r, Err(TickError::Overflow)));
}

#[test]
fn session_switch_flushes_then_adopts() {
    let mut t = TrackerState::new("d".to_string(), 1);
    let mut s = SharedState::new(true, 1);
    s.usage.credit(ActivityKey::new("a", "b"), 9);
    assert!(t.pending_switch(&s).is_none());
    s.current_session = 3;
    let f = t.pending_switch(&s).unwrap();
    assert_eq!(f.session, 1);
    assert_eq!(f.date, "d");
    assert_eq!(f.rows, vec![(ActivityKey::new("a", "b"), 9)]);
    let loaded = vec![(ActivityKey::new("c", "d"), 4)];
    t.adopt_session(&mut s, 3, &loaded);
    assert_eq!(t.session, 3);
    assert_eq!(s.usage.get(&ActivityKey::new("c", "d")), 4);
    assert_eq!(s.usage.get(&ActivityKey::new("a", "b")), 0);
    assert!(t.pending_switch(&s).is_none());
}

#[test]
fn roll_day_returns_the_closing_day() {
    let mut t = TrackerState::new("d1".to_string(), 5);
    let mut s = SharedState::new(true, 5);
    s.usage.credit(ActivityKey::new("a", "b"), 2);
    let f = t.roll_day(&mut s, "d2".to_string());
    assert_eq!(f.date, "d1");
    assert_eq!(f.session, 5);
    assert_eq!(f.rows.len(), 1);
    assert_eq!(t.current_date, "d2");
    assert!(s.usage.is_empty());
    let g = t.flush_now(&s);
    assert_eq!(g.date, "d2");
    assert!(g.rows.is_empty());
}

#[test]
fn ticks_record_under_the_chosen_session() {
    let mut t = TrackerState::new("2024-05-01".to_string(), 1);
    let mut s = SharedState::new(true, 1);
    let c = Config::default();
    let w = ActivityKey::new("code", "main.rs");
    t.tick(&mut s, input(2000, "2024-05-01", 5000, 0, Some(w.clone()), 0), &c).unwrap();
    // The dashboard chooses session 2: the outgoing map is persisted under 1.
    s.current_session = 2;
    let f = t.pending_switch(&s).unwrap();
    assert_eq!(f.session, 1);
    assert_eq!(f.rows, vec![(w.clone(), 2)]);
    let stored = vec![(ActivityKey::new("mail", "inbox"), 40)];
    t.adopt_session(&mut s, 2, &stored);
    assert!(t.pending_switch(&s).is_none());
    // From now on every flush carries session 2, including the midnight one,
    // and the closing day's map holds each key once.
    let out = t.tick(&mut s, input(3000, "2024-05-02", 1, 0, Some(w.clone()), 0), &c).unwrap();
    assert_eq!(out.flushes.len(), 1);
    assert_eq!(out.flushes[0].session, 2);
    assert_eq!(out.flushes[0].date, "2024-05-01");
    let mut keys: Vec<&ActivityKey> = out.flushes[0].rows.iter().map(|(k, _)| k).collect();
    keys.sort_by(|a, b| (&a.app, &a.title).cmp(&(&b.app, &b.title)));
    keys.dedup();
    assert_eq!(keys.len(), out.flushes[0].rows.len());
    assert!(out.flushes[0].rows.contains(&(w.clone(), 2)));
    assert_eq!(s.usage.get(&w), 1);
    assert_eq!(t.session, s.current_session);
}
