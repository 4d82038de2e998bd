use suntrack::dashboard::{
    app_color_index, calendar_days, fmt_duration, heat_band, heat_sample, hud_figures,
    summarize_day, HEAT_BANDS, PALETTE_SIZE,
};
use suntrack::dates::Date;
use suntrack::state::{ActivityKey, SharedState, UsageRow};

#[test]
fn durations() {
    assert_eq!(fmt_duration(6 * 3600 + 47 * 60 + 5), "6h 47m");
    assert_eq!(fmt_duration(6 * 3600 + 30), "6h");
    assert_eq!(fmt_duration(118), "1m 58s");
    assert_eq!(fmt_duration(60), "1m");
    assert_eq!(fmt_duration(2), "2s");
    assert_eq!(fmt_duration(0), "0s");
    assert_eq!(fmt_duration(100 * 3600 + 60), "100h 1m");
}

fn fnv(name: &str) -> usize {
    let mut hash: u32 = 2166136261;
    for byte in name.bytes() {
        hash ^= byte as u32;
        hash = hash.wrapping_mul(16777619);
    }
    (hash as usize) % 7
}

#[test]
fn app_colors_are_fnv1a() {
    for name in ["", "firefox", "Code", "Idle", "日本語", "a longer application name"] {
        assert_eq!(app_color_index(name), fnv(name));
        assert!(app_color_index(name) < PALETTE_SIZE);
    }
}

#[test]
fn heat_bands() {
    assert_eq!(heat_band(0), 0);
    assert_eq!(heat_band(1), 1);
    assert_eq!(heat_band(3599), 1);
    assert_eq!(heat_band(3600), 2);
    assert_eq!(heat_band(3 * 3600 - 1), 2);
    assert_eq!(heat_band(3 * 3600), 3);
    assert_eq!(heat_band(6 * 3600 - 1), 3);
    assert_eq!(heat_band(6 * 3600), 4);
    for band in 0..HEAT_BANDS {
        assert_eq!(heat_band(heat_sample(band)), band);
    }
    assert_eq!(heat_sample(3), 4 * 3600);
}

#[test]
fn day_summary_splits_idle_and_sorts_apps() {
    let rows = vec![
        UsageRow::new("web", 30),
        UsageRow::new("Idle", 12),
        UsageRow::new("code", 90),
        UsageRow::new("chat", 30),
    ];
    let s = summarize_day(rows).unwrap();
    assert_eq!(s.idle_secs, 12);
    assert_eq!(s.total_active, 150);
    assert_eq!(s.bar_max, 90);
    assert_eq!(s.apps, vec![UsageRow::new("code", 90), UsageRow::new("chat", 30), UsageRow::new("web", 30)]);
    let empty = summarize_day(vec![UsageRow::new("Idle", 4)]).unwrap();
    assert!(empty.apps.is_empty());
    assert_eq!(empty.bar_max, 0);
    assert_eq!(empty.total_active, 0);
    assert!(summarize_day(vec![UsageRow::new("a", u64::MAX), UsageRow::new("b", 1)]).is_none());
}

#[test]
fn hud_figures_total_and_current() {
    let totals = vec![UsageRow::new("Idle", 5), UsageRow::new("code", 40), UsageRow::new("web", 2)];
    assert_eq!(hud_figures(&totals, &Some("code".to_string())), Some((42, 40)));
    assert_eq!(hud_figures(&totals, &Some("other".to_string())), Some((42, 0)));
    assert_eq!(hud_figures(&totals, &None), Some((42, 0)));
    assert_eq!(hud_figures(&totals, &Some("Idle".to_string())), Some((42, 5)));
}

#[test]
fn calendar_grid() {
    let (lead, days) = calendar_days(&Date::from_ymd(2024, 2, 17).unwrap());
    assert_eq!(lead, 3);
    assert_eq!(days.len(), 29);
    assert_eq!(days[0], Date::from_ymd(2024, 2, 1).unwrap());
    assert_eq!(days[28], Date::from_ymd(2024, 2, 29).unwrap());
    let (lead, days) = calendar_days(&Date::from_ymd(2024, 4, 1).unwrap());
    assert_eq!(lead, 0);
    assert_eq!(days.len(), 30);
}

#[test]
fn live_split_accounts_for_map() {
    let mut shared = SharedState::new(true, 1);
    shared.usage.credit(ActivityKey::new("firefox", "Docs"), 120);
    shared.usage.credit(ActivityKey::new("firefox", "Mail"), 30);
    shared.usage.credit(ActivityKey::new("Code", "main.rs"), 600);
    shared.usage.credit(ActivityKey::idle(), 45);
    shared.usage.credit(ActivityKey::new("Code", "main.rs"), 5);
    let recorded: u64 = shared.usage.entries().iter().map(|(_, s)| *s).sum();
    assert_eq!(recorded, 800);
    let totals = shared.app_totals();
    let day = summarize_day(totals.clone()).unwrap();
    assert_eq!(day.idle_secs, 45);
    assert_eq!(day.total_active, 755);
    assert_eq!(day.idle_secs + day.total_active, recorded);
    let hud = hud_figures(&totals, &Some("Code".to_string())).unwrap();
    assert_eq!(hud, (755, 605));
}
