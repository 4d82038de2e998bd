use suntrack::dates::Date;
use suntrack::sessions::Session;
use suntrack::state::{ActivityKey, SharedState, UsageRow};
use suntrack::view_state::{Page, Step, ViewState};

fn d(y: i32, m: u32, day: u32) -> Date {
    Date::from_ymd(y, m, day).unwrap()
}

#[test]
fn starts_on_the_live_view() {
    let v = ViewState::new(d(2024, 5, 17));
    assert_eq!(v.page, Page::Tracker);
    assert_eq!(v.view_month, d(2024, 5, 1));
    assert!(v.selected_date.is_none());
    assert!(v.is_live_view());
    assert_eq!(v.view_filter(3), Some(3));
}

#[test]
fn picking_days() {
    let today = d(2024, 5, 17);
    let mut v = ViewState::new(today);
    v.expanded_app = Some("code".to_string());
    v.view_date(d(2024, 5, 10), today);
    assert_eq!(v.selected_date, Some(d(2024, 5, 10)));
    assert!(v.expanded_app.is_none());
    assert!(!v.is_live_view());
    v.view_date(d(2024, 6, 1), today);
    assert!(v.selected_date.is_none());
    v.view_date(today, today);
    assert!(v.selected_date.is_none());
}

#[test]
fn date_stepper() {
    let today = d(2024, 5, 17);
    let mut v = ViewState::new(today);
    v.apply_date_step(Step::Next, today);
    assert!(v.selected_date.is_none());
    v.apply_date_step(Step::Prev, today);
    assert_eq!(v.selected_date, Some(d(2024, 5, 16)));
    v.apply_date_step(Step::Next, today);
    assert!(v.selected_date.is_none());
    v.apply_date_step(Step::Open, today);
    assert_eq!(v.page, Page::Calendar);
    assert!(v.loaded_month.is_none());
}

#[test]
fn month_stepper_and_calendar() {
    let today = d(2024, 5, 17);
    let mut v = ViewState::new(today);
    v.apply_month_step(Step::Prev);
    assert_eq!(v.view_month, d(2024, 4, 1));
    v.apply_month_step(Step::Next);
    v.apply_month_step(Step::Next);
    assert_eq!(v.view_month, d(2024, 6, 1));
    v.calendar_to_today(today);
    assert_eq!(v.view_month, d(2024, 5, 1));
    assert!(v.month_needs_reload(Some(1)));
    v.mark_month_loaded(Some(1));
    assert!(!v.month_needs_reload(Some(1)));
    assert!(v.month_needs_reload(None));
    v.navigate(Page::Calendar);
    assert!(v.month_needs_reload(Some(1)));
    v.open_day(d(2024, 5, 2), today);
    assert_eq!(v.page, Page::Tracker);
    assert_eq!(v.selected_date, Some(d(2024, 5, 2)));
}

#[test]
fn day_loading() {
    let today = d(2024, 5, 17);
    let mut v = ViewState::new(today);
    let plan = v.day_load_plan(1);
    assert!(!plan.reload_rows && !plan.flush_live_tail && !plan.reset_drilldown);
    v.set_view_all(true);
    let plan = v.day_load_plan(1);
    assert!(plan.flush_live_tail && plan.reload_rows && plan.reset_drilldown);
    v.apply_day_load(plan, 1, Some(vec![UsageRow::new("a", 1)]));
    assert_eq!(v.day_usage, vec![UsageRow::new("a", 1)]);
    // Today's combined view is reread every frame but flushed only on a change.
    let plan = v.day_load_plan(1);
    assert!(plan.reload_rows && !plan.flush_live_tail && !plan.reset_drilldown);
    v.view_date(d(2024, 5, 1), today);
    let plan = v.day_load_plan(1);
    assert!(plan.reload_rows && !plan.flush_live_tail && plan.reset_drilldown);
    v.apply_day_load(plan, 1, None);
    let plan = v.day_load_plan(1);
    assert!(!plan.reload_rows && !plan.reset_drilldown);
    let plan = v.day_load_plan(2);
    assert!(plan.reload_rows);
}

#[test]
fn drilldown() {
    let today = d(2024, 5, 17);
    let mut v = ViewState::new(today);
    assert!(!v.toggle_app("code"));
    assert_eq!(v.expanded_app.as_deref(), Some("code"));
    assert!(!v.toggle_app("code"));
    assert!(v.expanded_app.is_none());
    let mut s = SharedState::new(true, 1);
    s.usage.credit(ActivityKey::new("code", "a.rs"), 3);
    s.usage.credit(ActivityKey::new("code", "b.rs"), 8);
    s.usage.credit(ActivityKey::new("web", "x"), 1);
    assert_eq!(v.drilldown_titles(&s.usage, "code"), vec![UsageRow::new("b.rs", 8), UsageRow::new("a.rs", 3)]);
    v.view_date(d(2024, 5, 1), today);
    assert!(v.toggle_app("web"));
    v.expanded_titles = vec![UsageRow::new("y", 1), UsageRow::new("z", 9)];
    assert_eq!(v.drilldown_titles(&s.usage, "web"), vec![UsageRow::new("z", 9), UsageRow::new("y", 1)]);
}

#[test]
fn new_session_popup() {
    let mut v = ViewState::new(d(2024, 5, 17));
    v.open_new_session();
    assert!(v.show_new_session && v.focus_new_session);
    v.new_session_name = "   ".to_string();
    assert_eq!(v.submit_new_session(), None);
    assert!(v.show_new_session);
    v.new_session_name = " Work ".to_string();
    assert_eq!(v.submit_new_session(), Some("Work".to_string()));
    assert!(!v.show_new_session);
    assert!(v.new_session_name.is_empty());
    v.open_new_session();
    v.new_session_name = "x".to_string();
    v.cancel_new_session();
    assert!(!v.show_new_session && v.new_session_name.is_empty());
    v.set_view_all(true);
    v.show_session_live();
    assert!(v.is_live_view());
}

#[test]
fn renaming() {
    let sessions = vec![
        Session { id: 1, name: "General".to_string(), archived: false },
        Session { id: 2, name: "Work".to_string(), archived: false },
    ];
    let mut v = ViewState::new(d(2024, 5, 17));
    v.start_rename(2, &sessions);
    assert_eq!(v.renaming, Some(2));
    assert_eq!(v.rename_buf, "Work");
    v.rename_buf = "  Job ".to_string();
    assert_eq!(v.commit_rename(), Some((2, "Job".to_string())));
    assert!(v.renaming.is_none());
    v.start_rename(2, &sessions);
    v.rename_buf = " ".to_string();
    assert_eq!(v.commit_rename(), None);
    v.start_rename(9, &sessions);
    assert_eq!(v.rename_buf, "");
    v.note_archived(3);
    assert_eq!(v.renaming, Some(9));
    v.note_archived(9);
    assert!(v.renaming.is_none());
    v.start_rename(1, &sessions);
    v.navigate(Page::Sessions);
    assert!(v.renaming.is_none());
    v.start_rename(1, &sessions);
    v.cancel_rename();
    assert!(v.renaming.is_none());
}

#[test]
fn mini_hud_requests() {
    let mut v = ViewState::new(d(2024, 5, 17));
    let mut s = SharedState::new(true, 1);
    assert!(!v.take_mini_request(&mut s));
    s.wants_mini = true;
    assert!(v.take_mini_request(&mut s));
    assert!(v.is_mini);
    assert!(!s.wants_mini);
    s.wants_mini = true;
    assert!(!v.take_mini_request(&mut s));
    assert!(s.wants_mini);
    v.exit_mini();
    assert!(!v.is_mini);
}
