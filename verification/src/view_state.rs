//! The dashboard's navigation state and the transitions its controls make:
//! which page and day are shown, whether the view is live or read from the
//! database, when cached rows must be reloaded, the drill-down, the
//! new-session popup, inline renaming and the mini-HUD switch. Drawing the
//! widgets and running the queries happen outside; they report what was
//! clicked and hand back what was loaded.

use vstd::prelude::*;
use vstd::string::*;
use crate::dates::{Date, date_lt, prev_day, next_day, shift_months};
use crate::state::{SessionId, SharedState, UsageRow, sort_rows, rows_sorted};
use crate::sessions::{Session, first_with_id, session_name_of, session_name_input};
use crate::text::trimmed;
use crate::usage::{UsageMap, titles_of, row_views};

verus! {

/// The dashboard's pages.
#[derive(Debug, Clone, Copy, PartialEq, Eq)]
pub enum Page {
    Tracker,
    Calendar,
    Sessions,
}

/// What a click on a date or month stepper resolved to.
#[derive(Debug, Clone, Copy, PartialEq, Eq)]
pub enum Step {
    Prev,
    Next,
    Open,
    Stay,
}

/// The key the cached day rows were loaded for: the viewed day (none for
/// today), the all-sessions scope, and the active session.
pub type DayKey = (Option<Date>, bool, SessionId);

/// The key the cached month totals were loaded for: the month and the session
/// filter.
pub type MonthKey = (Date, Option<SessionId>);

/// The dashboard's state.
pub struct ViewState {
    pub page: Page,
    /// The first day of the month the calendar shows.
    pub view_month: Date,
    /// The day being viewed; none for the live "today" view.
    pub selected_date: Option<Date>,
    /// Rows read from the database for the viewed day and scope.
    pub day_usage: Vec<UsageRow>,
    /// View scope: false shows the active session, true combines all sessions.
    pub view_all: bool,
    pub loaded_usage_key: Option<DayKey>,
    pub show_new_session: bool,
    pub new_session_name: String,
    pub focus_new_session: bool,
    /// The session being renamed inline, if any.
    pub renaming: Option<SessionId>,
    pub rename_buf: String,
    pub focus_rename: bool,
    pub loaded_month: Option<MonthKey>,
    /// The app row whose titles are expanded.
    pub expanded_app: Option<String>,
    /// The expanded app's titles, read from the database for past days.
    pub expanded_titles: Vec<UsageRow>,
    /// Whether the window is collapsed to the mini-HUD.
    pub is_mini: bool,
}

/// The navigation fields are unchanged.
pub open spec fn keeps_nav(a: ViewState, b: ViewState) -> bool {
    &&& b.page == a.page
    &&& b.view_month == a.view_month
    &&& b.loaded_month == a.loaded_month
}

/// The viewed day, scope and cached rows are unchanged.
pub open spec fn keeps_day(a: ViewState, b: ViewState) -> bool {
    &&& b.selected_date == a.selected_date
    &&& b.view_all == a.view_all
    &&& b.loaded_usage_key == a.loaded_usage_key
    &&& b.day_usage == a.day_usage
    &&& b.expanded_app == a.expanded_app
    &&& b.expanded_titles == a.expanded_titles
}

/// The new-session popup is unchanged.
pub open spec fn keeps_popup(a: ViewState, b: ViewState) -> bool {
    &&& b.show_new_session == a.show_new_session
    &&& b.new_session_name == a.new_session_name
    &&& b.focus_new_session == a.focus_new_session
}

/// The inline rename is unchanged.
pub open spec fn keeps_rename(a: ViewState, b: ViewState) -> bool {
    &&& b.renaming == a.renaming
    &&& b.rename_buf == a.rename_buf
    &&& b.focus_rename == a.focus_rename
}

/// The drill-down is closed: no app expanded, no titles cached.
pub open spec fn drilldown_closed(b: ViewState) -> bool {
    b.expanded_app is None && b.expanded_titles@.len() == 0
}

/// The day shown after picking `date`: the live view for today or later,
/// else that day.
pub open spec fn picked_day(date: Date, today: Date) -> Option<Date> {
    if date_lt(date@, today@) { Some(date) } else { None }
}

/// Whether two optional days are the same day.
fn same_opt_day(a: Option<Date>, b: Option<Date>) -> (r: bool)
    ensures
        r == (match (a, b) {
            (Some(x), Some(y)) => x@ == y@,
            (None, None) => true,
            _ => false,
        }),
{
    match (a, b) {
        (Some(x), Some(y)) => x.same_day(&y),
        (None, None) => true,
        _ => false,
    }
}

/// Two day keys name the same day, scope and session.
pub open spec fn day_key_matches(k: DayKey, j: DayKey) -> bool {
    &&& (match (k.0, j.0) {
        (Some(x), Some(y)) => x@ == y@,
        (None, None) => true,
        _ => false,
    })
    &&& k.1 == j.1
    &&& k.2 == j.2
}

/// Two month keys name the same month and filter.
pub open spec fn month_key_matches(k: MonthKey, j: MonthKey) -> bool {
    k.0@ == j.0@ && k.1 == j.1
}

/// What the day view needs before it draws.
#[derive(Debug, Clone, Copy, PartialEq, Eq)]
pub struct DayLoadPlan {
    /// Persist the active session's live map first, so a combined read of
    /// today includes it.
    pub flush_live_tail: bool,
    /// Read the day's rows from the database.
    pub reload_rows: bool,
    /// The viewed day or scope changed: close the drill-down.
    pub reset_drilldown: bool,
}

impl ViewState {
    /// The dashboard on launch: today's live view of the active session on
    /// the tracker page, the calendar on the current month, nothing cached.
    pub fn new(today: Date) -> (v: ViewState)
        ensures
            v.page == Page::Tracker,
            v.view_month@ == (today@.0, today@.1, 1int),
            v.selected_date is None,
            v.day_usage@.len() == 0,
            !v.view_all,
            v.loaded_usage_key is None,
            !v.show_new_session,
            v.new_session_name@.len() == 0,
            !v.focus_new_session,
            v.renaming is None,
            v.rename_buf@.len() == 0,
            !v.focus_rename,
            v.loaded_month is None,
            drilldown_closed(v),
            !v.is_mini,
    {
        ViewState {
            page: Page::Tracker,
            view_month: today.first_of_month(),
            selected_date: None,
            day_usage: Vec::new(),
            view_all: false,
            loaded_usage_key: None,
            show_new_session: false,
            new_session_name: String::new(),
            focus_new_session: false,
            renaming: None,
            rename_buf: String::new(),
            focus_rename: false,
            loaded_month: None,
            expanded_app: None,
            expanded_titles: Vec::new(),
            is_mini: false,
        }
    }

    /// Switches the view to `date`: today or later drops back to the live
    /// view; any open drill-down belongs to the previous day and is closed.
    pub fn view_date(&mut self, date: Date, today: Date)
        ensures
            final(self).selected_date == picked_day(date, today),
            drilldown_closed(*final(self)),
            final(self).view_all == old(self).view_all,
            final(self).loaded_usage_key == old(self).loaded_usage_key,
            final(self).day_usage == old(self).day_usage,
            keeps_nav(*old(self), *final(self)),
            keeps_popup(*old(self), *final(self)),
            keeps_rename(*old(self), *final(self)),
            final(self).is_mini == old(self).is_mini,
    {
        self.expanded_app = None;
        self.expanded_titles = Vec::new();
        self.selected_date = if date.is_before(&today) { Some(date) } else { None };
    }

    /// Whether the dashboard shows the live in-memory map: today, scoped to
    /// the active session. Every other view reads the database.
    pub fn is_live_view(&self) -> (b: bool)
        ensures
            b == (self.selected_date is None && !self.view_all),
    {
        self.selected_date.is_none() && !self.view_all
    }

    /// The session filter for database-backed views: none for all sessions,
    /// else the active one.
    pub fn view_filter(&self, active: SessionId) -> (f: Option<SessionId>)
        ensures
            f == (if self.view_all { None } else { Some(active) }),
    {
        if self.view_all { None } else { Some(active) }
    }

    /// Applies the dashboard's date stepper: back a day, forward a day (not
    /// past the live view), or open the calendar.
    pub fn apply_date_step(&mut self, step: Step, today: Date)
        ensures
            ({
                let viewed = match old(self).selected_date { Some(d) => d, None => today };
                match step {
                    Step::Prev => match prev_day(viewed@.0, viewed@.1, viewed@.2) {
                        Some(t) => exists|d: Date| d@ == t && final(self).selected_date == #[trigger] picked_day(d, today)
                            && drilldown_closed(*final(self)),
                        None => keeps_day(*old(self), *final(self)),
                    },
                    Step::Next => if old(self).selected_date is Some {
                        match next_day(viewed@.0, viewed@.1, viewed@.2) {
                            Some(t) => exists|d: Date| d@ == t && final(self).selected_date == #[trigger] picked_day(d, today)
                                && drilldown_closed(*final(self)),
                            None => keeps_day(*old(self), *final(self)),
                        }
                    } else {
                        keeps_day(*old(self), *final(self))
                    },
                    Step::Open => final(self).page == Page::Calendar && final(self).loaded_month is None
                        && keeps_day(*old(self), *final(self)),
                    Step::Stay => keeps_day(*old(self), *final(self)),
                }
            }),
            step != Step::Open ==> keeps_nav(*old(self), *final(self)),
            step == Step::Open ==> final(self).view_month == old(self).view_month,
            final(self).view_all == old(self).view_all,
            final(self).loaded_usage_key == old(self).loaded_usage_key,
            final(self).day_usage == old(self).day_usage,
            keeps_popup(*old(self), *final(self)),
            keeps_rename(*old(self), *final(self)),
            final(self).is_mini == old(self).is_mini,
    {
        let viewed = match self.selected_date {
            Some(d) => d,
            None => today,
        };
        let is_live = self.selected_date.is_none();
        match step {
            Step::Prev => {
                if let Some(d) = viewed.pred() {
                    self.view_date(d, today);
                }
            },
            Step::Next => {
                if !is_live {
                    if let Some(d) = viewed.succ() {
                        self.view_date(d, today);
                    }
                }
            },
            Step::Open => {
                self.loaded_month = None;
                self.page = Page::Calendar;
            },
            Step::Stay => {},
        }
    }

    /// After switching into (or creating) a session: its live "today" view.
    pub fn show_session_live(&mut self)
        ensures
            final(self).selected_date is None,
            !final(self).view_all,
            drilldown_closed(*final(self)),
            final(self).loaded_usage_key == old(self).loaded_usage_key,
            final(self).day_usage == old(self).day_usage,
            keeps_nav(*old(self), *final(self)),
            keeps_popup(*old(self), *final(self)),
            keeps_rename(*old(self), *final(self)),
            final(self).is_mini == old(self).is_mini,
    {
        self.selected_date = None;
        self.view_all = false;
        self.expanded_app = None;
        self.expanded_titles = Vec::new();
    }

    /// Sets the view scope (this session or all sessions).
    pub fn set_view_all(&mut self, all: bool)
        ensures
            final(self).view_all == all,
            final(self).selected_date == old(self).selected_date,
            final(self).loaded_usage_key == old(self).loaded_usage_key,
            final(self).day_usage == old(self).day_usage,
            final(self).expanded_app == old(self).expanded_app,
            final(self).expanded_titles == old(self).expanded_titles,
            keeps_nav(*old(self), *final(self)),
            keeps_popup(*old(self), *final(self)),
            keeps_rename(*old(self), *final(self)),
            final(self).is_mini == old(self).is_mini,
    {
        self.view_all = all;
    }

    /// Opens the new-session popup with an empty name, focused.
    pub fn open_new_session(&mut self)
        ensures
            final(self).show_new_session,
            final(self).new_session_name@.len() == 0,
            final(self).focus_new_session,
            keeps_nav(*old(self), *final(self)),
            keeps_day(*old(self), *final(self)),
            keeps_rename(*old(self), *final(self)),
            final(self).is_mini == old(self).is_mini,
    {
        self.show_new_session = true;
        self.new_session_name = String::new();
        self.focus_new_session = true;
    }

    /// Submits the popup: a blank name keeps it open for another try;
    /// otherwise the popup closes and the trimmed name is the session to create.
    pub fn submit_new_session(&mut self) -> (r: Option<String>)
        ensures
            trimmed(old(self).new_session_name@).len() == 0 ==> (r is None && keeps_popup(*old(self), *final(self))),
            trimmed(old(self).new_session_name@).len() > 0 ==> (r matches Some(n) && n@ == trimmed(old(self).new_session_name@)
                && !final(self).show_new_session && final(self).new_session_name@.len() == 0
                && final(self).focus_new_session == old(self).focus_new_session),
            keeps_nav(*old(self), *final(self)),
            keeps_day(*old(self), *final(self)),
            keeps_rename(*old(self), *final(self)),
            final(self).is_mini == old(self).is_mini,
    {
        let name = session_name_input(self.new_session_name.as_str());
        if name.is_some() {
            self.show_new_session = false;
            self.new_session_name = String::new();
        }
        name
    }

    /// Cancels the popup, dropping the typed name.
    pub fn cancel_new_session(&mut self)
        ensures
            !final(self).show_new_session,
            final(self).new_session_name@.len() == 0,
            final(self).focus_new_session == old(self).focus_new_session,
            keeps_nav(*old(self), *final(self)),
            keeps_day(*old(self), *final(self)),
            keeps_rename(*old(self), *final(self)),
            final(self).is_mini == old(self).is_mini,
    {
        self.show_new_session = false;
        self.new_session_name = String::new();
    }

    /// Applies the calendar's month stepper.
    pub fn apply_month_step(&mut self, step: Step)
        requires
            step == Step::Prev ==> shift_months(old(self).view_month@.0, old(self).view_month@.1, old(self).view_month@.2, -1) is Some,
            step == Step::Next ==> shift_months(old(self).view_month@.0, old(self).view_month@.1, old(self).view_month@.2, 1) is Some,
        ensures
            step == Step::Prev ==> Some(final(self).view_month@) == shift_months(old(self).view_month@.0, old(self).view_month@.1, old(self).view_month@.2, -1),
            step == Step::Next ==> Some(final(self).view_month@) == shift_months(old(self).view_month@.0, old(self).view_month@.1, old(self).view_month@.2, 1),
            step != Step::Prev && step != Step::Next ==> final(self).view_month == old(self).view_month,
            final(self).page == old(self).page,
            final(self).loaded_month == old(self).loaded_month,
            keeps_day(*old(self), *final(self)),
            keeps_popup(*old(self), *final(self)),
            keeps_rename(*old(self), *final(self)),
            final(self).is_mini == old(self).is_mini,
    {
        match step {
            Step::Prev => {
                match self.view_month.sub_months(1) {
                    Some(m) => {
                        self.view_month = m;
                    },
                    None => {},
                }
            },
            Step::Next => {
                match self.view_month.add_months(1) {
                    Some(m) => {
                        self.view_month = m;
                    },
                    None => {},
                }
            },
            _ => {},
        }
    }

    /// Recentres the calendar on the current month.
    pub fn calendar_to_today(&mut self, today: Date)
        ensures
            final(self).view_month@ == (today@.0, today@.1, 1int),
            final(self).page == old(self).page,
            final(self).loaded_month == old(self).loaded_month,
            keeps_day(*old(self), *final(self)),
            keeps_popup(*old(self), *final(self)),
            keeps_rename(*old(self), *final(self)),
            final(self).is_mini == old(self).is_mini,
    {
        self.view_month = today.first_of_month();
    }

    /// A calendar day was clicked: show it on the tracker page.
    pub fn open_day(&mut self, date: Date, today: Date)
        ensures
            final(self).page == Page::Tracker,
            final(self).selected_date == picked_day(date, today),
            drilldown_closed(*final(self)),
            final(self).view_month == old(self).view_month,
            final(self).loaded_month == old(self).loaded_month,
            final(self).view_all == old(self).view_all,
            final(self).loaded_usage_key == old(self).loaded_usage_key,
            final(self).day_usage == old(self).day_usage,
            keeps_popup(*old(self), *final(self)),
            keeps_rename(*old(self), *final(self)),
            final(self).is_mini == old(self).is_mini,
    {
        self.view_date(date, today);
        self.page = Page::Tracker;
    }

    /// The sidebar navigates to `page`: opening the calendar forces its
    /// totals to reload, opening the sessions page ends any inline rename.
    pub fn navigate(&mut self, page: Page)
        ensures
            final(self).page == page,
            page == Page::Calendar ==> final(self).loaded_month is None,
            page != Page::Calendar ==> final(self).loaded_month == old(self).loaded_month,
            page == Page::Sessions ==> final(self).renaming is None,
            page != Page::Sessions ==> final(self).renaming == old(self).renaming,
            final(self).view_month == old(self).view_month,
            final(self).rename_buf == old(self).rename_buf,
            final(self).focus_rename == old(self).focus_rename,
            keeps_day(*old(self), *final(self)),
            keeps_popup(*old(self), *final(self)),
            final(self).is_mini == old(self).is_mini,
    {
        match page {
            Page::Calendar => {
                self.loaded_month = None;
            },
            Page::Sessions => {
                self.renaming = None;
            },
            Page::Tracker => {},
        }
        self.page = page;
    }

    /// Whether the month totals must be read again: the month or the session
    /// filter changed since they were loaded.
    pub fn month_needs_reload(&self, filter: Option<SessionId>) -> (b: bool)
        ensures
            b == !(self.loaded_month matches Some(k) && month_key_matches(k, (self.view_month, filter))),
            !b <==> (self.loaded_month matches Some(k) && k.0@ == self.view_month@ && k.1 == filter),
    {
        match self.loaded_month {
            Some(k) => !(k.0.same_day(&self.view_month) && k.1 == filter),
            None => true,
        }
    }

    /// Records that the month totals were loaded for `filter`.
    pub fn mark_month_loaded(&mut self, filter: Option<SessionId>)
        ensures
            final(self).loaded_month == Some((old(self).view_month, filter)),
            final(self).page == old(self).page,
            final(self).view_month == old(self).view_month,
            keeps_day(*old(self), *final(self)),
            keeps_popup(*old(self), *final(self)),
            keeps_rename(*old(self), *final(self)),
            final(self).is_mini == old(self).is_mini,
    {
        self.loaded_month = Some((self.view_month, filter));
    }

    /// What a database-backed day view needs this frame, for the active
    /// session `active`: the rows are reloaded when the day, scope or session
    /// changed, and every frame for today (whose rows keep growing); a change
    /// on today's view first persists the live map; a change closes the
    /// drill-down. The live view needs nothing.
    pub fn day_load_plan(&self, active: SessionId) -> (p: DayLoadPlan)
        ensures
            ({
                let changed = !(self.loaded_usage_key matches Some(k)
                    && day_key_matches(k, (self.selected_date, self.view_all, active)));
                let live = self.selected_date is None && !self.view_all;
                &&& p.flush_live_tail == (!live && changed && self.selected_date is None)
                &&& p.reload_rows == (!live && (changed || self.selected_date is None))
                &&& p.reset_drilldown == (!live && changed)
            }),
            !(self.selected_date is None && !self.view_all) ==> (p.reset_drilldown <==> !(
                self.loaded_usage_key matches Some(k)
                    && k.1 == self.view_all
                    && k.2 == active
                    && (match (k.0, self.selected_date) {
                        (Some(x), Some(y)) => x@ == y@,
                        (None, None) => true,
                        _ => false,
                    }))),
            p.reset_drilldown ==> p.reload_rows,
    {
        if self.is_live_view() {
            return DayLoadPlan { flush_live_tail: false, reload_rows: false, reset_drilldown: false };
        }
        let changed = match self.loaded_usage_key {
            Some(k) => !(same_opt_day(k.0, self.selected_date) && k.1 == self.view_all && k.2 == active),
            None => true,
        };
        let today_view = self.selected_date.is_none();
        DayLoadPlan {
            flush_live_tail: changed && today_view,
            reload_rows: changed || today_view,
            reset_drilldown: changed,
        }
    }

    /// Applies a day-load plan once its work is done: reloaded rows replace
    /// the cached ones under the current key; a change closes the drill-down.
    pub fn apply_day_load(&mut self, plan: DayLoadPlan, active: SessionId, rows: Option<Vec<UsageRow>>)
        ensures
            plan.reload_rows ==> final(self).loaded_usage_key == Some((old(self).selected_date, old(self).view_all, active)),
            !plan.reload_rows ==> final(self).loaded_usage_key == old(self).loaded_usage_key,
            (plan.reload_rows && rows is Some) ==> (rows matches Some(r) && final(self).day_usage@ == r@),
            !(plan.reload_rows && rows is Some) ==> final(self).day_usage == old(self).day_usage,
            plan.reset_drilldown ==> drilldown_closed(*final(self)),
            !plan.reset_drilldown ==> (final(self).expanded_app == old(self).expanded_app
                && final(self).expanded_titles == old(self).expanded_titles),
            final(self).selected_date == old(self).selected_date,
            final(self).view_all == old(self).view_all,
            keeps_nav(*old(self), *final(self)),
            keeps_popup(*old(self), *final(self)),
            keeps_rename(*old(self), *final(self)),
            final(self).is_mini == old(self).is_mini,
    {
        if plan.reload_rows {
            if let Some(r) = rows {
                self.day_usage = r;
            }
            self.loaded_usage_key = Some((self.selected_date, self.view_all, active));
        }
        if plan.reset_drilldown {
            self.expanded_app = None;
            self.expanded_titles = Vec::new();
        }
    }

    /// An app row was clicked: collapses it when it is expanded, else expands
    /// it. Returns whether its titles must be read from the database (an
    /// expansion outside the live view).
    pub fn toggle_app(&mut self, name: &str) -> (load_titles: bool)
        ensures
            (old(self).expanded_app matches Some(a) && a@ == name@) ==> (final(self).expanded_app is None && !load_titles),
            !(old(self).expanded_app matches Some(a) && a@ == name@) ==> (final(self).expanded_app matches Some(a)
                && a@ == name@ && load_titles == !(old(self).selected_date is None && !old(self).view_all)),
            final(self).expanded_titles == old(self).expanded_titles,
            final(self).selected_date == old(self).selected_date,
            final(self).view_all == old(self).view_all,
            final(self).loaded_usage_key == old(self).loaded_usage_key,
            final(self).day_usage == old(self).day_usage,
            keeps_nav(*old(self), *final(self)),
            keeps_popup(*old(self), *final(self)),
            keeps_rename(*old(self), *final(self)),
            final(self).is_mini == old(self).is_mini,
    {
        let target = String::from_str(name);
        let expanded = match &self.expanded_app {
            Some(a) => *a == target,
            None => false,
        };
        if expanded {
            self.expanded_app = None;
            false
        } else {
            self.expanded_app = Some(target);
            !self.is_live_view()
        }
    }

    /// The titles under `app` for the drill-down, most time first: from the
    /// live map in the live view, else the titles read from the database.
    pub fn drilldown_titles(&self, usage: &UsageMap, app: &str) -> (r: Vec<UsageRow>)
        ensures
            rows_sorted(r@),
            (self.selected_date is None && !self.view_all) ==> exists|t: Seq<UsageRow>|
                row_views(t) == titles_of(usage@, app@) && #[trigger] t.to_multiset() == r@.to_multiset(),
            !(self.selected_date is None && !self.view_all) ==> r@.to_multiset() == self.expanded_titles@.to_multiset(),
    {
        let titles = if self.is_live_view() {
            usage.titles_for(app)
        } else {
            copy_rows(&self.expanded_titles)
        };
        let ghost t = titles@;
        let r = sort_rows(titles);
        proof {
            if self.selected_date is None && !self.view_all {
                assert(row_views(t) == titles_of(usage@, app@) && t.to_multiset() == r@.to_multiset());
            }
        }
        r
    }

    /// Starts renaming session `id` inline, its current name in the field.
    pub fn start_rename(&mut self, id: SessionId, sessions: &Vec<Session>)
        ensures
            final(self).renaming == Some(id),
            final(self).focus_rename,
            match first_with_id(sessions@, id) {
                Some(i) => final(self).rename_buf@ == sessions@[i].name@,
                None => final(self).rename_buf@.len() == 0,
            },
            keeps_nav(*old(self), *final(self)),
            keeps_day(*old(self), *final(self)),
            keeps_popup(*old(self), *final(self)),
            final(self).is_mini == old(self).is_mini,
    {
        self.rename_buf = match session_name_of(sessions, id) {
            Some(n) => n,
            None => String::new(),
        };
        self.renaming = Some(id);
        self.focus_rename = true;
    }

    /// Commits the inline rename: the session and its trimmed new name to
    /// store, unless the name is blank (keeping the old one). Renaming ends
    /// either way.
    pub fn commit_rename(&mut self) -> (r: Option<(SessionId, String)>)
        ensures
            final(self).renaming is None,
            (old(self).renaming matches Some(id) && trimmed(old(self).rename_buf@).len() > 0)
                ==> (r matches Some(x) && old(self).renaming == Some(x.0) && x.1@ == trimmed(old(self).rename_buf@)),
            !(old(self).renaming is Some && trimmed(old(self).rename_buf@).len() > 0) ==> r is None,
            final(self).rename_buf == old(self).rename_buf,
            final(self).focus_rename == old(self).focus_rename,
            keeps_nav(*old(self), *final(self)),
            keeps_day(*old(self), *final(self)),
            keeps_popup(*old(self), *final(self)),
            final(self).is_mini == old(self).is_mini,
    {
        let r = match self.renaming {
            Some(id) => match session_name_input(self.rename_buf.as_str()) {
                Some(name) => Some((id, name)),
                None => None,
            },
            None => None,
        };
        self.renaming = None;
        r
    }

    /// Abandons the inline rename.
    pub fn cancel_rename(&mut self)
        ensures
            final(self).renaming is None,
            final(self).rename_buf == old(self).rename_buf,
            final(self).focus_rename == old(self).focus_rename,
            keeps_nav(*old(self), *final(self)),
            keeps_day(*old(self), *final(self)),
            keeps_popup(*old(self), *final(self)),
            final(self).is_mini == old(self).is_mini,
    {
        self.renaming = None;
    }

    /// Session `id` was archived: a rename in progress on it ends.
    pub fn note_archived(&mut self, id: SessionId)
        ensures
            old(self).renaming == Some(id) ==> final(self).renaming is None,
            old(self).renaming != Some(id) ==> final(self).renaming == old(self).renaming,
            final(self).rename_buf == old(self).rename_buf,
            final(self).focus_rename == old(self).focus_rename,
            keeps_nav(*old(self), *final(self)),
            keeps_day(*old(self), *final(self)),
            keeps_popup(*old(self), *final(self)),
            final(self).is_mini == old(self).is_mini,
    {
        if let Some(r) = self.renaming {
            if r == id {
                self.renaming = None;
            }
        }
    }

    /// Takes a pending request to collapse into the mini-HUD (raised while the
    /// window was minimized). Returns whether the dashboard collapses now.
    pub fn take_mini_request(&mut self, shared: &mut SharedState) -> (collapse: bool)
        ensures
            collapse == (!old(self).is_mini && old(shared).wants_mini),
            final(self).is_mini == (old(self).is_mini || collapse),
            final(shared).wants_mini == (old(shared).wants_mini && old(self).is_mini),
            final(shared).usage == old(shared).usage,
            final(shared).tracking == old(shared).tracking,
            final(shared).current_session == old(shared).current_session,
            final(shared).current_app == old(shared).current_app,
            keeps_nav(*old(self), *final(self)),
            keeps_day(*old(self), *final(self)),
            keeps_popup(*old(self), *final(self)),
            keeps_rename(*old(self), *final(self)),
    {
        if !self.is_mini && shared.wants_mini {
            shared.wants_mini = false;
            self.is_mini = true;
            true
        } else {
            false
        }
    }

    /// Leaves the mini-HUD for the full dashboard.
    pub fn exit_mini(&mut self)
        ensures
            !final(self).is_mini,
            keeps_nav(*old(self), *final(self)),
            keeps_day(*old(self), *final(self)),
            keeps_popup(*old(self), *final(self)),
            keeps_rename(*old(self), *final(self)),
    {
        self.is_mini = false;
    }
}

/// A copy of `rows` with the same text and seconds.
pub fn copy_rows(rows: &Vec<UsageRow>) -> (r: Vec<UsageRow>)
    ensures
        r@ == rows@,
{
    let mut r: Vec<UsageRow> = Vec::new();
    let mut k: usize = 0;
    while k < rows.len()
        invariant
            k <= rows@.len(),
            r@ == rows@.take(k as int),
        decreases rows.len() - k,
    {
        let row = UsageRow { name: rows[k].name.clone(), secs: rows[k].secs };
        r.push(row);
        assert(r@ =~= rows@.take(k + 1));
        k = k + 1;
    }
    assert(rows@.take(k as int) =~= rows@);
    r
}


/// A cached day matches the view only when it is the same day (or both are
/// today's), under the same scope (this session or all sessions) and for the
/// same session: a change of any of the three is a change.
pub proof fn lemma_day_key_needs_day_scope_and_session(k: DayKey, j: DayKey)
    ensures
        day_key_matches(k, j) ==> k.1 == j.1 && k.2 == j.2,
        day_key_matches(k, j) ==> (k.0 is None <==> j.0 is None),
        day_key_matches(k, j) && k.0 is Some ==> k.0.unwrap()@ == j.0.unwrap()@,
        k.1 == j.1 && k.2 == j.2 && (k.0 is None && j.0 is None) ==> day_key_matches(k, j),
        k.1 == j.1 && k.2 == j.2 && (k.0 is Some && j.0 is Some && k.0.unwrap()@ == j.0.unwrap()@)
            ==> day_key_matches(k, j),
{
}

/// Switching the scope of a day view that is not the live view makes its
/// cached rows stale: the rows loaded for the other scope no longer match.
pub proof fn lemma_scope_change_is_a_change(v0: ViewState, v1: ViewState, active: SessionId)
    requires
        v0.loaded_usage_key == Some((v0.selected_date, v0.view_all, active)),
        v1.loaded_usage_key == v0.loaded_usage_key,
        v1.selected_date == v0.selected_date,
        v1.view_all != v0.view_all,
    ensures
        !(v1.loaded_usage_key matches Some(k) && day_key_matches(k, (v1.selected_date, v1.view_all, active))),
{
}

/// Cached month totals match the calendar only for the same month and the
/// same session filter.
pub proof fn lemma_month_key_needs_month_and_filter(k: MonthKey, j: MonthKey)
    ensures
        month_key_matches(k, j) <==> (k.0@ == j.0@ && k.1 == j.1),
{
}

/// Stepping the calendar to another month after its totals were loaded makes
/// them stale: the loaded key names the old month.
pub proof fn lemma_month_step_needs_reload(v0: ViewState, v1: ViewState, filter: Option<SessionId>)
    requires
        v1.loaded_month == Some((v0.view_month, filter)),
        v1.view_month@ != v0.view_month@,
    ensures
        !(v1.loaded_month matches Some(k) && month_key_matches(k, (v1.view_month, filter))),
{
}

} // verus!
