//! Types shared by the tracker and the dashboard: activity keys, usage rows and
//! their display order, the live usage map and the shared tracker state.

use vstd::prelude::*;
use vstd::string::*;
use std::cmp::Ordering;
use crate::usage::{UsageMap, app_secs, app_totals_of};
use crate::text::{text_lt, less_text, lemma_text_lt_irreflexive, lemma_text_lt_transitive, lemma_text_lt_total};

verus! {

/// Reserved app name under which idle time is tracked and kept out of totals.
pub const IDLE: &'static str = "Idle";

/// Recorded when the foreground window cannot be identified.
pub const UNKNOWN: &'static str = "Unknown";

/// A session row id. Tracked time is tagged with one.
pub type SessionId = i64;

/// The session seeded on first launch, and the fallback for an unresolvable one.
pub const DEFAULT_SESSION_ID: SessionId = 1;

/// The text of the reserved idle app name.
pub open spec fn idle_name() -> Seq<char> {
    seq!['I', 'd', 'l', 'e']
}

/// The text of the reserved unknown app name.
pub open spec fn unknown_name() -> Seq<char> {
    seq!['U', 'n', 'k', 'n', 'o', 'w', 'n']
}

/// A slice of tracked time, keyed by app and window title.
#[derive(Clone, Debug, PartialEq, Eq, Hash)]
pub struct ActivityKey {
    pub app: String,
    pub title: String,
}

impl View for ActivityKey {
    type V = (Seq<char>, Seq<char>);

    open spec fn view(&self) -> (Seq<char>, Seq<char>) {
        (self.app@, self.title@)
    }
}

impl ActivityKey {
    /// A key for `title` under `app`.
    pub fn new(app: &str, title: &str) -> (k: ActivityKey)
        ensures
            k@ == (app@, title@),
    {
        ActivityKey { app: String::from_str(app), title: String::from_str(title) }
    }

    /// The key idle time is tracked under: the reserved idle app, no title.
    pub fn idle() -> (k: ActivityKey)
        ensures
            k@ == (idle_name(), Seq::<char>::empty()),
    {
        proof {
            reveal_strlit("Idle");
            reveal_strlit("");
        }
        ActivityKey { app: String::from_str(IDLE), title: String::from_str("") }
    }

    /// A copy of this key with the same text.
    pub fn duplicate(&self) -> (k: ActivityKey)
        ensures
            k@ == self@,
    {
        ActivityKey { app: self.app.clone(), title: self.title.clone() }
    }
}

/// A display row: a label (an app name, or a window title in the drill-down)
/// and its accumulated seconds.
#[derive(Clone, Debug, PartialEq, Eq)]
pub struct UsageRow {
    pub name: String,
    pub secs: u64,
}

impl View for UsageRow {
    type V = (Seq<char>, u64);

    open spec fn view(&self) -> (Seq<char>, u64) {
        (self.name@, self.secs)
    }
}

/// Display order: `a` comes before `b` when it has more time, or the same time
/// and a name that sorts first.
pub open spec fn row_before(a: (Seq<char>, u64), b: (Seq<char>, u64)) -> bool {
    a.1 > b.1 || (a.1 == b.1 && text_lt(a.0, b.0))
}

/// The three-way form of the display order.
pub open spec fn usage_order(a: (Seq<char>, u64), b: (Seq<char>, u64)) -> Ordering {
    if row_before(a, b) {
        Ordering::Less
    } else if row_before(b, a) {
        Ordering::Greater
    } else {
        Ordering::Equal
    }
}

/// Rows in display order: no row comes before one to its left.
pub open spec fn rows_sorted(rows: Seq<UsageRow>) -> bool {
    forall|i: int, j: int| 0 <= i < j < rows.len() ==> !row_before(#[trigger] rows[j]@, #[trigger] rows[i]@)
}

/// The display order never puts a row before itself.
pub proof fn lemma_row_before_irreflexive(a: (Seq<char>, u64))
    ensures
        !row_before(a, a),
{
    lemma_text_lt_irreflexive(a.0);
}

/// The display order is transitive.
pub proof fn lemma_row_before_transitive(a: (Seq<char>, u64), b: (Seq<char>, u64), c: (Seq<char>, u64))
    requires
        row_before(a, b),
        row_before(b, c),
    ensures
        row_before(a, c),
{
    if a.1 == b.1 && b.1 == c.1 {
        lemma_text_lt_transitive(a.0, b.0, c.0);
    }
}

/// Any two rows with different text or time are ordered one way or the other.
pub proof fn lemma_row_before_total(a: (Seq<char>, u64), b: (Seq<char>, u64))
    ensures
        a == b || row_before(a, b) || row_before(b, a),
{
    lemma_text_lt_total(a.0, b.0);
}

/// The three-way display order is antisymmetric and only calls rows equal
/// when they have the same name and time: the app list and the title
/// drill-down sort by one consistent total order.
pub proof fn lemma_usage_order_consistent(a: (Seq<char>, u64), b: (Seq<char>, u64))
    ensures
        usage_order(a, b) == Ordering::Less <==> usage_order(b, a) == Ordering::Greater,
        usage_order(a, b) == Ordering::Equal <==> a == b,
{
    lemma_row_before_total(a, b);
    lemma_row_before_irreflexive(a);
    if row_before(a, b) && row_before(b, a) {
        lemma_row_before_transitive(a, b, a);
    }
}

impl UsageRow {
    /// A row labelled `name` with `secs` seconds.
    pub fn new(name: &str, secs: u64) -> (r: UsageRow)
        ensures
            r@ == (name@, secs),
    {
        UsageRow { name: String::from_str(name), secs }
    }

    /// Display order: most time first, ties broken by name. Shared by the app
    /// list and the title drill-down so they sort identically.
    pub fn by_usage_desc(a: &UsageRow, b: &UsageRow) -> (o: Ordering)
        ensures
            o == usage_order(a@, b@),
    {
        if a.secs > b.secs {
            Ordering::Less
        } else if a.secs < b.secs {
            Ordering::Greater
        } else if less_text(a.name.as_str(), b.name.as_str()) {
            Ordering::Less
        } else if less_text(b.name.as_str(), a.name.as_str()) {
            Ordering::Greater
        } else {
            Ordering::Equal
        }
    }
}

/// Whether `a` comes strictly before `b` in display order.
pub fn comes_before(a: &UsageRow, b: &UsageRow) -> (r: bool)
    ensures
        r == row_before(a@, b@),
{
    a.secs > b.secs || (a.secs == b.secs && less_text(a.name.as_str(), b.name.as_str()))
}

/// Sorts rows into display order (most time first, ties by name), keeping
/// exactly the rows given.
pub fn sort_rows(rows: Vec<UsageRow>) -> (out: Vec<UsageRow>)
    ensures
        out@.to_multiset() == rows@.to_multiset(),
        rows_sorted(out@),
{
    let mut rest = rows;
    let mut out: Vec<UsageRow> = Vec::new();
    proof {
        broadcast use vstd::seq_lib::group_to_multiset_ensures;
    }
    while rest.len() > 0
        invariant
            out@.to_multiset().add(rest@.to_multiset()) == rows@.to_multiset(),
            rows_sorted(out@),
        decreases rest.len(),
    {
        let ghost rest_before = rest@;
        let x = rest.pop().unwrap();
        proof {
            broadcast use vstd::seq_lib::group_to_multiset_ensures;
            assert(rest_before =~= rest@.push(x));
            vstd::seq_lib::lemma_multiset_commutative(rest@, seq![x]);
            assert(rest@ + seq![x] =~= rest@.push(x));
        }
        let mut p: usize = 0;
        while p < out.len() && !comes_before(&x, &out[p])
            invariant
                p <= out.len(),
                forall|i: int| 0 <= i < p ==> !row_before(x@, #[trigger] out@[i]@),
            decreases out.len() - p,
        {
            p = p + 1;
        }
        let ghost out_before = out@;
        proof {
            if p < out_before.len() {
                assert forall|j: int| p <= j < out_before.len() implies !row_before(#[trigger] out_before[j]@, x@) by {
                    if row_before(out_before[j]@, x@) {
                        lemma_row_before_transitive(out_before[j]@, x@, out_before[p as int]@);
                        if j == p {
                            lemma_row_before_irreflexive(out_before[j]@);
                        }
                    }
                }
            }
        }
        out.insert(p, x);
        proof {
            vstd::seq_lib::to_multiset_insert(out_before, p as int, x);
            assert forall|i: int, j: int| 0 <= i < j < out@.len() implies !row_before(#[trigger] out@[j]@, #[trigger] out@[i]@) by {
                if i < p && j < p {
                    assert(out@[i] == out_before[i] && out@[j] == out_before[j]);
                } else if i < p && j == p {
                } else if i < p {
                    assert(out@[i] == out_before[i] && out@[j] == out_before[j - 1]);
                } else if i == p {
                    assert(out@[j] == out_before[j - 1]);
                } else {
                    assert(out@[i] == out_before[i - 1] && out@[j] == out_before[j - 1]);
                }
            }
        }
    }
    proof {
        assert(rest@ =~= Seq::<UsageRow>::empty());
    }
    out
}

/// The values the dashboard and the tracker share.
pub struct SharedState {
    /// The active session's tracked time for today, accumulated by the tracker.
    pub usage: UsageMap,
    /// Tracker on/off switch.
    pub tracking: bool,
    /// The session new time is recorded under.
    pub current_session: SessionId,
    /// App currently being recorded (None when paused), shown in the mini-HUD.
    pub current_app: Option<String>,
    /// Raised when the window is minimized, asking the dashboard to collapse.
    pub wants_mini: bool,
}

impl SharedState {
    /// Fresh shared state: empty usage, the given tracking switch and session,
    /// no current app, no pending collapse.
    pub fn new(start_tracking: bool, session: SessionId) -> (st: SharedState)
        ensures
            st.usage.inv(),
            st.usage@.len() == 0,
            st.tracking == start_tracking,
            st.current_session == session,
            st.current_app is None,
            !st.wants_mini,
    {
        SharedState {
            usage: UsageMap::new(),
            tracking: start_tracking,
            current_session: session,
            current_app: None,
            wants_mini: false,
        }
    }

    /// Per-app totals from the live map (idle included): one row per app with
    /// the seconds of all its window titles.
    pub fn app_totals(&self) -> (rows: Vec<UsageRow>)
        requires
            forall|a: Seq<char>| #[trigger] app_secs(self.usage@, a) <= u64::MAX,
        ensures
            app_totals_of(self.usage@, rows@),
    {
        self.usage.app_totals()
    }
}

impl Default for SharedState {
    /// Tracking on, in the default session.
    fn default() -> (st: SharedState)
        ensures
            st.usage.inv(),
            st.usage@.len() == 0,
            st.tracking,
            st.current_session == DEFAULT_SESSION_ID,
            st.current_app is None,
            !st.wants_mini,
    {
        SharedState::new(true, DEFAULT_SESSION_ID)
    }
}

} // verus!
