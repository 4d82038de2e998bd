//! The tracker's decisions for each sampling tick: how much time the tick
//! credits and to which key, how a tick straddling midnight is split between
//! the closing day and the new one, when the live map is persisted, and how a
//! change of session rolls the map over. The sampling loop itself (sleeping,
//! reading the clock and the foreground window, writing the database) runs
//! outside and performs the flushes these functions hand back.

use vstd::prelude::*;
use vstd::string::*;
use crate::config::Config;
use crate::state::{ActivityKey, SharedState, SessionId, UNKNOWN, idle_name, unknown_name};
use crate::usage::{UsageMap, EntryView, KeyView, entries_view, key_secs, has_key, keys_distinct, last_secs, lemma_key_secs_bounded};

verus! {

/// A request to persist a snapshot of the live map for one day and session.
pub struct Flush {
    pub date: String,
    pub session: SessionId,
    pub rows: Vec<(ActivityKey, u64)>,
}

impl Flush {
    /// The flush's day, session and entries as plain values.
    pub open spec fn view(&self) -> (Seq<char>, SessionId, Seq<EntryView>) {
        (self.date@, self.session, entries_view(self.rows@))
    }
}

/// What the tracker remembers between ticks.
pub struct TrackerState {
    /// The day (as a date key) the live map belongs to.
    pub current_date: String,
    /// Sub-second time carried into the next tick, in milliseconds.
    pub carried_ms: u64,
    /// Whether the previous tick was recording, so a pause flushes exactly once.
    pub was_tracking: bool,
    /// The session the live map belongs to.
    pub session: SessionId,
}

/// What the sampling loop measured for one tick.
pub struct TickInput {
    /// Real time since the previous tick, in milliseconds.
    pub measured_ms: u64,
    /// Today's date key.
    pub today: String,
    /// Seconds since local midnight at the sampling instant.
    pub secs_from_midnight: u64,
    /// Seconds since the user's last input.
    pub idle_secs: u64,
    /// The foreground window, if it could be identified.
    pub window: Option<ActivityKey>,
    /// Seconds since the live map was last persisted.
    pub since_save_secs: u64,
}

/// The persistence work a tick asks for, in order.
pub struct TickOutcome {
    pub flushes: Vec<Flush>,
    /// Whether the save timer restarts now.
    pub reset_save_timer: bool,
}

/// A tick would push a key's seconds past what a `u64` holds.
#[derive(Debug, Clone, Copy, PartialEq, Eq)]
pub enum TickError {
    Overflow,
}

/// The longest stretch one tick may credit, in milliseconds: five sampling
/// intervals, so a stall (sleep, suspend) is not dumped onto the current app.
pub open spec fn tick_cap_ms(refresh_rate_secs: u64) -> int {
    5000 * refresh_rate_secs
}

/// The time a tick accounts for, in milliseconds: the measured time plus the
/// carried remainder, clamped to the cap (and to what a `u64` holds).
pub open spec fn tick_total_ms(carried_ms: u64, measured_ms: u64, refresh_rate_secs: u64) -> int {
    let sum = carried_ms + measured_ms;
    let cap = tick_cap_ms(refresh_rate_secs);
    let a = if sum < cap { sum } else { cap };
    if a < u64::MAX { a } else { u64::MAX as int }
}

/// Splits a tick into whole seconds to credit and milliseconds to carry.
pub fn advance_clock(carried_ms: u64, measured_ms: u64, refresh_rate_secs: u64) -> (r: (u64, u64))
    ensures
        r.0 == tick_total_ms(carried_ms, measured_ms, refresh_rate_secs) / 1000,
        r.1 == tick_total_ms(carried_ms, measured_ms, refresh_rate_secs) % 1000,
        carried_ms + measured_ms <= 5000 * refresh_rate_secs && carried_ms + measured_ms <= u64::MAX
            ==> r.0 == (carried_ms + measured_ms) / 1000 && r.1 == (carried_ms + measured_ms) % 1000,
        carried_ms + measured_ms > 5000 * refresh_rate_secs && 5000 * refresh_rate_secs <= u64::MAX
            ==> r.0 == 5 * refresh_rate_secs && r.1 == 0,
{
    let cap: u64 = match refresh_rate_secs.checked_mul(5000) {
        Some(c) => c,
        None => u64::MAX,
    };
    let sum: u64 = match carried_ms.checked_add(measured_ms) {
        Some(s) => s,
        None => u64::MAX,
    };
    let total = if sum < cap { sum } else { cap };
    (total / 1000, total % 1000)
}

/// Splits `elapsed` seconds of a tick that straddles midnight: at most the
/// seconds since midnight belong to the new day, the rest to the closing one.
pub fn split_at_midnight(elapsed: u64, secs_from_midnight: u64) -> (r: (u64, u64))
    ensures
        r.1 == (if elapsed < secs_from_midnight { elapsed } else { secs_from_midnight }),
        r.0 + r.1 == elapsed,
{
    let after = if elapsed < secs_from_midnight { elapsed } else { secs_from_midnight };
    (elapsed - after, after)
}

/// The key a recording tick credits: idle when the user has been inactive for
/// the timeout, else the foreground window, else the unknown app.
pub open spec fn sampled_key(idle_secs: u64, idle_timeout_secs: u64, window: Option<KeyView>) -> KeyView {
    if idle_secs >= idle_timeout_secs {
        (idle_name(), Seq::empty())
    } else {
        match window {
            Some(w) => w,
            None => (unknown_name(), Seq::empty()),
        }
    }
}

/// The text of an optional window key.
pub open spec fn window_view(w: Option<ActivityKey>) -> Option<KeyView> {
    match w {
        Some(k) => Some(k@),
        None => None,
    }
}

/// Chooses the key a recording tick credits.
pub fn sample_key(idle_secs: u64, idle_timeout_secs: u64, window: Option<ActivityKey>) -> (k: ActivityKey)
    ensures
        k@ == sampled_key(idle_secs, idle_timeout_secs, window_view(window)),
        idle_secs >= idle_timeout_secs ==> k@ == (seq!['I', 'd', 'l', 'e'], Seq::<char>::empty()),
        idle_secs < idle_timeout_secs ==> match window {
            Some(w) => k@ == w@,
            None => k@ == (seq!['U', 'n', 'k', 'n', 'o', 'w', 'n'], Seq::<char>::empty()),
        },
{
    if idle_secs >= idle_timeout_secs {
        ActivityKey::idle()
    } else {
        match window {
            Some(w) => w,
            None => {
                proof {
                    reveal_strlit("Unknown");
                    reveal_strlit("");
                }
                ActivityKey::new(UNKNOWN, "")
            },
        }
    }
}

/// `after` is `before` with `secs` more seconds credited to `k`.
pub open spec fn credited(before: Seq<EntryView>, after: Seq<EntryView>, k: KeyView, secs: nat) -> bool {
    &&& key_secs(after, k) == key_secs(before, k) + secs
    &&& forall|j: KeyView| j != k ==> #[trigger] key_secs(after, j) == key_secs(before, j)
    &&& forall|j: KeyView| #[trigger] has_key(after, j) <==> (has_key(before, j) || j == k)
}

/// `after` is `before` with `secs` seconds credited to `k`, or unchanged when
/// there are none to credit.
pub open spec fn credited_if_any(before: Seq<EntryView>, after: Seq<EntryView>, k: KeyView, secs: nat) -> bool {
    if secs > 0 {
        credited(before, after, k, secs)
    } else {
        after == before
    }
}

impl TrackerState {
    /// The tracker's state on launch: recording into `session` for `today`,
    /// nothing carried.
    pub fn new(today: String, session: SessionId) -> (t: TrackerState)
        ensures
            t.current_date@ == today@,
            t.carried_ms == 0,
            t.was_tracking,
            t.session == session,
    {
        TrackerState { current_date: today, carried_ms: 0, was_tracking: true, session }
    }

    /// A snapshot of the live map for the current day and session.
    pub fn flush_now(&self, shared: &SharedState) -> (f: Flush)
        ensures
            f.view() == (self.current_date@, self.session, shared.usage@),
    {
        Flush { date: self.current_date.clone(), session: self.session, rows: shared.usage.entries() }
    }

    /// Persists the closing day, then starts the new one with an empty map.
    pub fn roll_day(&mut self, shared: &mut SharedState, today: String) -> (f: Flush)
        requires
            old(shared).usage.inv(),
        ensures
            f.view() == (old(self).current_date@, old(self).session, old(shared).usage@),
            final(self).current_date@ == today@,
            final(self).carried_ms == old(self).carried_ms,
            final(self).was_tracking == old(self).was_tracking,
            final(self).session == old(self).session,
            final(shared).usage.inv(),
            final(shared).usage@.len() == 0,
            final(shared).tracking == old(shared).tracking,
            final(shared).current_session == old(shared).current_session,
            final(shared).current_app == old(shared).current_app,
            final(shared).wants_mini == old(shared).wants_mini,
    {
        let f = self.flush_now(shared);
        self.current_date = today;
        shared.usage.clear();
        f
    }

    /// When the dashboard has switched sessions since the last tick, the
    /// snapshot of the outgoing session's map to persist before loading the
    /// new one.
    pub fn pending_switch(&self, shared: &SharedState) -> (r: Option<Flush>)
        ensures
            r is Some <==> shared.current_session != self.session,
            r matches Some(f) ==> f.view() == (self.current_date@, self.session, shared.usage@),
    {
        if shared.current_session != self.session {
            Some(self.flush_now(shared))
        } else {
            None
        }
    }

    /// Takes on `session`, whose stored rows for the current day are `rows`:
    /// the live map becomes those rows (the last row winning for a repeated key).
    pub fn adopt_session(&mut self, shared: &mut SharedState, session: SessionId, rows: &Vec<(ActivityKey, u64)>)
        ensures
            final(self).session == session,
            final(self).current_date == old(self).current_date,
            final(self).carried_ms == old(self).carried_ms,
            final(self).was_tracking == old(self).was_tracking,
            final(shared).usage.inv(),
            forall|k: KeyView| has_key(final(shared).usage@, k) <==> has_key(entries_view(rows@), k),
            forall|k: KeyView| key_secs(final(shared).usage@, k) == last_secs(entries_view(rows@), k),
            final(shared).tracking == old(shared).tracking,
            final(shared).current_session == old(shared).current_session,
            final(shared).current_app == old(shared).current_app,
            final(shared).wants_mini == old(shared).wants_mini,
    {
        shared.usage = UsageMap::from_rows(rows);
        self.session = session;
    }
}

/// The part of the shared state a tick never touches is unchanged.
pub open spec fn switches_kept(s0: SharedState, s1: SharedState) -> bool {
    &&& s1.tracking == s0.tracking
    &&& s1.current_session == s0.current_session
    &&& s1.wants_mini == s0.wants_mini
}

/// A single flush of `usage` for `date` and `session`, with the save timer
/// restarted.
pub open spec fn flushed_once(out: TickOutcome, date: Seq<char>, session: SessionId, usage: Seq<EntryView>) -> bool {
    &&& out.flushes@.len() == 1
    &&& out.flushes@[0].view() == (date, session, usage)
    &&& out.reset_save_timer
}

/// No flush, and the save timer keeps running.
pub open spec fn nothing_flushed(out: TickOutcome) -> bool {
    out.flushes@.len() == 0 && !out.reset_save_timer
}

/// The seconds of a recording tick that still belong to the closing day.
pub open spec fn secs_before_midnight(elapsed: int, secs_from_midnight: u64) -> int {
    elapsed - (if elapsed < secs_from_midnight { elapsed } else { secs_from_midnight as int })
}

/// The seconds of a recording tick that belong to the new day.
pub open spec fn secs_after_midnight(elapsed: int, secs_from_midnight: u64) -> int {
    if elapsed < secs_from_midnight { elapsed } else { secs_from_midnight as int }
}

/// A recording tick would push the credited key's seconds past a `u64`.
pub open spec fn tick_overflows(t0: TrackerState, s0: SharedState, input: TickInput, config: Config) -> bool {
    let elapsed = tick_total_ms(t0.carried_ms, input.measured_ms, config.refresh_rate_secs) / 1000;
    let crossed = input.today@ != t0.current_date@;
    let key = sampled_key(input.idle_secs, config.idle_timeout_secs, window_view(input.window));
    let credit = if crossed { secs_before_midnight(elapsed, input.secs_from_midnight) } else { elapsed };
    &&& elapsed > 0
    &&& s0.tracking
    &&& key_secs(s0.usage@, key) + credit > u64::MAX
}

/// What one tick does to the tracker and the shared state, and which flushes
/// it asks for.
pub open spec fn tick_post(
    t0: TrackerState,
    t1: TrackerState,
    s0: SharedState,
    s1: SharedState,
    input: TickInput,
    config: Config,
    out: TickOutcome,
) -> bool {
    let total = tick_total_ms(t0.carried_ms, input.measured_ms, config.refresh_rate_secs);
    let elapsed = total / 1000;
    let crossed = input.today@ != t0.current_date@;
    let key = sampled_key(input.idle_secs, config.idle_timeout_secs, window_view(input.window));
    &&& t1.carried_ms == total % 1000
    &&& t1.session == t0.session
    &&& t1.current_date@ == (if crossed { input.today@ } else { t0.current_date@ })
    &&& switches_kept(s0, s1)
    &&& s1.usage.inv()
    &&& if elapsed == 0 {
        // No whole second to credit, but the day may still roll over.
        &&& t1.was_tracking == t0.was_tracking
        &&& s1.current_app == s0.current_app
        &&& if crossed {
            flushed_once(out, t0.current_date@, t0.session, s0.usage@) && s1.usage@.len() == 0
        } else {
            nothing_flushed(out) && s1.usage@ == s0.usage@
        }
    } else if !s0.tracking {
        // Paused: nothing is recorded; the pause edge is persisted once.
        &&& !t1.was_tracking
        &&& s1.current_app is None
        &&& if crossed {
            flushed_once(out, t0.current_date@, t0.session, s0.usage@) && s1.usage@.len() == 0
        } else if t0.was_tracking {
            flushed_once(out, t0.current_date@, t0.session, s0.usage@) && s1.usage@ == s0.usage@
        } else {
            nothing_flushed(out) && s1.usage@ == s0.usage@
        }
    } else {
        &&& t1.was_tracking
        &&& s1.current_app matches Some(a) && a@ == key.0
        &&& if crossed {
            // The seconds before midnight close the old day, the rest open the new one.
            &&& out.flushes@.len() == 1
            &&& out.flushes@[0].view().0 == t0.current_date@
            &&& out.flushes@[0].view().1 == t0.session
            &&& keys_distinct(out.flushes@[0].view().2)
            &&& credited_if_any(s0.usage@, out.flushes@[0].view().2, key,
                secs_before_midnight(elapsed, input.secs_from_midnight) as nat)
            &&& credited_if_any(Seq::empty(), s1.usage@, key,
                secs_after_midnight(elapsed, input.secs_from_midnight) as nat)
            &&& out.reset_save_timer
        } else {
            &&& credited(s0.usage@, s1.usage@, key, elapsed as nat)
            &&& if input.since_save_secs >= config.save_interval_secs {
                flushed_once(out, t0.current_date@, t0.session, s1.usage@)
            } else {
                nothing_flushed(out)
            }
        }
    }
}

/// Credits `secs` to `key` when the key's seconds can take them.
fn credit_checked(usage: &mut UsageMap, key: ActivityKey, secs: u64) -> (ok: bool)
    requires
        old(usage).inv(),
    ensures
        final(usage).inv(),
        ok == (key_secs(old(usage)@, key@) + secs <= u64::MAX),
        ok ==> credited(old(usage)@, final(usage)@, key@, secs as nat),
        !ok ==> final(usage)@ == old(usage)@,
{
    let cur = usage.get(&key);
    match cur.checked_add(secs) {
        Some(_) => {
            usage.credit(key, secs);
            true
        },
        None => false,
    }
}

impl TrackerState {
    /// Runs the decisions of one sampling tick: splits the measured time into
    /// whole seconds and a carried remainder, credits them to the sampled key
    /// (splitting a tick that straddles midnight between the two days), rolls
    /// the map over at midnight, and asks for the flushes the pause edge, the
    /// rollover and the periodic save call for.
    pub fn tick(&mut self, shared: &mut SharedState, input: TickInput, config: &Config) -> (r: Result<TickOutcome, TickError>)
        requires
            old(shared).usage.inv(),
        ensures
            r is Err <==> tick_overflows(*old(self), *old(shared), input, *config),
            r matches Ok(out) ==> tick_post(*old(self), *final(self), *old(shared), *final(shared), input, *config, out),
    {
        let ghost key_view = sampled_key(input.idle_secs, config.idle_timeout_secs, window_view(input.window));
        let (elapsed, carry) = advance_clock(self.carried_ms, input.measured_ms, config.refresh_rate_secs);
        self.carried_ms = carry;
        let crossed = input.today != self.current_date;
        let mut flushes: Vec<Flush> = Vec::new();
        if elapsed == 0 {
            if crossed {
                let f = self.roll_day(shared, input.today);
                flushes.push(f);
                return Ok(TickOutcome { flushes, reset_save_timer: true });
            }
            return Ok(TickOutcome { flushes, reset_save_timer: false });
        }
        if !shared.tracking {
            shared.current_app = None;
            let mut reset = false;
            if crossed {
                let f = self.roll_day(shared, input.today);
                flushes.push(f);
                reset = true;
            } else if self.was_tracking {
                let f = self.flush_now(shared);
                flushes.push(f);
                reset = true;
            }
            self.was_tracking = false;
            return Ok(TickOutcome { flushes, reset_save_timer: reset });
        }
        self.was_tracking = true;
        let key = sample_key(input.idle_secs, config.idle_timeout_secs, input.window);
        shared.current_app = Some(key.app.clone());
        if crossed {
            let (before, after) = split_at_midnight(elapsed, input.secs_from_midnight);
            proof {
                lemma_key_secs_bounded(shared.usage@, key@);
            }
            if before > 0 {
                if !credit_checked(&mut shared.usage, key.duplicate(), before) {
                    return Err(TickError::Overflow);
                }
            }
            let f = self.roll_day(shared, input.today);
            flushes.push(f);
            if after > 0 {
                let ghost empty = shared.usage@;
                proof {
                    assert(key_secs(empty, key@) == 0);
                }
                shared.usage.credit(key, after);
            } else {
                assert(shared.usage@ =~= Seq::<EntryView>::empty());
            }
            Ok(TickOutcome { flushes, reset_save_timer: true })
        } else {
            if !credit_checked(&mut shared.usage, key, elapsed) {
                return Err(TickError::Overflow);
            }
            if input.since_save_secs >= config.save_interval_secs {
                let f = self.flush_now(shared);
                flushes.push(f);
                Ok(TickOutcome { flushes, reset_save_timer: true })
            } else {
                Ok(TickOutcome { flushes, reset_save_timer: false })
            }
        }
    }
}

/// Measured time is neither lost nor invented: unless a stall is clamped,
/// the seconds a tick credits and the milliseconds it carries add up to the
/// carried remainder plus the measured time, and the carry stays below a
/// second.
pub proof fn lemma_clock_conserves(carried_ms: u64, measured_ms: u64, refresh_rate_secs: u64)
    requires
        carried_ms + measured_ms <= tick_cap_ms(refresh_rate_secs),
        carried_ms + measured_ms <= u64::MAX,
    ensures
        ({
            let total = tick_total_ms(carried_ms, measured_ms, refresh_rate_secs);
            &&& 1000 * (total / 1000) + total % 1000 == carried_ms + measured_ms
            &&& 0 <= total % 1000 < 1000
        }),
{
}

/// A recording tick that straddles midnight credits all of its whole seconds:
/// those before midnight to the closing day's flushed map, the rest to the new
/// day's map.
pub proof fn lemma_midnight_split_conserves(
    t0: TrackerState,
    t1: TrackerState,
    s0: SharedState,
    s1: SharedState,
    input: TickInput,
    config: Config,
    out: TickOutcome,
)
    requires
        tick_post(t0, t1, s0, s1, input, config, out),
        input.today@ != t0.current_date@,
        s0.tracking,
        tick_total_ms(t0.carried_ms, input.measured_ms, config.refresh_rate_secs) >= 1000,
    ensures
        ({
            let key = sampled_key(input.idle_secs, config.idle_timeout_secs, window_view(input.window));
            let elapsed = tick_total_ms(t0.carried_ms, input.measured_ms, config.refresh_rate_secs) / 1000;
            (key_secs(out.flushes@[0].view().2, key) - key_secs(s0.usage@, key)) + key_secs(s1.usage@, key) == elapsed
        }),
{
}

/// Every tick that crosses midnight persists the closing day, under its own
/// date and session, and starts the new day with nothing but what the tick
/// itself credits after midnight.
pub proof fn lemma_rollover_persists_closing_day(
    t0: TrackerState,
    t1: TrackerState,
    s0: SharedState,
    s1: SharedState,
    input: TickInput,
    config: Config,
    out: TickOutcome,
)
    requires
        tick_post(t0, t1, s0, s1, input, config, out),
        input.today@ != t0.current_date@,
    ensures
        out.flushes@.len() == 1,
        out.flushes@[0].view().0 == t0.current_date@,
        out.flushes@[0].view().1 == t0.session,
        t1.current_date@ == input.today@,
        forall|k: KeyView| k != sampled_key(input.idle_secs, config.idle_timeout_secs, window_view(input.window))
            ==> !has_key(s1.usage@, k),
{
    let key = sampled_key(input.idle_secs, config.idle_timeout_secs, window_view(input.window));
    assert forall|k: KeyView| k != key implies !has_key(s1.usage@, k) by {
        if has_key(s1.usage@, k) {
            let i = choose|i: int| 0 <= i < s1.usage@.len() && (#[trigger] s1.usage@[i]).0 == k;
        }
    }
}

/// Pausing persists once: a paused tick right after another paused tick on
/// the same day asks for no flush.
pub proof fn lemma_pause_flushes_once(
    t0: TrackerState,
    t1: TrackerState,
    t2: TrackerState,
    s0: SharedState,
    s1: SharedState,
    s2: SharedState,
    in1: TickInput,
    in2: TickInput,
    config: Config,
    out1: TickOutcome,
    out2: TickOutcome,
)
    requires
        tick_post(t0, t1, s0, s1, in1, config, out1),
        tick_post(t1, t2, s1, s2, in2, config, out2),
        !s0.tracking,
        tick_total_ms(t0.carried_ms, in1.measured_ms, config.refresh_rate_secs) >= 1000,
        in2.today@ == t1.current_date@,
    ensures
        out2.flushes@.len() == 0,
{
}

/// Time is recorded under the session the dashboard chose: once the tracker
/// has caught up with the chosen session (which `pending_switch` and
/// `adopt_session` bring about before a tick), every flush a tick asks for is
/// tagged with that session, and the tracker and the dashboard still agree
/// on it afterwards.
pub proof fn lemma_tick_records_chosen_session(
    t0: TrackerState,
    t1: TrackerState,
    s0: SharedState,
    s1: SharedState,
    input: TickInput,
    config: Config,
    out: TickOutcome,
)
    requires
        tick_post(t0, t1, s0, s1, input, config, out),
        s0.current_session == t0.session,
    ensures
        forall|i: int| 0 <= i < out.flushes@.len() ==> (#[trigger] out.flushes@[i]).view().1 == s0.current_session,
        t1.session == s1.current_session,
{
}


/// A tick is capped at five sampling intervals: below the cap it accounts for
/// exactly the carried and measured time, above it for five intervals'
/// worth, whatever the sampling interval is.
pub proof fn lemma_tick_cap_is_five_intervals(carried_ms: u64, measured_ms: u64, refresh_rate_secs: u64)
    ensures
        carried_ms + measured_ms <= 5000 * refresh_rate_secs && carried_ms + measured_ms <= u64::MAX
            ==> tick_total_ms(carried_ms, measured_ms, refresh_rate_secs) == carried_ms + measured_ms,
        carried_ms + measured_ms > 5000 * refresh_rate_secs && 5000 * refresh_rate_secs <= u64::MAX
            ==> tick_total_ms(carried_ms, measured_ms, refresh_rate_secs) == 5000 * refresh_rate_secs,
        tick_total_ms(carried_ms, measured_ms, refresh_rate_secs) <= carried_ms + measured_ms,
{
}

/// Idle time is logged as idle: once the user has been inactive for the
/// timeout, the sampled key is the idle app with no title, whatever the
/// foreground window is; below the timeout it is the window, or the unknown
/// app with no title when there is none.
pub proof fn lemma_idle_wins_over_window(idle_secs: u64, idle_timeout_secs: u64, window: Option<KeyView>)
    ensures
        idle_secs >= idle_timeout_secs
            ==> sampled_key(idle_secs, idle_timeout_secs, window) == (seq!['I', 'd', 'l', 'e'], Seq::<char>::empty()),
        idle_secs >= idle_timeout_secs ==> forall|other: Option<KeyView>|
            #[trigger] sampled_key(idle_secs, idle_timeout_secs, other) == sampled_key(idle_secs, idle_timeout_secs, window),
        idle_secs < idle_timeout_secs ==> sampled_key(idle_secs, idle_timeout_secs, window) == match window {
            Some(w) => w,
            None => (seq!['U', 'n', 'k', 'n', 'o', 'w', 'n'], Seq::<char>::empty()),
        },
{
}

} // verus!
