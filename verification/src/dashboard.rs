//! What the dashboard shows for a set of usage rows: durations as text, the
//! per-app colour, the calendar heat bands, and the summary of a
//! day (apps in display order, idle time apart, the active total and the
//! longest bar).

use vstd::prelude::*;
use vstd::utf8::encode_utf8;
use vstd::string::*;
use crate::text::{decimal, push_decimal, push_char};
use crate::state::{UsageRow, IDLE, idle_name, sort_rows, rows_sorted, row_before};
use crate::dates::{Date, valid_ymd, days_in_month, weekday_from_monday};
use crate::usage::{EntryView, rows_total, app_totals_of, entries_secs, lemma_app_totals_conserve};

verus! {

/// A duration as the dashboard writes it: "6h 47m", "1m 58s" or "2s", the
/// smaller unit dropped when it is zero ("6h", not "6h 0m").
pub open spec fn duration_text(secs: nat) -> Seq<char> {
    let h = secs / 3600;
    let m = (secs % 3600) / 60;
    let s = secs % 60;
    if h > 0 {
        if m > 0 {
            decimal(h) + seq!['h', ' '] + decimal(m) + seq!['m']
        } else {
            decimal(h) + seq!['h']
        }
    } else if m > 0 {
        if s > 0 {
            decimal(m) + seq!['m', ' '] + decimal(s) + seq!['s']
        } else {
            decimal(m) + seq!['m']
        }
    } else {
        decimal(s) + seq!['s']
    }
}

/// Human-friendly duration text.
pub fn fmt_duration(secs: u64) -> (t: String)
    ensures
        t@ == duration_text(secs as nat),
{
    let h = secs / 3600;
    let m = (secs % 3600) / 60;
    let s = secs % 60;
    let mut t = String::new();
    if h > 0 {
        push_decimal(&mut t, h);
        push_char(&mut t, 'h');
        if m > 0 {
            push_char(&mut t, ' ');
            push_decimal(&mut t, m);
            push_char(&mut t, 'm');
        }
    } else if m > 0 {
        push_decimal(&mut t, m);
        push_char(&mut t, 'm');
        if s > 0 {
            push_char(&mut t, ' ');
            push_decimal(&mut t, s);
            push_char(&mut t, 's');
        }
    } else {
        push_decimal(&mut t, s);
        push_char(&mut t, 's');
    }
    assert(t@ =~= duration_text(secs as nat));
    t
}

/// The number of colours in the app palette.
pub const PALETTE_SIZE: usize = 7;

/// The 32-bit FNV-1a hash of `bytes`.
pub open spec fn fnv1a(bytes: Seq<u8>) -> u32
    decreases bytes.len(),
{
    if bytes.len() == 0 {
        2166136261u32
    } else {
        (((fnv1a(bytes.drop_last()) ^ (bytes.last() as u32)) as nat * 16777619nat) % 0x1_0000_0000nat) as u32
    }
}

/// The palette slot of an app: the FNV-1a hash of its UTF-8 name, modulo the
/// palette size, so each app keeps its colour across sessions.
pub fn app_color_index(name: &str) -> (i: usize)
    ensures
        i as int == (fnv1a(encode_utf8(name@)) as int) % (PALETTE_SIZE as int),
        i < PALETTE_SIZE,
{
    let bytes = name.as_bytes();
    let mut hash: u32 = 2166136261;
    let mut k: usize = 0;
    while k < bytes.len()
        invariant
            k <= bytes@.len(),
            bytes@ == encode_utf8(name@),
            hash == fnv1a(bytes@.take(k as int)),
        decreases bytes.len() - k,
    {
        assert(bytes@.take(k + 1).drop_last() =~= bytes@.take(k as int));
        hash = hash ^ (bytes[k] as u32);
        hash = hash.wrapping_mul(16777619);
        k = k + 1;
    }
    assert(bytes@.take(k as int) =~= bytes@);
    (hash % 7) as usize
}

/// The calendar heat band of a day's active seconds: 0 for none, then under
/// one hour, under three, under six, and six hours or more.
pub open spec fn heat_band_of(secs: u64) -> u8 {
    if secs == 0 {
        0
    } else if secs < 3600 {
        1
    } else if secs < 3 * 3600 {
        2
    } else if secs < 6 * 3600 {
        3
    } else {
        4
    }
}

/// The heat band of a day's active seconds.
pub fn heat_band(secs: u64) -> (b: u8)
    ensures
        b == heat_band_of(secs),
{
    if secs == 0 {
        0
    } else if secs < 3600 {
        1
    } else if secs < 3 * 3600 {
        2
    } else if secs < 6 * 3600 {
        3
    } else {
        4
    }
}

/// The number of heat bands.
pub const HEAT_BANDS: u8 = 5;

/// A representative number of seconds for each heat band, from which the
/// legend draws its swatches; it always falls in its own band, so the legend
/// cannot drift from the shading.
pub fn heat_sample(band: u8) -> (secs: u64)
    requires
        band < HEAT_BANDS,
    ensures
        heat_band_of(secs) == band,
        band == 0 ==> secs == 0,
        band == 1 ==> secs == 1800,
        band == 2 ==> secs == 7200,
        band == 3 ==> secs == 4 * 3600,
        band == 4 ==> secs == 8 * 3600,
{
    if band == 0 {
        0
    } else if band == 1 {
        1800
    } else if band == 2 {
        7200
    } else if band == 3 {
        4 * 3600
    } else {
        8 * 3600
    }
}

/// The rows of `rows` other than idle, in order.
pub open spec fn non_idle(rows: Seq<UsageRow>) -> Seq<UsageRow>
    decreases rows.len(),
{
    if rows.len() == 0 {
        Seq::empty()
    } else if rows.last().name@ == idle_name() {
        non_idle(rows.drop_last())
    } else {
        non_idle(rows.drop_last()).push(rows.last())
    }
}

/// The idle rows of `rows`, in order.
pub open spec fn idle_only(rows: Seq<UsageRow>) -> Seq<UsageRow>
    decreases rows.len(),
{
    if rows.len() == 0 {
        Seq::empty()
    } else if rows.last().name@ == idle_name() {
        idle_only(rows.drop_last()).push(rows.last())
    } else {
        idle_only(rows.drop_last())
    }
}

/// Idle time and active time together are all of a day's time: the split
/// loses and invents nothing.
pub proof fn lemma_idle_active_partition(rows: Seq<UsageRow>)
    ensures
        rows_total(idle_only(rows)) + rows_total(non_idle(rows)) == rows_total(rows),
    decreases rows.len(),
{
    if rows.len() > 0 {
        lemma_idle_active_partition(rows.drop_last());
        let p = rows.drop_last();
        let x = rows.last();
        if x.name@ == idle_name() {
            assert(idle_only(p).push(x).drop_last() =~= idle_only(p));
        } else {
            assert(non_idle(p).push(x).drop_last() =~= non_idle(p));
        }
    }
}

/// The day split of the live per-app totals accounts for the whole live map:
/// the idle time and the active total (the figure the mini-HUD and the
/// dashboard both show) add up to every second the map has recorded.
pub proof fn lemma_live_split_accounts_for_map(entries: Seq<EntryView>, totals: Seq<UsageRow>)
    requires
        app_totals_of(entries, totals),
    ensures
        rows_total(idle_only(totals)) + rows_total(non_idle(totals)) == entries_secs(entries),
{
    lemma_idle_active_partition(totals);
    lemma_app_totals_conserve(entries, totals);
}

/// What the dashboard shows for a day.
pub struct DaySummary {
    /// Every app except idle, most time first.
    pub apps: Vec<UsageRow>,
    /// Idle time, kept apart from the active total.
    pub idle_secs: u64,
    /// The day's active time: every app but idle.
    pub total_active: u64,
    /// The most-used app's seconds, to which the bars are scaled.
    pub bar_max: u64,
}

/// Splits a day's rows into idle time and apps in display order, with the
/// active total and the longest bar; `None` when the idle or the active time
/// does not fit in a `u64`.
pub fn summarize_day(rows: Vec<UsageRow>) -> (r: Option<DaySummary>)
    ensures
        r is Some <==> (rows_total(idle_only(rows@)) <= u64::MAX && rows_total(non_idle(rows@)) <= u64::MAX),
        r matches Some(d) ==> {
            &&& d.apps@.to_multiset() == non_idle(rows@).to_multiset()
            &&& rows_sorted(d.apps@)
            &&& d.idle_secs == rows_total(idle_only(rows@))
            &&& d.total_active == rows_total(non_idle(rows@))
            &&& d.bar_max == (if d.apps@.len() > 0 { d.apps@[0].secs } else { 0 })
            &&& forall|i: int| 0 <= i < d.apps@.len() ==> (#[trigger] d.apps@[i]).secs <= d.bar_max
        },
{
    let idle = String::from_str(IDLE);
    proof {
        reveal_strlit("Idle");
    }
    let mut apps: Vec<UsageRow> = Vec::new();
    let mut idle_secs: u64 = 0;
    let mut total: u64 = 0;
    let mut idle_ok = true;
    let mut total_ok = true;
    let mut k: usize = 0;
    while k < rows.len()
        invariant
            k <= rows@.len(),
            idle@ == idle_name(),
            apps@ == non_idle(rows@.take(k as int)),
            idle_ok == (rows_total(idle_only(rows@.take(k as int))) <= u64::MAX),
            idle_ok ==> idle_secs == rows_total(idle_only(rows@.take(k as int))),
            total_ok == (rows_total(non_idle(rows@.take(k as int))) <= u64::MAX),
            total_ok ==> total == rows_total(non_idle(rows@.take(k as int))),
        decreases rows.len() - k,
    {
        let ghost p = rows@.take(k as int);
        let ghost q = rows@.take(k + 1);
        assert(q.drop_last() =~= p);
        let row = &rows[k];
        if row.name == idle {
            assert(idle_only(q) == idle_only(p).push(rows@[k as int]));
            assert(idle_only(p).push(rows@[k as int]).drop_last() =~= idle_only(p));
            assert(non_idle(q) == non_idle(p));
            if idle_ok {
                match idle_secs.checked_add(row.secs) {
                    Some(v) => {
                        idle_secs = v;
                    },
                    None => {
                        idle_ok = false;
                    },
                }
            }
        } else {
            assert(non_idle(q) == non_idle(p).push(rows@[k as int]));
            assert(non_idle(p).push(rows@[k as int]).drop_last() =~= non_idle(p));
            assert(idle_only(q) == idle_only(p));
            if total_ok {
                match total.checked_add(row.secs) {
                    Some(v) => {
                        total = v;
                    },
                    None => {
                        total_ok = false;
                    },
                }
            }
            apps.push(UsageRow { name: row.name.clone(), secs: row.secs });
        }
        k = k + 1;
    }
    assert(rows@.take(k as int) =~= rows@);
    if !idle_ok || !total_ok {
        return None;
    }
    let sorted = sort_rows(apps);
    let bar_max = if sorted.len() > 0 { sorted[0].secs } else { 0 };
    proof {
        assert forall|i: int| 0 <= i < sorted@.len() implies (#[trigger] sorted@[i]).secs <= bar_max by {
            if i > 0 {
                assert(!row_before(sorted@[i]@, sorted@[0]@));
            }
        }
    }
    Some(DaySummary { apps: sorted, idle_secs, total_active: total, bar_max })
}

/// The index of the first row named `name`, if any.
pub open spec fn first_named(rows: Seq<UsageRow>, name: Seq<char>) -> Option<int>
    decreases rows.len(),
{
    if rows.len() == 0 {
        None
    } else {
        match first_named(rows.drop_last(), name) {
            Some(i) => Some(i),
            None => if rows.last().name@ == name { Some((rows.len() - 1) as int) } else { None },
        }
    }
}

/// The seconds of the first row named `name`, or 0 when no row is.
pub open spec fn secs_named(rows: Seq<UsageRow>, name: Seq<char>) -> nat {
    match first_named(rows, name) {
        Some(i) => rows[i].secs as nat,
        None => 0,
    }
}

proof fn lemma_first_named(rows: Seq<UsageRow>, name: Seq<char>)
    ensures
        match first_named(rows, name) {
            Some(i) => 0 <= i < rows.len() && rows[i].name@ == name
                && forall|j: int| 0 <= j < i ==> (#[trigger] rows[j]).name@ != name,
            None => forall|j: int| 0 <= j < rows.len() ==> (#[trigger] rows[j]).name@ != name,
        },
    decreases rows.len(),
{
    if rows.len() > 0 {
        lemma_first_named(rows.drop_last(), name);
        assert forall|j: int| 0 <= j < rows.len() - 1 implies (#[trigger] rows[j]) == rows.drop_last()[j] by {}
    }
}

/// The mini-HUD's figures from the live per-app totals: the day's active
/// time (every app but idle) and the current app's time (0 when paused or not
/// yet listed); `None` when the active time does not fit in a `u64`.
pub fn hud_figures(totals: &Vec<UsageRow>, current_app: &Option<String>) -> (r: Option<(u64, u64)>)
    ensures
        r is Some <==> rows_total(non_idle(totals@)) <= u64::MAX,
        r matches Some(f) ==> f.0 == rows_total(non_idle(totals@)),
        r matches Some(f) ==> f.1 == (match current_app {
            Some(a) => secs_named(totals@, a@),
            None => 0,
        }),
{
    let idle = String::from_str(IDLE);
    proof {
        reveal_strlit("Idle");
    }
    let mut total: u64 = 0;
    let mut ok = true;
    let mut active: Option<u64> = None;
    let mut k: usize = 0;
    proof {
        lemma_first_named(totals@, match current_app { Some(a) => a@, None => Seq::empty() });
    }
    while k < totals.len()
        invariant
            k <= totals@.len(),
            idle@ == idle_name(),
            ok == (rows_total(non_idle(totals@.take(k as int))) <= u64::MAX),
            ok ==> total == rows_total(non_idle(totals@.take(k as int))),
            match current_app {
                Some(a) => match first_named(totals@, a@) {
                    Some(i) => if i < k { active == Some(totals@[i].secs) } else { active is None },
                    None => active is None,
                },
                None => active is None,
            },
        decreases totals.len() - k,
    {
        let ghost p = totals@.take(k as int);
        let ghost q = totals@.take(k + 1);
        assert(q.drop_last() =~= p);
        proof {
            if let Some(a) = current_app {
                lemma_first_named(totals@, a@);
            }
        }
        let row = &totals[k];
        if row.name != idle {
            assert(non_idle(q) == non_idle(p).push(totals@[k as int]));
            assert(non_idle(p).push(totals@[k as int]).drop_last() =~= non_idle(p));
            if ok {
                match total.checked_add(row.secs) {
                    Some(v) => {
                        total = v;
                    },
                    None => {
                        ok = false;
                    },
                }
            }
        } else {
            assert(non_idle(q) == non_idle(p));
        }
        if active.is_none() {
            if let Some(a) = current_app {
                if row.name == *a {
                    active = Some(row.secs);
                }
            }
        }
        k = k + 1;
    }
    assert(totals@.take(k as int) =~= totals@);
    if !ok {
        return None;
    }
    let active_secs = match active {
        Some(v) => v,
        None => 0,
    };
    Some((total, active_secs))
}

/// The calendar grid of a month: how many blank cells precede its first day
/// (the weekday of the first, Monday first), and its days in order.
pub fn calendar_days(month: &Date) -> (r: (u32, Vec<Date>))
    ensures
        r.0 as int == weekday_from_monday(month@.0, month@.1, 1),
        r.1@.len() == days_in_month(month@.0, month@.1),
        forall|i: int| 0 <= i < r.1@.len() ==> (#[trigger] r.1@[i])@ == (month@.0, month@.1, i + 1),
{
    let first = month.first_of_month();
    let lead = first.weekday_from_monday();
    let year = month.year();
    let m = month.month();
    let mut days: Vec<Date> = Vec::new();
    let mut day: u32 = 1;
    while day <= 31
        invariant
            1 <= day <= 32,
            lead as int == weekday_from_monday(month@.0, month@.1, 1),
            valid_ymd(month@.0, month@.1, month@.2),
            year as int == month@.0,
            m as int == month@.1,
            days@.len() == day - 1,
            day - 1 <= days_in_month(month@.0, month@.1),
            forall|i: int| 0 <= i < days@.len() ==> (#[trigger] days@[i])@ == (month@.0, month@.1, i + 1),
        decreases 32 - day,
    {
        match Date::from_ymd(year, m, day) {
            Some(d) => {
                days.push(d);
            },
            None => {
                return (lead, days);
            },
        }
        day = day + 1;
    }
    (lead, days)
}

} // verus!
