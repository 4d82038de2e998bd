//! Calendar dates: validity, stepping by day and month, the weekday, and the
//! text keys under which days and months are stored. The calendar arithmetic
//! is chrono's; its results are stated here over the proleptic Gregorian
//! calendar.

use vstd::prelude::*;
use chrono::{Datelike, Months, NaiveDate};
use crate::text::{decimal, digits_value, all_digits, lemma_decimal_digits};

verus! {

/// The earliest year chrono's dates reach.
pub const MIN_YEAR: i32 = -262143;
/// The latest year chrono's dates reach.
pub const MAX_YEAR: i32 = 262142;

/// Gregorian leap years: every fourth year, except centuries not divisible by 400.
pub open spec fn is_leap_year(y: int) -> bool {
    y % 4 == 0 && (y % 100 != 0 || y % 400 == 0)
}

/// The number of days in month `m` of year `y`.
pub open spec fn days_in_month(y: int, m: int) -> int {
    if m == 2 {
        if is_leap_year(y) { 29 } else { 28 }
    } else if m == 4 || m == 6 || m == 9 || m == 11 {
        30
    } else {
        31
    }
}

/// Whether (y, m, d) is a calendar day within chrono's range.
pub open spec fn valid_ymd(y: int, m: int, d: int) -> bool {
    &&& MIN_YEAR <= y <= MAX_YEAR
    &&& 1 <= m <= 12
    &&& 1 <= d <= days_in_month(y, m)
}

/// The day after (y, m, d), if it is within range.
pub open spec fn next_day(y: int, m: int, d: int) -> Option<(int, int, int)> {
    if d < days_in_month(y, m) {
        Some((y, m, d + 1))
    } else if m < 12 {
        Some((y, m + 1, 1))
    } else if y < MAX_YEAR {
        Some((y + 1, 1, 1))
    } else {
        None
    }
}

/// The day before (y, m, d), if it is within range.
pub open spec fn prev_day(y: int, m: int, d: int) -> Option<(int, int, int)> {
    if d > 1 {
        Some((y, m, d - 1))
    } else if m > 1 {
        Some((y, m - 1, days_in_month(y, m - 1)))
    } else if y > MIN_YEAR {
        Some((y - 1, 12, 31))
    } else {
        None
    }
}

/// The date `delta` months from (y, m, d), the day clamped to the length of the
/// new month; `None` when the month count leaves `i32` or the date leaves range.
pub open spec fn shift_months(y: int, m: int, d: int, delta: int) -> Option<(int, int, int)> {
    let total = y * 12 + (m - 1) + delta;
    let ny = total / 12;
    let nm = total % 12 + 1;
    let nd = if d <= days_in_month(ny, nm) { d } else { days_in_month(ny, nm) };
    if total < i32::MIN || total > i32::MAX {
        None
    } else if valid_ymd(ny, nm, nd) {
        Some((ny, nm, nd))
    } else {
        None
    }
}

/// The day of the week of (y, m, d), counted from Monday = 0 (Zeller's
/// congruence).
pub open spec fn weekday_from_monday(y: int, m: int, d: int) -> int {
    let yy = if m <= 2 { y - 1 } else { y };
    let mm = if m <= 2 { m + 12 } else { m };
    let h = (d + (13 * (mm + 1)) / 5 + yy + yy / 4 - yy / 100 + yy / 400) % 7;
    (h + 5) % 7
}

/// `n` in decimal, left-padded with zeros to at least `width` characters.
pub open spec fn padded(n: nat, width: nat) -> Seq<char> {
    let digits = crate::text::decimal(n);
    if digits.len() < width {
        Seq::new((width - digits.len()) as nat, |i: int| '0') + digits
    } else {
        digits
    }
}

/// A year as chrono's `%Y` writes it: four digits for years 0 through 9999,
/// otherwise a sign followed by at least four digits.
pub open spec fn year_text(y: int) -> Seq<char> {
    if 0 <= y <= 9999 {
        padded(y as nat, 4)
    } else if y < 0 {
        seq!['-'] + padded((-y) as nat, 4)
    } else {
        seq!['+'] + padded(y as nat, 4)
    }
}

/// The "YYYY-MM-DD" key of a day.
pub open spec fn date_key_text(y: int, m: int, d: int) -> Seq<char> {
    year_text(y) + seq!['-'] + padded(m as nat, 2) + seq!['-'] + padded(d as nat, 2)
}

/// The "YYYY-MM" key of a month, the prefix of its days' keys.
pub open spec fn month_key_text(y: int, m: int) -> Seq<char> {
    year_text(y) + seq!['-'] + padded(m as nat, 2)
}

/// Stepping a day forward and back again returns to the same day, and so
/// does stepping back and then forward.
pub proof fn lemma_next_prev_inverse(y: int, m: int, d: int)
    requires
        valid_ymd(y, m, d),
    ensures
        next_day(y, m, d) matches Some(t) ==> prev_day(t.0, t.1, t.2) == Some((y, m, d)),
        prev_day(y, m, d) matches Some(t) ==> next_day(t.0, t.1, t.2) == Some((y, m, d)),
{
}

/// A month's key is a prefix of the key of each of its days, so the days of
/// a month are found by the month key followed by anything.
pub proof fn lemma_month_key_prefix(y: int, m: int, d: int)
    ensures
        month_key_text(y, m).len() <= date_key_text(y, m, d).len(),
        date_key_text(y, m, d).take(month_key_text(y, m).len() as int) == month_key_text(y, m),
{
    let mk = month_key_text(y, m);
    let dk = date_key_text(y, m, d);
    assert(dk =~= mk + seq!['-'] + padded(d as nat, 2));
    assert(dk.take(mk.len() as int) =~= mk);
}

proof fn lemma_zeros_value(z: Seq<char>)
    requires
        forall|i: int| 0 <= i < z.len() ==> #[trigger] z[i] == '0',
    ensures
        digits_value(z) == 0,
        all_digits(z),
    decreases z.len(),
{
    if z.len() > 0 {
        lemma_zeros_value(z.drop_last());
        assert(z.last() == '0');
    }
}

proof fn lemma_leading_zeros_value(z: Seq<char>, s: Seq<char>)
    requires
        forall|i: int| 0 <= i < z.len() ==> #[trigger] z[i] == '0',
        all_digits(s),
    ensures
        digits_value(z + s) == digits_value(s),
        all_digits(z + s),
    decreases s.len(),
{
    if s.len() == 0 {
        lemma_zeros_value(z);
        assert(z + s =~= z);
    } else {
        assert(all_digits(s.drop_last()));
        lemma_leading_zeros_value(z, s.drop_last());
        assert((z + s).drop_last() =~= z + s.drop_last());
        assert((z + s).last() == s.last());
        assert forall|i: int| 0 <= i < (z + s).len() implies '0' <= #[trigger] (z + s)[i] <= '9' by {
            if i < z.len() {
                assert((z + s)[i] == z[i]);
            } else {
                assert((z + s)[i] == s[i - z.len()]);
            }
        }
    }
}

/// Zero-padded decimal text reads back as its number.
proof fn lemma_padded_value(n: nat, w: nat)
    ensures
        digits_value(padded(n, w)) == n,
        all_digits(padded(n, w)),
        padded(n, w).len() > 0,
        padded(n, w).len() >= w,
{
    lemma_decimal_digits(n);
    let dg = decimal(n);
    if dg.len() < w {
        let z = Seq::new((w - dg.len()) as nat, |i: int| '0');
        lemma_leading_zeros_value(z, dg);
    }
}

proof fn lemma_decimal_len_two(n: nat)
    requires
        n < 100,
    ensures
        decimal(n).len() <= 2,
{
    if n >= 10 {
        assert(decimal(n / 10).len() == 1);
    }
}

/// Distinct days have distinct keys: the stored "YYYY-MM-DD" text names
/// exactly one day.
pub proof fn lemma_date_key_injective(a: (int, int, int), b: (int, int, int))
    requires
        valid_ymd(a.0, a.1, a.2),
        valid_ymd(b.0, b.1, b.2),
        date_key_text(a.0, a.1, a.2) == date_key_text(b.0, b.1, b.2),
    ensures
        a == b,
{
    lemma_decimal_len_two(a.1 as nat);
    lemma_decimal_len_two(a.2 as nat);
    lemma_decimal_len_two(b.1 as nat);
    lemma_decimal_len_two(b.2 as nat);
    let ya = year_text(a.0);
    let yb = year_text(b.0);
    let ma = padded(a.1 as nat, 2);
    let mb = padded(b.1 as nat, 2);
    let da = padded(a.2 as nat, 2);
    let db = padded(b.2 as nat, 2);
    assert(ma.len() == 2 && mb.len() == 2 && da.len() == 2 && db.len() == 2);
    let ka = date_key_text(a.0, a.1, a.2);
    let kb = date_key_text(b.0, b.1, b.2);
    assert(ka =~= ya + seq!['-'] + ma + seq!['-'] + da);
    assert(kb =~= yb + seq!['-'] + mb + seq!['-'] + db);
    assert(ka.len() == ya.len() + 6);
    assert(kb.len() == yb.len() + 6);
    assert(ya.len() == yb.len());
    let n = ya.len() as int;
    assert(ya =~= ka.take(n));
    assert(yb =~= kb.take(n));
    assert(ma =~= ka.subrange(n + 1, n + 3));
    assert(mb =~= kb.subrange(n + 1, n + 3));
    assert(da =~= ka.subrange(n + 4, n + 6));
    assert(db =~= kb.subrange(n + 4, n + 6));
    lemma_padded_value(a.1 as nat, 2);
    lemma_padded_value(b.1 as nat, 2);
    lemma_padded_value(a.2 as nat, 2);
    lemma_padded_value(b.2 as nat, 2);
    lemma_year_text_injective(a.0, b.0);
}

proof fn lemma_year_text_injective(x: int, y: int)
    requires
        year_text(x) == year_text(y),
    ensures
        x == y,
{
    let px = if 0 <= x <= 9999 { padded(x as nat, 4) } else if x < 0 { padded((-x) as nat, 4) } else { padded(x as nat, 4) };
    let py = if 0 <= y <= 9999 { padded(y as nat, 4) } else if y < 0 { padded((-y) as nat, 4) } else { padded(y as nat, 4) };
    lemma_padded_value(if x < 0 { (-x) as nat } else { x as nat }, 4);
    lemma_padded_value(if y < 0 { (-y) as nat } else { y as nat }, 4);
    let tx = year_text(x);
    let ty = year_text(y);
    if 0 <= x <= 9999 {
        assert('0' <= px[0] <= '9');
        assert(tx == px);
        assert('0' <= tx[0] <= '9');
    } else {
        assert(tx == seq![if x < 0 { '-' } else { '+' }] + px);
        assert(tx.drop_first() =~= px);
        assert(tx[0] == if x < 0 { '-' } else { '+' });
    }
    if 0 <= y <= 9999 {
        assert('0' <= py[0] <= '9');
        assert(ty == py);
        assert('0' <= ty[0] <= '9');
    } else {
        assert(ty == seq![if y < 0 { '-' } else { '+' }] + py);
        assert(ty.drop_first() =~= py);
        assert(ty[0] == if y < 0 { '-' } else { '+' });
    }
    assert(tx[0] == ty[0]);
    if !(0 <= x <= 9999) && !(0 <= y <= 9999) {
        assert(px == py);
    }
}

/// Makes a chrono date from (y, m, d) and reads it back.
///
/// Wraps `NaiveDate::from_ymd_opt`, which chrono documents as returning `None`
/// exactly when the day does not exist, month or day is out of bounds, or the
/// year is outside its range, and otherwise the date with those fields.
#[verifier::external_body]
fn chrono_from_ymd(y: i32, m: u32, d: u32) -> (r: Option<(i32, u32, u32)>)
    ensures
        r is Some <==> valid_ymd(y as int, m as int, d as int),
        r matches Some(t) ==> t == (y, m, d),
{
    match NaiveDate::from_ymd_opt(y, m, d) {
        Some(n) => Some((n.year(), n.month(), n.day())),
        None => None,
    }
}

/// Wraps `NaiveDate::succ_opt`: the next calendar day, `None` after the last
/// representable date.
#[verifier::external_body]
fn chrono_succ(y: i32, m: u32, d: u32) -> (r: Option<(i32, u32, u32)>)
    requires
        valid_ymd(y as int, m as int, d as int),
    ensures
        match next_day(y as int, m as int, d as int) {
            Some(t) => r matches Some(u) && u.0 as int == t.0 && u.1 as int == t.1 && u.2 as int == t.2,
            None => r is None,
        },
{
    match NaiveDate::from_ymd_opt(y, m, d).unwrap().succ_opt() {
        Some(n) => Some((n.year(), n.month(), n.day())),
        None => None,
    }
}

/// Wraps `NaiveDate::pred_opt`: the previous calendar day, `None` before the
/// first representable date.
#[verifier::external_body]
fn chrono_pred(y: i32, m: u32, d: u32) -> (r: Option<(i32, u32, u32)>)
    requires
        valid_ymd(y as int, m as int, d as int),
    ensures
        match prev_day(y as int, m as int, d as int) {
            Some(t) => r matches Some(u) && u.0 as int == t.0 && u.1 as int == t.1 && u.2 as int == t.2,
            None => r is None,
        },
{
    match NaiveDate::from_ymd_opt(y, m, d).unwrap().pred_opt() {
        Some(n) => Some((n.year(), n.month(), n.day())),
        None => None,
    }
}

/// Wraps `NaiveDate::checked_add_months`: the same day `n` months later, the
/// day clamped to the new month's length; the date itself for zero months;
/// `None` when `n` exceeds `i32::MAX` or the result leaves range.
#[verifier::external_body]
fn chrono_add_months(y: i32, m: u32, d: u32, n: u32) -> (r: Option<(i32, u32, u32)>)
    requires
        valid_ymd(y as int, m as int, d as int),
    ensures
        n == 0 ==> r == Some((y, m, d)),
        n > i32::MAX ==> r is None,
        0 < n <= i32::MAX ==> match shift_months(y as int, m as int, d as int, n as int) {
            Some(t) => r matches Some(u) && u.0 as int == t.0 && u.1 as int == t.1 && u.2 as int == t.2,
            None => r is None,
        },
{
    match NaiveDate::from_ymd_opt(y, m, d).unwrap().checked_add_months(Months::new(n)) {
        Some(x) => Some((x.year(), x.month(), x.day())),
        None => None,
    }
}

/// Wraps `NaiveDate::checked_sub_months`: the same day `n` months earlier, the
/// day clamped to the new month's length; the date itself for zero months;
/// `None` when `n` exceeds `i32::MAX` or the result leaves range.
#[verifier::external_body]
fn chrono_sub_months(y: i32, m: u32, d: u32, n: u32) -> (r: Option<(i32, u32, u32)>)
    requires
        valid_ymd(y as int, m as int, d as int),
    ensures
        n == 0 ==> r == Some((y, m, d)),
        n > i32::MAX ==> r is None,
        0 < n <= i32::MAX ==> match shift_months(y as int, m as int, d as int, -(n as int)) {
            Some(t) => r matches Some(u) && u.0 as int == t.0 && u.1 as int == t.1 && u.2 as int == t.2,
            None => r is None,
        },
{
    match NaiveDate::from_ymd_opt(y, m, d).unwrap().checked_sub_months(Months::new(n)) {
        Some(x) => Some((x.year(), x.month(), x.day())),
        None => None,
    }
}

/// Wraps `Weekday::num_days_from_monday` of `NaiveDate::weekday`: the day of
/// the week in the proleptic Gregorian calendar, Monday = 0 through Sunday = 6.
#[verifier::external_body]
fn chrono_weekday(y: i32, m: u32, d: u32) -> (w: u32)
    requires
        valid_ymd(y as int, m as int, d as int),
    ensures
        w as int == weekday_from_monday(y as int, m as int, d as int),
{
    NaiveDate::from_ymd_opt(y, m, d).unwrap().weekday().num_days_from_monday()
}

/// Wraps `NaiveDate::format("%Y-%m-%d")`: the year as `%Y` writes it, then the
/// month and day as two digits, separated by dashes.
#[verifier::external_body]
fn chrono_date_key(y: i32, m: u32, d: u32) -> (s: String)
    requires
        valid_ymd(y as int, m as int, d as int),
    ensures
        s@ == date_key_text(y as int, m as int, d as int),
{
    NaiveDate::from_ymd_opt(y, m, d).unwrap().format("%Y-%m-%d").to_string()
}

/// Wraps `NaiveDate::format("%Y-%m")`: the year as `%Y` writes it, a dash, and
/// the month as two digits.
#[verifier::external_body]
fn chrono_month_key(y: i32, m: u32, d: u32) -> (s: String)
    requires
        valid_ymd(y as int, m as int, d as int),
    ensures
        s@ == month_key_text(y as int, m as int),
{
    NaiveDate::from_ymd_opt(y, m, d).unwrap().format("%Y-%m").to_string()
}

/// A calendar day.
#[derive(Debug, Clone, Copy, PartialEq, Eq, Hash)]
pub struct Date {
    year: i32,
    month: u32,
    day: u32,
}

impl View for Date {
    type V = (int, int, int);

    closed spec fn view(&self) -> (int, int, int) {
        (self.year as int, self.month as int, self.day as int)
    }
}

/// `a` is an earlier day than `b`.
pub open spec fn date_lt(a: (int, int, int), b: (int, int, int)) -> bool {
    a.0 < b.0 || (a.0 == b.0 && (a.1 < b.1 || (a.1 == b.1 && a.2 < b.2)))
}

impl Date {
    #[verifier::type_invariant]
    closed spec fn date_inv(self) -> bool {
        valid_ymd(self.year as int, self.month as int, self.day as int)
    }

    /// The date with the given fields, or `None` when it is not a calendar day
    /// within range.
    pub fn from_ymd(year: i32, month: u32, day: u32) -> (r: Option<Date>)
        ensures
            r is Some <==> valid_ymd(year as int, month as int, day as int),
            r matches Some(d) ==> d@ == (year as int, month as int, day as int),
    {
        match chrono_from_ymd(year, month, day) {
            Some(t) => Some(Date { year: t.0, month: t.1, day: t.2 }),
            None => None,
        }
    }

    /// The year.
    pub fn year(&self) -> (y: i32)
        ensures
            y as int == self@.0,
            valid_ymd(self@.0, self@.1, self@.2),
    {
        proof {
            use_type_invariant(self);
        }
        self.year
    }

    /// The month, 1 through 12.
    pub fn month(&self) -> (m: u32)
        ensures
            m as int == self@.1,
            valid_ymd(self@.0, self@.1, self@.2),
    {
        proof {
            use_type_invariant(self);
        }
        self.month
    }

    /// The day of the month.
    pub fn day(&self) -> (d: u32)
        ensures
            d as int == self@.2,
            valid_ymd(self@.0, self@.1, self@.2),
    {
        proof {
            use_type_invariant(self);
        }
        self.day
    }

    fn from_triple(t: Option<(i32, u32, u32)>) -> (r: Option<Date>)
        requires
            t matches Some(u) ==> valid_ymd(u.0 as int, u.1 as int, u.2 as int),
        ensures
            t is Some <==> r is Some,
            r matches Some(d) ==> t matches Some(u) && d@ == (u.0 as int, u.1 as int, u.2 as int),
    {
        match t {
            Some(u) => Some(Date { year: u.0, month: u.1, day: u.2 }),
            None => None,
        }
    }

    /// The next day, `None` after the last representable date.
    pub fn succ(&self) -> (r: Option<Date>)
        ensures
            match next_day(self@.0, self@.1, self@.2) {
                Some(t) => r matches Some(n) && n@ == t,
                None => r is None,
            },
    {
        proof {
            use_type_invariant(self);
        }
        Self::from_triple(chrono_succ(self.year, self.month, self.day))
    }

    /// The previous day, `None` before the first representable date.
    pub fn pred(&self) -> (r: Option<Date>)
        ensures
            match prev_day(self@.0, self@.1, self@.2) {
                Some(t) => r matches Some(n) && n@ == t,
                None => r is None,
            },
    {
        proof {
            use_type_invariant(self);
        }
        Self::from_triple(chrono_pred(self.year, self.month, self.day))
    }

    /// The same day `n` months later (clamped to the month's length).
    pub fn add_months(&self, n: u32) -> (r: Option<Date>)
        ensures
            n == 0 ==> r == Some(*self),
            n > i32::MAX ==> r is None,
            0 < n <= i32::MAX ==> match shift_months(self@.0, self@.1, self@.2, n as int) {
                Some(t) => r matches Some(x) && x@ == t,
                None => r is None,
            },
    {
        proof {
            use_type_invariant(self);
        }
        let t = chrono_add_months(self.year, self.month, self.day, n);
        let r = Self::from_triple(t);
        proof {
            if n == 0 {
                assert(r matches Some(x) && x@ == self@);
            }
        }
        if n == 0 { Some(*self) } else { r }
    }

    /// The same day `n` months earlier (clamped to the month's length).
    pub fn sub_months(&self, n: u32) -> (r: Option<Date>)
        ensures
            n == 0 ==> r == Some(*self),
            n > i32::MAX ==> r is None,
            0 < n <= i32::MAX ==> match shift_months(self@.0, self@.1, self@.2, -(n as int)) {
                Some(t) => r matches Some(x) && x@ == t,
                None => r is None,
            },
    {
        proof {
            use_type_invariant(self);
        }
        let t = chrono_sub_months(self.year, self.month, self.day, n);
        let r = Self::from_triple(t);
        if n == 0 { Some(*self) } else { r }
    }

    /// The first day of this date's month.
    pub fn first_of_month(&self) -> (r: Date)
        ensures
            r@ == (self@.0, self@.1, 1int),
    {
        proof {
            use_type_invariant(self);
        }
        match chrono_from_ymd(self.year, self.month, 1) {
            Some(t) => Date { year: t.0, month: t.1, day: t.2 },
            None => {
                assert(false);
                *self
            },
        }
    }

    /// The day of the week, Monday = 0 through Sunday = 6.
    pub fn weekday_from_monday(&self) -> (w: u32)
        ensures
            w as int == weekday_from_monday(self@.0, self@.1, self@.2),
            w < 7,
    {
        proof {
            use_type_invariant(self);
        }
        chrono_weekday(self.year, self.month, self.day)
    }

    /// Whether this is an earlier day than `other`.
    pub fn is_before(&self, other: &Date) -> (b: bool)
        ensures
            b == date_lt(self@, other@),
    {
        self.year < other.year || (self.year == other.year && (self.month < other.month
            || (self.month == other.month && self.day < other.day)))
    }

    /// Whether this is the same day as `other`.
    pub fn same_day(&self, other: &Date) -> (b: bool)
        ensures
            b == (self@ == other@),
    {
        self.year == other.year && self.month == other.month && self.day == other.day
    }

    /// The "YYYY-MM" key of this date's month.
    pub fn month_key(&self) -> (s: String)
        ensures
            s@ == month_key_text(self@.0, self@.1),
    {
        proof {
            use_type_invariant(self);
        }
        chrono_month_key(self.year, self.month, self.day)
    }
}

/// The canonical "YYYY-MM-DD" key under which a day's usage is stored, defined
/// once so every writer and reader agrees.
pub fn date_key(date: &Date) -> (s: String)
    ensures
        s@ == date_key_text(date@.0, date@.1, date@.2),
{
    proof {
        use_type_invariant(date);
    }
    chrono_date_key(date.year, date.month, date.day)
}

} // verus!
