//! The live usage map: tracked seconds keyed by (app, window title).

use vstd::prelude::*;
use vstd::string::*;
use crate::state::{ActivityKey, UsageRow};

verus! {

/// The text of a key: (app, title).
pub type KeyView = (Seq<char>, Seq<char>);

/// One entry of the usage map as text and seconds.
pub type EntryView = (KeyView, u64);

/// The sum of `f` over the entries of `s`.
pub open spec fn total_where(s: Seq<EntryView>, f: spec_fn(EntryView) -> nat) -> nat
    decreases s.len(),
{
    if s.len() == 0 {
        0
    } else {
        total_where(s.drop_last(), f) + f(s.last())
    }
}

/// An entry's seconds when it is keyed by `k`, else nothing.
pub open spec fn key_share(k: KeyView) -> spec_fn(EntryView) -> nat {
    |e: EntryView| if e.0 == k { e.1 as nat } else { 0 }
}

/// An entry's seconds when it belongs to `app`, else nothing.
pub open spec fn app_share(app: Seq<char>) -> spec_fn(EntryView) -> nat {
    |e: EntryView| if e.0.0 == app { e.1 as nat } else { 0 }
}

/// The seconds recorded under `k` (zero when there are none).
pub open spec fn key_secs(s: Seq<EntryView>, k: KeyView) -> nat {
    total_where(s, key_share(k))
}

/// The seconds recorded under any title of `app`.
pub open spec fn app_secs(s: Seq<EntryView>, app: Seq<char>) -> nat {
    total_where(s, app_share(app))
}

/// Whether some entry is keyed by `k`.
pub open spec fn has_key(s: Seq<EntryView>, k: KeyView) -> bool {
    exists|i: int| 0 <= i < s.len() && (#[trigger] s[i]).0 == k
}

/// Whether some entry belongs to `app`.
pub open spec fn has_app(s: Seq<EntryView>, app: Seq<char>) -> bool {
    exists|i: int| 0 <= i < s.len() && (#[trigger] s[i]).0.0 == app
}

/// No key occurs twice.
pub open spec fn keys_distinct(s: Seq<EntryView>) -> bool {
    forall|i: int, j: int| 0 <= i < s.len() && 0 <= j < s.len() && i != j ==> (#[trigger] s[i]).0 != (#[trigger] s[j]).0
}

/// Appending an entry adds its share to a sum.
pub proof fn lemma_total_push(s: Seq<EntryView>, e: EntryView, f: spec_fn(EntryView) -> nat)
    ensures
        total_where(s.push(e), f) == total_where(s, f) + f(e),
{
    assert(s.push(e).drop_last() =~= s);
}

/// Replacing an entry swaps its share of a sum.
pub proof fn lemma_total_update(s: Seq<EntryView>, i: int, e: EntryView, f: spec_fn(EntryView) -> nat)
    requires
        0 <= i < s.len(),
    ensures
        total_where(s.update(i, e), f) + f(s[i]) == total_where(s, f) + f(e),
    decreases s.len(),
{
    if i == s.len() - 1 {
        assert(s.update(i, e).drop_last() =~= s.drop_last());
    } else {
        lemma_total_update(s.drop_last(), i, e, f);
        assert(s.update(i, e).drop_last() =~= s.drop_last().update(i, e));
    }
}

/// A prefix sums to no more than the whole.
pub proof fn lemma_total_take_le(s: Seq<EntryView>, k: int, f: spec_fn(EntryView) -> nat)
    requires
        0 <= k <= s.len(),
    ensures
        total_where(s.take(k), f) <= total_where(s, f),
    decreases s.len(),
{
    if k < s.len() {
        lemma_total_take_le(s.drop_last(), k, f);
        assert(s.drop_last().take(k) =~= s.take(k));
    } else {
        assert(s.take(k) =~= s);
    }
}

/// The first `k + 1` entries sum to the first `k` plus entry `k`.
pub proof fn lemma_total_take_next(s: Seq<EntryView>, k: int, f: spec_fn(EntryView) -> nat)
    requires
        0 <= k < s.len(),
    ensures
        total_where(s.take(k + 1), f) == total_where(s.take(k), f) + f(s[k]),
{
    assert(s.take(k + 1).drop_last() =~= s.take(k));
}

/// A sum over entries that all contribute nothing is zero.
pub proof fn lemma_total_zero(s: Seq<EntryView>, f: spec_fn(EntryView) -> nat)
    requires
        forall|i: int| 0 <= i < s.len() ==> f(#[trigger] s[i]) == 0,
    ensures
        total_where(s, f) == 0,
    decreases s.len(),
{
    if s.len() > 0 {
        lemma_total_zero(s.drop_last(), f);
    }
}

/// With distinct keys, the seconds of a key are those of its one entry.
pub proof fn lemma_key_secs_at(s: Seq<EntryView>, i: int)
    requires
        keys_distinct(s),
        0 <= i < s.len(),
    ensures
        key_secs(s, s[i].0) == s[i].1,
    decreases s.len(),
{
    let k = s[i].0;
    let f = key_share(k);
    if i == s.len() - 1 {
        assert forall|j: int| 0 <= j < s.drop_last().len() implies f(#[trigger] s.drop_last()[j]) == 0 by {
            assert(s.drop_last()[j] == s[j]);
        }
        lemma_total_zero(s.drop_last(), f);
    } else {
        assert(keys_distinct(s.drop_last())) by {
            assert forall|a: int, b: int| 0 <= a < s.drop_last().len() && 0 <= b < s.drop_last().len() && a != b
                implies (#[trigger] s.drop_last()[a]).0 != (#[trigger] s.drop_last()[b]).0 by {
                assert(s.drop_last()[a] == s[a] && s.drop_last()[b] == s[b]);
            }
        }
        lemma_key_secs_at(s.drop_last(), i);
        assert(s.drop_last()[i] == s[i]);
        assert(s.last().0 != k);
    }
}

/// A key with no entry has no seconds.
pub proof fn lemma_key_secs_absent(s: Seq<EntryView>, k: KeyView)
    requires
        !has_key(s, k),
    ensures
        key_secs(s, k) == 0,
{
    let f = key_share(k);
    assert forall|j: int| 0 <= j < s.len() implies f(#[trigger] s[j]) == 0 by {
        if s[j].0 == k {
            assert(has_key(s, k));
        }
    }
    lemma_total_zero(s, f);
}

/// With distinct keys, a key's seconds fit in a `u64`.
pub proof fn lemma_key_secs_bounded(s: Seq<EntryView>, k: KeyView)
    requires
        keys_distinct(s),
    ensures
        key_secs(s, k) <= u64::MAX,
{
    if has_key(s, k) {
        let i = choose|i: int| 0 <= i < s.len() && (#[trigger] s[i]).0 == k;
        lemma_key_secs_at(s, i);
    } else {
        lemma_key_secs_absent(s, k);
    }
}

/// An app with no entry has no seconds.
pub proof fn lemma_app_secs_absent(s: Seq<EntryView>, a: Seq<char>)
    requires
        !has_app(s, a),
    ensures
        app_secs(s, a) == 0,
{
    let f = app_share(a);
    assert forall|j: int| 0 <= j < s.len() implies f(#[trigger] s[j]) == 0 by {
        if s[j].0.0 == a {
            assert(has_app(s, a));
        }
    }
    lemma_total_zero(s, f);
}

/// The seconds of the last entry keyed by `k` (zero when there is none): what
/// collecting entries into a map keeps for `k`.
pub open spec fn last_secs(s: Seq<EntryView>, k: KeyView) -> nat
    decreases s.len(),
{
    if s.len() == 0 {
        0
    } else if s.last().0 == k {
        s.last().1 as nat
    } else {
        last_secs(s.drop_last(), k)
    }
}

/// The (title, seconds) of each entry of `app`, in entry order.
pub open spec fn titles_of(s: Seq<EntryView>, app: Seq<char>) -> Seq<(Seq<char>, u64)>
    decreases s.len(),
{
    if s.len() == 0 {
        Seq::empty()
    } else if s.last().0.0 == app {
        titles_of(s.drop_last(), app).push((s.last().0.1, s.last().1))
    } else {
        titles_of(s.drop_last(), app)
    }
}

/// `rows` are the per-app totals of `entries`: one row per app that has an
/// entry, named by the app and holding the sum of its titles' seconds.
pub open spec fn app_totals_of(entries: Seq<EntryView>, rows: Seq<UsageRow>) -> bool {
    &&& forall|i: int| 0 <= i < rows.len() ==> (#[trigger] rows[i]).secs == app_secs(entries, rows[i].name@)
    &&& forall|i: int, j: int| 0 <= i < rows.len() && 0 <= j < rows.len() && i != j
        ==> (#[trigger] rows[i]).name@ != (#[trigger] rows[j]).name@
    &&& forall|a: Seq<char>| has_app(entries, a) <==> exists|i: int| 0 <= i < rows.len() && (#[trigger] rows[i]).name@ == a
}

/// The views of a sequence of rows.
pub open spec fn row_views(rows: Seq<UsageRow>) -> Seq<(Seq<char>, u64)> {
    rows.map_values(|r: UsageRow| r@)
}

/// Every entry's seconds.
pub open spec fn all_share() -> spec_fn(EntryView) -> nat {
    |e: EntryView| e.1 as nat
}

/// All seconds recorded in `s`.
pub open spec fn entries_secs(s: Seq<EntryView>) -> nat {
    total_where(s, all_share())
}

/// The entries of `s` that do not belong to `app`, in order.
pub open spec fn without_app(s: Seq<EntryView>, app: Seq<char>) -> Seq<EntryView>
    decreases s.len(),
{
    if s.len() == 0 {
        Seq::empty()
    } else if s.last().0.0 == app {
        without_app(s.drop_last(), app)
    } else {
        without_app(s.drop_last(), app).push(s.last())
    }
}

proof fn lemma_without_app(s: Seq<EntryView>, a: Seq<char>)
    ensures
        entries_secs(s) == entries_secs(without_app(s, a)) + app_secs(s, a),
        forall|b: Seq<char>| b != a ==> #[trigger] app_secs(without_app(s, a), b) == app_secs(s, b),
        forall|b: Seq<char>| #[trigger] has_app(without_app(s, a), b) <==> (has_app(s, b) && b != a),
    decreases s.len(),
{
    if s.len() > 0 {
        let p = s.drop_last();
        let e = s.last();
        lemma_without_app(p, a);
        let w = without_app(p, a);
        let ws = without_app(s, a);
        if e.0.0 != a {
            assert(ws == w.push(e));
            lemma_total_push(w, e, all_share());
        } else {
            assert(ws == w);
        }
        assert forall|b: Seq<char>| b != a implies #[trigger] app_secs(ws, b) == app_secs(s, b) by {
            assert(app_secs(s, b) == app_secs(p, b) + (app_share(b))(e));
            assert(app_secs(w, b) == app_secs(p, b));
            if e.0.0 != a {
                lemma_total_push(w, e, app_share(b));
            }
        }
        assert forall|b: Seq<char>| #[trigger] has_app(ws, b) <==> (has_app(s, b) && b != a) by {
            if has_app(ws, b) {
                let i = choose|i: int| 0 <= i < ws.len() && (#[trigger] ws[i]).0.0 == b;
                if i < w.len() {
                    assert(ws[i] == w[i]);
                    assert(has_app(w, b));
                    let j = choose|j: int| 0 <= j < p.len() && (#[trigger] p[j]).0.0 == b;
                    assert(s[j] == p[j]);
                } else {
                    assert(ws[i] == e);
                    assert(s[s.len() - 1].0.0 == b);
                }
            }
            if has_app(s, b) && b != a {
                let i = choose|i: int| 0 <= i < s.len() && (#[trigger] s[i]).0.0 == b;
                if i < p.len() {
                    assert(p[i] == s[i]);
                    assert(has_app(p, b));
                    assert(has_app(w, b));
                    let j = choose|j: int| 0 <= j < w.len() && (#[trigger] w[j]).0.0 == b;
                    if e.0.0 != a {
                        assert(ws[j] == w[j]);
                    }
                } else {
                    assert(ws[ws.len() - 1] == e);
                }
            }
        }
    }
}

/// Per-app totals account for every second recorded: they sum to the total
/// of all entries, so grouping by app loses and invents nothing.
pub proof fn lemma_app_totals_conserve(entries: Seq<EntryView>, rows: Seq<UsageRow>)
    requires
        app_totals_of(entries, rows),
    ensures
        rows_total(rows) == entries_secs(entries),
    decreases rows.len(),
{
    if rows.len() == 0 {
        if entries.len() > 0 {
            assert(has_app(entries, entries[0].0.0));
        }
    } else {
        let r = rows.last();
        let a = r.name@;
        let rest = rows.drop_last();
        let w = without_app(entries, a);
        lemma_without_app(entries, a);
        assert forall|i: int| 0 <= i < rest.len() implies (#[trigger] rest[i]).name@ != a by {
            assert(rest[i] == rows[i]);
            assert(rows[i].name@ != rows[rows.len() - 1].name@);
        }
        assert(app_totals_of(w, rest)) by {
            assert forall|i: int| 0 <= i < rest.len() implies (#[trigger] rest[i]).secs == app_secs(w, rest[i].name@) by {
                assert(rest[i] == rows[i]);
            }
            assert forall|i: int, j: int| 0 <= i < rest.len() && 0 <= j < rest.len() && i != j
                implies (#[trigger] rest[i]).name@ != (#[trigger] rest[j]).name@ by {
                assert(rest[i] == rows[i] && rest[j] == rows[j]);
            }
            assert forall|b: Seq<char>| has_app(w, b) <==> exists|i: int| 0 <= i < rest.len() && (#[trigger] rest[i]).name@ == b by {
                if has_app(w, b) {
                    let i = choose|i: int| 0 <= i < rows.len() && (#[trigger] rows[i]).name@ == b;
                    assert(i < rest.len());
                    assert(rest[i] == rows[i]);
                }
                if exists|i: int| 0 <= i < rest.len() && (#[trigger] rest[i]).name@ == b {
                    let i = choose|i: int| 0 <= i < rest.len() && (#[trigger] rest[i]).name@ == b;
                    assert(rest[i] == rows[i]);
                    assert(has_app(entries, b));
                }
            }
        }
        lemma_app_totals_conserve(w, rest);
        assert(rows[rows.len() - 1].secs == app_secs(entries, a));
    }
}

/// Saving a map's entries and collecting them back restores every key's
/// seconds: with distinct keys, the last entry of a key is its only one.
pub proof fn lemma_snapshot_reload(s: Seq<EntryView>, k: KeyView)
    requires
        keys_distinct(s),
    ensures
        last_secs(s, k) == key_secs(s, k),
    decreases s.len(),
{
    if s.len() > 0 {
        let p = s.drop_last();
        assert(keys_distinct(p)) by {
            assert forall|a: int, b: int| 0 <= a < p.len() && 0 <= b < p.len() && a != b
                implies (#[trigger] p[a]).0 != (#[trigger] p[b]).0 by {
                assert(p[a] == s[a] && p[b] == s[b]);
            }
        }
        if s.last().0 == k {
            lemma_key_secs_at(s, s.len() - 1);
        } else {
            lemma_snapshot_reload(p, k);
        }
    }
}

/// The sum of the seconds of `rows`.
pub open spec fn rows_total(rows: Seq<UsageRow>) -> nat
    decreases rows.len(),
{
    if rows.len() == 0 {
        0
    } else {
        rows_total(rows.drop_last()) + rows.last().secs as nat
    }
}

/// The text and seconds of each entry.
pub open spec fn entries_view(s: Seq<(ActivityKey, u64)>) -> Seq<EntryView> {
    s.map_values(|e: (ActivityKey, u64)| (e.0@, e.1))
}

/// In-memory accumulation of tracked seconds, keyed by (app, title). Each key
/// occurs at most once.
pub struct UsageMap {
    entries: Vec<(ActivityKey, u64)>,
}

impl View for UsageMap {
    type V = Seq<EntryView>;

    closed spec fn view(&self) -> Seq<EntryView> {
        entries_view(self.entries@)
    }
}

impl UsageMap {
    /// The map's invariant: no key occurs twice.
    pub open spec fn inv(&self) -> bool {
        keys_distinct(self@)
    }

    /// An empty map.
    pub fn new() -> (m: UsageMap)
        ensures
            m.inv(),
            m@.len() == 0,
    {
        UsageMap { entries: Vec::new() }
    }

    /// The number of keys.
    pub fn len(&self) -> (n: usize)
        ensures
            n == self@.len(),
    {
        self.entries.len()
    }

    /// Whether the map holds no key.
    pub fn is_empty(&self) -> (b: bool)
        ensures
            b == (self@.len() == 0),
    {
        self.entries.len() == 0
    }

    /// Where `key` is stored, if it is.
    fn find(&self, key: &ActivityKey) -> (r: Option<usize>)
        ensures
            match r {
                Some(i) => i < self@.len() && self@[i as int].0 == key@,
                None => !has_key(self@, key@),
            },
    {
        let mut i: usize = 0;
        while i < self.entries.len()
            invariant
                i <= self@.len(),
                self.entries@.len() == self@.len(),
                forall|j: int| 0 <= j < i ==> (#[trigger] self@[j]).0 != key@,
            decreases self.entries.len() - i,
        {
            let e = &self.entries[i];
            assert(self@[i as int] == (e.0@, e.1));
            if e.0.app == key.app && e.0.title == key.title {
                return Some(i);
            }
            i = i + 1;
        }
        None
    }

    /// The seconds recorded under `key` (zero when it is absent).
    pub fn get(&self, key: &ActivityKey) -> (secs: u64)
        requires
            self.inv(),
        ensures
            secs == key_secs(self@, key@),
    {
        match self.find(key) {
            Some(i) => {
                proof {
                    lemma_key_secs_at(self@, i as int);
                }
                self.entries[i].1
            },
            None => {
                proof {
                    lemma_key_secs_absent(self@, key@);
                }
                0
            },
        }
    }

    /// Credits `secs` more seconds to `key`, adding the key if it is new.
    pub fn credit(&mut self, key: ActivityKey, secs: u64)
        requires
            old(self).inv(),
            key_secs(old(self)@, key@) + secs <= u64::MAX,
        ensures
            final(self).inv(),
            key_secs(final(self)@, key@) == key_secs(old(self)@, key@) + secs,
            forall|k: KeyView| k != key@ ==> key_secs(final(self)@, k) == key_secs(old(self)@, k),
            forall|k: KeyView| has_key(final(self)@, k) <==> (has_key(old(self)@, k) || k == key@),
            forall|a: Seq<char>| a != key@.0 ==> app_secs(final(self)@, a) == app_secs(old(self)@, a),
            app_secs(final(self)@, key@.0) == app_secs(old(self)@, key@.0) + secs,
    {
        let ghost s = self@;
        let ghost kv = key@;
        match self.find(&key) {
            Some(i) => {
                proof {
                    lemma_key_secs_at(s, i as int);
                }
                let cur = self.entries[i].1;
                let ghost e = (kv, (cur + secs) as u64);
                self.entries.set(i, (key, cur + secs));
                proof {
                    assert(self@ =~= s.update(i as int, e));
                    assert forall|k: KeyView| #[trigger] key_secs(self@, k) == key_secs(s, k) + (if k == kv { secs as nat } else { 0 }) by {
                        lemma_total_update(s, i as int, e, key_share(k));
                    }
                    assert forall|a: Seq<char>| #[trigger] app_secs(self@, a) == app_secs(s, a) + (if a == kv.0 { secs as nat } else { 0 }) by {
                        lemma_total_update(s, i as int, e, app_share(a));
                    }
                    assert forall|k: KeyView| has_key(self@, k) <==> (has_key(s, k) || k == kv) by {
                        if has_key(s, k) {
                            let j = choose|j: int| 0 <= j < s.len() && (#[trigger] s[j]).0 == k;
                            assert(self@[j].0 == k);
                        }
                        if k == kv {
                            assert(self@[i as int].0 == k);
                        }
                        if has_key(self@, k) {
                            let j = choose|j: int| 0 <= j < self@.len() && (#[trigger] self@[j]).0 == k;
                            if j != i {
                                assert(s[j].0 == k);
                            }
                        }
                    }
                    assert(keys_distinct(self@));
                }
            },
            None => {
                proof {
                    lemma_key_secs_absent(s, kv);
                }
                self.entries.push((key, secs));
                proof {
                    let e = (kv, secs);
                    assert(self@ =~= s.push(e));
                    assert forall|k: KeyView| #[trigger] key_secs(self@, k) == key_secs(s, k) + (if k == kv { secs as nat } else { 0 }) by {
                        lemma_total_push(s, e, key_share(k));
                    }
                    assert forall|a: Seq<char>| #[trigger] app_secs(self@, a) == app_secs(s, a) + (if a == kv.0 { secs as nat } else { 0 }) by {
                        lemma_total_push(s, e, app_share(a));
                    }
                    assert forall|k: KeyView| has_key(self@, k) <==> (has_key(s, k) || k == kv) by {
                        if has_key(s, k) {
                            let j = choose|j: int| 0 <= j < s.len() && (#[trigger] s[j]).0 == k;
                            assert(self@[j].0 == k);
                        }
                        if k == kv {
                            assert(self@[s.len() as int].0 == k);
                        }
                        if has_key(self@, k) {
                            let j = choose|j: int| 0 <= j < self@.len() && (#[trigger] self@[j]).0 == k;
                            if j < s.len() {
                                assert(s[j].0 == k);
                            }
                        }
                    }
                    assert forall|a: int, b: int| 0 <= a < self@.len() && 0 <= b < self@.len() && a != b
                        implies (#[trigger] self@[a]).0 != (#[trigger] self@[b]).0 by {
                        if a == s.len() as int {
                            assert(s[b].0 != kv) by {
                                if s[b].0 == kv { assert(has_key(s, kv)); }
                            }
                        } else if b == s.len() as int {
                            assert(s[a].0 != kv) by {
                                if s[a].0 == kv { assert(has_key(s, kv)); }
                            }
                        }
                    }
                }
            },
        }
    }

    /// Sets the seconds of `key` to `secs`, adding the key if it is new.
    pub fn insert(&mut self, key: ActivityKey, secs: u64)
        requires
            old(self).inv(),
        ensures
            final(self).inv(),
            key_secs(final(self)@, key@) == secs,
            forall|k: KeyView| k != key@ ==> key_secs(final(self)@, k) == key_secs(old(self)@, k),
            forall|k: KeyView| has_key(final(self)@, k) <==> (has_key(old(self)@, k) || k == key@),
    {
        let ghost s = self@;
        let ghost kv = key@;
        match self.find(&key) {
            Some(i) => {
                self.entries.set(i, (key, secs));
                proof {
                    let e = (kv, secs);
                    assert(self@ =~= s.update(i as int, e));
                    assert forall|k: KeyView| k != kv implies #[trigger] key_secs(self@, k) == key_secs(s, k) by {
                        lemma_total_update(s, i as int, e, key_share(k));
                    }
                    assert forall|k: KeyView| has_key(self@, k) <==> (has_key(s, k) || k == kv) by {
                        if has_key(s, k) {
                            let j = choose|j: int| 0 <= j < s.len() && (#[trigger] s[j]).0 == k;
                            assert(self@[j].0 == k);
                        }
                        if k == kv {
                            assert(self@[i as int].0 == k);
                        }
                        if has_key(self@, k) {
                            let j = choose|j: int| 0 <= j < self@.len() && (#[trigger] self@[j]).0 == k;
                            if j != i {
                                assert(s[j].0 == k);
                            }
                        }
                    }
                    assert(keys_distinct(self@));
                    lemma_key_secs_at(self@, i as int);
                }
            },
            None => {
                self.entries.push((key, secs));
                proof {
                    let e = (kv, secs);
                    assert(self@ =~= s.push(e));
                    assert forall|k: KeyView| k != kv implies #[trigger] key_secs(self@, k) == key_secs(s, k) by {
                        lemma_total_push(s, e, key_share(k));
                    }
                    assert forall|k: KeyView| has_key(self@, k) <==> (has_key(s, k) || k == kv) by {
                        if has_key(s, k) {
                            let j = choose|j: int| 0 <= j < s.len() && (#[trigger] s[j]).0 == k;
                            assert(self@[j].0 == k);
                        }
                        if k == kv {
                            assert(self@[s.len() as int].0 == k);
                        }
                        if has_key(self@, k) {
                            let j = choose|j: int| 0 <= j < self@.len() && (#[trigger] self@[j]).0 == k;
                            if j < s.len() {
                                assert(s[j].0 == k);
                            }
                        }
                    }
                    assert forall|a: int, b: int| 0 <= a < self@.len() && 0 <= b < self@.len() && a != b
                        implies (#[trigger] self@[a]).0 != (#[trigger] self@[b]).0 by {
                        if a == s.len() as int {
                            assert(s[b].0 != kv) by {
                                if s[b].0 == kv { assert(has_key(s, kv)); }
                            }
                        } else if b == s.len() as int {
                            assert(s[a].0 != kv) by {
                                if s[a].0 == kv { assert(has_key(s, kv)); }
                            }
                        }
                    }
                    lemma_key_secs_at(self@, s.len() as int);
                }
            },
        }
    }

    /// Drops every key.
    pub fn clear(&mut self)
        ensures
            final(self).inv(),
            final(self)@.len() == 0,
    {
        self.entries.clear();
        assert(self@ =~= Seq::<EntryView>::empty());
    }

    /// Collects rows into a map; where a key repeats, the last row wins.
    pub fn from_rows(rows: &Vec<(ActivityKey, u64)>) -> (m: UsageMap)
        ensures
            m.inv(),
            forall|k: KeyView| has_key(m@, k) <==> has_key(entries_view(rows@), k),
            forall|k: KeyView| key_secs(m@, k) == last_secs(entries_view(rows@), k),
    {
        let ghost rv = entries_view(rows@);
        let mut m = UsageMap::new();
        let mut i: usize = 0;
        while i < rows.len()
            invariant
                i <= rows.len(),
                rv == entries_view(rows@),
                m.inv(),
                forall|k: KeyView| has_key(m@, k) <==> has_key(rv.take(i as int), k),
                forall|k: KeyView| key_secs(m@, k) == last_secs(rv.take(i as int), k),
            decreases rows.len() - i,
        {
            let key = rows[i].0.duplicate();
            let secs = rows[i].1;
            let ghost before = m@;
            m.insert(key, secs);
            proof {
                let p = rv.take(i as int);
                let q = rv.take(i + 1);
                assert(q.drop_last() =~= p);
                assert(q.last() == rv[i as int]);
                assert(rv[i as int] == (rows@[i as int].0@, secs));
                assert forall|k: KeyView| has_key(m@, k) <==> has_key(q, k) by {
                    if has_key(p, k) {
                        let j = choose|j: int| 0 <= j < p.len() && (#[trigger] p[j]).0 == k;
                        assert(q[j] == p[j]);
                    }
                    if has_key(q, k) {
                        let j = choose|j: int| 0 <= j < q.len() && (#[trigger] q[j]).0 == k;
                        if j < p.len() {
                            assert(q[j] == p[j]);
                        }
                    }
                    if k == rv[i as int].0 {
                        assert(q[i as int].0 == k);
                    }
                }
            }
            i = i + 1;
        }
        assert(rv.take(rows.len() as int) =~= rv);
        m
    }

    /// A snapshot of every (key, seconds) entry.
    pub fn entries(&self) -> (r: Vec<(ActivityKey, u64)>)
        ensures
            entries_view(r@) == self@,
    {
        let mut r: Vec<(ActivityKey, u64)> = Vec::new();
        let mut i: usize = 0;
        while i < self.entries.len()
            invariant
                i <= self.entries@.len(),
                self.entries@.len() == self@.len(),
                entries_view(r@) == self@.take(i as int),
            decreases self.entries.len() - i,
        {
            let k = self.entries[i].0.duplicate();
            let v = self.entries[i].1;
            let ghost before = r@;
            r.push((k, v));
            proof {
                assert(self@[i as int] == (self.entries@[i as int].0@, self.entries@[i as int].1));
                assert(r@ =~= before.push((k, v)));
                assert(entries_view(before.push((k, v))) =~= entries_view(before).push((k@, v)));
                assert(entries_view(r@) =~= self@.take(i + 1));
            }
            i = i + 1;
        }
        assert(self@.take(i as int) =~= self@);
        r
    }

    /// The (title, seconds) rows recorded under `app`.
    pub fn titles_for(&self, app: &str) -> (r: Vec<UsageRow>)
        ensures
            row_views(r@) == titles_of(self@, app@),
    {
        let mut r: Vec<UsageRow> = Vec::new();
        let target = String::from_str(app);
        let mut i: usize = 0;
        while i < self.entries.len()
            invariant
                i <= self.entries@.len(),
                self.entries@.len() == self@.len(),
                target@ == app@,
                row_views(r@) == titles_of(self@.take(i as int), app@),
            decreases self.entries.len() - i,
        {
            let e = &self.entries[i];
            proof {
                assert(self@.take(i + 1).drop_last() =~= self@.take(i as int));
                assert(self@[i as int] == (e.0@, e.1));
            }
            if e.0.app == target {
                let ghost before = r@;
                let row = UsageRow { name: e.0.title.clone(), secs: e.1 };
                r.push(row);
                assert(r@ =~= before.push(row));
                assert(row_views(before.push(row)) =~= row_views(before).push(row@));
                assert(row_views(r@) =~= titles_of(self@.take(i + 1), app@));
            } else {
                assert(row_views(r@) =~= titles_of(self@.take(i + 1), app@));
            }
            i = i + 1;
        }
        assert(self@.take(i as int) =~= self@);
        r
    }

    /// Per-app totals, or `None` when some app's total does not fit in `u64`.
    pub fn checked_app_totals(&self) -> (r: Option<Vec<UsageRow>>)
        ensures
            r is Some <==> forall|a: Seq<char>| #[trigger] app_secs(self@, a) <= u64::MAX,
            r matches Some(rows) ==> app_totals_of(self@, rows@),
    {
        let mut rows: Vec<UsageRow> = Vec::new();
        let mut k: usize = 0;
        while k < self.entries.len()
            invariant
                k <= self.entries@.len(),
                self.entries@.len() == self@.len(),
                app_totals_of(self@.take(k as int), rows@),
            decreases self.entries.len() - k,
        {
            let ghost p = self@.take(k as int);
            let ghost q = self@.take(k + 1);
            let e = &self.entries[k];
            proof {
                assert(q.drop_last() =~= p);
                assert(self@[k as int] == (e.0@, e.1));
                assert(q.last() == (e.0@, e.1));
                assert forall|a: Seq<char>| #[trigger] app_secs(q, a) == app_secs(p, a) + (if a == e.0.app@ { e.1 as nat } else { 0 }) by {
                    lemma_total_take_next(self@, k as int, app_share(a));
                }
                assert forall|a: Seq<char>| has_app(q, a) <==> (has_app(p, a) || a == e.0.app@) by {
                    if has_app(p, a) {
                        let j = choose|j: int| 0 <= j < p.len() && (#[trigger] p[j]).0.0 == a;
                        assert(q[j] == p[j]);
                    }
                    if has_app(q, a) {
                        let j = choose|j: int| 0 <= j < q.len() && (#[trigger] q[j]).0.0 == a;
                        if j < p.len() {
                            assert(q[j] == p[j]);
                        }
                    }
                    if a == e.0.app@ {
                        assert(q[k as int].0.0 == a);
                    }
                }
            }
            let mut j: usize = 0;
            while j < rows.len() && rows[j].name != e.0.app
                invariant
                    j <= rows@.len(),
                    forall|x: int| 0 <= x < j ==> (#[trigger] rows@[x]).name@ != e.0.app@,
                decreases rows.len() - j,
            {
                j = j + 1;
            }
            if j < rows.len() {
                let cur = rows[j].secs;
                match cur.checked_add(e.1) {
                    Some(total) => {
                        let ghost before = rows@;
                        let name = rows[j].name.clone();
                        rows.set(j, UsageRow { name, secs: total });
                        proof {
                            assert forall|x: int| 0 <= x < rows@.len() implies (#[trigger] rows@[x]).name@ == before[x].name@ by {}
                            assert forall|a: Seq<char>| has_app(q, a) <==> exists|x: int| 0 <= x < rows@.len() && (#[trigger] rows@[x]).name@ == a by {
                                if exists|x: int| 0 <= x < before.len() && (#[trigger] before[x]).name@ == a {
                                    let x = choose|x: int| 0 <= x < before.len() && (#[trigger] before[x]).name@ == a;
                                    assert(rows@[x].name@ == a);
                                }
                                if exists|x: int| 0 <= x < rows@.len() && (#[trigger] rows@[x]).name@ == a {
                                    let x = choose|x: int| 0 <= x < rows@.len() && (#[trigger] rows@[x]).name@ == a;
                                    assert(before[x].name@ == a);
                                }
                            }
                        }
                    },
                    None => {
                        proof {
                            lemma_total_take_le(self@, k + 1, app_share(e.0.app@));
                            assert(app_secs(self@, e.0.app@) > u64::MAX);
                        }
                        return None;
                    },
                }
            } else {
                proof {
                    if has_app(p, e.0.app@) {
                        let x = choose|x: int| 0 <= x < rows@.len() && (#[trigger] rows@[x]).name@ == e.0.app@;
                        assert(false);
                    }
                    lemma_app_secs_absent(p, e.0.app@);
                }
                let ghost before = rows@;
                rows.push(UsageRow { name: e.0.app.clone(), secs: e.1 });
                proof {
                    assert forall|a: Seq<char>| has_app(q, a) <==> exists|x: int| 0 <= x < rows@.len() && (#[trigger] rows@[x]).name@ == a by {
                        if exists|x: int| 0 <= x < before.len() && (#[trigger] before[x]).name@ == a {
                            let x = choose|x: int| 0 <= x < before.len() && (#[trigger] before[x]).name@ == a;
                            assert(rows@[x].name@ == a);
                        }
                        if a == e.0.app@ {
                            assert(rows@[before.len() as int].name@ == a);
                        }
                        if exists|x: int| 0 <= x < rows@.len() && (#[trigger] rows@[x]).name@ == a {
                            let x = choose|x: int| 0 <= x < rows@.len() && (#[trigger] rows@[x]).name@ == a;
                            if x < before.len() {
                                assert(before[x].name@ == a);
                            }
                        }
                    }
                }
            }
            k = k + 1;
        }
        proof {
            assert(self@.take(k as int) =~= self@);
            assert forall|a: Seq<char>| #[trigger] app_secs(self@, a) <= u64::MAX by {
                if has_app(self@, a) {
                    let x = choose|x: int| 0 <= x < rows@.len() && (#[trigger] rows@[x]).name@ == a;
                    assert(rows@[x].secs == app_secs(self@, a));
                } else {
                    lemma_app_secs_absent(self@, a);
                }
            }
        }
        Some(rows)
    }

    /// Per-app totals: one row per app, holding the seconds of all its titles.
    pub fn app_totals(&self) -> (rows: Vec<UsageRow>)
        requires
            forall|a: Seq<char>| #[trigger] app_secs(self@, a) <= u64::MAX,
        ensures
            app_totals_of(self@, rows@),
    {
        match self.checked_app_totals() {
            Some(rows) => rows,
            None => {
                assert(false);
                Vec::new()
            },
        }
    }
}

} // verus!
