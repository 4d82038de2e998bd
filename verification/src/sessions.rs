//! Sessions: the named contexts tracked time is filed under, and the choices
//! made about them (which one to start in, which one the HUD cycles to, which
//! can be archived, what a typed name becomes).

use vstd::prelude::*;
use vstd::string::*;
use crate::state::{SessionId, DEFAULT_SESSION_ID};
use crate::text::{trimmed, trim_text, parse_i64, parsed_i64, signed_decimal, signed_decimal_text};

verus! {

/// A session row: the named context tracked time is filed under.
#[derive(Clone, Debug, PartialEq, Eq)]
pub struct Session {
    pub id: SessionId,
    pub name: String,
    /// Archived sessions keep their time but drop out of the pickers.
    pub archived: bool,
}

/// The name the default session is shown under when no session matches.
pub const GENERAL: &'static str = "General";

/// The index of the first session with id `id`, if any.
pub open spec fn first_with_id(s: Seq<Session>, id: SessionId) -> Option<int>
    decreases s.len(),
{
    if s.len() == 0 {
        None
    } else {
        match first_with_id(s.drop_last(), id) {
            Some(i) => Some(i),
            None => if s.last().id == id { Some((s.len() - 1) as int) } else { None },
        }
    }
}

proof fn lemma_first_with_id(s: Seq<Session>, id: SessionId)
    ensures
        match first_with_id(s, id) {
            Some(i) => 0 <= i < s.len() && s[i].id == id && forall|j: int| 0 <= j < i ==> (#[trigger] s[j]).id != id,
            None => forall|j: int| 0 <= j < s.len() ==> (#[trigger] s[j]).id != id,
        },
    decreases s.len(),
{
    if s.len() > 0 {
        lemma_first_with_id(s.drop_last(), id);
        assert forall|j: int| 0 <= j < s.len() - 1 implies (#[trigger] s[j]) == s.drop_last()[j] by {}
    }
}

/// Where the first session with id `id` stands in `sessions`.
pub fn position_of(sessions: &Vec<Session>, id: SessionId) -> (r: Option<usize>)
    ensures
        match r {
            Some(i) => first_with_id(sessions@, id) == Some(i as int) && i < sessions@.len()
                && sessions@[i as int].id == id,
            None => first_with_id(sessions@, id) is None,
        },
{
    proof {
        lemma_first_with_id(sessions@, id);
    }
    let mut i: usize = 0;
    while i < sessions.len()
        invariant
            i <= sessions@.len(),
            forall|j: int| 0 <= j < i ==> (#[trigger] sessions@[j]).id != id,
        decreases sessions.len() - i,
    {
        if sessions[i].id == id {
            proof {
                lemma_first_with_id(sessions@, id);
                match first_with_id(sessions@, id) {
                    Some(k) => {
                        if k < i {
                        } else if k > i {
                            assert(sessions@[i as int].id != id);
                        }
                    },
                    None => {
                        assert(sessions@[i as int].id != id);
                    },
                }
            }
            return Some(i);
        }
        i = i + 1;
    }
    None
}

/// The name of the first session with id `id`, if any.
pub fn session_name_of(sessions: &Vec<Session>, id: SessionId) -> (r: Option<String>)
    ensures
        match first_with_id(sessions@, id) {
            Some(i) => r matches Some(n) && n@ == sessions@[i].name@,
            None => r is None,
        },
{
    match position_of(sessions, id) {
        Some(i) => Some(sessions[i].name.clone()),
        None => None,
    }
}

/// The name shown for the active session: its own, or "General" when the list
/// does not hold it.
pub fn active_session_name(sessions: &Vec<Session>, active: SessionId) -> (r: String)
    ensures
        match first_with_id(sessions@, active) {
            Some(i) => r@ == sessions@[i].name@,
            None => r@ == GENERAL@,
        },
{
    match session_name_of(sessions, active) {
        Some(n) => n,
        None => String::from_str(GENERAL),
    }
}

/// The session the HUD's pill cycles to: the one after the active session
/// (after the first when the active one is not listed), wrapping around; none
/// when fewer than two sessions are listed.
pub open spec fn next_session_spec(s: Seq<Session>, active: SessionId) -> Option<SessionId> {
    if s.len() < 2 {
        None
    } else {
        let idx = match first_with_id(s, active) {
            Some(i) => i,
            None => 0,
        };
        Some(s[(idx + 1) % (s.len() as int)].id)
    }
}

/// The session to cycle to from `active`.
pub fn next_session(sessions: &Vec<Session>, active: SessionId) -> (r: Option<SessionId>)
    ensures
        r == next_session_spec(sessions@, active),
        r is None <==> sessions@.len() < 2,
{
    if sessions.len() < 2 {
        return None;
    }
    let idx = match position_of(sessions, active) {
        Some(i) => i,
        None => 0,
    };
    proof {
        lemma_first_with_id(sessions@, active);
    }
    Some(sessions[(idx + 1) % sessions.len()].id)
}

/// The HUD's pill cycles through every listed session: it stays put only when
/// fewer than two are listed; otherwise it moves to the session right after
/// the active one's first listing, wrapping from the last to the first, and to
/// the second session when the active one is not listed.
pub proof fn lemma_pill_cycles(s: Seq<Session>, active: SessionId)
    ensures
        next_session_spec(s, active) is None <==> s.len() < 2,
        forall|i: int| #![trigger s[i]]
            s.len() >= 2 && 0 <= i < s.len() && s[i].id == active
                && (forall|j: int| 0 <= j < i ==> (#[trigger] s[j]).id != active)
            ==> next_session_spec(s, active) == Some(if i + 1 < s.len() { s[i + 1].id } else { s[0].id }),
        s.len() >= 2 && (forall|j: int| 0 <= j < s.len() ==> (#[trigger] s[j]).id != active)
            ==> next_session_spec(s, active) == Some(s[1].id),
{
    lemma_first_with_id(s, active);
    assert forall|i: int| #![trigger s[i]]
        s.len() >= 2 && 0 <= i < s.len() && s[i].id == active
            && (forall|j: int| 0 <= j < i ==> (#[trigger] s[j]).id != active)
        implies next_session_spec(s, active) == Some(if i + 1 < s.len() { s[i + 1].id } else { s[0].id }) by {
        match first_with_id(s, active) {
            Some(f) => {
                if f < i {
                    assert(s[f].id == active);
                } else if f > i {
                    assert(s[i].id != active);
                }
                assert(f == i);
                if i + 1 < s.len() {
                    vstd::arithmetic::div_mod::lemma_small_mod((i + 1) as nat, s.len());
                } else {
                    vstd::arithmetic::div_mod::lemma_mod_self_0(s.len() as int);
                }
            },
            None => {
                assert(s[i].id != active);
            },
        }
    }
    if s.len() >= 2 {
        vstd::arithmetic::div_mod::lemma_small_mod(1, s.len());
    }
}

/// Whether a session may be archived: not the active one (switch away first)
/// and not the default one (the permanent fallback).
pub fn can_archive(id: SessionId, active: SessionId) -> (b: bool)
    ensures
        b == (id != active && id != DEFAULT_SESSION_ID),
{
    id != active && id != DEFAULT_SESSION_ID
}

/// The sessions of `s` whose archived flag is `archived`, in order.
pub open spec fn with_archived(s: Seq<Session>, archived: bool) -> Seq<Session>
    decreases s.len(),
{
    if s.len() == 0 {
        Seq::empty()
    } else if s.last().archived == archived {
        with_archived(s.drop_last(), archived).push(s.last())
    } else {
        with_archived(s.drop_last(), archived)
    }
}

/// Splits sessions into the live ones and the archived ones, keeping order.
pub fn partition_sessions(sessions: Vec<Session>) -> (r: (Vec<Session>, Vec<Session>))
    ensures
        r.0@ == with_archived(sessions@, false),
        r.1@ == with_archived(sessions@, true),
{
    let mut live: Vec<Session> = Vec::new();
    let mut archived: Vec<Session> = Vec::new();
    let mut k: usize = 0;
    while k < sessions.len()
        invariant
            k <= sessions@.len(),
            live@ == with_archived(sessions@.take(k as int), false),
            archived@ == with_archived(sessions@.take(k as int), true),
        decreases sessions.len() - k,
    {
        assert(sessions@.take(k + 1).drop_last() =~= sessions@.take(k as int));
        let s = &sessions[k];
        let copy = Session { id: s.id, name: s.name.clone(), archived: s.archived };
        assert(copy == sessions@[k as int]);
        if s.archived {
            archived.push(copy);
        } else {
            live.push(copy);
        }
        k = k + 1;
    }
    assert(sessions@.take(k as int) =~= sessions@);
    (live, archived)
}

/// A typed session name as it is stored: trimmed of surrounding white space;
/// none when nothing is left.
pub fn session_name_input(input: &str) -> (r: Option<String>)
    ensures
        trimmed(input@).len() == 0 ==> r is None,
        trimmed(input@).len() > 0 ==> (r matches Some(n) && n@ == trimmed(input@)),
{
    let t = trim_text(input);
    if t.as_str().is_empty() {
        None
    } else {
        Some(t)
    }
}

/// Which session to start in on launch.
#[derive(Debug, Clone, PartialEq, Eq)]
pub enum StartChoice {
    /// A blank default name: continue the session last used.
    ContinueLast,
    /// Use the session with this name, created if it does not exist yet.
    Named(String),
}

/// Decides how to start from the configured default session name: blank
/// (after trimming) continues the last session, otherwise the trimmed name.
pub fn start_choice(default_name: &str) -> (r: StartChoice)
    ensures
        trimmed(default_name@).len() == 0 ==> r == StartChoice::ContinueLast,
        trimmed(default_name@).len() > 0 ==> (r matches StartChoice::Named(n) && n@ == trimmed(default_name@)),
{
    match session_name_input(default_name) {
        Some(n) => StartChoice::Named(n),
        None => StartChoice::ContinueLast,
    }
}

/// The session id stored under the active-session key, when it reads as an
/// integer.
pub fn stored_session_id(stored: Option<&str>) -> (r: Option<SessionId>)
    ensures
        match stored {
            Some(s) => r == parsed_i64(s@),
            None => r is None,
        },
{
    match stored {
        Some(s) => parse_i64(s),
        None => None,
    }
}

/// The last active session: the stored one when it still exists, else the
/// default session.
pub fn last_active_session(stored: Option<SessionId>, stored_exists: bool) -> (r: SessionId)
    ensures
        r == (match stored {
            Some(id) => if stored_exists { id } else { DEFAULT_SESSION_ID },
            None => DEFAULT_SESSION_ID,
        }),
{
    match stored {
        Some(id) => if stored_exists { id } else { DEFAULT_SESSION_ID },
        None => DEFAULT_SESSION_ID,
    }
}

/// The text a session id is stored as under the active-session key: its
/// decimal form.
pub fn session_id_text(id: SessionId) -> (s: String)
    ensures
        s@ == signed_decimal(id as int),
{
    signed_decimal_text(id)
}

} // verus!
