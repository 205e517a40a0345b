use vstd::prelude::*;

use crate::model::{is_open, session_valid, Session};
use crate::time::{valid_timestamp, Timestamp, MAX_TIMESTAMP};

verus! {

/// How an open session is closed.
#[derive(Debug, Clone, Copy, PartialEq, Eq, Structural)]
pub enum SessionEnd {
    Stopped,
    Cancelled,
}

/// Seconds a session adds to its timebox's worked time, measured at `now`:
/// nothing when cancelled, otherwise from its start to its stop, or to `now` while open.
pub open spec fn contribution(s: Session, now: Timestamp) -> int {
    if s.cancelled_at is Some {
        0
    } else {
        match s.stopped_at {
            Some(end) => end - s.started_at,
            None => now - s.started_at,
        }
    }
}

/// Worked seconds of timebox `timebox_id`: the sum of the contributions of its sessions.
pub open spec fn worked_seconds(sessions: Seq<Session>, timebox_id: i64, now: Timestamp) -> int
    decreases sessions.len(),
{
    if sessions.len() == 0 {
        0
    } else {
        worked_seconds(sessions.drop_last(), timebox_id, now) + if sessions.last().timebox_id
            == timebox_id {
            contribution(sessions.last(), now)
        } else {
            0
        }
    }
}

/// The session closed at `now` in the given way.
pub open spec fn closed_session(s: Session, now: Timestamp, how: SessionEnd) -> Session {
    match how {
        SessionEnd::Stopped => Session { stopped_at: Some(now), ..s },
        SessionEnd::Cancelled => Session { cancelled_at: Some(now), ..s },
    }
}

/// Every open session of timebox `timebox_id` closed at `now`; all others unchanged.
pub open spec fn close_open_sessions(
    sessions: Seq<Session>,
    timebox_id: i64,
    now: Timestamp,
    how: SessionEnd,
) -> Seq<Session> {
    Seq::new(
        sessions.len(),
        |i: int|
            if sessions[i].timebox_id == timebox_id && is_open(sessions[i]) {
                closed_session(sessions[i], now, how)
            } else {
                sessions[i]
            },
    )
}

/// Some session of timebox `timebox_id` is open.
pub open spec fn has_open_session(sessions: Seq<Session>, timebox_id: i64) -> bool {
    exists|k: int| 0 <= k < sessions.len() && sessions[k].timebox_id == timebox_id && is_open(#[trigger] sessions[k])
}

proof fn lemma_contribution_bounded(s: Session, now: Timestamp)
    requires
        session_valid(s),
        valid_timestamp(now),
    ensures
        -MAX_TIMESTAMP <= contribution(s, now) <= MAX_TIMESTAMP,
{
}

/// Worked seconds of timebox `timebox_id` at `now`: the sum over its sessions that were not
/// cancelled of stop minus start, an open session counted up to `now`.
pub fn actual_duration(sessions: &Vec<Session>, timebox_id: i64, now: Timestamp) -> (r: i128)
    requires
        valid_timestamp(now),
        forall|i: int| 0 <= i < sessions@.len() ==> session_valid(#[trigger] sessions@[i]),
    ensures
        r == worked_seconds(sessions@, timebox_id, now),
{
    let mut acc: i128 = 0;
    let mut i: usize = 0;
    while i < sessions.len()
        invariant
            0 <= i <= sessions@.len(),
            valid_timestamp(now),
            forall|k: int| 0 <= k < sessions@.len() ==> session_valid(#[trigger] sessions@[k]),
            acc == worked_seconds(sessions@.take(i as int), timebox_id, now),
            -(i as int) * MAX_TIMESTAMP <= acc <= (i as int) * MAX_TIMESTAMP,
        decreases sessions@.len() - i,
    {
        let s = sessions[i];
        proof {
            lemma_contribution_bounded(s, now);
            assert(sessions@.take(i as int + 1).drop_last() =~= sessions@.take(i as int));
            assert((i as int) * MAX_TIMESTAMP <= 18446744073709551615 * MAX_TIMESTAMP)
                by (nonlinear_arith)
                requires
                    i <= 18446744073709551615,
                    MAX_TIMESTAMP > 0,
            ;
            assert((i as int + 1) * MAX_TIMESTAMP == (i as int) * MAX_TIMESTAMP + MAX_TIMESTAMP)
                by (nonlinear_arith);
        }
        if s.timebox_id == timebox_id && s.cancelled_at.is_none() {
            let end: i64 = match s.stopped_at {
                Some(e) => e,
                None => now,
            };
            acc = acc + (end as i128 - s.started_at as i128);
        }
        i = i + 1;
    }
    assert(sessions@.take(sessions@.len() as int) =~= sessions@);
    acc
}

/// Closes every open session of timebox `timebox_id` at `now`; with none open nothing changes.
pub fn close_sessions(sessions: &mut Vec<Session>, timebox_id: i64, now: Timestamp, how: SessionEnd)
    ensures
        final(sessions)@ == close_open_sessions(old(sessions)@, timebox_id, now, how),
{
    let ghost orig = sessions@;
    let mut i: usize = 0;
    while i < sessions.len()
        invariant
            0 <= i <= sessions@.len(),
            sessions@.len() == orig.len(),
            forall|k: int|
                0 <= k < i ==> #[trigger] sessions@[k] == close_open_sessions(
                    orig,
                    timebox_id,
                    now,
                    how,
                )[k],
            forall|k: int| i <= k < orig.len() ==> #[trigger] sessions@[k] == orig[k],
        decreases sessions@.len() - i,
    {
        let s = sessions[i];
        if s.timebox_id == timebox_id && s.stopped_at.is_none() && s.cancelled_at.is_none() {
            let c = match how {
                SessionEnd::Stopped => Session { stopped_at: Some(now), ..s },
                SessionEnd::Cancelled => Session { cancelled_at: Some(now), ..s },
            };
            sessions.set(i, c);
        }
        i = i + 1;
    }
    assert(sessions@ =~= close_open_sessions(orig, timebox_id, now, how));
}

/// Index of an open session of timebox `timebox_id`, if there is one.
pub fn find_open_session(sessions: &Vec<Session>, timebox_id: i64) -> (r: Option<usize>)
    ensures
        r matches Some(k) ==> k < sessions@.len() && sessions@[k as int].timebox_id == timebox_id
            && is_open(sessions@[k as int]),
        r is None ==> !has_open_session(sessions@, timebox_id),
{
    let mut i: usize = 0;
    while i < sessions.len()
        invariant
            0 <= i <= sessions@.len(),
            forall|k: int|
                0 <= k < i ==> !(sessions@[k].timebox_id == timebox_id && is_open(
                    #[trigger] sessions@[k],
                )),
        decreases sessions@.len() - i,
    {
        let s = sessions[i];
        if s.timebox_id == timebox_id && s.stopped_at.is_none() && s.cancelled_at.is_none() {
            return Some(i);
        }
        i = i + 1;
    }
    None
}

} // verus!
