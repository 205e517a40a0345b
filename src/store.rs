use vstd::prelude::*;

use crate::error::TimeboxError;
use crate::ledger::{close_open_sessions, close_sessions, find_open_session, has_open_session, SessionEnd};
use crate::lifecycle::{
    change_entry, closed_timebox, create_request_valid, created, is_active, last_order, marked,
    opened_session, reordered, same_optional_text, session_end_of, started, update_changes,
    update_request_valid, updated, Closing, Marker,
};
use crate::ledger::closed_session;
use crate::model::{
    change_valid, copy_text, is_open, session_valid, timebox_valid, CreateTimeboxRequest,
    ReorderTimeboxRequest, Session, Timebox, TimeboxChangeLog, UpdateTimeboxRequest,
};
use crate::status::TimeboxStatus;
use crate::time::{valid_timestamp, Timestamp};

verus! {

/// The aggregate of all timeboxes with the sessions and change entries they own.
/// Rows are never removed: deletion is a tombstone timestamp.
pub struct TimeboxStore {
    pub timeboxes: Vec<Timebox>,
    pub sessions: Vec<Session>,
    pub change_log: Vec<TimeboxChangeLog>,
    /// The identifier the next created timebox receives.
    pub next_timebox_id: i64,
    /// The identifier the next opened session receives.
    pub next_session_id: i64,
    /// The identifier the next change entry receives.
    pub next_change_id: i64,
}

/// Some timebox carries identifier `id`.
pub open spec fn owns(tbs: Seq<Timebox>, id: i64) -> bool {
    exists|k: int| 0 <= k < tbs.len() && #[trigger] tbs[k].id == id
}

/// Timeboxes are well formed and carry distinct identifiers below `next_id`.
pub open spec fn timeboxes_wf(tbs: Seq<Timebox>, next_id: i64) -> bool {
    &&& forall|i: int| 0 <= i < tbs.len() ==> timebox_valid(#[trigger] tbs[i]) && tbs[i].id < next_id
    &&& forall|i: int, j: int|
        #![trigger tbs[i], tbs[j]]
        0 <= i < tbs.len() && 0 <= j < tbs.len() && i != j ==> tbs[i].id != tbs[j].id
}

/// No timebox has two open sessions.
pub open spec fn single_open_session(ss: Seq<Session>) -> bool {
    forall|i: int, j: int|
        #![trigger ss[i], ss[j]]
        0 <= i < ss.len() && 0 <= j < ss.len() && i != j && is_open(ss[i]) && is_open(ss[j])
            ==> ss[i].timebox_id != ss[j].timebox_id
}

/// Sessions are well formed, owned by a stored timebox, carry distinct identifiers below
/// `next_id`, and at most one per timebox is open.
pub open spec fn sessions_wf(ss: Seq<Session>, tbs: Seq<Timebox>, next_id: i64) -> bool {
    &&& forall|i: int|
        0 <= i < ss.len() ==> session_valid(#[trigger] ss[i]) && ss[i].id < next_id && owns(
            tbs,
            ss[i].timebox_id,
        )
    &&& forall|i: int, j: int|
        #![trigger ss[i], ss[j]]
        0 <= i < ss.len() && 0 <= j < ss.len() && i != j ==> ss[i].id != ss[j].id
    &&& single_open_session(ss)
}

/// Change entries are well formed, owned by a stored timebox, and carry distinct identifiers
/// below `next_id`.
pub open spec fn changes_wf(cl: Seq<TimeboxChangeLog>, tbs: Seq<Timebox>, next_id: i64) -> bool {
    &&& forall|i: int|
        0 <= i < cl.len() ==> change_valid(#[trigger] cl[i]) && cl[i].id < next_id && owns(
            tbs,
            cl[i].timebox_id,
        )
    &&& forall|i: int, j: int|
        #![trigger cl[i], cl[j]]
        0 <= i < cl.len() && 0 <= j < cl.len() && i != j ==> cl[i].id != cl[j].id
}

/// Replacing a timebox by one with the same identifier keeps every owner.
proof fn lemma_owns_after_update(tbs: Seq<Timebox>, i: int, t: Timebox, id: i64)
    requires
        0 <= i < tbs.len(),
        t.id == tbs[i].id,
        owns(tbs, id),
    ensures
        owns(tbs.update(i, t), id),
{
    let k = choose|k: int| 0 <= k < tbs.len() && #[trigger] tbs[k].id == id;
    assert(tbs.update(i, t)[k].id == id);
}

/// Appending a timebox keeps every owner.
proof fn lemma_owns_after_push(tbs: Seq<Timebox>, t: Timebox, id: i64)
    requires
        owns(tbs, id),
    ensures
        owns(tbs.push(t), id),
{
    let k = choose|k: int| 0 <= k < tbs.len() && #[trigger] tbs[k].id == id;
    assert(tbs.push(t)[k].id == id);
}

/// Replacing a timebox by a valid one with the same identifier keeps the store well formed.
proof fn lemma_wf_after_replace(s: TimeboxStore, tbs2: Seq<Timebox>, i: int, t: Timebox)
    requires
        s.wf(),
        0 <= i < s.timeboxes@.len(),
        t.id == s.timeboxes@[i].id,
        timebox_valid(t),
        tbs2 == s.timeboxes@.update(i, t),
    ensures
        timeboxes_wf(tbs2, s.next_timebox_id),
        sessions_wf(s.sessions@, tbs2, s.next_session_id),
        changes_wf(s.change_log@, tbs2, s.next_change_id),
        forall|id: i64| owns(s.timeboxes@, id) ==> owns(tbs2, id),
{
    let tbs = s.timeboxes@;
    assert forall|id: i64| owns(tbs, id) implies owns(tbs2, id) by {
        lemma_owns_after_update(tbs, i, t, id);
    }
    assert forall|a: int, b: int|
        #![trigger tbs2[a], tbs2[b]]
        0 <= a < tbs2.len() && 0 <= b < tbs2.len() && a != b implies tbs2[a].id != tbs2[b].id by {
        assert(tbs[a].id != tbs[b].id);
    }
}

impl TimeboxStore {
    /// The store's invariant.
    pub open spec fn wf(&self) -> bool {
        &&& 1 <= self.next_timebox_id
        &&& 1 <= self.next_session_id
        &&& 1 <= self.next_change_id
        &&& timeboxes_wf(self.timeboxes@, self.next_timebox_id)
        &&& sessions_wf(self.sessions@, self.timeboxes@, self.next_session_id)
        &&& changes_wf(self.change_log@, self.timeboxes@, self.next_change_id)
    }

    /// Timebox `i` carries `id` and is not soft-deleted.
    pub open spec fn is_live_at(&self, i: int, id: i64) -> bool {
        &&& 0 <= i < self.timeboxes@.len()
        &&& self.timeboxes@[i].id == id
        &&& self.timeboxes@[i].deleted_at is None
    }

    /// A timebox with `id` exists and is not soft-deleted.
    pub open spec fn has_live(&self, id: i64) -> bool {
        exists|i: int| #[trigger] self.is_live_at(i, id)
    }

    /// An empty store.
    pub fn new() -> (r: TimeboxStore)
        ensures
            r.wf(),
            r.timeboxes@.len() == 0,
            r.sessions@.len() == 0,
            r.change_log@.len() == 0,
            r.next_timebox_id == 1,
            r.next_session_id == 1,
            r.next_change_id == 1,
    {
        TimeboxStore {
            timeboxes: Vec::new(),
            sessions: Vec::new(),
            change_log: Vec::new(),
            next_timebox_id: 1,
            next_session_id: 1,
            next_change_id: 1,
        }
    }

    /// Index of the live timebox with `id`, if there is one.
    pub fn find_live(&self, id: i64) -> (r: Option<usize>)
        requires
            self.wf(),
        ensures
            r matches Some(i) ==> self.is_live_at(i as int, id),
            r is None ==> !self.has_live(id),
    {
        let mut i: usize = 0;
        while i < self.timeboxes.len()
            invariant
                0 <= i <= self.timeboxes@.len(),
                forall|k: int| 0 <= k < i ==> !#[trigger] self.is_live_at(k, id),
            decreases self.timeboxes@.len() - i,
        {
            if self.timeboxes[i].id == id && self.timeboxes[i].deleted_at.is_none() {
                return Some(i);
            }
            i = i + 1;
        }
        None
    }
}

/// Creates a timebox in `not_started` with no sessions, under the next free identifier.
pub fn create_timebox(
    store: &mut TimeboxStore,
    request: CreateTimeboxRequest,
    now: Timestamp,
) -> (r: Result<Timebox, TimeboxError>)
    requires
        old(store).wf(),
        valid_timestamp(now),
    ensures
        final(store).wf(),
        !create_request_valid(request) ==> r == Err::<Timebox, TimeboxError>(
            TimeboxError::Validation,
        ) && *final(store) == *old(store),
        create_request_valid(request) && old(store).next_timebox_id == i64::MAX ==> r == Err::<
            Timebox,
            TimeboxError,
        >(TimeboxError::Storage) && *final(store) == *old(store),
        create_request_valid(request) && old(store).next_timebox_id < i64::MAX ==> {
            let t = created(old(store).next_timebox_id, request, now);
            &&& r == Ok::<Timebox, TimeboxError>(t)
            &&& final(store).timeboxes@ == old(store).timeboxes@.push(t)
            &&& final(store).next_timebox_id == old(store).next_timebox_id + 1
            &&& final(store).sessions == old(store).sessions
            &&& final(store).change_log == old(store).change_log
            &&& final(store).next_session_id == old(store).next_session_id
            &&& final(store).next_change_id == old(store).next_change_id
        },
{
    if request.intention.unicode_len() == 0 || request.intended_duration <= 0 {
        return Err(TimeboxError::Validation);
    }
    if store.next_timebox_id == i64::MAX {
        return Err(TimeboxError::Storage);
    }
    let id = store.next_timebox_id;
    let t = Timebox {
        id,
        intention: request.intention,
        notes: request.notes,
        intended_duration: request.intended_duration,
        status: TimeboxStatus::NotStarted,
        created_at: now,
        updated_at: now,
        started_at: None,
        completed_at: None,
        after_time_stopped_at: None,
        deleted_at: None,
        canceled_at: None,
        display_order: None,
        archived_at: None,
        finished_at: None,
        linear_project_id: request.linear_project_id,
        linear_issue_id: None,
        linear_issue_url: None,
    };
    let result = t.duplicate();
    let ghost tbs = store.timeboxes@;
    store.timeboxes.push(t);
    store.next_timebox_id = id + 1;
    proof {
        let tbs2 = store.timeboxes@;
        assert forall|x: i64| owns(tbs, x) implies owns(tbs2, x) by {
            lemma_owns_after_push(tbs, tbs2.last(), x);
        }
    }
    Ok(result)
}

/// What `start` does: `NotFound` for no live timebox with `id`, `Conflict` while it has an
/// open session, `Storage` when session identifiers are exhausted, each with nothing changed;
/// otherwise the timebox takes its started form and a new session is opened at `now`.
pub open spec fn start_outcome(
    s0: TimeboxStore,
    s1: TimeboxStore,
    id: i64,
    now: Timestamp,
    r: Result<Timebox, TimeboxError>,
) -> bool {
    &&& !s0.has_live(id) ==> r == Err::<Timebox, TimeboxError>(TimeboxError::NotFound) && s1 == s0
    &&& s0.has_live(id) && has_open_session(s0.sessions@, id) ==> r == Err::<
        Timebox,
        TimeboxError,
    >(TimeboxError::Conflict) && s1 == s0
    &&& s0.has_live(id) && !has_open_session(s0.sessions@, id) && s0.next_session_id == i64::MAX
        ==> r == Err::<Timebox, TimeboxError>(TimeboxError::Storage) && s1 == s0
    &&& forall|i: int|
        s0.is_live_at(i, id) && !has_open_session(s0.sessions@, id) && s0.next_session_id
            < i64::MAX ==> {
            let t = started(s0.timeboxes@[i], now);
            &&& r == Ok::<Timebox, TimeboxError>(t)
            &&& s1.timeboxes@ == s0.timeboxes@.update(i, t)
            &&& s1.sessions@ == s0.sessions@.push(opened_session(s0.next_session_id, id, now))
            &&& s1.next_session_id == s0.next_session_id + 1
            &&& s1.change_log == s0.change_log
            &&& s1.next_timebox_id == s0.next_timebox_id
            &&& s1.next_change_id == s0.next_change_id
        }
}

/// Starts or resumes timebox `id`: the first start time is kept, the completion marker
/// cleared, the status set to `in_progress`, and a new session opened at `now`.
pub fn start_timebox(store: &mut TimeboxStore, id: i64, now: Timestamp) -> (r: Result<
    Timebox,
    TimeboxError,
>)
    requires
        old(store).wf(),
        valid_timestamp(now),
    ensures
        final(store).wf(),
        start_outcome(*old(store), *final(store), id, now, r),
{
    let i = match store.find_live(id) {
        Some(i) => i,
        None => return Err(TimeboxError::NotFound),
    };
    if find_open_session(&store.sessions, id).is_some() {
        return Err(TimeboxError::Conflict);
    }
    if store.next_session_id == i64::MAX {
        return Err(TimeboxError::Storage);
    }
    let old_t = store.timeboxes[i].duplicate();
    let first = match old_t.started_at {
        Some(s) => Some(s),
        None => Some(now),
    };
    let t = Timebox {
        status: TimeboxStatus::InProgress,
        started_at: first,
        completed_at: None,
        updated_at: now,
        ..old_t
    };
    let result = t.duplicate();
    let ghost s0 = *store;
    proof {
        lemma_wf_after_replace(s0, s0.timeboxes@.update(i as int, t), i as int, t);
    }
    store.timeboxes.set(i, t);
    let sid = store.next_session_id;
    store.sessions.push(Session {
        id: sid,
        timebox_id: id,
        started_at: now,
        stopped_at: None,
        cancelled_at: None,
    });
    store.next_session_id = sid + 1;
    proof {
        let tbs2 = store.timeboxes@;
        let ss = store.sessions@;
        assert(tbs2[i as int].id == id);
        assert(owns(tbs2, id));
        assert forall|a: int, b: int|
            #![trigger ss[a], ss[b]]
            0 <= a < ss.len() && 0 <= b < ss.len() && a != b && is_open(ss[a]) && is_open(
                ss[b],
            ) implies ss[a].timebox_id != ss[b].timebox_id by {
            if a == ss.len() - 1 {
                assert(s0.sessions@[b] == ss[b]);
            } else if b == ss.len() - 1 {
                assert(s0.sessions@[a] == ss[a]);
            }
        }
    }
    Ok(result)
}

/// Shared body of the transitions that end an interval of work: closes the open sessions of
/// timebox `id` in the way `kind` asks and sets its status and markers.
fn close_timebox(store: &mut TimeboxStore, id: i64, now: Timestamp, kind: Closing) -> (r: Result<
    Timebox,
    TimeboxError,
>)
    requires
        old(store).wf(),
        valid_timestamp(now),
    ensures
        final(store).wf(),
        closing_outcome(*old(store), *final(store), id, now, kind, r),
{
    let i = match store.find_live(id) {
        Some(i) => i,
        None => return Err(TimeboxError::NotFound),
    };
    let old_t = store.timeboxes[i].duplicate();
    let t = match kind {
        Closing::Pause => Timebox { status: TimeboxStatus::Paused, updated_at: now, ..old_t },
        Closing::Stop => Timebox {
            status: TimeboxStatus::Stopped,
            completed_at: Some(now),
            updated_at: now,
            ..old_t
        },
        Closing::Finish => Timebox {
            status: TimeboxStatus::Completed,
            finished_at: Some(now),
            completed_at: Some(now),
            updated_at: now,
            ..old_t
        },
        Closing::StopAfterTime => Timebox {
            status: TimeboxStatus::Completed,
            after_time_stopped_at: Some(now),
            completed_at: Some(now),
            updated_at: now,
            ..old_t
        },
        Closing::Cancel => Timebox {
            status: TimeboxStatus::Cancelled,
            canceled_at: Some(now),
            updated_at: now,
            ..old_t
        },
    };
    let how = match kind {
        Closing::Cancel => SessionEnd::Cancelled,
        _ => SessionEnd::Stopped,
    };
    let result = t.duplicate();
    let ghost s0 = *store;
    proof {
        lemma_wf_after_replace(s0, s0.timeboxes@.update(i as int, t), i as int, t);
    }
    store.timeboxes.set(i, t);
    close_sessions(&mut store.sessions, id, now, how);
    proof {
        let ss0 = s0.sessions@;
        let ss = store.sessions@;
        assert forall|a: int, b: int|
            #![trigger ss[a], ss[b]]
            0 <= a < ss.len() && 0 <= b < ss.len() && a != b implies ss[a].id != ss[b].id by {
            assert(ss0[a].id != ss0[b].id);
        }
        assert forall|a: int, b: int|
            #![trigger ss[a], ss[b]]
            0 <= a < ss.len() && 0 <= b < ss.len() && a != b && is_open(ss[a]) && is_open(
                ss[b],
            ) implies ss[a].timebox_id != ss[b].timebox_id by {
            assert(is_open(ss0[a]) && is_open(ss0[b]));
        }
        assert forall|a: int| 0 <= a < ss.len() implies session_valid(#[trigger] ss[a])
            && ss[a].id < store.next_session_id && owns(store.timeboxes@, ss[a].timebox_id) by {
            assert(session_valid(ss0[a]));
        }
    }
    Ok(result)
}

/// The closing transition `kind` applied to the live timebox at index `i`: it is replaced by its
/// closed form and returned, and its open sessions are closed.
pub open spec fn closing_applied(
    s0: TimeboxStore,
    s1: TimeboxStore,
    i: int,
    id: i64,
    now: Timestamp,
    kind: Closing,
    r: Result<Timebox, TimeboxError>,
) -> bool {
    let t = closed_timebox(s0.timeboxes@[i], now, kind);
    &&& r == Ok::<Timebox, TimeboxError>(t)
    &&& s1.timeboxes@ == s0.timeboxes@.update(i, t)
    &&& s1.sessions@ == close_open_sessions(s0.sessions@, id, now, session_end_of(kind))
    &&& s1.change_log == s0.change_log
    &&& s1.next_timebox_id == s0.next_timebox_id
    &&& s1.next_session_id == s0.next_session_id
    &&& s1.next_change_id == s0.next_change_id
}

/// What a closing transition does: `NotFound` with nothing changed when no live timebox has
/// `id`; otherwise the transition is applied to it.
pub open spec fn closing_outcome(
    s0: TimeboxStore,
    s1: TimeboxStore,
    id: i64,
    now: Timestamp,
    kind: Closing,
    r: Result<Timebox, TimeboxError>,
) -> bool {
    &&& !s0.has_live(id) ==> r == Err::<Timebox, TimeboxError>(TimeboxError::NotFound) && s1 == s0
    &&& forall|i: int| s0.is_live_at(i, id) ==> closing_applied(s0, s1, i, id, now, kind, r)
}

/// What `pause` does: `NotFound` with nothing changed unless an active timebox has `id`;
/// otherwise its open session is stopped and its status set to `paused`.
pub open spec fn pause_outcome(
    s0: TimeboxStore,
    s1: TimeboxStore,
    id: i64,
    now: Timestamp,
    r: Result<Timebox, TimeboxError>,
) -> bool {
    &&& !s0.has_live(id) ==> r == Err::<Timebox, TimeboxError>(TimeboxError::NotFound) && s1 == s0
    &&& forall|i: int|
        s0.is_live_at(i, id) ==> if is_active(s0.timeboxes@[i]) {
            closing_applied(s0, s1, i, id, now, Closing::Pause, r)
        } else {
            r == Err::<Timebox, TimeboxError>(TimeboxError::NotFound) && s1 == s0
        }
}

/// In a well-formed store at most one index holds a live timebox with a given identifier.
proof fn lemma_live_index_unique(s: TimeboxStore, i: int, j: int, id: i64)
    requires
        s.wf(),
        s.is_live_at(i, id),
        s.is_live_at(j, id),
    ensures
        i == j,
{
    if i != j {
        assert(s.timeboxes@[i].id != s.timeboxes@[j].id);
    }
}

fn timebox_is_active(t: &Timebox) -> (r: bool)
    ensures
        r == is_active(*t),
{
    t.started_at.is_some() && t.completed_at.is_none() && t.after_time_stopped_at.is_none()
        && t.canceled_at.is_none() && t.deleted_at.is_none()
}

/// Pauses active timebox `id`: its open session is stopped at `now`, its status set to
/// `paused`. A timebox that was never started, or is completed, expired or cancelled, cannot be
/// paused.
pub fn pause_timebox(store: &mut TimeboxStore, id: i64, now: Timestamp) -> (r: Result<
    Timebox,
    TimeboxError,
>)
    requires
        old(store).wf(),
        valid_timestamp(now),
    ensures
        final(store).wf(),
        pause_outcome(*old(store), *final(store), id, now, r),
{
    let ghost s0 = *store;
    let i = match store.find_live(id) {
        Some(i) => i,
        None => return Err(TimeboxError::NotFound),
    };
    proof {
        assert forall|j: int| s0.is_live_at(j, id) implies j == i by {
            lemma_live_index_unique(s0, i as int, j, id);
        }
    }
    if !timebox_is_active(&store.timeboxes[i]) {
        return Err(TimeboxError::NotFound);
    }
    close_timebox(store, id, now, Closing::Pause)
}

/// Stops timebox `id` by hand: its open session is stopped, `completed_at` set to `now`,
/// status `stopped`.
pub fn stop_timebox(store: &mut TimeboxStore, id: i64, now: Timestamp) -> (r: Result<
    Timebox,
    TimeboxError,
>)
    requires
        old(store).wf(),
        valid_timestamp(now),
    ensures
        final(store).wf(),
        closing_outcome(*old(store), *final(store), id, now, Closing::Stop, r),
{
    close_timebox(store, id, now, Closing::Stop)
}

/// Finishes timebox `id` on the user's word: its open session is stopped, `finished_at` and
/// `completed_at` set to `now`, status `completed`.
pub fn finish_timebox(store: &mut TimeboxStore, id: i64, now: Timestamp) -> (r: Result<
    Timebox,
    TimeboxError,
>)
    requires
        old(store).wf(),
        valid_timestamp(now),
    ensures
        final(store).wf(),
        closing_outcome(*old(store), *final(store), id, now, Closing::Finish, r),
{
    close_timebox(store, id, now, Closing::Finish)
}

/// Ends timebox `id` because its time ran out: its open session is stopped,
/// `after_time_stopped_at` and `completed_at` set to `now`, status `completed`.
pub fn stop_timebox_after_time(store: &mut TimeboxStore, id: i64, now: Timestamp) -> (r: Result<
    Timebox,
    TimeboxError,
>)
    requires
        old(store).wf(),
        valid_timestamp(now),
    ensures
        final(store).wf(),
        closing_outcome(*old(store), *final(store), id, now, Closing::StopAfterTime, r),
{
    close_timebox(store, id, now, Closing::StopAfterTime)
}

/// Cancels timebox `id`: its open session is cancelled (not stopped), `canceled_at` set to
/// `now`, status `cancelled`.
pub fn cancel_timebox(store: &mut TimeboxStore, id: i64, now: Timestamp) -> (r: Result<
    Timebox,
    TimeboxError,
>)
    requires
        old(store).wf(),
        valid_timestamp(now),
    ensures
        final(store).wf(),
        closing_outcome(*old(store), *final(store), id, now, Closing::Cancel, r),
{
    close_timebox(store, id, now, Closing::Cancel)
}

/// What a marker transition does: `NotFound` with nothing changed when no live timebox has
/// `id`; otherwise only that timebox changes, to its marked form, which is returned.
pub open spec fn marker_outcome(
    s0: TimeboxStore,
    s1: TimeboxStore,
    id: i64,
    now: Timestamp,
    marker: Marker,
    r: Result<Timebox, TimeboxError>,
) -> bool {
    &&& !s0.has_live(id) ==> r == Err::<Timebox, TimeboxError>(TimeboxError::NotFound) && s1 == s0
    &&& forall|i: int|
        s0.is_live_at(i, id) ==> {
            let t = marked(s0.timeboxes@[i], now, marker);
            &&& r == Ok::<Timebox, TimeboxError>(t)
            &&& s1.timeboxes@ == s0.timeboxes@.update(i, t)
            &&& s1.sessions == s0.sessions
            &&& s1.change_log == s0.change_log
            &&& s1.next_timebox_id == s0.next_timebox_id
            &&& s1.next_session_id == s0.next_session_id
            &&& s1.next_change_id == s0.next_change_id
        }
}

/// Shared body of the marker transitions.
fn mark_timebox(store: &mut TimeboxStore, id: i64, now: Timestamp, marker: Marker) -> (r: Result<
    Timebox,
    TimeboxError,
>)
    requires
        old(store).wf(),
        valid_timestamp(now),
    ensures
        final(store).wf(),
        marker_outcome(*old(store), *final(store), id, now, marker, r),
{
    let i = match store.find_live(id) {
        Some(i) => i,
        None => return Err(TimeboxError::NotFound),
    };
    let old_t = store.timeboxes[i].duplicate();
    let t = match marker {
        Marker::Delete => Timebox { deleted_at: Some(now), updated_at: now, ..old_t },
        Marker::Archive => Timebox { archived_at: Some(now), updated_at: now, ..old_t },
        Marker::Unarchive => Timebox { archived_at: None, updated_at: now, ..old_t },
    };
    let result = t.duplicate();
    let ghost s0 = *store;
    proof {
        lemma_wf_after_replace(s0, s0.timeboxes@.update(i as int, t), i as int, t);
    }
    store.timeboxes.set(i, t);
    Ok(result)
}

/// Soft-deletes timebox `id`: sets `deleted_at` to `now`; status and sessions are untouched.
pub fn delete_timebox(store: &mut TimeboxStore, id: i64, now: Timestamp) -> (r: Result<
    Timebox,
    TimeboxError,
>)
    requires
        old(store).wf(),
        valid_timestamp(now),
    ensures
        final(store).wf(),
        marker_outcome(*old(store), *final(store), id, now, Marker::Delete, r),
{
    mark_timebox(store, id, now, Marker::Delete)
}

/// Archives timebox `id`: sets `archived_at` to `now`.
pub fn archive_timebox(store: &mut TimeboxStore, id: i64, now: Timestamp) -> (r: Result<
    Timebox,
    TimeboxError,
>)
    requires
        old(store).wf(),
        valid_timestamp(now),
    ensures
        final(store).wf(),
        marker_outcome(*old(store), *final(store), id, now, Marker::Archive, r),
{
    mark_timebox(store, id, now, Marker::Archive)
}

/// Unarchives timebox `id`: clears `archived_at`.
pub fn unarchive_timebox(store: &mut TimeboxStore, id: i64, now: Timestamp) -> (r: Result<
    Timebox,
    TimeboxError,
>)
    requires
        old(store).wf(),
        valid_timestamp(now),
    ensures
        final(store).wf(),
        marker_outcome(*old(store), *final(store), id, now, Marker::Unarchive, r),
{
    mark_timebox(store, id, now, Marker::Unarchive)
}

/// Character-wise equality of two optional texts.
fn same_notes(a: &Option<String>, b: &Option<String>) -> (r: bool)
    ensures
        r == same_optional_text(*a, *b),
{
    match (a, b) {
        (Some(x), Some(y)) => x.eq(y),
        (None, None) => true,
        _ => false,
    }
}

/// What `update` does: `Validation` for a malformed request and `NotFound` for no live
/// timebox with `id`, each with nothing changed. A request that changes no tracked field
/// returns the timebox as it is and changes nothing. Otherwise, unless change identifiers are
/// exhausted (`Storage`, nothing changed), the timebox takes the requested values and one change
/// entry is appended.
pub open spec fn update_outcome(
    s0: TimeboxStore,
    s1: TimeboxStore,
    id: i64,
    request: UpdateTimeboxRequest,
    now: Timestamp,
    r: Result<Timebox, TimeboxError>,
) -> bool {
    &&& !update_request_valid(request) ==> r == Err::<Timebox, TimeboxError>(
        TimeboxError::Validation,
    ) && s1 == s0
    &&& update_request_valid(request) && !s0.has_live(id) ==> r == Err::<Timebox, TimeboxError>(
        TimeboxError::NotFound,
    ) && s1 == s0
    &&& forall|i: int|
        update_request_valid(request) && s0.is_live_at(i, id) ==> {
            let t0 = s0.timeboxes@[i];
            &&& !update_changes(t0, request) ==> r == Ok::<Timebox, TimeboxError>(t0) && s1 == s0
            &&& update_changes(t0, request) && s0.next_change_id == i64::MAX ==> r == Err::<
                Timebox,
                TimeboxError,
            >(TimeboxError::Storage) && s1 == s0
            &&& update_changes(t0, request) && s0.next_change_id < i64::MAX ==> {
                let t = updated(t0, request, now);
                &&& r == Ok::<Timebox, TimeboxError>(t)
                &&& s1.timeboxes@ == s0.timeboxes@.update(i, t)
                &&& s1.change_log@ == s0.change_log@.push(
                    change_entry(s0.next_change_id, t0, request, now),
                )
                &&& s1.next_change_id == s0.next_change_id + 1
                &&& s1.sessions == s0.sessions
                &&& s1.next_timebox_id == s0.next_timebox_id
                &&& s1.next_session_id == s0.next_session_id
            }
        }
}

/// Applies the supplied fields to timebox `id`. When at least one tracked field changes value,
/// one change entry records the old and new value of each changed field, and the timebox takes
/// the new values with `updated_at = now`, together. When nothing changes, nothing is written.
pub fn update_timebox(
    store: &mut TimeboxStore,
    id: i64,
    request: UpdateTimeboxRequest,
    now: Timestamp,
) -> (r: Result<Timebox, TimeboxError>)
    requires
        old(store).wf(),
        valid_timestamp(now),
    ensures
        final(store).wf(),
        update_outcome(*old(store), *final(store), id, request, now, r),
{
    let ghost req = request;
    let UpdateTimeboxRequest { intention, notes, intended_duration } = request;
    let intention_ok = match &intention {
        Some(s) => s.as_str().unicode_len() > 0,
        None => true,
    };
    let duration_ok = match intended_duration {
        Some(d) => d > 0,
        None => true,
    };
    if !intention_ok || !duration_ok {
        return Err(TimeboxError::Validation);
    }
    let i = match store.find_live(id) {
        Some(i) => i,
        None => return Err(TimeboxError::NotFound),
    };
    let old_t = store.timeboxes[i].duplicate();
    let new_intention = match intention {
        Some(s) => s,
        None => old_t.intention.clone(),
    };
    let new_notes = if notes.is_some() {
        notes
    } else {
        copy_text(&old_t.notes)
    };
    let new_duration = match intended_duration {
        Some(d) => d,
        None => old_t.intended_duration,
    };
    let intention_changed = !(new_intention == old_t.intention);
    let notes_changed = !same_notes(&new_notes, &old_t.notes);
    let duration_changed = new_duration != old_t.intended_duration;
    if !intention_changed && !notes_changed && !duration_changed {
        return Ok(old_t);
    }
    if store.next_change_id == i64::MAX {
        return Err(TimeboxError::Storage);
    }
    let cid = store.next_change_id;
    let entry = TimeboxChangeLog {
        id: cid,
        timebox_id: id,
        previous_intention_title: if intention_changed {
            Some(old_t.intention.clone())
        } else {
            None
        },
        updated_intention_title: if intention_changed {
            Some(new_intention.clone())
        } else {
            None
        },
        previous_note_content: if notes_changed {
            copy_text(&old_t.notes)
        } else {
            None
        },
        updated_note_content: if notes_changed {
            copy_text(&new_notes)
        } else {
            None
        },
        previous_intended_duration: if duration_changed {
            Some(old_t.intended_duration)
        } else {
            None
        },
        new_intended_duration: if duration_changed {
            Some(new_duration)
        } else {
            None
        },
        updated_at: now,
    };
    let t = Timebox {
        intention: new_intention,
        notes: new_notes,
        intended_duration: new_duration,
        updated_at: now,
        ..old_t
    };
    assert(t == updated(store.timeboxes@[i as int], req, now));
    let result = t.duplicate();
    let ghost s0 = *store;
    proof {
        lemma_wf_after_replace(s0, s0.timeboxes@.update(i as int, t), i as int, t);
    }
    store.timeboxes.set(i, t);
    store.change_log.push(entry);
    store.next_change_id = cid + 1;
    proof {
        let tbs2 = store.timeboxes@;
        let cl = store.change_log@;
        assert(tbs2[i as int].id == id);
        assert(owns(tbs2, id));
        assert forall|a: int, b: int|
            #![trigger cl[a], cl[b]]
            0 <= a < cl.len() && 0 <= b < cl.len() && a != b implies cl[a].id != cl[b].id by {
            if a < cl.len() - 1 && b < cl.len() - 1 {
                assert(s0.change_log@[a] == cl[a] && s0.change_log@[b] == cl[b]);
            } else if a < cl.len() - 1 {
                assert(s0.change_log@[a] == cl[a]);
            } else if b < cl.len() - 1 {
                assert(s0.change_log@[b] == cl[b]);
            }
        }
    }
    Ok(result)
}

/// Sets the display order of several timeboxes as one batch. Every identifier must name a live
/// timebox, else nothing changes and the result is `NotFound`. When an identifier occurs more
/// than once, its last entry wins.
pub fn reorder_timeboxes(
    store: &mut TimeboxStore,
    orders: Vec<ReorderTimeboxRequest>,
    now: Timestamp,
) -> (r: Result<(), TimeboxError>)
    requires
        old(store).wf(),
        valid_timestamp(now),
    ensures
        final(store).wf(),
        (exists|k: int| 0 <= k < orders@.len() && !old(store).has_live(#[trigger] orders@[k].id))
            ==> r == Err::<(), TimeboxError>(TimeboxError::NotFound) && *final(store) == *old(
            store,
        ),
        (forall|k: int| 0 <= k < orders@.len() ==> old(store).has_live(#[trigger] orders@[k].id))
            ==> {
            &&& r == Ok::<(), TimeboxError>(())
            &&& final(store).timeboxes@.len() == old(store).timeboxes@.len()
            &&& forall|i: int|
                0 <= i < old(store).timeboxes@.len() ==> #[trigger] final(store).timeboxes@[i]
                    == reordered(old(store).timeboxes@[i], orders@, now)
            &&& final(store).sessions == old(store).sessions
            &&& final(store).change_log == old(store).change_log
            &&& final(store).next_timebox_id == old(store).next_timebox_id
            &&& final(store).next_session_id == old(store).next_session_id
            &&& final(store).next_change_id == old(store).next_change_id
        },
{
    let mut k: usize = 0;
    while k < orders.len()
        invariant
            0 <= k <= orders@.len(),
            store.wf(),
            forall|j: int| 0 <= j < k ==> store.has_live(#[trigger] orders@[j].id),
        decreases orders@.len() - k,
    {
        if store.find_live(orders[k].id).is_none() {
            return Err(TimeboxError::NotFound);
        }
        k = k + 1;
    }
    let ghost s0 = *store;
    let mut k: usize = 0;
    while k < orders.len()
        invariant
            0 <= k <= orders@.len(),
            store.wf(),
            valid_timestamp(now),
            forall|j: int| 0 <= j < orders@.len() ==> s0.has_live(#[trigger] orders@[j].id),
            store.timeboxes@.len() == s0.timeboxes@.len(),
            forall|i: int|
                0 <= i < s0.timeboxes@.len() ==> #[trigger] store.timeboxes@[i] == reordered(
                    s0.timeboxes@[i],
                    orders@.take(k as int),
                    now,
                ),
            store.sessions == s0.sessions,
            store.change_log == s0.change_log,
            store.next_timebox_id == s0.next_timebox_id,
            store.next_session_id == s0.next_session_id,
            store.next_change_id == s0.next_change_id,
        decreases orders@.len() - k,
    {
        let o = orders[k];
        proof {
            assert(orders@.take(k as int + 1).drop_last() =~= orders@.take(k as int));
            assert(s0.has_live(orders@[k as int].id));
            let w = choose|w: int| #[trigger] s0.is_live_at(w, o.id);
            assert(store.timeboxes@[w] == reordered(s0.timeboxes@[w], orders@.take(k as int), now));
            assert(store.is_live_at(w, o.id));
        }
        let j = match store.find_live(o.id) {
            Some(j) => j,
            None => return Err(TimeboxError::NotFound),
        };
        let old_t = store.timeboxes[j].duplicate();
        let t = Timebox { display_order: Some(o.display_order), updated_at: now, ..old_t };
        let ghost s1 = *store;
        assert(timebox_valid(store.timeboxes@[j as int]));
        proof {
            lemma_wf_after_replace(s1, s1.timeboxes@.update(j as int, t), j as int, t);
        }
        store.timeboxes.set(j, t);
        proof {
            let tk1 = orders@.take(k as int + 1);
            assert forall|i: int| 0 <= i < s0.timeboxes@.len() implies #[trigger] store.timeboxes@[i]
                == reordered(s0.timeboxes@[i], tk1, now) by {
                assert(s1.timeboxes@[i] == reordered(s0.timeboxes@[i], orders@.take(k as int), now));
                if i != j {
                    assert(s1.timeboxes@[i].id != s1.timeboxes@[j as int].id);
                }
            }
        }
        k = k + 1;
    }
    assert(orders@.take(orders@.len() as int) =~= orders@);
    Ok(())
}

/// The session unchanged if already closed, else closed at `now` in the given way.
pub open spec fn ended_session(s: Session, now: Timestamp, how: SessionEnd) -> Session {
    if is_open(s) {
        closed_session(s, now, how)
    } else {
        s
    }
}

/// A session with identifier `session_id` is stored.
pub open spec fn has_session(ss: Seq<Session>, session_id: i64) -> bool {
    exists|k: int| 0 <= k < ss.len() && #[trigger] ss[k].id == session_id
}

/// What ending one session does: `NotFound` with nothing changed for an unknown identifier;
/// otherwise the session is closed if it was open, left as it was if not, and returned.
pub open spec fn session_end_outcome(
    s0: TimeboxStore,
    s1: TimeboxStore,
    session_id: i64,
    now: Timestamp,
    how: SessionEnd,
    r: Result<Session, TimeboxError>,
) -> bool {
    &&& !has_session(s0.sessions@, session_id) ==> r == Err::<Session, TimeboxError>(
        TimeboxError::NotFound,
    ) && s1 == s0
    &&& forall|k: int|
        0 <= k < s0.sessions@.len() && #[trigger] s0.sessions@[k].id == session_id ==> {
            let e = ended_session(s0.sessions@[k], now, how);
            &&& r == Ok::<Session, TimeboxError>(e)
            &&& s1.sessions@ == s0.sessions@.update(k, e)
            &&& s1.timeboxes == s0.timeboxes
            &&& s1.change_log == s0.change_log
            &&& s1.next_timebox_id == s0.next_timebox_id
            &&& s1.next_session_id == s0.next_session_id
            &&& s1.next_change_id == s0.next_change_id
        }
}

/// Index of the session with identifier `session_id`, if there is one.
fn find_session(sessions: &Vec<Session>, session_id: i64) -> (r: Option<usize>)
    ensures
        r matches Some(k) ==> k < sessions@.len() && sessions@[k as int].id == session_id,
        r is None ==> !has_session(sessions@, session_id),
{
    let mut k: usize = 0;
    while k < sessions.len()
        invariant
            0 <= k <= sessions@.len(),
            forall|j: int| 0 <= j < k ==> #[trigger] sessions@[j].id != session_id,
        decreases sessions@.len() - k,
    {
        if sessions[k].id == session_id {
            return Some(k);
        }
        k = k + 1;
    }
    None
}

/// Shared body of `stop_session` and `cancel_session`.
fn end_session(store: &mut TimeboxStore, session_id: i64, now: Timestamp, how: SessionEnd) -> (r:
    Result<Session, TimeboxError>)
    requires
        old(store).wf(),
        valid_timestamp(now),
    ensures
        final(store).wf(),
        session_end_outcome(*old(store), *final(store), session_id, now, how, r),
{
    let k = match find_session(&store.sessions, session_id) {
        Some(k) => k,
        None => return Err(TimeboxError::NotFound),
    };
    let s = store.sessions[k];
    if s.stopped_at.is_some() || s.cancelled_at.is_some() {
        proof {
            assert(store.sessions@.update(k as int, s) =~= store.sessions@);
            assert forall|j: int| 0 <= j < store.sessions@.len() && #[trigger] store.sessions@[j].id == session_id implies j == k by {
                if j != k {
                    assert(store.sessions@[j].id != store.sessions@[k as int].id);
                }
            }
        }
        return Ok(s);
    }
    let e = match how {
        SessionEnd::Stopped => Session { stopped_at: Some(now), ..s },
        SessionEnd::Cancelled => Session { cancelled_at: Some(now), ..s },
    };
    let ghost ss0 = store.sessions@;
    store.sessions.set(k, e);
    proof {
        let ss = store.sessions@;
        assert forall|j: int| 0 <= j < ss0.len() && #[trigger] ss0[j].id == session_id implies j == k by {
            if j != k {
                assert(ss0[j].id != ss0[k as int].id);
            }
        }
        assert forall|a: int, b: int|
            #![trigger ss[a], ss[b]]
            0 <= a < ss.len() && 0 <= b < ss.len() && a != b implies ss[a].id != ss[b].id by {
            assert(ss0[a].id != ss0[b].id);
        }
        assert forall|a: int, b: int|
            #![trigger ss[a], ss[b]]
            0 <= a < ss.len() && 0 <= b < ss.len() && a != b && is_open(ss[a]) && is_open(
                ss[b],
            ) implies ss[a].timebox_id != ss[b].timebox_id by {
            assert(is_open(ss0[a]) && is_open(ss0[b]));
        }
        assert forall|a: int| 0 <= a < ss.len() implies session_valid(#[trigger] ss[a])
            && ss[a].id < store.next_session_id && owns(store.timeboxes@, ss[a].timebox_id) by {
            assert(session_valid(ss0[a]));
        }
    }
    Ok(e)
}

/// Stops session `session_id` at `now` if it is open; a closed session is returned unchanged.
pub fn stop_session(store: &mut TimeboxStore, session_id: i64, now: Timestamp) -> (r: Result<
    Session,
    TimeboxError,
>)
    requires
        old(store).wf(),
        valid_timestamp(now),
    ensures
        final(store).wf(),
        session_end_outcome(*old(store), *final(store), session_id, now, SessionEnd::Stopped, r),
{
    end_session(store, session_id, now, SessionEnd::Stopped)
}

/// Cancels session `session_id` at `now` if it is open; a closed session is returned unchanged.
pub fn cancel_session(store: &mut TimeboxStore, session_id: i64, now: Timestamp) -> (r: Result<
    Session,
    TimeboxError,
>)
    requires
        old(store).wf(),
        valid_timestamp(now),
    ensures
        final(store).wf(),
        session_end_outcome(
            *old(store),
            *final(store),
            session_id,
            now,
            SessionEnd::Cancelled,
            r,
        ),
{
    end_session(store, session_id, now, SessionEnd::Cancelled)
}

/// The open session of timebox `timebox_id`, if any; there is at most one.
pub fn get_active_session_for_timebox(store: &TimeboxStore, timebox_id: i64) -> (r: Option<
    Session,
>)
    requires
        store.wf(),
    ensures
        r is None <==> !has_open_session(store.sessions@, timebox_id),
        r matches Some(s) ==> s.timebox_id == timebox_id && is_open(s) && store.sessions@.contains(
            s,
        ),
{
    match find_open_session(&store.sessions, timebox_id) {
        Some(k) => Some(store.sessions[k]),
        None => None,
    }
}

} // verus!
