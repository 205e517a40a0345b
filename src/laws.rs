use vstd::prelude::*;

use crate::ledger::{
    close_open_sessions, has_open_session, worked_seconds, SessionEnd,
};
use crate::lifecycle::{
    closed_timebox, last_order, opened_session, same_optional_text,
    started, update_changes, Closing, Marker,
};
use crate::model::{is_open, timebox_valid, Session, Timebox, UpdateTimeboxRequest};
use crate::status::TimeboxStatus;
use crate::error::TimeboxError;
use crate::store::{
    closing_outcome, marker_outcome, single_open_session, start_outcome, update_outcome,
    TimeboxStore,
};
use crate::time::Timestamp;
use crate::views::{in_view, view_members, TimeboxView};

verus! {

/// In every well-formed store, and so after every transition, no timebox has more than one
/// open session.
pub proof fn lemma_at_most_one_open_session(store: TimeboxStore, i: int, j: int)
    requires
        store.wf(),
        0 <= i < store.sessions@.len(),
        0 <= j < store.sessions@.len(),
        is_open(store.sessions@[i]),
        is_open(store.sessions@[j]),
        store.sessions@[i].timebox_id == store.sessions@[j].timebox_id,
    ensures
        i == j,
{
    assert(single_open_session(store.sessions@));
}

/// The sessions of `ss` that were not cancelled, in order.
pub open spec fn uncancelled(ss: Seq<Session>) -> Seq<Session>
    decreases ss.len(),
{
    if ss.len() == 0 {
        Seq::empty()
    } else if ss.last().cancelled_at is Some {
        uncancelled(ss.drop_last())
    } else {
        uncancelled(ss.drop_last()).push(ss.last())
    }
}

/// Cancelled sessions never contribute to worked time: dropping all of them leaves it unchanged.
pub proof fn lemma_cancelled_sessions_contribute_nothing(
    ss: Seq<Session>,
    timebox_id: i64,
    now: Timestamp,
)
    ensures
        worked_seconds(ss, timebox_id, now) == worked_seconds(uncancelled(ss), timebox_id, now),
    decreases ss.len(),
{
    if ss.len() > 0 {
        lemma_cancelled_sessions_contribute_nothing(ss.drop_last(), timebox_id, now);
        if ss.last().cancelled_at is None {
            let u = uncancelled(ss.drop_last()).push(ss.last());
            assert(u.drop_last() =~= uncancelled(ss.drop_last()));
        }
    }
}

/// An update that supplies only the current values (or nothing) for a live timebox writes no
/// change entry and leaves the store as it was.
pub proof fn lemma_update_with_current_values_writes_nothing(
    s0: TimeboxStore,
    s1: TimeboxStore,
    id: i64,
    i: int,
    req: UpdateTimeboxRequest,
    now: Timestamp,
    r: Result<Timebox, TimeboxError>,
)
    requires
        s0.wf(),
        s0.is_live_at(i, id),
        req.intention matches Some(s) ==> s@ == s0.timeboxes@[i].intention@,
        req.notes is Some ==> same_optional_text(req.notes, s0.timeboxes@[i].notes),
        req.intended_duration matches Some(d) ==> d == s0.timeboxes@[i].intended_duration,
        update_outcome(s0, s1, id, req, now, r),
    ensures
        !update_changes(s0.timeboxes@[i], req),
        s1.change_log@ == s0.change_log@,
        s1 == s0,
        r == Ok::<Timebox, TimeboxError>(s0.timeboxes@[i]),
{
    assert(timebox_valid(s0.timeboxes@[i]));
}

/// An update of a live timebox that changes only its notes appends exactly one change entry,
/// whose intention and duration fields are all absent and whose note fields hold the old and
/// the new notes.
pub proof fn lemma_notes_only_update_entry(
    s0: TimeboxStore,
    s1: TimeboxStore,
    id: i64,
    i: int,
    req: UpdateTimeboxRequest,
    now: Timestamp,
    r: Result<Timebox, TimeboxError>,
)
    requires
        s0.wf(),
        s0.is_live_at(i, id),
        s0.next_change_id < i64::MAX,
        req.intention is None,
        req.intended_duration is None,
        req.notes is Some,
        !same_optional_text(req.notes, s0.timeboxes@[i].notes),
        update_outcome(s0, s1, id, req, now, r),
    ensures
        r is Ok,
        s1.change_log@.len() == s0.change_log@.len() + 1,
        s1.change_log@.drop_last() == s0.change_log@,
        ({
            let e = s1.change_log@.last();
            &&& e.timebox_id == id
            &&& e.previous_intention_title is None
            &&& e.updated_intention_title is None
            &&& e.previous_intended_duration is None
            &&& e.new_intended_duration is None
            &&& e.previous_note_content == s0.timeboxes@[i].notes
            &&& e.updated_note_content == req.notes
            &&& e.updated_at == now
        }),
{
    assert(s1.change_log@.drop_last() =~= s0.change_log@);
}

/// Every stored timebox that belongs to a view is one of its members.
pub proof fn lemma_view_members_complete(
    tbs: Seq<Timebox>,
    view: TimeboxView,
    now: Timestamp,
    i: int,
)
    requires
        0 <= i < tbs.len(),
        in_view(view, tbs[i], now),
    ensures
        view_members(tbs, view, now).contains(tbs[i]),
    decreases tbs.len(),
{
    let rest = view_members(tbs.drop_last(), view, now);
    if i == tbs.len() - 1 {
        assert(view_members(tbs, view, now)[rest.len() as int] == tbs[i]);
    } else {
        lemma_view_members_complete(tbs.drop_last(), view, now, i);
        assert(tbs.drop_last()[i] == tbs[i]);
        let k = choose|k: int| 0 <= k < rest.len() && rest[k] == tbs[i];
        assert(view_members(tbs, view, now)[k] == tbs[i]);
    }
}

/// Start, stop and start again on a store, from a live timebox without an open session (as
/// `create_timebox` leaves it): every step succeeds, the restart keeps the first start time,
/// clears the completion marker and opens a new session, and unless the timebox was cancelled
/// or had expired it is in the active view again.
pub proof fn lemma_restart_sequence(
    s0: TimeboxStore,
    s1: TimeboxStore,
    s2: TimeboxStore,
    s3: TimeboxStore,
    id: i64,
    first: Timestamp,
    stop: Timestamp,
    again: Timestamp,
    r1: Result<Timebox, TimeboxError>,
    r2: Result<Timebox, TimeboxError>,
    r3: Result<Timebox, TimeboxError>,
)
    requires
        s0.wf(),
        s1.wf(),
        s2.wf(),
        s0.has_live(id),
        !has_open_session(s0.sessions@, id),
        s0.next_session_id < i64::MAX - 1,
        start_outcome(s0, s1, id, first, r1),
        closing_outcome(s1, s2, id, stop, Closing::Stop, r2),
        start_outcome(s2, s3, id, again, r3),
    ensures
        r1 is Ok && r2 is Ok && r3 is Ok,
        r3->Ok_0.started_at == r1->Ok_0.started_at,
        r3->Ok_0.completed_at is None,
        r3->Ok_0.status == TimeboxStatus::InProgress,
        has_open_session(s3.sessions@, id),
        s3.sessions@.len() == s0.sessions@.len() + 2,
        r3->Ok_0.canceled_at is None && r3->Ok_0.after_time_stopped_at is None ==> view_members(
            s3.timeboxes@,
            TimeboxView::Active,
            again,
        ).contains(r3->Ok_0),
{
    let i = choose|i: int| #[trigger] s0.is_live_at(i, id);
    let t0 = s0.timeboxes@[i];
    let t1 = started(t0, first);
    assert(s1.is_live_at(i, id));
    let t2 = closed_timebox(t1, stop, Closing::Stop);
    let ss2 = close_open_sessions(s1.sessions@, id, stop, SessionEnd::Stopped);
    assert(s2.sessions@ == ss2);
    assert(!has_open_session(ss2, id)) by {
        if has_open_session(ss2, id) {
            let k = choose|k: int| 0 <= k < ss2.len() && ss2[k].timebox_id == id && is_open(#[trigger] ss2[k]);
            assert(ss2[k] == s1.sessions@[k] || !is_open(ss2[k]));
        }
    }
    assert(s2.is_live_at(i, id));
    let t3 = started(t2, again);
    let ss3 = s3.sessions@;
    assert(ss3[ss2.len() as int] == opened_session(s2.next_session_id, id, again));
    assert(is_open(ss3[ss2.len() as int]));
    assert(s3.timeboxes@[i] == t3);
    if t3.canceled_at is None && t3.after_time_stopped_at is None {
        lemma_view_members_complete(s3.timeboxes@, TimeboxView::Active, again, i);
    }
}

/// Finishing and expiring both complete a timebox but set different markers: starting from a
/// timebox with neither marker, exactly one of `finished_at` and `after_time_stopped_at` is set.
pub proof fn lemma_finish_and_expiry_markers(t: Timebox, now: Timestamp)
    requires
        t.finished_at is None,
        t.after_time_stopped_at is None,
    ensures
        ({
            let f = closed_timebox(t, now, Closing::Finish);
            let e = closed_timebox(t, now, Closing::StopAfterTime);
            &&& f.status == TimeboxStatus::Completed && e.status == TimeboxStatus::Completed
            &&& f.finished_at == Some(now) && f.after_time_stopped_at is None
            &&& e.after_time_stopped_at == Some(now) && e.finished_at is None
            &&& f.completed_at == Some(now) && e.completed_at == Some(now)
        }),
{
}

/// Every member of a view is a stored timebox that belongs to the view.
pub proof fn lemma_view_members_belong(tbs: Seq<Timebox>, view: TimeboxView, now: Timestamp)
    ensures
        forall|k: int|
            0 <= k < view_members(tbs, view, now).len() ==> {
                let m = #[trigger] view_members(tbs, view, now)[k];
                tbs.contains(m) && in_view(view, m, now)
            },
    decreases tbs.len(),
{
    if tbs.len() > 0 {
        lemma_view_members_belong(tbs.drop_last(), view, now);
        let rest = view_members(tbs.drop_last(), view, now);
        assert forall|k: int| 0 <= k < rest.len() implies tbs.contains(#[trigger] rest[k]) by {
            let w = choose|w: int| 0 <= w < tbs.drop_last().len() && tbs.drop_last()[w] == rest[k];
            assert(tbs[w] == rest[k]);
        }
        assert(tbs[tbs.len() - 1] == tbs.last());
    }
}

/// A soft-deleted timebox leaves every view at every moment, while its sessions and change
/// entries stay stored as they were.
pub proof fn lemma_deleted_timebox_leaves_views(
    s0: TimeboxStore,
    s1: TimeboxStore,
    id: i64,
    now: Timestamp,
    r: Result<Timebox, TimeboxError>,
    view: TimeboxView,
    later: Timestamp,
)
    requires
        s0.wf(),
        s1.wf(),
        marker_outcome(s0, s1, id, now, Marker::Delete, r),
        r is Ok,
    ensures
        forall|k: int|
            0 <= k < view_members(s1.timeboxes@, view, later).len() ==> (#[trigger] view_members(
                s1.timeboxes@,
                view,
                later,
            )[k]).id != id,
        s1.sessions == s0.sessions,
        s1.change_log == s0.change_log,
{
    let i = choose|i: int| #[trigger] s0.is_live_at(i, id);
    let tbs = s1.timeboxes@;
    lemma_view_members_belong(tbs, view, later);
    assert(tbs[i].deleted_at is Some);
    assert forall|k: int| 0 <= k < view_members(tbs, view, later).len() implies (
    #[trigger] view_members(tbs, view, later)[k]).id != id by {
        let m = view_members(tbs, view, later)[k];
        let w = choose|w: int| 0 <= w < tbs.len() && tbs[w] == m;
        if w != i {
            assert(tbs[w].id != tbs[i].id);
        }
    }
}

/// Within one reorder batch the last entry for an identifier decides its display order.
pub proof fn lemma_last_reorder_entry_wins(
    orders: Seq<crate::model::ReorderTimeboxRequest>,
    k: int,
    id: i64,
)
    requires
        0 <= k < orders.len(),
        orders[k].id == id,
        forall|j: int| k < j < orders.len() ==> #[trigger] orders[j].id != id,
    ensures
        last_order(orders, id) == Some(orders[k].display_order),
    decreases orders.len(),
{
    if k < orders.len() - 1 {
        assert(orders.last() == orders[orders.len() - 1]);
        lemma_last_reorder_entry_wins(orders.drop_last(), k, id);
    }
}

} // verus!
