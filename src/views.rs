use vstd::prelude::*;

use crate::ledger::{actual_duration, worked_seconds};
use crate::lifecycle::is_active;
use crate::model::{
    session_valid, timebox_valid, Session, Timebox, TimeboxChangeLog, TimeboxWithSessions,
};
use crate::order::{key_le, sort_by_keys, SortKey};
use crate::store::TimeboxStore;
use crate::time::{day_number, day_of, valid_timestamp, Timestamp};

verus! {

/// The read models over the stored timeboxes.
#[derive(Debug, Clone, Copy, PartialEq, Eq, Structural)]
pub enum TimeboxView {
    /// Created on the current local day, neither deleted nor archived.
    Today,
    /// Started and not completed, expired, cancelled or deleted.
    Active,
    /// Created on the current local day, archived and not deleted.
    Archived,
}

/// Whether timebox `t` belongs to `view` at `now`.
pub open spec fn in_view(view: TimeboxView, t: Timebox, now: Timestamp) -> bool {
    match view {
        TimeboxView::Today => day_of(t.created_at) == day_of(now) && t.deleted_at is None
            && t.archived_at is None,
        TimeboxView::Active => is_active(t),
        TimeboxView::Archived => day_of(t.created_at) == day_of(now) && t.deleted_at is None
            && t.archived_at is Some,
    }
}

/// The order of each view, ascending in this key. Today: manual display order with unordered
/// timeboxes last, then newest created first. Active: newest created first. Archived: most
/// recently archived first. Ties go to the higher identifier.
pub open spec fn view_key(view: TimeboxView, t: Timebox) -> SortKey {
    match view {
        TimeboxView::Today => (
            if t.display_order is Some {
                0
            } else {
                1
            },
            match t.display_order {
                Some(o) => o,
                None => 0,
            },
            (0 - t.created_at) as i64,
            (0 - t.id) as i64,
        ),
        TimeboxView::Active => ((0 - t.created_at) as i64, (0 - t.id) as i64, 0, 0),
        TimeboxView::Archived => (
            match t.archived_at {
                Some(a) => (0 - a) as i64,
                None => 0,
            },
            (0 - t.id) as i64,
            0,
            0,
        ),
    }
}

/// The timeboxes of `tbs` that belong to `view` at `now`, in storage order.
pub open spec fn view_members(tbs: Seq<Timebox>, view: TimeboxView, now: Timestamp) -> Seq<
    Timebox,
>
    decreases tbs.len(),
{
    if tbs.len() == 0 {
        Seq::empty()
    } else {
        let rest = view_members(tbs.drop_last(), view, now);
        if in_view(view, tbs.last(), now) {
            rest.push(tbs.last())
        } else {
            rest
        }
    }
}

/// Sessions are listed newest start first; ties go to the higher identifier.
pub open spec fn session_key(s: Session) -> SortKey {
    ((0 - s.started_at) as i64, (0 - s.id) as i64, 0, 0)
}

/// The sessions of timebox `timebox_id`, in storage order.
pub open spec fn sessions_of(ss: Seq<Session>, timebox_id: i64) -> Seq<Session>
    decreases ss.len(),
{
    if ss.len() == 0 {
        Seq::empty()
    } else {
        let rest = sessions_of(ss.drop_last(), timebox_id);
        if ss.last().timebox_id == timebox_id {
            rest.push(ss.last())
        } else {
            rest
        }
    }
}

/// `out` holds exactly the sessions of timebox `timebox_id`, newest start first.
pub open spec fn lists_sessions_of(out: Seq<Session>, ss: Seq<Session>, timebox_id: i64) -> bool {
    &&& out.to_multiset() == sessions_of(ss, timebox_id).to_multiset()
    &&& forall|i: int, j: int|
        0 <= i < j < out.len() ==> key_le(session_key(#[trigger] out[i]), session_key(#[trigger] out[j]))
}

/// Change entries are listed most recent first; ties go to the higher identifier.
pub open spec fn change_key(c: TimeboxChangeLog) -> SortKey {
    ((0 - c.updated_at) as i64, (0 - c.id) as i64, 0, 0)
}

/// The change entries of timebox `timebox_id`, in storage order.
pub open spec fn changes_of(cl: Seq<TimeboxChangeLog>, timebox_id: i64) -> Seq<TimeboxChangeLog>
    decreases cl.len(),
{
    if cl.len() == 0 {
        Seq::empty()
    } else {
        let rest = changes_of(cl.drop_last(), timebox_id);
        if cl.last().timebox_id == timebox_id {
            rest.push(cl.last())
        } else {
            rest
        }
    }
}

/// `out` holds exactly the change entries of timebox `timebox_id`, most recent first.
pub open spec fn lists_changes_of(
    out: Seq<TimeboxChangeLog>,
    cl: Seq<TimeboxChangeLog>,
    timebox_id: i64,
) -> bool {
    &&& out.to_multiset() == changes_of(cl, timebox_id).to_multiset()
    &&& forall|i: int, j: int|
        0 <= i < j < out.len() ==> key_le(change_key(#[trigger] out[i]), change_key(#[trigger] out[j]))
}

/// The timeboxes of a list of rows, in order.
pub open spec fn row_timeboxes(rows: Seq<TimeboxWithSessions>) -> Seq<Timebox> {
    Seq::new(rows.len(), |i: int| rows[i].timebox)
}

/// A row shows its timebox with all of that timebox's sessions and its worked time at `now`.
pub open spec fn row_complete(store: TimeboxStore, w: TimeboxWithSessions, now: Timestamp) -> bool {
    &&& lists_sessions_of(w.sessions@, store.sessions@, w.timebox.id)
    &&& w.actual_duration == worked_seconds(store.sessions@, w.timebox.id, now)
}

/// `rows` is `view` of `store` at `now`: one complete row per member, in the view's order.
pub open spec fn view_outcome(
    store: TimeboxStore,
    view: TimeboxView,
    now: Timestamp,
    rows: Seq<TimeboxWithSessions>,
) -> bool {
    &&& row_timeboxes(rows).to_multiset() == view_members(store.timeboxes@, view, now).to_multiset()
    &&& forall|i: int, j: int|
        0 <= i < j < rows.len() ==> key_le(
            view_key(view, (#[trigger] rows[i]).timebox),
            view_key(view, (#[trigger] rows[j]).timebox),
        )
    &&& forall|i: int| 0 <= i < rows.len() ==> row_complete(store, #[trigger] rows[i], now)
}

fn in_view_exec(view: TimeboxView, t: &Timebox, now: Timestamp) -> (r: bool)
    requires
        timebox_valid(*t),
        valid_timestamp(now),
    ensures
        r == in_view(view, *t, now),
{
    match view {
        TimeboxView::Today => day_number(t.created_at) == day_number(now) && t.deleted_at.is_none()
            && t.archived_at.is_none(),
        TimeboxView::Active => t.started_at.is_some() && t.completed_at.is_none()
            && t.after_time_stopped_at.is_none() && t.canceled_at.is_none()
            && t.deleted_at.is_none(),
        TimeboxView::Archived => day_number(t.created_at) == day_number(now)
            && t.deleted_at.is_none() && t.archived_at.is_some(),
    }
}

fn view_key_exec(view: TimeboxView, t: &Timebox) -> (r: SortKey)
    requires
        timebox_valid(*t),
    ensures
        r == view_key(view, *t),
{
    match view {
        TimeboxView::Today => (
            if t.display_order.is_some() {
                0
            } else {
                1
            },
            match t.display_order {
                Some(o) => o,
                None => 0,
            },
            0 - t.created_at,
            0 - t.id,
        ),
        TimeboxView::Active => (0 - t.created_at, 0 - t.id, 0, 0),
        TimeboxView::Archived => (
            match t.archived_at {
                Some(a) => 0 - a,
                None => 0,
            },
            0 - t.id,
            0,
            0,
        ),
    }
}

/// The sessions of timebox `timebox_id`, newest start first.
fn list_sessions(ss: &Vec<Session>, timebox_id: i64) -> (r: Vec<Session>)
    requires
        forall|i: int| 0 <= i < ss@.len() ==> session_valid(#[trigger] ss@[i]),
    ensures
        lists_sessions_of(r@, ss@, timebox_id),
{
    let mut picked: Vec<Session> = Vec::new();
    let mut keys: Vec<SortKey> = Vec::new();
    let mut i: usize = 0;
    while i < ss.len()
        invariant
            0 <= i <= ss@.len(),
            forall|k: int| 0 <= k < ss@.len() ==> session_valid(#[trigger] ss@[k]),
            picked@ == sessions_of(ss@.take(i as int), timebox_id),
            keys@.len() == picked@.len(),
            forall|k: int| 0 <= k < keys@.len() ==> #[trigger] keys@[k] == session_key(picked@[k]),
        decreases ss@.len() - i,
    {
        let s = ss[i];
        proof {
            assert(ss@.take(i as int + 1).drop_last() =~= ss@.take(i as int));
        }
        if s.timebox_id == timebox_id {
            picked.push(s);
            keys.push((0 - s.started_at, 0 - s.id, 0, 0));
        }
        i = i + 1;
    }
    assert(ss@.take(ss@.len() as int) =~= ss@);
    sort_by_keys(picked, keys, Ghost(|s: Session| session_key(s)))
}

/// All sessions of timebox `timebox_id`, deleted or not, newest start first.
pub fn get_sessions_for_timebox(store: &TimeboxStore, timebox_id: i64) -> (r: Vec<Session>)
    requires
        store.wf(),
    ensures
        lists_sessions_of(r@, store.sessions@, timebox_id),
{
    list_sessions(&store.sessions, timebox_id)
}

/// All change entries of timebox `timebox_id`, deleted or not, most recent first.
pub fn get_timebox_change_log(store: &TimeboxStore, timebox_id: i64) -> (r: Vec<TimeboxChangeLog>)
    requires
        store.wf(),
    ensures
        lists_changes_of(r@, store.change_log@, timebox_id),
{
    let cl = &store.change_log;
    let mut picked: Vec<TimeboxChangeLog> = Vec::new();
    let mut keys: Vec<SortKey> = Vec::new();
    let mut i: usize = 0;
    while i < cl.len()
        invariant
            0 <= i <= cl@.len(),
            store.wf(),
            cl@ == store.change_log@,
            picked@ == changes_of(cl@.take(i as int), timebox_id),
            keys@.len() == picked@.len(),
            forall|k: int| 0 <= k < keys@.len() ==> #[trigger] keys@[k] == change_key(picked@[k]),
        decreases cl@.len() - i,
    {
        let c = cl[i].duplicate();
        proof {
            assert(cl@.take(i as int + 1).drop_last() =~= cl@.take(i as int));
        }
        if c.timebox_id == timebox_id {
            keys.push((0 - c.updated_at, 0 - c.id, 0, 0));
            picked.push(c);
        }
        i = i + 1;
    }
    assert(cl@.take(cl@.len() as int) =~= cl@);
    sort_by_keys(picked, keys, Ghost(|c: TimeboxChangeLog| change_key(c)))
}

/// Builds `view` of `store` at `now`.
fn list_view(store: &TimeboxStore, view: TimeboxView, now: Timestamp) -> (r: Vec<
    TimeboxWithSessions,
>)
    requires
        store.wf(),
        valid_timestamp(now),
    ensures
        view_outcome(*store, view, now, r@),
{
    let tbs = &store.timeboxes;
    let mut picked: Vec<Timebox> = Vec::new();
    let mut keys: Vec<SortKey> = Vec::new();
    let mut i: usize = 0;
    while i < tbs.len()
        invariant
            0 <= i <= tbs@.len(),
            store.wf(),
            valid_timestamp(now),
            tbs@ == store.timeboxes@,
            picked@ == view_members(tbs@.take(i as int), view, now),
            forall|k: int| 0 <= k < picked@.len() ==> timebox_valid(#[trigger] picked@[k]),
            keys@.len() == picked@.len(),
            forall|k: int| 0 <= k < keys@.len() ==> #[trigger] keys@[k] == view_key(view, picked@[k]),
        decreases tbs@.len() - i,
    {
        proof {
            assert(tbs@.take(i as int + 1).drop_last() =~= tbs@.take(i as int));
            assert(timebox_valid(tbs@[i as int]));
        }
        if in_view_exec(view, &tbs[i], now) {
            keys.push(view_key_exec(view, &tbs[i]));
            picked.push(tbs[i].duplicate());
        }
        i = i + 1;
    }
    assert(tbs@.take(tbs@.len() as int) =~= tbs@);
    let ghost members = picked@;
    let sorted = sort_by_keys(picked, keys, Ghost(|t: Timebox| view_key(view, t)));
    let mut rows: Vec<TimeboxWithSessions> = Vec::new();
    let mut k: usize = 0;
    while k < sorted.len()
        invariant
            0 <= k <= sorted@.len(),
            store.wf(),
            valid_timestamp(now),
            rows@.len() == k,
            forall|j: int| 0 <= j < k ==> (#[trigger] rows@[j]).timebox == sorted@[j],
            forall|j: int| 0 <= j < k ==> row_complete(*store, #[trigger] rows@[j], now),
        decreases sorted@.len() - k,
    {
        let t = sorted[k].duplicate();
        let id = t.id;
        let sessions = list_sessions(&store.sessions, id);
        let worked = actual_duration(&store.sessions, id, now);
        rows.push(TimeboxWithSessions { timebox: t, sessions, actual_duration: worked });
        k = k + 1;
    }
    assert(row_timeboxes(rows@) =~= sorted@);
    rows
}

/// Today's timeboxes: created on the local day of `now`, neither deleted nor archived; by
/// display order, unordered last, then newest created first.
pub fn get_today_timeboxes(store: &TimeboxStore, now: Timestamp) -> (r: Vec<TimeboxWithSessions>)
    requires
        store.wf(),
        valid_timestamp(now),
    ensures
        view_outcome(*store, TimeboxView::Today, now, r@),
{
    list_view(store, TimeboxView::Today, now)
}

/// Active timeboxes: started and not completed, expired, cancelled or deleted; newest created
/// first.
pub fn get_active_timeboxes(store: &TimeboxStore, now: Timestamp) -> (r: Vec<TimeboxWithSessions>)
    requires
        store.wf(),
        valid_timestamp(now),
    ensures
        view_outcome(*store, TimeboxView::Active, now, r@),
{
    list_view(store, TimeboxView::Active, now)
}

/// Archived timeboxes: created on the local day of `now`, archived and not deleted; most
/// recently archived first.
pub fn get_archived_timeboxes(store: &TimeboxStore, now: Timestamp) -> (r: Vec<
    TimeboxWithSessions,
>)
    requires
        store.wf(),
        valid_timestamp(now),
    ensures
        view_outcome(*store, TimeboxView::Archived, now, r@),
{
    list_view(store, TimeboxView::Archived, now)
}

} // verus!
