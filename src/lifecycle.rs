use vstd::prelude::*;

use crate::ledger::SessionEnd;
use crate::model::{
    CreateTimeboxRequest, ReorderTimeboxRequest, Session, Timebox, TimeboxChangeLog,
    UpdateTimeboxRequest,
};
use crate::status::TimeboxStatus;
use crate::time::Timestamp;

verus! {

/// The transitions that end an interval of work.
#[derive(Debug, Clone, Copy, PartialEq, Eq, Structural)]
pub enum Closing {
    /// Pause: the open session is stopped, the timebox can resume.
    Pause,
    /// Manual stop.
    Stop,
    /// Explicit completion by the user.
    Finish,
    /// Completion because the planned time ran out.
    StopAfterTime,
    /// Cancellation: the open session is cancelled, not stopped.
    Cancel,
}

/// The markers that only filter views.
#[derive(Debug, Clone, Copy, PartialEq, Eq, Structural)]
pub enum Marker {
    Delete,
    Archive,
    Unarchive,
}

/// A create request is accepted when the intention is non-empty and the duration positive.
pub open spec fn create_request_valid(req: CreateTimeboxRequest) -> bool {
    req.intention@.len() > 0 && req.intended_duration > 0
}

/// The timebox that `create` stores under `id`.
pub open spec fn created(id: i64, req: CreateTimeboxRequest, now: Timestamp) -> Timebox {
    Timebox {
        id,
        intention: req.intention,
        notes: req.notes,
        intended_duration: req.intended_duration,
        status: TimeboxStatus::NotStarted,
        created_at: now,
        updated_at: now,
        started_at: None,
        completed_at: None,
        after_time_stopped_at: None,
        deleted_at: None,
        canceled_at: None,
        display_order: None,
        archived_at: None,
        finished_at: None,
        linear_project_id: req.linear_project_id,
        linear_issue_id: None,
        linear_issue_url: None,
    }
}

/// `start`: in progress, the first start time kept, the completion marker cleared.
pub open spec fn started(t: Timebox, now: Timestamp) -> Timebox {
    Timebox {
        status: TimeboxStatus::InProgress,
        started_at: if t.started_at is Some {
            t.started_at
        } else {
            Some(now)
        },
        completed_at: None,
        updated_at: now,
        ..t
    }
}

/// The session that `start` opens.
pub open spec fn opened_session(id: i64, timebox_id: i64, now: Timestamp) -> Session {
    Session { id, timebox_id, started_at: now, stopped_at: None, cancelled_at: None }
}

/// A timebox is active while it has been started and is neither completed, expired,
/// cancelled nor deleted.
pub open spec fn is_active(t: Timebox) -> bool {
    t.started_at is Some && t.completed_at is None && t.after_time_stopped_at is None
        && t.canceled_at is None && t.deleted_at is None
}

/// The timebox after a closing transition at `now`.
pub open spec fn closed_timebox(t: Timebox, now: Timestamp, kind: Closing) -> Timebox {
    match kind {
        Closing::Pause => Timebox { status: TimeboxStatus::Paused, updated_at: now, ..t },
        Closing::Stop => Timebox {
            status: TimeboxStatus::Stopped,
            completed_at: Some(now),
            updated_at: now,
            ..t
        },
        Closing::Finish => Timebox {
            status: TimeboxStatus::Completed,
            finished_at: Some(now),
            completed_at: Some(now),
            updated_at: now,
            ..t
        },
        Closing::StopAfterTime => Timebox {
            status: TimeboxStatus::Completed,
            after_time_stopped_at: Some(now),
            completed_at: Some(now),
            updated_at: now,
            ..t
        },
        Closing::Cancel => Timebox {
            status: TimeboxStatus::Cancelled,
            canceled_at: Some(now),
            updated_at: now,
            ..t
        },
    }
}

/// How a closing transition ends the open session.
pub open spec fn session_end_of(kind: Closing) -> SessionEnd {
    match kind {
        Closing::Cancel => SessionEnd::Cancelled,
        _ => SessionEnd::Stopped,
    }
}

/// The timebox after a marker is set or cleared at `now`.
pub open spec fn marked(t: Timebox, now: Timestamp, marker: Marker) -> Timebox {
    match marker {
        Marker::Delete => Timebox { deleted_at: Some(now), updated_at: now, ..t },
        Marker::Archive => Timebox { archived_at: Some(now), updated_at: now, ..t },
        Marker::Unarchive => Timebox { archived_at: None, updated_at: now, ..t },
    }
}

/// Two optional texts hold the same characters, or are both absent.
pub open spec fn same_optional_text(a: Option<String>, b: Option<String>) -> bool {
    match (a, b) {
        (Some(x), Some(y)) => x@ == y@,
        (None, None) => true,
        _ => false,
    }
}

/// An update request is malformed when it supplies an empty intention or a non-positive duration.
pub open spec fn update_request_valid(req: UpdateTimeboxRequest) -> bool {
    &&& req.intention matches Some(s) ==> s@.len() > 0
    &&& req.intended_duration matches Some(d) ==> d > 0
}

pub open spec fn requested_intention(t: Timebox, req: UpdateTimeboxRequest) -> String {
    match req.intention {
        Some(s) => s,
        None => t.intention,
    }
}

pub open spec fn requested_notes(t: Timebox, req: UpdateTimeboxRequest) -> Option<String> {
    if req.notes is Some {
        req.notes
    } else {
        t.notes
    }
}

pub open spec fn requested_duration(t: Timebox, req: UpdateTimeboxRequest) -> i64 {
    match req.intended_duration {
        Some(d) => d,
        None => t.intended_duration,
    }
}

pub open spec fn intention_changes(t: Timebox, req: UpdateTimeboxRequest) -> bool {
    requested_intention(t, req)@ != t.intention@
}

pub open spec fn notes_change(t: Timebox, req: UpdateTimeboxRequest) -> bool {
    !same_optional_text(requested_notes(t, req), t.notes)
}

pub open spec fn duration_changes(t: Timebox, req: UpdateTimeboxRequest) -> bool {
    requested_duration(t, req) != t.intended_duration
}

/// The request changes at least one tracked field.
pub open spec fn update_changes(t: Timebox, req: UpdateTimeboxRequest) -> bool {
    intention_changes(t, req) || notes_change(t, req) || duration_changes(t, req)
}

/// The timebox with the requested values applied at `now`.
pub open spec fn updated(t: Timebox, req: UpdateTimeboxRequest, now: Timestamp) -> Timebox {
    Timebox {
        intention: requested_intention(t, req),
        notes: requested_notes(t, req),
        intended_duration: requested_duration(t, req),
        updated_at: now,
        ..t
    }
}

/// The audit entry `update` writes: old and new value of each changed field, both absent for
/// each unchanged one.
pub open spec fn change_entry(
    id: i64,
    t: Timebox,
    req: UpdateTimeboxRequest,
    now: Timestamp,
) -> TimeboxChangeLog {
    TimeboxChangeLog {
        id,
        timebox_id: t.id,
        previous_intention_title: if intention_changes(t, req) {
            Some(t.intention)
        } else {
            None
        },
        updated_intention_title: if intention_changes(t, req) {
            Some(requested_intention(t, req))
        } else {
            None
        },
        previous_note_content: if notes_change(t, req) {
            t.notes
        } else {
            None
        },
        updated_note_content: if notes_change(t, req) {
            requested_notes(t, req)
        } else {
            None
        },
        previous_intended_duration: if duration_changes(t, req) {
            Some(t.intended_duration)
        } else {
            None
        },
        new_intended_duration: if duration_changes(t, req) {
            Some(requested_duration(t, req))
        } else {
            None
        },
        updated_at: now,
    }
}

/// The display order a reorder batch gives timebox `id`: the value of the last entry for it.
pub open spec fn last_order(orders: Seq<ReorderTimeboxRequest>, id: i64) -> Option<i64>
    decreases orders.len(),
{
    if orders.len() == 0 {
        None
    } else if orders.last().id == id {
        Some(orders.last().display_order)
    } else {
        last_order(orders.drop_last(), id)
    }
}

/// The timebox after a reorder batch applied at `now`.
pub open spec fn reordered(t: Timebox, orders: Seq<ReorderTimeboxRequest>, now: Timestamp) -> Timebox {
    match last_order(orders, t.id) {
        Some(o) => Timebox { display_order: Some(o), updated_at: now, ..t },
        None => t,
    }
}

} // verus!
