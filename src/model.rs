use vstd::prelude::*;

use crate::status::TimeboxStatus;
use crate::time::{valid_optional_timestamp, valid_timestamp, Timestamp};

verus! {

/// A planned unit of intentional work.
#[derive(Debug, Clone)]
pub struct Timebox {
    pub id: i64,
    pub intention: String,
    pub notes: Option<String>,
    /// Planned length in seconds.
    pub intended_duration: i64,
    pub status: TimeboxStatus,
    pub created_at: Timestamp,
    pub updated_at: Timestamp,
    pub started_at: Option<Timestamp>,
    pub completed_at: Option<Timestamp>,
    pub after_time_stopped_at: Option<Timestamp>,
    pub deleted_at: Option<Timestamp>,
    pub canceled_at: Option<Timestamp>,
    pub display_order: Option<i64>,
    pub archived_at: Option<Timestamp>,
    pub finished_at: Option<Timestamp>,
    pub linear_project_id: Option<i64>,
    pub linear_issue_id: Option<String>,
    pub linear_issue_url: Option<String>,
}

/// One contiguous interval of work against a timebox.
#[derive(Debug, Clone, Copy, PartialEq, Eq, Structural)]
pub struct Session {
    pub id: i64,
    pub timebox_id: i64,
    pub started_at: Timestamp,
    pub stopped_at: Option<Timestamp>,
    pub cancelled_at: Option<Timestamp>,
}

/// Audit record of one change to a timebox's intention, notes or duration.
#[derive(Debug, Clone)]
pub struct TimeboxChangeLog {
    pub id: i64,
    pub timebox_id: i64,
    pub previous_intention_title: Option<String>,
    pub updated_intention_title: Option<String>,
    pub previous_note_content: Option<String>,
    pub updated_note_content: Option<String>,
    pub previous_intended_duration: Option<i64>,
    pub new_intended_duration: Option<i64>,
    pub updated_at: Timestamp,
}

#[derive(Debug, Clone)]
pub struct CreateTimeboxRequest {
    pub intention: String,
    /// Planned length in seconds.
    pub intended_duration: i64,
    pub notes: Option<String>,
    pub linear_project_id: Option<i64>,
}

/// Fields left `None` keep their current value.
#[derive(Debug, Clone)]
pub struct UpdateTimeboxRequest {
    pub intention: Option<String>,
    pub notes: Option<String>,
    pub intended_duration: Option<i64>,
}

#[derive(Debug, Clone, Copy, PartialEq, Eq, Structural)]
pub struct ReorderTimeboxRequest {
    pub id: i64,
    pub display_order: i64,
}

/// A timebox together with its sessions, newest start first, and its worked time.
#[derive(Debug, Clone)]
pub struct TimeboxWithSessions {
    pub timebox: Timebox,
    pub sessions: Vec<Session>,
    /// Seconds of work, open sessions counted up to the moment of the query.
    pub actual_duration: i128,
}

/// A session is open while it is neither stopped nor cancelled.
pub open spec fn is_open(s: Session) -> bool {
    s.stopped_at is None && s.cancelled_at is None
}

/// Every timestamp of the timebox lies in the accepted range.
pub open spec fn timebox_timestamps_valid(t: Timebox) -> bool {
    &&& valid_timestamp(t.created_at)
    &&& valid_timestamp(t.updated_at)
    &&& valid_optional_timestamp(t.started_at)
    &&& valid_optional_timestamp(t.completed_at)
    &&& valid_optional_timestamp(t.after_time_stopped_at)
    &&& valid_optional_timestamp(t.deleted_at)
    &&& valid_optional_timestamp(t.canceled_at)
    &&& valid_optional_timestamp(t.archived_at)
    &&& valid_optional_timestamp(t.finished_at)
}

/// A well-formed timebox: positive id, non-empty intention, positive duration, valid timestamps.
pub open spec fn timebox_valid(t: Timebox) -> bool {
    &&& t.id > 0
    &&& t.intention@.len() > 0
    &&& t.intended_duration > 0
    &&& timebox_timestamps_valid(t)
}

/// A well-formed session: positive id, valid timestamps, never both stopped and cancelled.
pub open spec fn session_valid(s: Session) -> bool {
    &&& s.id > 0
    &&& valid_timestamp(s.started_at)
    &&& valid_optional_timestamp(s.stopped_at)
    &&& valid_optional_timestamp(s.cancelled_at)
    &&& !(s.stopped_at is Some && s.cancelled_at is Some)
}

/// A change entry never pairs a previous intention or duration with a missing new one,
/// and records at least one field.
pub open spec fn change_valid(c: TimeboxChangeLog) -> bool {
    &&& c.id > 0
    &&& valid_timestamp(c.updated_at)
    &&& (c.previous_intention_title is Some <==> c.updated_intention_title is Some)
    &&& (c.previous_intended_duration is Some <==> c.new_intended_duration is Some)
}

pub fn copy_text(o: &Option<String>) -> (r: Option<String>)
    ensures
        r == *o,
{
    match o {
        Some(s) => Some(s.clone()),
        None => None,
    }
}

impl Timebox {
    /// A field-for-field copy.
    pub fn duplicate(&self) -> (r: Timebox)
        ensures
            r == *self,
    {
        Timebox {
            id: self.id,
            intention: self.intention.clone(),
            notes: copy_text(&self.notes),
            intended_duration: self.intended_duration,
            status: self.status,
            created_at: self.created_at,
            updated_at: self.updated_at,
            started_at: self.started_at,
            completed_at: self.completed_at,
            after_time_stopped_at: self.after_time_stopped_at,
            deleted_at: self.deleted_at,
            canceled_at: self.canceled_at,
            display_order: self.display_order,
            archived_at: self.archived_at,
            finished_at: self.finished_at,
            linear_project_id: self.linear_project_id,
            linear_issue_id: copy_text(&self.linear_issue_id),
            linear_issue_url: copy_text(&self.linear_issue_url),
        }
    }
}

impl TimeboxChangeLog {
    /// A field-for-field copy.
    pub fn duplicate(&self) -> (r: TimeboxChangeLog)
        ensures
            r == *self,
    {
        TimeboxChangeLog {
            id: self.id,
            timebox_id: self.timebox_id,
            previous_intention_title: copy_text(&self.previous_intention_title),
            updated_intention_title: copy_text(&self.updated_intention_title),
            previous_note_content: copy_text(&self.previous_note_content),
            updated_note_content: copy_text(&self.updated_note_content),
            previous_intended_duration: self.previous_intended_duration,
            new_intended_duration: self.new_intended_duration,
            updated_at: self.updated_at,
        }
    }
}

} // verus!
