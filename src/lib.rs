//! Timebox lifecycle and session-duration accounting.
//!
//! A timebox is a declared intention with a planned duration. Work against it is recorded as
//! sessions; its worked time is derived from them. Every transition takes the current time as
//! an argument, so the clock can be injected.
pub mod error;
pub mod integration;
pub mod laws;
pub mod ledger;
pub mod lifecycle;
pub mod model;
pub mod order;
pub mod records;
pub mod settings;
pub mod status;
pub mod store;
pub mod time;
pub mod views;

pub use error::TimeboxError;
pub use integration::{
    escape_graphql, issue_create_query, issue_create_result, issue_update_query,
    issue_update_result, join_messages, linear_test_result, list_reply, team_projects_query,
    team_states_query, teams_query, todoist_test_result, viewer_query, CreateLinearIssueRequest,
    CreateLinearIssueResult, LinearApiProject, LinearIssue, LinearProject, LinearTeam,
    LinearTestResult, LinearWorkflowState, SaveLinearProjectRequest, TodoistTestResult,
};
pub use ledger::{actual_duration, SessionEnd};
pub use model::{
    CreateTimeboxRequest, ReorderTimeboxRequest, Session, Timebox, TimeboxChangeLog,
    TimeboxWithSessions, UpdateTimeboxRequest,
};
pub use settings::{parse_i32, IdleSettings};
pub use status::TimeboxStatus;
pub use store::{
    archive_timebox, cancel_session, cancel_timebox, create_timebox, delete_timebox,
    finish_timebox, get_active_session_for_timebox, pause_timebox, reorder_timeboxes,
    start_timebox, stop_session, stop_timebox, stop_timebox_after_time, unarchive_timebox,
    update_timebox, TimeboxStore,
};
pub use time::{checked_timestamp, current_timestamp, Timestamp};
pub use views::{
    get_active_timeboxes, get_archived_timeboxes, get_sessions_for_timebox,
    get_timebox_change_log, get_today_timeboxes, TimeboxView,
};
