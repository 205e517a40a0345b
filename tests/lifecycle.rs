use timeboxd::{
    actual_duration, archive_timebox, cancel_session, cancel_timebox, create_timebox,
    delete_timebox, finish_timebox, get_active_session_for_timebox, get_active_timeboxes,
    get_archived_timeboxes, get_sessions_for_timebox, get_timebox_change_log,
    get_today_timeboxes, pause_timebox, reorder_timeboxes, start_timebox, stop_session,
    stop_timebox, stop_timebox_after_time, unarchive_timebox, update_timebox,
    CreateTimeboxRequest, ReorderTimeboxRequest, Session, TimeboxError, TimeboxStatus,
    TimeboxStore, UpdateTimeboxRequest,
};

/// 2024-01-01 00:00:00 local time.
const DAY: i64 = 1704067200;

fn at(hour: i64, minute: i64) -> i64 {
    DAY + hour * 3600 + minute * 60
}

fn request(intention: &str, seconds: i64, notes: Option<&str>) -> CreateTimeboxRequest {
    CreateTimeboxRequest {
        intention: intention.to_string(),
        intended_duration: seconds,
        notes: notes.map(|n| n.to_string()),
        linear_project_id: None,
    }
}

fn store_with(intention: &str, now: i64) -> (TimeboxStore, i64) {
    let mut store = TimeboxStore::new();
    let t = create_timebox(&mut store, request(intention, 1800, None), now).unwrap();
    (store, t.id)
}

#[test]
fn create_starts_not_started_without_sessions() {
    let (store, id) = store_with("Write code", at(9, 0));
    let t = &store.timeboxes[0];
    assert_eq!(id, 1);
    assert_eq!(t.status, TimeboxStatus::NotStarted);
    assert_eq!(t.intention, "Write code");
    assert_eq!(t.intended_duration, 1800);
    assert_eq!(t.created_at, at(9, 0));
    assert_eq!(t.updated_at, at(9, 0));
    assert!(t.started_at.is_none() && t.completed_at.is_none() && t.deleted_at.is_none());
    assert!(get_sessions_for_timebox(&store, id).is_empty());
}

#[test]
fn create_assigns_increasing_ids() {
    let mut store = TimeboxStore::new();
    let a = create_timebox(&mut store, request("a", 60, None), at(9, 0)).unwrap();
    let b = create_timebox(&mut store, request("b", 60, Some("n")), at(9, 1)).unwrap();
    assert_eq!((a.id, b.id), (1, 2));
    assert_eq!(b.notes.as_deref(), Some("n"));
}

#[test]
fn create_rejects_empty_intention() {
    let mut store = TimeboxStore::new();
    let r = create_timebox(&mut store, request("", 60, None), at(9, 0));
    assert_eq!(r.unwrap_err(), TimeboxError::Validation);
    assert!(store.timeboxes.is_empty());
}

#[test]
fn create_rejects_non_positive_duration() {
    let mut store = TimeboxStore::new();
    assert_eq!(
        create_timebox(&mut store, request("x", 0, None), at(9, 0)).unwrap_err(),
        TimeboxError::Validation
    );
    assert_eq!(
        create_timebox(&mut store, request("x", -5, None), at(9, 0)).unwrap_err(),
        TimeboxError::Validation
    );
}

#[test]
fn start_sets_first_start_and_opens_session() {
    let (mut store, id) = store_with("Focus", at(9, 0));
    let t = start_timebox(&mut store, id, at(10, 0)).unwrap();
    assert_eq!(t.status, TimeboxStatus::InProgress);
    assert_eq!(t.started_at, Some(at(10, 0)));
    let open = get_active_session_for_timebox(&store, id).unwrap();
    assert_eq!(open.started_at, at(10, 0));
    assert_eq!(open.timebox_id, id);
}

#[test]
fn start_unknown_id_is_not_found() {
    let (mut store, _) = store_with("Focus", at(9, 0));
    assert_eq!(start_timebox(&mut store, 42, at(10, 0)).unwrap_err(), TimeboxError::NotFound);
}

#[test]
fn start_while_open_is_conflict() {
    let (mut store, id) = store_with("Focus", at(9, 0));
    start_timebox(&mut store, id, at(10, 0)).unwrap();
    assert_eq!(start_timebox(&mut store, id, at(10, 1)).unwrap_err(), TimeboxError::Conflict);
    assert_eq!(get_sessions_for_timebox(&store, id).len(), 1);
}

#[test]
fn at_most_one_open_session_through_a_lifecycle() {
    let (mut store, id) = store_with("Focus", at(9, 0));
    start_timebox(&mut store, id, at(10, 0)).unwrap();
    pause_timebox(&mut store, id, at(10, 5)).unwrap();
    start_timebox(&mut store, id, at(10, 10)).unwrap();
    stop_timebox(&mut store, id, at(10, 20)).unwrap();
    start_timebox(&mut store, id, at(10, 30)).unwrap();
    let open = store
        .sessions
        .iter()
        .filter(|s| s.timebox_id == id && s.stopped_at.is_none() && s.cancelled_at.is_none())
        .count();
    assert_eq!(open, 1);
    assert_eq!(store.sessions.len(), 3);
}

#[test]
fn duration_counts_open_session_up_to_now() {
    let sessions = vec![
        Session { id: 1, timebox_id: 1, started_at: at(10, 0), stopped_at: Some(at(10, 5)), cancelled_at: None },
        Session { id: 2, timebox_id: 1, started_at: at(10, 10), stopped_at: None, cancelled_at: None },
    ];
    assert_eq!(actual_duration(&sessions, 1, at(10, 12)), 420);
}

#[test]
fn duration_through_store_transitions() {
    let (mut store, id) = store_with("Focus", at(9, 0));
    start_timebox(&mut store, id, at(10, 0)).unwrap();
    pause_timebox(&mut store, id, at(10, 5)).unwrap();
    start_timebox(&mut store, id, at(10, 10)).unwrap();
    let rows = get_today_timeboxes(&store, at(10, 12));
    assert_eq!(rows.len(), 1);
    assert_eq!(rows[0].actual_duration, 420);
    assert_eq!(rows[0].sessions.len(), 2);
}

#[test]
fn duration_ignores_other_timeboxes() {
    let sessions = vec![
        Session { id: 1, timebox_id: 1, started_at: at(10, 0), stopped_at: Some(at(10, 5)), cancelled_at: None },
        Session { id: 2, timebox_id: 2, started_at: at(10, 0), stopped_at: Some(at(11, 0)), cancelled_at: None },
    ];
    assert_eq!(actual_duration(&sessions, 1, at(12, 0)), 300);
    assert_eq!(actual_duration(&sessions, 3, at(12, 0)), 0);
}

#[test]
fn cancelled_session_contributes_nothing() {
    let sessions = vec![
        Session { id: 1, timebox_id: 1, started_at: at(10, 0), stopped_at: Some(at(10, 5)), cancelled_at: None },
        Session { id: 2, timebox_id: 1, started_at: at(10, 10), stopped_at: None, cancelled_at: Some(at(10, 40)) },
    ];
    assert_eq!(actual_duration(&sessions, 1, at(11, 0)), 300);
}

#[test]
fn cancel_timebox_cancels_open_session() {
    let (mut store, id) = store_with("Focus", at(9, 0));
    start_timebox(&mut store, id, at(10, 0)).unwrap();
    let t = cancel_timebox(&mut store, id, at(10, 30)).unwrap();
    assert_eq!(t.status, TimeboxStatus::Cancelled);
    assert_eq!(t.canceled_at, Some(at(10, 30)));
    let s = store.sessions[0];
    assert_eq!(s.cancelled_at, Some(at(10, 30)));
    assert!(s.stopped_at.is_none());
    assert_eq!(actual_duration(&store.sessions, id, at(11, 0)), 0);
}

#[test]
fn cancel_session_keeps_it_out_of_duration() {
    let (mut store, id) = store_with("Focus", at(9, 0));
    start_timebox(&mut store, id, at(10, 0)).unwrap();
    let sid = get_active_session_for_timebox(&store, id).unwrap().id;
    let s = cancel_session(&mut store, sid, at(10, 20)).unwrap();
    assert_eq!(s.cancelled_at, Some(at(10, 20)));
    assert!(get_active_session_for_timebox(&store, id).is_none());
    assert_eq!(actual_duration(&store.sessions, id, at(11, 0)), 0);
}

#[test]
fn stop_session_on_closed_session_changes_nothing() {
    let (mut store, id) = store_with("Focus", at(9, 0));
    start_timebox(&mut store, id, at(10, 0)).unwrap();
    let sid = store.sessions[0].id;
    let first = stop_session(&mut store, sid, at(10, 5)).unwrap();
    let second = stop_session(&mut store, sid, at(10, 9)).unwrap();
    assert_eq!(first.stopped_at, Some(at(10, 5)));
    assert_eq!(second, first);
    assert_eq!(stop_session(&mut store, 99, at(10, 9)).unwrap_err(), TimeboxError::NotFound);
}

#[test]
fn stop_twice_does_not_fail() {
    let (mut store, id) = store_with("Focus", at(9, 0));
    start_timebox(&mut store, id, at(10, 0)).unwrap();
    stop_timebox(&mut store, id, at(10, 5)).unwrap();
    let t = stop_timebox(&mut store, id, at(10, 6)).unwrap();
    assert_eq!(t.status, TimeboxStatus::Stopped);
    assert_eq!(t.completed_at, Some(at(10, 6)));
    assert_eq!(store.sessions[0].stopped_at, Some(at(10, 5)));
}

#[test]
fn pause_stops_open_session() {
    let (mut store, id) = store_with("Focus", at(9, 0));
    start_timebox(&mut store, id, at(10, 0)).unwrap();
    let t = pause_timebox(&mut store, id, at(10, 7)).unwrap();
    assert_eq!(t.status, TimeboxStatus::Paused);
    assert_eq!(store.sessions[0].stopped_at, Some(at(10, 7)));
    assert!(t.completed_at.is_none());
}

#[test]
fn update_with_identical_values_writes_no_entry() {
    let mut store = TimeboxStore::new();
    let t = create_timebox(&mut store, request("Plan", 900, Some("n")), at(9, 0)).unwrap();
    let r = update_timebox(
        &mut store,
        t.id,
        UpdateTimeboxRequest {
            intention: Some("Plan".to_string()),
            notes: Some("n".to_string()),
            intended_duration: Some(900),
        },
        at(9, 30),
    )
    .unwrap();
    assert!(get_timebox_change_log(&store, t.id).is_empty());
    assert_eq!(r.updated_at, at(9, 0));
}

#[test]
fn update_notes_only_writes_one_entry() {
    let mut store = TimeboxStore::new();
    let t = create_timebox(&mut store, request("Plan", 900, Some("old")), at(9, 0)).unwrap();
    let r = update_timebox(
        &mut store,
        t.id,
        UpdateTimeboxRequest { intention: None, notes: Some("new".to_string()), intended_duration: None },
        at(9, 30),
    )
    .unwrap();
    assert_eq!(r.notes.as_deref(), Some("new"));
    assert_eq!(r.updated_at, at(9, 30));
    let log = get_timebox_change_log(&store, t.id);
    assert_eq!(log.len(), 1);
    let e = &log[0];
    assert!(e.previous_intention_title.is_none() && e.updated_intention_title.is_none());
    assert!(e.previous_intended_duration.is_none() && e.new_intended_duration.is_none());
    assert_eq!(e.previous_note_content.as_deref(), Some("old"));
    assert_eq!(e.updated_note_content.as_deref(), Some("new"));
    assert_eq!(e.updated_at, at(9, 30));
}

#[test]
fn update_all_fields_records_pairs() {
    let mut store = TimeboxStore::new();
    let t = create_timebox(&mut store, request("Plan", 900, None), at(9, 0)).unwrap();
    update_timebox(
        &mut store,
        t.id,
        UpdateTimeboxRequest {
            intention: Some("Write".to_string()),
            notes: Some("n".to_string()),
            intended_duration: Some(1200),
        },
        at(9, 10),
    )
    .unwrap();
    let e = &get_timebox_change_log(&store, t.id)[0];
    assert_eq!(e.previous_intention_title.as_deref(), Some("Plan"));
    assert_eq!(e.updated_intention_title.as_deref(), Some("Write"));
    assert_eq!(e.previous_note_content, None);
    assert_eq!(e.updated_note_content.as_deref(), Some("n"));
    assert_eq!(e.previous_intended_duration, Some(900));
    assert_eq!(e.new_intended_duration, Some(1200));
    assert_eq!(store.timeboxes[0].intention, "Write");
    assert_eq!(store.timeboxes[0].intended_duration, 1200);
}

#[test]
fn update_rejects_malformed_values() {
    let (mut store, id) = store_with("Plan", at(9, 0));
    let empty = UpdateTimeboxRequest { intention: Some(String::new()), notes: None, intended_duration: None };
    assert_eq!(update_timebox(&mut store, id, empty, at(9, 1)).unwrap_err(), TimeboxError::Validation);
    let zero = UpdateTimeboxRequest { intention: None, notes: None, intended_duration: Some(0) };
    assert_eq!(update_timebox(&mut store, id, zero, at(9, 1)).unwrap_err(), TimeboxError::Validation);
    let fine = UpdateTimeboxRequest { intention: None, notes: None, intended_duration: Some(60) };
    assert_eq!(update_timebox(&mut store, 7, fine, at(9, 1)).unwrap_err(), TimeboxError::NotFound);
}

#[test]
fn change_log_lists_most_recent_first() {
    let (mut store, id) = store_with("Plan", at(9, 0));
    for (k, d) in [(1, 100), (2, 200), (3, 300)] {
        let req = UpdateTimeboxRequest { intention: None, notes: None, intended_duration: Some(d) };
        update_timebox(&mut store, id, req, at(9, k)).unwrap();
    }
    let log = get_timebox_change_log(&store, id);
    let times: Vec<i64> = log.iter().map(|e| e.updated_at).collect();
    assert_eq!(times, vec![at(9, 3), at(9, 2), at(9, 1)]);
}

#[test]
fn restart_keeps_first_start_and_returns_to_active() {
    let (mut store, id) = store_with("Focus", at(9, 0));
    start_timebox(&mut store, id, at(10, 0)).unwrap();
    let stopped = stop_timebox(&mut store, id, at(10, 20)).unwrap();
    assert_eq!(stopped.completed_at, Some(at(10, 20)));
    assert!(get_active_timeboxes(&store, at(10, 21)).is_empty());
    let t = start_timebox(&mut store, id, at(10, 30)).unwrap();
    assert_eq!(t.started_at, Some(at(10, 0)));
    assert!(t.completed_at.is_none());
    assert_eq!(get_active_session_for_timebox(&store, id).unwrap().started_at, at(10, 30));
    let active = get_active_timeboxes(&store, at(10, 31));
    assert_eq!(active.len(), 1);
    assert_eq!(active[0].timebox.id, id);
}

#[test]
fn finish_and_expiry_set_distinct_markers() {
    let mut store = TimeboxStore::new();
    let a = create_timebox(&mut store, request("a", 60, None), at(9, 0)).unwrap().id;
    let b = create_timebox(&mut store, request("b", 60, None), at(9, 0)).unwrap().id;
    start_timebox(&mut store, a, at(10, 0)).unwrap();
    start_timebox(&mut store, b, at(10, 0)).unwrap();
    let f = finish_timebox(&mut store, a, at(10, 30)).unwrap();
    let e = stop_timebox_after_time(&mut store, b, at(10, 31)).unwrap();
    assert_eq!(f.status, TimeboxStatus::Completed);
    assert_eq!(e.status, TimeboxStatus::Completed);
    assert_eq!(f.finished_at, Some(at(10, 30)));
    assert!(f.after_time_stopped_at.is_none());
    assert_eq!(e.after_time_stopped_at, Some(at(10, 31)));
    assert!(e.finished_at.is_none());
    assert_eq!(f.completed_at, Some(at(10, 30)));
    assert_eq!(e.completed_at, Some(at(10, 31)));
}

#[test]
fn soft_delete_hides_from_views_but_keeps_history() {
    let (mut store, id) = store_with("Focus", at(9, 0));
    start_timebox(&mut store, id, at(10, 0)).unwrap();
    let req = UpdateTimeboxRequest { intention: Some("Deep focus".to_string()), notes: None, intended_duration: None };
    update_timebox(&mut store, id, req, at(10, 1)).unwrap();
    let d = delete_timebox(&mut store, id, at(10, 2)).unwrap();
    assert_eq!(d.deleted_at, Some(at(10, 2)));
    assert_eq!(d.status, TimeboxStatus::InProgress);
    assert!(get_today_timeboxes(&store, at(10, 3)).is_empty());
    assert!(get_active_timeboxes(&store, at(10, 3)).is_empty());
    assert!(get_archived_timeboxes(&store, at(10, 3)).is_empty());
    assert_eq!(get_sessions_for_timebox(&store, id).len(), 1);
    assert_eq!(get_timebox_change_log(&store, id).len(), 1);
    assert_eq!(store.timeboxes.len(), 1);
    assert_eq!(delete_timebox(&mut store, id, at(10, 4)).unwrap_err(), TimeboxError::NotFound);
    assert_eq!(start_timebox(&mut store, id, at(10, 4)).unwrap_err(), TimeboxError::NotFound);
}

#[test]
fn reorder_duplicate_id_last_value_wins() {
    let mut store = TimeboxStore::new();
    let a = create_timebox(&mut store, request("a", 60, None), at(9, 0)).unwrap().id;
    let b = create_timebox(&mut store, request("b", 60, None), at(9, 1)).unwrap().id;
    let orders = vec![
        ReorderTimeboxRequest { id: a, display_order: 5 },
        ReorderTimeboxRequest { id: b, display_order: 1 },
        ReorderTimeboxRequest { id: a, display_order: 0 },
    ];
    reorder_timeboxes(&mut store, orders, at(9, 5)).unwrap();
    assert_eq!(store.timeboxes[0].display_order, Some(0));
    assert_eq!(store.timeboxes[1].display_order, Some(1));
    assert_eq!(store.timeboxes[0].updated_at, at(9, 5));
}

#[test]
fn reorder_with_unknown_id_changes_nothing() {
    let mut store = TimeboxStore::new();
    let a = create_timebox(&mut store, request("a", 60, None), at(9, 0)).unwrap().id;
    let orders = vec![
        ReorderTimeboxRequest { id: a, display_order: 3 },
        ReorderTimeboxRequest { id: 77, display_order: 1 },
    ];
    assert_eq!(reorder_timeboxes(&mut store, orders, at(9, 5)).unwrap_err(), TimeboxError::NotFound);
    assert_eq!(store.timeboxes[0].display_order, None);
}

#[test]
fn today_orders_by_display_order_then_newest() {
    let mut store = TimeboxStore::new();
    let a = create_timebox(&mut store, request("a", 60, None), at(9, 0)).unwrap().id;
    let b = create_timebox(&mut store, request("b", 60, None), at(9, 1)).unwrap().id;
    let c = create_timebox(&mut store, request("c", 60, None), at(9, 2)).unwrap().id;
    let d = create_timebox(&mut store, request("d", 60, None), at(9, 3)).unwrap().id;
    let orders = vec![
        ReorderTimeboxRequest { id: c, display_order: 2 },
        ReorderTimeboxRequest { id: a, display_order: 1 },
    ];
    reorder_timeboxes(&mut store, orders, at(9, 4)).unwrap();
    let ids: Vec<i64> = get_today_timeboxes(&store, at(12, 0)).iter().map(|w| w.timebox.id).collect();
    assert_eq!(ids, vec![a, c, d, b]);
}

#[test]
fn today_excludes_other_days() {
    let mut store = TimeboxStore::new();
    create_timebox(&mut store, request("yesterday", 60, None), at(9, 0) - 86400).unwrap();
    let t = create_timebox(&mut store, request("today", 60, None), at(0, 0)).unwrap();
    let rows = get_today_timeboxes(&store, at(23, 59));
    assert_eq!(rows.len(), 1);
    assert_eq!(rows[0].timebox.id, t.id);
}

#[test]
fn archive_moves_between_views() {
    let mut store = TimeboxStore::new();
    let a = create_timebox(&mut store, request("a", 60, None), at(9, 0)).unwrap().id;
    let b = create_timebox(&mut store, request("b", 60, None), at(9, 0)).unwrap().id;
    archive_timebox(&mut store, a, at(10, 0)).unwrap();
    archive_timebox(&mut store, b, at(10, 5)).unwrap();
    assert!(get_today_timeboxes(&store, at(11, 0)).is_empty());
    let ids: Vec<i64> = get_archived_timeboxes(&store, at(11, 0)).iter().map(|w| w.timebox.id).collect();
    assert_eq!(ids, vec![b, a]);
    let t = unarchive_timebox(&mut store, a, at(11, 0)).unwrap();
    assert!(t.archived_at.is_none());
    assert_eq!(get_today_timeboxes(&store, at(11, 1)).len(), 1);
    assert_eq!(get_archived_timeboxes(&store, at(11, 1)).len(), 1);
}

#[test]
fn active_orders_newest_created_first() {
    let mut store = TimeboxStore::new();
    let a = create_timebox(&mut store, request("a", 60, None), at(9, 0)).unwrap().id;
    let b = create_timebox(&mut store, request("b", 60, None), at(9, 5)).unwrap().id;
    let c = create_timebox(&mut store, request("c", 60, None), at(9, 6)).unwrap().id;
    start_timebox(&mut store, a, at(10, 0)).unwrap();
    start_timebox(&mut store, b, at(10, 0)).unwrap();
    start_timebox(&mut store, c, at(10, 0)).unwrap();
    cancel_timebox(&mut store, c, at(10, 1)).unwrap();
    let ids: Vec<i64> = get_active_timeboxes(&store, at(10, 2)).iter().map(|w| w.timebox.id).collect();
    assert_eq!(ids, vec![b, a]);
}

#[test]
fn sessions_listed_newest_start_first() {
    let (mut store, id) = store_with("Focus", at(9, 0));
    start_timebox(&mut store, id, at(10, 0)).unwrap();
    pause_timebox(&mut store, id, at(10, 5)).unwrap();
    start_timebox(&mut store, id, at(10, 10)).unwrap();
    pause_timebox(&mut store, id, at(10, 15)).unwrap();
    let starts: Vec<i64> = get_sessions_for_timebox(&store, id).iter().map(|s| s.started_at).collect();
    assert_eq!(starts, vec![at(10, 10), at(10, 0)]);
}

#[test]
fn pause_requires_an_active_timebox() {
    let (mut store, id) = store_with("Focus", at(9, 0));
    assert_eq!(pause_timebox(&mut store, id, at(9, 1)).unwrap_err(), TimeboxError::NotFound);
    assert_eq!(store.timeboxes[0].status, TimeboxStatus::NotStarted);
    start_timebox(&mut store, id, at(10, 0)).unwrap();
    stop_timebox(&mut store, id, at(10, 5)).unwrap();
    assert_eq!(pause_timebox(&mut store, id, at(10, 6)).unwrap_err(), TimeboxError::NotFound);
    assert_eq!(store.timeboxes[0].status, TimeboxStatus::Stopped);
    start_timebox(&mut store, id, at(10, 10)).unwrap();
    cancel_timebox(&mut store, id, at(10, 11)).unwrap();
    assert_eq!(pause_timebox(&mut store, id, at(10, 12)).unwrap_err(), TimeboxError::NotFound);
    assert_eq!(store.timeboxes[0].status, TimeboxStatus::Cancelled);
}

#[test]
fn pause_twice_keeps_the_first_stop() {
    let (mut store, id) = store_with("Focus", at(9, 0));
    start_timebox(&mut store, id, at(10, 0)).unwrap();
    pause_timebox(&mut store, id, at(10, 5)).unwrap();
    let t = pause_timebox(&mut store, id, at(10, 8)).unwrap();
    assert_eq!(t.status, TimeboxStatus::Paused);
    assert_eq!(store.sessions[0].stopped_at, Some(at(10, 5)));
}
