use timeboxd::{
    create_timebox, start_timebox, CreateTimeboxRequest, Session, TimeboxError, TimeboxStore,
};

const T0: i64 = 1704103200;

fn sample() -> TimeboxStore {
    let mut store = TimeboxStore::new();
    let req = CreateTimeboxRequest {
        intention: "Write".to_string(),
        intended_duration: 600,
        notes: None,
        linear_project_id: None,
    };
    let id = create_timebox(&mut store, req, T0).unwrap().id;
    start_timebox(&mut store, id, T0 + 60).unwrap();
    store
}

#[test]
fn records_round_trip_through_loader() {
    let s = sample();
    let loaded =
        TimeboxStore::from_records(s.timeboxes.clone(), s.sessions.clone(), s.change_log.clone())
            .unwrap();
    assert_eq!(loaded.timeboxes.len(), 1);
    assert_eq!(loaded.sessions, s.sessions);
    assert_eq!(loaded.next_timebox_id, 2);
    assert_eq!(loaded.next_session_id, 2);
    assert_eq!(loaded.next_change_id, 1);
}

#[test]
fn loader_rejects_two_open_sessions() {
    let s = sample();
    let mut sessions = s.sessions.clone();
    sessions.push(Session { id: 9, timebox_id: 1, started_at: T0 + 120, stopped_at: None, cancelled_at: None });
    let r = TimeboxStore::from_records(s.timeboxes.clone(), sessions, Vec::new());
    assert_eq!(r.err(), Some(TimeboxError::Storage));
}

#[test]
fn loader_rejects_orphan_session() {
    let s = sample();
    let orphan = vec![Session { id: 1, timebox_id: 5, started_at: T0, stopped_at: Some(T0 + 1), cancelled_at: None }];
    let r = TimeboxStore::from_records(s.timeboxes.clone(), orphan, Vec::new());
    assert_eq!(r.err(), Some(TimeboxError::Storage));
}

#[test]
fn loader_rejects_duplicate_timebox_ids() {
    let s = sample();
    let mut tbs = s.timeboxes.clone();
    tbs.push(s.timeboxes[0].clone());
    let r = TimeboxStore::from_records(tbs, Vec::new(), Vec::new());
    assert_eq!(r.err(), Some(TimeboxError::Storage));
}

#[test]
fn loader_rejects_stopped_and_cancelled_session() {
    let s = sample();
    let both = vec![Session { id: 1, timebox_id: 1, started_at: T0, stopped_at: Some(T0 + 1), cancelled_at: Some(T0 + 2) }];
    let r = TimeboxStore::from_records(s.timeboxes.clone(), both, Vec::new());
    assert_eq!(r.err(), Some(TimeboxError::Storage));
}

#[test]
fn loader_rejects_empty_intention() {
    let s = sample();
    let mut tbs = s.timeboxes.clone();
    tbs[0].intention = String::new();
    let r = TimeboxStore::from_records(tbs, Vec::new(), Vec::new());
    assert_eq!(r.err(), Some(TimeboxError::Storage));
}
