use timeboxd::{checked_timestamp, current_timestamp, TimeboxError, TimeboxStatus};

#[test]
fn status_text_round_trips() {
    let all = [
        TimeboxStatus::NotStarted,
        TimeboxStatus::InProgress,
        TimeboxStatus::Paused,
        TimeboxStatus::Completed,
        TimeboxStatus::Cancelled,
        TimeboxStatus::Stopped,
    ];
    for s in all {
        assert_eq!(TimeboxStatus::from_str(s.as_str()), Ok(s));
    }
}

#[test]
fn status_texts_are_the_stored_names() {
    assert_eq!(TimeboxStatus::NotStarted.as_str(), "not_started");
    assert_eq!(TimeboxStatus::InProgress.as_str(), "in_progress");
    assert_eq!(TimeboxStatus::Paused.as_str(), "paused");
    assert_eq!(TimeboxStatus::Completed.as_str(), "completed");
    assert_eq!(TimeboxStatus::Cancelled.as_str(), "cancelled");
    assert_eq!(TimeboxStatus::Stopped.as_str(), "stopped");
}

#[test]
fn unknown_status_text_is_a_storage_error() {
    assert_eq!(TimeboxStatus::from_str("done"), Err(TimeboxError::Storage));
    assert_eq!(TimeboxStatus::from_str(""), Err(TimeboxError::Storage));
    assert_eq!(TimeboxStatus::from_str("Paused"), Err(TimeboxError::Storage));
}

#[test]
fn clock_reads_a_recent_time() {
    let now = current_timestamp().unwrap();
    // 2020-01-01 00:00:00
    assert!(now > 1577836800);
}

#[test]
fn clock_readings_outside_the_range_are_storage_errors() {
    assert_eq!(checked_timestamp(1704103200), Ok(1704103200));
    assert_eq!(checked_timestamp(0), Ok(0));
    assert_eq!(checked_timestamp(253402300799), Ok(253402300799));
    assert_eq!(checked_timestamp(253402300800), Err(TimeboxError::Storage));
    assert_eq!(checked_timestamp(-1), Err(TimeboxError::Storage));
}
