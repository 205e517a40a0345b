use vstd::prelude::*;

use crate::error::TimeboxError;

verus! {

/// A wall-clock reading in local time: whole seconds since 1970-01-01 00:00:00.
pub type Timestamp = i64;

/// The last second of the year 9999, the largest reading the four-digit text form holds.
pub const MAX_TIMESTAMP: i64 = 253402300799;

/// Seconds in one calendar day.
pub const SECONDS_PER_DAY: i64 = 86400;

/// A reading inside the range the store accepts.
pub open spec fn valid_timestamp(t: i64) -> bool {
    0 <= t <= MAX_TIMESTAMP
}

pub open spec fn valid_optional_timestamp(t: Option<i64>) -> bool {
    t matches Some(v) ==> valid_timestamp(v)
}

/// The local calendar day a reading falls on, counted from 1970-01-01.
pub open spec fn day_of(t: i64) -> int {
    t as int / SECONDS_PER_DAY as int
}

pub fn is_valid_timestamp(t: i64) -> (r: bool)
    ensures
        r == valid_timestamp(t),
{
    0 <= t && t <= MAX_TIMESTAMP
}

pub fn check_optional_timestamp(t: Option<i64>) -> (r: bool)
    ensures
        r == valid_optional_timestamp(t),
{
    match t {
        Some(v) => is_valid_timestamp(v),
        None => true,
    }
}

/// The calendar day of a valid reading.
pub fn day_number(t: Timestamp) -> (r: i64)
    requires
        valid_timestamp(t),
    ensures
        r == day_of(t),
{
    t / SECONDS_PER_DAY
}

/// Relies on chrono's `From<SystemTime> for DateTime<Local>`, `DateTime::naive_local`,
/// `NaiveDateTime::and_utc` and `DateTime::timestamp`: the current local wall-clock time as
/// seconds since 1970-01-01 00:00:00. The conversion from `SystemTime` also accepts readings
/// before 1970; chrono's own limits lie hundreds of thousands of years away. The reading depends
/// on the moment of the call, so nothing is promised of it.
#[verifier::external_body]
fn local_clock_seconds() -> (r: i64) {
    chrono::DateTime::<chrono::Local>::from(std::time::SystemTime::now())
        .naive_local()
        .and_utc()
        .timestamp()
}

/// A clock reading accepted as a timestamp when it lies in the accepted range; any other
/// reading is a storage error.
pub fn checked_timestamp(t: i64) -> (r: Result<Timestamp, TimeboxError>)
    ensures
        valid_timestamp(t) ==> r == Ok::<Timestamp, TimeboxError>(t),
        !valid_timestamp(t) ==> r == Err::<Timestamp, TimeboxError>(TimeboxError::Storage),
{
    if is_valid_timestamp(t) {
        Ok(t)
    } else {
        Err(TimeboxError::Storage)
    }
}

/// Reads the local clock; a reading outside the accepted range is a storage error.
pub fn current_timestamp() -> (r: Result<Timestamp, TimeboxError>)
    ensures
        r matches Ok(t) ==> valid_timestamp(t),
        r matches Err(e) ==> e == TimeboxError::Storage,
{
    checked_timestamp(local_clock_seconds())
}

} // verus!
