use vstd::prelude::*;

use crate::error::TimeboxError;

verus! {

/// Lifecycle state of a timebox.
#[derive(Debug, Clone, Copy, PartialEq, Eq, Structural)]
pub enum TimeboxStatus {
    NotStarted,
    InProgress,
    Paused,
    Completed,
    Cancelled,
    Stopped,
}

/// The persisted text form of each status.
pub open spec fn status_text(s: TimeboxStatus) -> Seq<char> {
    match s {
        TimeboxStatus::NotStarted => "not_started"@,
        TimeboxStatus::InProgress => "in_progress"@,
        TimeboxStatus::Paused => "paused"@,
        TimeboxStatus::Completed => "completed"@,
        TimeboxStatus::Cancelled => "cancelled"@,
        TimeboxStatus::Stopped => "stopped"@,
    }
}

/// Character-wise equality of two string slices.
fn same_text(a: &str, b: &str) -> (r: bool)
    ensures
        r == (a@ == b@),
{
    let n = a.unicode_len();
    if n != b.unicode_len() {
        return false;
    }
    let mut i: usize = 0;
    while i < n
        invariant
            n == a@.len(),
            n == b@.len(),
            0 <= i <= n,
            forall|k: int| 0 <= k < i ==> a@[k] == b@[k],
        decreases n - i,
    {
        if a.get_char(i) != b.get_char(i) {
            return false;
        }
        i = i + 1;
    }
    assert(a@ =~= b@);
    true
}

impl TimeboxStatus {
    /// The text under which this status is stored.
    pub fn as_str(&self) -> (r: &'static str)
        ensures
            r@ == status_text(*self),
    {
        match self {
            TimeboxStatus::NotStarted => "not_started",
            TimeboxStatus::InProgress => "in_progress",
            TimeboxStatus::Paused => "paused",
            TimeboxStatus::Completed => "completed",
            TimeboxStatus::Cancelled => "cancelled",
            TimeboxStatus::Stopped => "stopped",
        }
    }

    /// Reads a stored status; text that names no status is a storage error.
    pub fn from_str(s: &str) -> (r: Result<TimeboxStatus, TimeboxError>)
        ensures
            r matches Ok(st) ==> status_text(st) == s@,
            r is Err <==> (forall|st: TimeboxStatus| status_text(st) != s@),
            r is Err ==> r == Err::<TimeboxStatus, TimeboxError>(TimeboxError::Storage),
    {
        let all = [
            TimeboxStatus::NotStarted,
            TimeboxStatus::InProgress,
            TimeboxStatus::Paused,
            TimeboxStatus::Completed,
            TimeboxStatus::Cancelled,
            TimeboxStatus::Stopped,
        ];
        let mut i: usize = 0;
        while i < 6
            invariant
                0 <= i <= 6,
                all@ == seq![
                    TimeboxStatus::NotStarted,
                    TimeboxStatus::InProgress,
                    TimeboxStatus::Paused,
                    TimeboxStatus::Completed,
                    TimeboxStatus::Cancelled,
                    TimeboxStatus::Stopped,
                ],
                forall|k: int| 0 <= k < i ==> status_text(all@[k]) != s@,
            decreases 6 - i,
        {
            let st = all[i];
            if same_text(st.as_str(), s) {
                return Ok(st);
            }
            i = i + 1;
        }
        assert forall|st: TimeboxStatus| status_text(st) != s@ by {
            match st {
                TimeboxStatus::NotStarted => assert(all@[0] == st),
                TimeboxStatus::InProgress => assert(all@[1] == st),
                TimeboxStatus::Paused => assert(all@[2] == st),
                TimeboxStatus::Completed => assert(all@[3] == st),
                TimeboxStatus::Cancelled => assert(all@[4] == st),
                TimeboxStatus::Stopped => assert(all@[5] == st),
            }
        }
        Err(TimeboxError::Storage)
    }
}

} // verus!
