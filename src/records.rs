use vstd::prelude::*;

use crate::error::TimeboxError;
use crate::model::{
    change_valid, is_open, session_valid, timebox_valid, Session, Timebox, TimeboxChangeLog,
};
use crate::store::{changes_wf, owns, sessions_wf, single_open_session, timeboxes_wf, TimeboxStore};
use crate::time::{check_optional_timestamp, is_valid_timestamp};

verus! {

/// Rows read back from storage form a consistent store: every record well formed, identifiers
/// distinct and below the largest `i64`, every session and change entry owned by a stored
/// timebox, and at most one open session per timebox.
pub open spec fn records_consistent(
    tbs: Seq<Timebox>,
    ss: Seq<Session>,
    cl: Seq<TimeboxChangeLog>,
) -> bool {
    &&& timeboxes_wf(tbs, i64::MAX)
    &&& sessions_wf(ss, tbs, i64::MAX)
    &&& changes_wf(cl, tbs, i64::MAX)
}

/// Whether the identifiers are pairwise distinct.
fn distinct_ids(ids: &Vec<i64>) -> (r: bool)
    ensures
        r == forall|i: int, j: int|
            #![trigger ids@[i], ids@[j]]
            0 <= i < ids@.len() && 0 <= j < ids@.len() && i != j ==> ids@[i] != ids@[j],
{
    let mut i: usize = 0;
    while i < ids.len()
        invariant
            0 <= i <= ids@.len(),
            forall|a: int, b: int|
                #![trigger ids@[a], ids@[b]]
                0 <= a < i && 0 <= b < ids@.len() && a != b ==> ids@[a] != ids@[b],
        decreases ids@.len() - i,
    {
        let mut j: usize = 0;
        while j < ids.len()
            invariant
                0 <= i < ids@.len(),
                0 <= j <= ids@.len(),
                forall|a: int, b: int|
                    #![trigger ids@[a], ids@[b]]
                    0 <= a < i && 0 <= b < ids@.len() && a != b ==> ids@[a] != ids@[b],
                forall|b: int| 0 <= b < j && b != i ==> ids@[i as int] != #[trigger] ids@[b],
            decreases ids@.len() - j,
        {
            if j != i && ids[i] == ids[j] {
                return false;
            }
            j = j + 1;
        }
        i = i + 1;
    }
    true
}

fn timebox_ok(t: &Timebox) -> (r: bool)
    ensures
        r == (timebox_valid(*t) && t.id < i64::MAX),
{
    t.id > 0 && t.id < i64::MAX && t.intention.as_str().unicode_len() > 0 && t.intended_duration
        > 0 && is_valid_timestamp(t.created_at) && is_valid_timestamp(t.updated_at)
        && check_optional_timestamp(t.started_at) && check_optional_timestamp(t.completed_at)
        && check_optional_timestamp(t.after_time_stopped_at) && check_optional_timestamp(
        t.deleted_at,
    ) && check_optional_timestamp(t.canceled_at) && check_optional_timestamp(t.archived_at)
        && check_optional_timestamp(t.finished_at)
}

fn session_ok(s: &Session) -> (r: bool)
    ensures
        r == (session_valid(*s) && s.id < i64::MAX),
{
    s.id > 0 && s.id < i64::MAX && is_valid_timestamp(s.started_at) && check_optional_timestamp(
        s.stopped_at,
    ) && check_optional_timestamp(s.cancelled_at) && !(s.stopped_at.is_some()
        && s.cancelled_at.is_some())
}

fn change_ok(c: &TimeboxChangeLog) -> (r: bool)
    ensures
        r == (change_valid(*c) && c.id < i64::MAX),
{
    c.id > 0 && c.id < i64::MAX && is_valid_timestamp(c.updated_at) && (
    c.previous_intention_title.is_some() == c.updated_intention_title.is_some()) && (
    c.previous_intended_duration.is_some() == c.new_intended_duration.is_some())
}

/// Whether some timebox carries identifier `id`.
fn owned(tbs: &Vec<Timebox>, id: i64) -> (r: bool)
    ensures
        r == owns(tbs@, id),
{
    let mut k: usize = 0;
    while k < tbs.len()
        invariant
            0 <= k <= tbs@.len(),
            forall|j: int| 0 <= j < k ==> #[trigger] tbs@[j].id != id,
        decreases tbs@.len() - k,
    {
        if tbs[k].id == id {
            return true;
        }
        k = k + 1;
    }
    false
}

/// Whether no timebox has two open sessions.
fn one_open_each(ss: &Vec<Session>) -> (r: bool)
    ensures
        r == single_open_session(ss@),
{
    let mut i: usize = 0;
    while i < ss.len()
        invariant
            0 <= i <= ss@.len(),
            forall|a: int, b: int|
                #![trigger ss@[a], ss@[b]]
                0 <= a < i && 0 <= b < ss@.len() && a != b && is_open(ss@[a]) && is_open(ss@[b])
                    ==> ss@[a].timebox_id != ss@[b].timebox_id,
        decreases ss@.len() - i,
    {
        let mut j: usize = 0;
        while j < ss.len()
            invariant
                0 <= i < ss@.len(),
                0 <= j <= ss@.len(),
                forall|a: int, b: int|
                    #![trigger ss@[a], ss@[b]]
                    0 <= a < i && 0 <= b < ss@.len() && a != b && is_open(ss@[a]) && is_open(
                        ss@[b],
                    ) ==> ss@[a].timebox_id != ss@[b].timebox_id,
                forall|b: int|
                    0 <= b < j && b != i && is_open(ss@[i as int]) && is_open(#[trigger] ss@[b])
                        ==> ss@[i as int].timebox_id != ss@[b].timebox_id,
            decreases ss@.len() - j,
        {
            let a = ss[i];
            let b = ss[j];
            if j != i && a.stopped_at.is_none() && a.cancelled_at.is_none() && b.stopped_at.is_none()
                && b.cancelled_at.is_none() && a.timebox_id == b.timebox_id {
                return false;
            }
            j = j + 1;
        }
        i = i + 1;
    }
    true
}

impl TimeboxStore {
    /// Rebuilds a store from rows read back from storage. Rows that are not consistent are a
    /// storage error; otherwise the store holds exactly the given rows, and each identifier
    /// counter starts past the largest identifier in use.
    pub fn from_records(
        timeboxes: Vec<Timebox>,
        sessions: Vec<Session>,
        change_log: Vec<TimeboxChangeLog>,
    ) -> (r: Result<TimeboxStore, TimeboxError>)
        ensures
            r is Ok <==> records_consistent(timeboxes@, sessions@, change_log@),
            r matches Ok(s) ==> s.wf() && s.timeboxes@ == timeboxes@ && s.sessions@ == sessions@
                && s.change_log@ == change_log@,
            r is Err ==> r == Err::<TimeboxStore, TimeboxError>(TimeboxError::Storage),
    {
        let ghost tbs = timeboxes@;
        let ghost ss = sessions@;
        let ghost cl = change_log@;
        let mut tb_ids: Vec<i64> = Vec::new();
        let mut next_tb: i64 = 1;
        let mut k: usize = 0;
        while k < timeboxes.len()
            invariant
                0 <= k <= tbs.len(),
                tbs == timeboxes@,
                tb_ids@.len() == k,
                forall|j: int| 0 <= j < k ==> #[trigger] tb_ids@[j] == tbs[j].id,
                forall|j: int| 0 <= j < k ==> timebox_valid(#[trigger] tbs[j]) && tbs[j].id < next_tb,
                1 <= next_tb <= i64::MAX,
            decreases tbs.len() - k,
        {
            if !timebox_ok(&timeboxes[k]) {
                return Err(TimeboxError::Storage);
            }
            let id = timeboxes[k].id;
            tb_ids.push(id);
            if id >= next_tb {
                next_tb = id + 1;
            }
            k = k + 1;
        }
        if !distinct_ids(&tb_ids) {
            proof {
                let (a, b) = choose|a: int, b: int|
                    #![trigger tb_ids@[a], tb_ids@[b]]
                    0 <= a < tb_ids@.len() && 0 <= b < tb_ids@.len() && a != b && !(tb_ids@[a]
                        != tb_ids@[b]);
                assert(tbs[a].id == tbs[b].id);
            }
            return Err(TimeboxError::Storage);
        }
        let mut s_ids: Vec<i64> = Vec::new();
        let mut next_s: i64 = 1;
        let mut k: usize = 0;
        while k < sessions.len()
            invariant
                0 <= k <= ss.len(),
                ss == sessions@,
                tbs == timeboxes@,
                s_ids@.len() == k,
                forall|j: int| 0 <= j < k ==> #[trigger] s_ids@[j] == ss[j].id,
                forall|j: int|
                    0 <= j < k ==> session_valid(#[trigger] ss[j]) && ss[j].id < next_s && owns(
                        tbs,
                        ss[j].timebox_id,
                    ),
                1 <= next_s <= i64::MAX,
            decreases ss.len() - k,
        {
            if !session_ok(&sessions[k]) || !owned(&timeboxes, sessions[k].timebox_id) {
                return Err(TimeboxError::Storage);
            }
            let id = sessions[k].id;
            s_ids.push(id);
            if id >= next_s {
                next_s = id + 1;
            }
            k = k + 1;
        }
        if !distinct_ids(&s_ids) {
            proof {
                let (a, b) = choose|a: int, b: int|
                    #![trigger s_ids@[a], s_ids@[b]]
                    0 <= a < s_ids@.len() && 0 <= b < s_ids@.len() && a != b && !(s_ids@[a]
                        != s_ids@[b]);
                assert(ss[a].id == ss[b].id);
            }
            return Err(TimeboxError::Storage);
        }
        if !one_open_each(&sessions) {
            return Err(TimeboxError::Storage);
        }
        let mut c_ids: Vec<i64> = Vec::new();
        let mut next_c: i64 = 1;
        let mut k: usize = 0;
        while k < change_log.len()
            invariant
                0 <= k <= cl.len(),
                cl == change_log@,
                tbs == timeboxes@,
                c_ids@.len() == k,
                forall|j: int| 0 <= j < k ==> #[trigger] c_ids@[j] == cl[j].id,
                forall|j: int|
                    0 <= j < k ==> change_valid(#[trigger] cl[j]) && cl[j].id < next_c && owns(
                        tbs,
                        cl[j].timebox_id,
                    ),
                1 <= next_c <= i64::MAX,
            decreases cl.len() - k,
        {
            if !change_ok(&change_log[k]) || !owned(&timeboxes, change_log[k].timebox_id) {
                return Err(TimeboxError::Storage);
            }
            let id = change_log[k].id;
            c_ids.push(id);
            if id >= next_c {
                next_c = id + 1;
            }
            k = k + 1;
        }
        if !distinct_ids(&c_ids) {
            proof {
                let (a, b) = choose|a: int, b: int|
                    #![trigger c_ids@[a], c_ids@[b]]
                    0 <= a < c_ids@.len() && 0 <= b < c_ids@.len() && a != b && !(c_ids@[a]
                        != c_ids@[b]);
                assert(cl[a].id == cl[b].id);
            }
            return Err(TimeboxError::Storage);
        }
        proof {
            assert forall|a: int, b: int|
                #![trigger tbs[a], tbs[b]]
                0 <= a < tbs.len() && 0 <= b < tbs.len() && a != b implies tbs[a].id != tbs[b].id by {
                assert(tb_ids@[a] != tb_ids@[b]);
            }
            assert forall|a: int, b: int|
                #![trigger ss[a], ss[b]]
                0 <= a < ss.len() && 0 <= b < ss.len() && a != b implies ss[a].id != ss[b].id by {
                assert(s_ids@[a] != s_ids@[b]);
            }
            assert forall|a: int, b: int|
                #![trigger cl[a], cl[b]]
                0 <= a < cl.len() && 0 <= b < cl.len() && a != b implies cl[a].id != cl[b].id by {
                assert(c_ids@[a] != c_ids@[b]);
            }
        }
        Ok(
            TimeboxStore {
                timeboxes,
                sessions,
                change_log,
                next_timebox_id: next_tb,
                next_session_id: next_s,
                next_change_id: next_c,
            },
        )
    }
}

} // verus!
