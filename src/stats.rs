//! The statistics view: counts of open, overdue, completed and deleted
//! tasks, and day-by-day series of what happened to them.

use crate::date::{epoch_day, epoch_day_of, Date, Stamp};
use crate::todo::{date_lt, Todo};
use vstd::prelude::*;

verus! {

/// Counts of the statistics view.
#[derive(Clone, Copy, Debug, PartialEq, Eq, Structural)]
pub struct TaskStats {
    /// Open tasks whose due date has passed.
    pub overdue: usize,
    /// Tasks neither completed nor deleted.
    pub pending: usize,
    /// Stored tasks that are completed.
    pub done: usize,
    /// Stored tasks that are deleted.
    pub deleted: usize,
}

pub open spec fn is_overdue(t: Todo, today: Date) -> bool {
    match t.due_date {
        Some(d) => date_lt(d, today) && !t.completed,
        None => false,
    }
}

pub open spec fn count_overdue(s: Seq<Todo>, today: Date) -> nat
    decreases s.len(),
{
    if s.len() == 0 {
        0
    } else {
        count_overdue(s.drop_last(), today) + if is_overdue(s.last(), today) {
            1nat
        } else {
            0nat
        }
    }
}

pub open spec fn count_completed(s: Seq<Todo>) -> nat
    decreases s.len(),
{
    if s.len() == 0 {
        0
    } else {
        count_completed(s.drop_last()) + if s.last().completed {
            1nat
        } else {
            0nat
        }
    }
}

pub open spec fn count_deleted(s: Seq<Todo>) -> nat
    decreases s.len(),
{
    if s.len() == 0 {
        0
    } else {
        count_deleted(s.drop_last()) + if s.last().deleted {
            1nat
        } else {
            0nat
        }
    }
}

fn is_past(d: Date, today: Date) -> (r: bool)
    ensures
        r == date_lt(d, today),
{
    d.year < today.year || (d.year == today.year && (d.month < today.month || (d.month
        == today.month && d.day < today.day)))
}

/// The statistics view's counts: overdue and pending among the open tasks,
/// done and deleted among all stored ones.
pub fn task_stats(working: &Vec<Todo>, all: &Vec<Todo>, today: Date) -> (r: TaskStats)
    ensures
        r.overdue == count_overdue(working@, today),
        r.pending == working@.len(),
        r.done == count_completed(all@),
        r.deleted == count_deleted(all@),
{
    let mut overdue: usize = 0;
    let mut i: usize = 0;
    while i < working.len()
        invariant
            i <= working.len(),
            overdue == count_overdue(working@.take(i as int), today),
            overdue <= i,
        decreases working.len() - i,
    {
        proof {
            assert(working@.take(i + 1).drop_last() =~= working@.take(i as int));
        }
        let t = &working[i];
        let late = match t.due_date {
            Some(d) => is_past(d, today) && !t.completed,
            None => false,
        };
        if late {
            overdue += 1;
        }
        i += 1;
    }
    let mut done: usize = 0;
    let mut deleted: usize = 0;
    let mut j: usize = 0;
    while j < all.len()
        invariant
            j <= all.len(),
            done == count_completed(all@.take(j as int)),
            deleted == count_deleted(all@.take(j as int)),
            done <= j,
            deleted <= j,
        decreases all.len() - j,
    {
        proof {
            assert(all@.take(j + 1).drop_last() =~= all@.take(j as int));
        }
        if all[j].completed {
            done += 1;
        }
        if all[j].deleted {
            deleted += 1;
        }
        j += 1;
    }
    proof {
        assert(working@.take(i as int) =~= working@);
        assert(all@.take(j as int) =~= all@);
    }
    TaskStats { overdue, pending: working.len(), done, deleted }
}


/// The time `s` falls on the day numbered `n` from the Unix epoch (UTC).
pub open spec fn on_day(s: Stamp, n: int) -> bool {
    n * 86400 <= s.secs < n * 86400 + 86400
}

pub open spec fn created_on(t: Todo, n: int) -> bool {
    on_day(t.created_at, n)
}

pub open spec fn completed_on(t: Todo, n: int) -> bool {
    t.completed_at matches Some(c) && on_day(c, n)
}

/// On day `n` the task was past its due date and not yet completed.
pub open spec fn overdue_on(t: Todo, n: int) -> bool {
    &&& t.due_date matches Some(d) && epoch_day_of(d@) < n
    &&& t.completed_at matches Some(c) ==> c.secs >= n * 86400
}

pub open spec fn count_created_on(s: Seq<Todo>, n: int) -> nat
    decreases s.len(),
{
    if s.len() == 0 {
        0
    } else {
        count_created_on(s.drop_last(), n) + if created_on(s.last(), n) {
            1nat
        } else {
            0nat
        }
    }
}

pub open spec fn count_completed_on(s: Seq<Todo>, n: int) -> nat
    decreases s.len(),
{
    if s.len() == 0 {
        0
    } else {
        count_completed_on(s.drop_last(), n) + if completed_on(s.last(), n) {
            1nat
        } else {
            0nat
        }
    }
}

pub open spec fn count_overdue_on(s: Seq<Todo>, n: int) -> nat
    decreases s.len(),
{
    if s.len() == 0 {
        0
    } else {
        count_overdue_on(s.drop_last(), n) + if overdue_on(s.last(), n) {
            1nat
        } else {
            0nat
        }
    }
}

/// Per-day counts over a run of days, oldest first.
pub struct DailySeries {
    pub created: Vec<usize>,
    pub overdue: Vec<usize>,
    pub completed: Vec<usize>,
}

/// The largest day number that the series take.
pub const MAX_DAY: i64 = 1099511627776;

fn stamp_on_day(s: Stamp, n: i64) -> (r: bool)
    requires
        -2 * MAX_DAY <= n <= 2 * MAX_DAY,
    ensures
        r == on_day(s, n as int),
{
    let start = n * 86400;
    start <= s.secs && s.secs < start + 86400
}

fn overdue_on_day(t: &Todo, n: i64) -> (r: bool)
    requires
        t.wf(),
        -2 * MAX_DAY <= n <= 2 * MAX_DAY,
    ensures
        r == overdue_on(*t, n as int),
{
    match t.due_date {
        Some(d) => {
            let due = epoch_day(d) as i64;
            if due < n {
                match t.completed_at {
                    Some(c) => c.secs >= n * 86400,
                    None => true,
                }
            } else {
                false
            }
        },
        None => false,
    }
}

/// For each of the `days + 1` days ending with day `last` (counted from the
/// Unix epoch), how many tasks were created, were overdue, and were
/// completed on it.
pub fn daily_series(all: &Vec<Todo>, last: i64, days: usize) -> (r: DailySeries)
    requires
        forall|i: int| 0 <= i < all@.len() ==> (#[trigger] all@[i]).wf(),
        -MAX_DAY <= last <= MAX_DAY,
        days <= 1000000,
    ensures
        r.created@.len() == days + 1,
        r.overdue@.len() == days + 1,
        r.completed@.len() == days + 1,
        forall|k: int|
            0 <= k <= days ==> {
                let n = last - days + k;
                &&& #[trigger] r.created@[k] == count_created_on(all@, n)
                &&& r.overdue@[k] == count_overdue_on(all@, n)
                &&& r.completed@[k] == count_completed_on(all@, n)
            },
{
    let mut created: Vec<usize> = Vec::new();
    let mut overdue: Vec<usize> = Vec::new();
    let mut completed: Vec<usize> = Vec::new();
    let first = last - days as i64;
    let mut k: usize = 0;
    while k <= days
        invariant
            k <= days + 1,
            first == last - days,
            days <= 1000000,
            -MAX_DAY <= last <= MAX_DAY,
            forall|i: int| 0 <= i < all@.len() ==> (#[trigger] all@[i]).wf(),
            created@.len() == k && overdue@.len() == k && completed@.len() == k,
            forall|j: int|
                0 <= j < k ==> {
                    let n = first + j;
                    &&& #[trigger] created@[j] == count_created_on(all@, n)
                    &&& overdue@[j] == count_overdue_on(all@, n)
                    &&& completed@[j] == count_completed_on(all@, n)
                },
        decreases days + 1 - k,
    {
        let n = first + k as i64;
        let mut c: usize = 0;
        let mut o: usize = 0;
        let mut f: usize = 0;
        let mut i: usize = 0;
        while i < all.len()
            invariant
                i <= all.len(),
                -2 * MAX_DAY <= n <= 2 * MAX_DAY,
                forall|j: int| 0 <= j < all@.len() ==> (#[trigger] all@[j]).wf(),
                c == count_created_on(all@.take(i as int), n as int),
                o == count_overdue_on(all@.take(i as int), n as int),
                f == count_completed_on(all@.take(i as int), n as int),
                c <= i && o <= i && f <= i,
            decreases all.len() - i,
        {
            proof {
                assert(all@.take(i + 1).drop_last() =~= all@.take(i as int));
            }
            let t = &all[i];
            if stamp_on_day(t.created_at, n) {
                c += 1;
            }
            if overdue_on_day(t, n) {
                o += 1;
            }
            let done_then = match t.completed_at {
                Some(s) => stamp_on_day(s, n),
                None => false,
            };
            if done_then {
                f += 1;
            }
            i += 1;
        }
        proof {
            assert(all@.take(i as int) =~= all@);
        }
        created.push(c);
        overdue.push(o);
        completed.push(f);
        k += 1;
    }
    DailySeries { created, overdue, completed }
}

} // verus!
