//! The single-threaded cooperative executor.
//!
//! The executor owns virtual time.  It resumes its task, and on every
//! Suspended result advances the clock exactly to the wake time before
//! resuming again; a resume step is never preempted.  Running a group of
//! tasks side by side goes through the join combinator, whose composite
//! carries the pending set of wake deadlines.

use vstd::prelude::*;
use crate::join::{
    JoinResult, JoinStep, JoinTask, child_finish, join, lemma_fresh_join_slots,
    lemma_tasks_max_delay_nonneg, max2, tasks_first_error_from, tasks_has_failure,
    tasks_max_delay, tasks_values,
};
use crate::outcome::{Outcome, Resume, values_view};
use crate::task::Task;

verus! {

/// What the executor reports once a task is terminal.
#[derive(Debug, Clone, PartialEq, Eq)]
pub struct RunReport {
    /// the terminal outcome
    pub outcome: Outcome,
    /// virtual time elapsed between submission and termination
    pub elapsed: u64,
    /// how many Suspended results were observed on the way
    pub suspensions: usize,
}

/// Drives one task to its terminal state.
///
/// The report carries the outcome the task was constructed to produce,
/// the exact virtual time its yields added up to, and one suspension per
/// pending yield.
pub fn run(task: Task) -> (r: RunReport)
    requires
        task.wf(),
        !task.is_terminal(),
        task.delay() <= u64::MAX,
        task.pending() <= usize::MAX,
    ensures
        r.outcome@ == task.outcome(),
        r.elapsed == task.delay(),
        r.suspensions == task.pending(),
{
    let mut t = task;
    let mut now: u64 = 0;
    let mut count: usize = 0;
    loop
        invariant
            t.wf(),
            !t.is_terminal(),
            t.outcome() == task.outcome(),
            now + t.delay() == task.delay(),
            count + t.pending() == task.pending(),
            task.delay() <= u64::MAX,
            task.pending() <= usize::MAX,
        decreases t.measure(),
    {
        match t.resume() {
            Resume::Suspended(d) => {
                now = now + d;
                count = count + 1;
            },
            Resume::Completed(v) => {
                return RunReport { outcome: Outcome::Completed(v), elapsed: now, suspensions: count };
            },
            Resume::Failed(e) => {
                return RunReport { outcome: Outcome::Failed(e), elapsed: now, suspensions: count };
            },
        }
    }
}

/// What the executor reports once a join composite is terminal.
#[derive(Debug, Clone, PartialEq, Eq)]
pub struct JoinReport {
    /// the composite result
    pub result: JoinResult,
    /// virtual time elapsed until the last child finished
    pub elapsed: u64,
}

/// Drives a join composite to its terminal state.
///
/// The report carries the composite's result — every child's value in
/// construction order, or the first failure in child-index order — and
/// the virtual time at which the last child finished.
pub fn run_join(job: JoinTask) -> (r: JoinReport)
    requires
        job.wf(),
        !job.finished,
        job.timely(0),
        job.ready(0),
        job.fits(u64::MAX as int),
    ensures
        r.elapsed == job.finish(0),
        match r.result {
            JoinResult::Completed(vs) => !job.has_failure() && values_view(vs@) == job.values(),
            JoinResult::Failed(e) => job.has_failure() && e@ == job.first_error(),
        },
{
    let mut j = job;
    let mut now: u64 = 0;
    loop
        invariant
            j.wf(),
            !j.finished,
            j.timely(now as int),
            j.ready(now as int),
            j.fits(u64::MAX as int),
            j.finish(now as int) == job.finish(0),
            j.has_failure() == job.has_failure(),
            j.first_error() == job.first_error(),
            j.values() == job.values(),
        decreases j.measure(),
    {
        match j.resume(now) {
            JoinStep::Suspended(d) => {
                now = now + d;
            },
            JoinStep::Finished(res) => {
                return JoinReport { result: res, elapsed: now };
            },
        }
    }
}

/// Runs one or more independent tasks side by side, all submitted
/// together, until every one of them is terminal.
///
/// The report carries every task's value in submission order, or the
/// first failure in submission-index order, and the virtual time at
/// which the last task finished.
pub fn run_all(tasks: Vec<Task>) -> (r: JoinReport)
    requires
        forall|i: int|
            0 <= i < tasks@.len() ==> (#[trigger] tasks@[i]).wf() && !tasks@[i].is_terminal()
                && tasks@[i].delay() <= u64::MAX,
    ensures
        r.elapsed == tasks_max_delay(tasks@),
        match r.result {
            JoinResult::Completed(vs) => !tasks_has_failure(tasks@) && values_view(vs@)
                == tasks_values(tasks@),
            JoinResult::Failed(e) => tasks_has_failure(tasks@) && e@ == tasks_first_error_from(
                tasks@,
                0,
            ),
        },
{
    let ghost ts = tasks@;
    let j = join(tasks);
    proof {
        lemma_fresh_join_slots(ts, j.children@);
        assert forall|i: int| 0 <= i < j.children@.len() implies child_finish(
            #[trigger] j.children@[i],
        ) <= u64::MAX as int by {
            assert(j.children@[i] == (crate::join::ChildState::Active {
                task: ts[i],
                deadline: 0u64,
            }));
            assert(child_finish(j.children@[i]) == ts[i].delay());
        }
        lemma_tasks_max_delay_nonneg(ts);
        assert(j.finish(0) == max2(0, tasks_max_delay(ts)));
    }
    run_join(j)
}

} // verus!
