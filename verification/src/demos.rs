//! Constructors for the example tasks.
//!
//! Each function only builds a state machine in its initial segment: no
//! segment code runs until the executor resumes the task, so
//! construction alone has no observable effect.  The contracts pin the
//! initial state down completely and say which outcome, how many
//! suspensions and how much virtual time a run of the task will take.

use vstd::prelude::*;
use crate::join::{ChildState, JoinTask, join};
use crate::outcome::{GOutcome, GValue, TaskValue};
use crate::task::{Task, sum_from};
use crate::text::{invalid_id_msg, processed_msg};

verus! {

/// A task that suspends once for `delay` time units and then completes
/// with `value`.
pub fn timed_task(delay: u64, value: TaskValue) -> (t: Task)
    ensures
        t == (Task::Timed { delay, value, segment: 0u8 }),
        t.wf(),
        !t.is_terminal(),
        t.pending() == 1,
        t.delay() == delay,
        t.outcome() == GOutcome::Completed(value@),
{
    Task::Timed { delay, value, segment: 0 }
}

/// A task that suspends once for each entry of `delays`, in order, and
/// then completes with Unit.
pub fn multi_yield_task(delays: Vec<u64>) -> (t: Task)
    ensures
        t == (Task::MultiYield { delays, next: 0usize, done: false }),
        t.wf(),
        !t.is_terminal(),
        t.pending() == delays@.len(),
        t.outcome() == GOutcome::Completed(GValue::Unit),
{
    Task::MultiYield { delays, next: 0, done: false }
}

/// The simple state-machine example: one timed suspension of 100 units,
/// then completion.
pub fn async_state_machine_example() -> (t: Task)
    ensures
        t == (Task::Timed { delay: 100u64, value: TaskValue::Unit, segment: 0u8 }),
        t.wf(),
        !t.is_terminal(),
        t.pending() == 1,
        t.delay() == 100,
        t.outcome() == GOutcome::Completed(GValue::Unit),
{
    timed_task(100, TaskValue::Unit)
}

/// The multiple-suspension example: three yields of 50 units each.
pub fn multiple_awaits_example() -> (t: Task)
    ensures
        t.wf(),
        !t.is_terminal(),
        t.pending() == 3,
        t.delay() == 150,
        t.outcome() == GOutcome::Completed(GValue::Unit),
{
    let mut delays: Vec<u64> = Vec::new();
    delays.push(50);
    delays.push(50);
    delays.push(50);
    proof {
        assert(sum_from(delays@, 3) == 0);
        assert(sum_from(delays@, 2) == 50);
        assert(sum_from(delays@, 1) == 100);
        assert(sum_from(delays@, 0) == 150);
    }
    multi_yield_task(delays)
}

/// The variable-scoping example: the value 42 is captured across one
/// suspension of 50 units and read back afterwards; the task completes
/// with its double.  A temporary whose scope closes before the
/// suspension is consumed in the first segment and is not part of the
/// task's persisted state.
pub fn variable_scoping_example() -> (t: Task)
    ensures
        t == (Task::Scoped { important_value: 42i32, delay: 50u64, segment: 0u8 }),
        t.wf(),
        !t.is_terminal(),
        t.pending() == 1,
        t.delay() == 50,
        t.outcome() == GOutcome::Completed(GValue::Int(84)),
{
    Task::Scoped { important_value: 42, delay: 50, segment: 0 }
}

/// The processing example: validation, processing and finalization, each
/// behind a 30-unit suspension.  An id of zero fails validation right
/// after the first suspension and no later segment runs; any other id
/// completes with the processed text.
pub fn complex_async_function(id: u32, data: String) -> (t: Task)
    ensures
        t matches Task::Complex { id: tid, data: tdata, processed: tp, segment: tseg } && tid == id
            && tdata == data && tp@ == Seq::<char>::empty() && tseg == 0,
        t.wf(),
        !t.is_terminal(),
        id == 0 ==> t.pending() == 1 && t.delay() == 30 && t.outcome() == GOutcome::Failed(
            crate::outcome::GError::Validation(invalid_id_msg()),
        ),
        id != 0 ==> t.pending() == 3 && t.delay() == 90 && t.outcome() == GOutcome::Completed(
            GValue::Text(processed_msg(id, data@)),
        ),
{
    Task::Complex { id, data, processed: String::new(), segment: 0 }
}

/// The plain-value example: one short suspension, then the value 42.
pub fn async_sugar_example() -> (t: Task)
    ensures
        t == (Task::Timed { delay: 10u64, value: TaskValue::Int(42i64), segment: 0u8 }),
        t.wf(),
        !t.is_terminal(),
        t.pending() == 1,
        t.delay() == 10,
        t.outcome() == GOutcome::Completed(GValue::Int(42)),
{
    timed_task(10, TaskValue::Int(42))
}

/// The concurrent example: three tasks with yields of 100, 50 and 75
/// units, each completing with its index-based value, joined into one
/// composite that reports the three values in construction order.
pub fn concurrent_execution_example() -> (j: JoinTask)
    ensures
        j.children@.len() == 3,
        j.children@[0] == (ChildState::Active {
            task: Task::Timed { delay: 100u64, value: TaskValue::Int(1i64), segment: 0u8 },
            deadline: 0u64,
        }),
        j.children@[1] == (ChildState::Active {
            task: Task::Timed { delay: 50u64, value: TaskValue::Int(2i64), segment: 0u8 },
            deadline: 0u64,
        }),
        j.children@[2] == (ChildState::Active {
            task: Task::Timed { delay: 75u64, value: TaskValue::Int(3i64), segment: 0u8 },
            deadline: 0u64,
        }),
        !j.finished,
        j.wf(),
        j.timely(0),
        j.ready(0),
{
    let mut tasks: Vec<Task> = Vec::new();
    tasks.push(timed_task(100, TaskValue::Int(1)));
    tasks.push(timed_task(50, TaskValue::Int(2)));
    tasks.push(timed_task(75, TaskValue::Int(3)));
    join(tasks)
}

} // verus!
