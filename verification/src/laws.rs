//! The general laws of the execution core, stated over the same spec
//! functions that the executor's and the tasks' contracts use.  Together
//! with `run`'s and `run_join`'s postconditions they pin down what any
//! run of the corresponding tasks observes.

use vstd::prelude::*;
use crate::join::{
    ChildState, JoinTask, child_finish, child_outcome, lemma_first_error_locate, max2, max_finish,
    outcome_error,
};
use crate::outcome::{GError, GOutcome, GValue, TaskValue};
use crate::task::Task;
use crate::text::{invalid_id_msg, processed_msg};

verus! {

/// A task holding exactly one timed yield of `d` followed by completion
/// carries exactly `d` units of virtual time and one suspension: by
/// `run`'s contract, running it reports `Completed`, one suspension, and
/// an elapsed time of `d` — in particular at least `d`.
pub proof fn lemma_single_yield_elapsed(d: u64, value: TaskValue)
    ensures
        (Task::Timed { delay: d, value, segment: 0u8 }).delay() == d,
        (Task::Timed { delay: d, value, segment: 0u8 }).pending() == 1,
        (Task::Timed { delay: d, value, segment: 0u8 }).outcome() == GOutcome::Completed(value@),
{
}

/// A task with one timed yield per entry of `delays` carries exactly
/// that many suspensions: by `run`'s contract, exactly `delays.len()`
/// `Suspended` outcomes are observed before the final `Completed`.
pub proof fn lemma_sequential_suspension_count(delays: Vec<u64>)
    ensures
        (Task::MultiYield { delays, next: 0usize, done: false }).pending() == delays@.len(),
        (Task::MultiYield { delays, next: 0usize, done: false }).outcome()
            == GOutcome::Completed(GValue::Unit),
{
}

/// Captured-state correctness: a resume step preserves a task's outcome,
/// and for a scoping task the outcome determines the captured value — so
/// the value read back after the suspension point is exactly the value
/// assigned before it.  (The temporary consumed before the suspension
/// point is no field of the state machine at all, so it cannot persist.)
pub proof fn lemma_captured_value_survives(v1: i32, v2: i32, d1: u64, d2: u64)
    requires
        (Task::Scoped { important_value: v1, delay: d1, segment: 0u8 }).outcome() == (
        Task::Scoped { important_value: v2, delay: d2, segment: 1u8 }).outcome(),
    ensures
        v2 == v1,
{
}

/// Validation short-circuit: with id 0 the processing task fails with
/// the validation error after its single validation suspension — no
/// later segment contributes a suspension or any time.  With any other
/// id it runs all three segments and completes with the processed text.
pub proof fn lemma_complex_outcome(id: u32, data: String, processed: String)
    ensures
        id == 0 ==> (Task::Complex { id, data, processed, segment: 0u8 }).outcome()
            == GOutcome::Failed(GError::Validation(invalid_id_msg())) && (Task::Complex {
            id,
            data,
            processed,
            segment: 0u8,
        }).pending() == 1 && (Task::Complex { id, data, processed, segment: 0u8 }).delay() == 30,
        id != 0 ==> (Task::Complex { id, data, processed, segment: 0u8 }).outcome()
            == GOutcome::Completed(GValue::Text(processed_msg(id, data@))) && (Task::Complex {
            id,
            data,
            processed,
            segment: 0u8,
        }).pending() == 3 && (Task::Complex { id, data, processed, segment: 0u8 }).delay() == 90,
{
}

/// A join of three single-yield tasks completes with their three values
/// in construction order, whatever the order in which the children
/// finish, and is terminal exactly when its slowest child is: by
/// `run_join`'s contract the composite reports `Completed` with the
/// values in order and an elapsed time of the largest delay.
pub proof fn lemma_join_in_order(
    j: JoinTask,
    d1: u64,
    d2: u64,
    d3: u64,
    v1: TaskValue,
    v2: TaskValue,
    v3: TaskValue,
)
    requires
        j.children@ =~= seq![
            (ChildState::Active {
                task: Task::Timed { delay: d1, value: v1, segment: 0u8 },
                deadline: 0u64,
            }),
            (ChildState::Active {
                task: Task::Timed { delay: d2, value: v2, segment: 0u8 },
                deadline: 0u64,
            }),
            (ChildState::Active {
                task: Task::Timed { delay: d3, value: v3, segment: 0u8 },
                deadline: 0u64,
            }),
        ],
    ensures
        !j.has_failure(),
        j.values() == seq![v1@, v2@, v3@],
        j.finish(0) == max2(max2(d1 as int, d2 as int), d3 as int),
{
    let s = j.children@;
    assert forall|k: int| 0 <= k < s.len() implies !((#[trigger] child_outcome(s[k])) is Failed) by {
        assert(child_outcome(s[k]) is Completed);
    }
    assert(j.values() =~= seq![v1@, v2@, v3@]);
    assert(child_finish(s[0]) == d1 as int);
    assert(child_finish(s[1]) == d2 as int);
    assert(child_finish(s[2]) == d3 as int);
    assert(seq![s[0]].drop_last() =~= Seq::<ChildState>::empty());
    assert(max_finish(Seq::<ChildState>::empty()) == 0);
    assert(seq![s[0]].last() == s[0]);
    assert(max_finish(seq![s[0]]) == max2(0, d1 as int));
    assert(seq![s[0], s[1]].drop_last() =~= seq![s[0]]);
    assert(seq![s[0], s[1]].last() == s[1]);
    assert(max_finish(seq![s[0], s[1]]) == max2(max2(0, d1 as int), d2 as int));
    assert(s.drop_last() =~= seq![s[0], s[1]]);
    assert(s.last() == s[2]);
    assert(max_finish(s) == max2(max2(max2(0, d1 as int), d2 as int), d3 as int));
}

/// First-failure policy: when child `fi` is the first child in index
/// order whose outcome is a failure, the composite outcome of the join
/// carries exactly child `fi`'s error — deterministically, whatever the
/// order in which the children reach their terminal states, since by
/// `run_join`'s contract the reported result is a function of the
/// children alone.  Siblings are not cancelled: every slot keeps its own
/// child's outcome.
pub proof fn lemma_join_first_failure(j: JoinTask, fi: int)
    requires
        0 <= fi < j.children@.len(),
        child_outcome(j.children@[fi]) is Failed,
        forall|k: int| 0 <= k < fi ==> !((#[trigger] child_outcome(j.children@[k])) is Failed),
    ensures
        j.has_failure(),
        j.first_error() == outcome_error(child_outcome(j.children@[fi])),
{
    lemma_first_error_locate(j.children@, 0, fi);
}

} // verus!
