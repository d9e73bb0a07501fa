//! The leaf task state machines.
//!
//! Each unit of suspendable work is an explicit state machine: a segment
//! tag that says where the work will pick up, plus exactly the locals
//! whose live range crosses a suspension point.  Locals consumed before
//! the next suspension point are not part of the persisted state.

use vstd::prelude::*;
use crate::outcome::{GError, GOutcome, GValue, Resume, TaskError, TaskValue, yield_for};
use crate::text::{invalid_id_msg, processed_msg, render_invalid_id, render_processed};

verus! {

/// The sum of the delays of `s` from position `i` on.
pub open spec fn sum_from(s: Seq<u64>, i: int) -> nat
    decreases s.len() - i,
{
    if 0 <= i < s.len() {
        s[i] as nat + sum_from(s, i + 1)
    } else {
        0nat
    }
}

/// One leaf unit of suspendable work.
///
/// Every variant carries a segment position and the captured locals that
/// must survive its remaining suspension points; nothing else persists
/// between two resume calls.
#[derive(Debug, Clone, PartialEq, Eq)]
pub enum Task {
    /// One timed yield, then completion with a fixed value.
    /// Segments: 0 initial, 1 after the yield, 2 terminal.
    Timed { delay: u64, value: TaskValue, segment: u8 },
    /// A fixed list of timed yields in order, then completion with Unit.
    /// `next` is the index of the next yield; `done` marks the terminal
    /// segment.
    MultiYield { delays: Vec<u64>, next: usize, done: bool },
    /// Captures one value across a single yield and reads it back
    /// afterwards, completing with its double.  A temporary whose scope
    /// closes before the yield is deliberately not a field here: it does
    /// not cross the suspension boundary, so it must not persist.
    /// Segments: 0 initial, 1 after the yield, 2 terminal.
    Scoped { important_value: i32, delay: u64, segment: u8 },
    /// Validation, processing and finalization, each behind a timed
    /// yield, with an error short-circuit after validation.
    /// Segments: 0 initial, 1 after validation, 2 after the processing
    /// yield, 3 after the finalization yield, 4 terminal.  The rendered
    /// text is captured at segment 3, where its live range crosses the
    /// last suspension point.
    Complex { id: u32, data: String, processed: String, segment: u8 },
}

impl Task {
    /// Structural soundness of the current state.
    pub open spec fn wf(self) -> bool {
        match self {
            Task::Timed { segment, .. } => segment <= 2,
            Task::MultiYield { delays, next, done } => next <= delays@.len() && (done
                ==> next == delays@.len()),
            Task::Scoped { segment, .. } => segment <= 2,
            Task::Complex { id, data, processed, segment } => segment <= 4 && (2 <= segment <= 3
                ==> id != 0) && (segment == 3 ==> processed@ == processed_msg(id, data@)),
        }
    }

    /// Whether the task has reached Completed or Failed.
    pub open spec fn is_terminal(self) -> bool {
        match self {
            Task::Timed { segment, .. } => segment == 2,
            Task::MultiYield { done, .. } => done,
            Task::Scoped { segment, .. } => segment == 2,
            Task::Complex { segment, .. } => segment == 4,
        }
    }

    /// How many Suspended results the task will still report before its
    /// terminal outcome.
    pub open spec fn pending(self) -> nat {
        match self {
            Task::Timed { segment, .. } => if segment == 0 {
                1nat
            } else {
                0nat
            },
            Task::MultiYield { delays, next, .. } => (delays@.len() - next) as nat,
            Task::Scoped { segment, .. } => if segment == 0 {
                1nat
            } else {
                0nat
            },
            Task::Complex { id, segment, .. } => if id == 0 {
                if segment == 0 {
                    1nat
                } else {
                    0nat
                }
            } else {
                if segment <= 3 {
                    (3 - segment) as nat
                } else {
                    0nat
                }
            },
        }
    }

    /// The virtual time still to elapse before the task reaches its
    /// terminal outcome, when it is resumed exactly at each wake time.
    pub open spec fn delay(self) -> nat {
        match self {
            Task::Timed { delay, segment, .. } => if segment == 0 {
                delay as nat
            } else {
                0nat
            },
            Task::MultiYield { delays, next, .. } => sum_from(delays@, next as int),
            Task::Scoped { delay, segment, .. } => if segment == 0 {
                delay as nat
            } else {
                0nat
            },
            Task::Complex { .. } => self.pending() * 30,
        }
    }

    /// The terminal outcome the task is going to produce.  Meaningful only
    /// while the task is not yet terminal.
    pub open spec fn outcome(self) -> GOutcome {
        match self {
            Task::Timed { value, .. } => GOutcome::Completed(value@),
            Task::MultiYield { .. } => GOutcome::Completed(GValue::Unit),
            Task::Scoped { important_value, .. } => GOutcome::Completed(
                GValue::Int(2 * important_value as int),
            ),
            Task::Complex { id, data, .. } => if id == 0 {
                GOutcome::Failed(GError::Validation(invalid_id_msg()))
            } else {
                GOutcome::Completed(GValue::Text(processed_msg(id, data@)))
            },
        }
    }

    /// Termination measure for resume loops.
    pub open spec fn measure(self) -> nat {
        self.pending() + if self.is_terminal() {
            0nat
        } else {
            1nat
        }
    }

    /// Runs the task up to its next suspension point or to termination.
    ///
    /// A Suspended result consumes one pending yield and exactly its delay
    /// out of the remaining virtual time; a terminal result is reported
    /// only when no virtual time is left to elapse, and carries the
    /// outcome the task was going to produce.
    pub fn resume(&mut self) -> (r: Resume)
        requires
            old(self).wf(),
            !old(self).is_terminal(),
        ensures
            final(self).wf(),
            match r {
                Resume::Suspended(d) => {
                    &&& !final(self).is_terminal()
                    &&& final(self).outcome() == old(self).outcome()
                    &&& final(self).pending() + 1 == old(self).pending()
                    &&& final(self).delay() + d == old(self).delay()
                    &&& final(self).measure() < old(self).measure()
                },
                Resume::Completed(v) => {
                    &&& final(self).is_terminal()
                    &&& old(self).pending() == 0
                    &&& old(self).delay() == 0
                    &&& old(self).outcome() == GOutcome::Completed(v@)
                },
                Resume::Failed(e) => {
                    &&& final(self).is_terminal()
                    &&& old(self).pending() == 0
                    &&& old(self).delay() == 0
                    &&& old(self).outcome() == GOutcome::Failed(e@)
                },
            },
    {
        match self {
            Task::Timed { delay, value, segment } => {
                if *segment == 0 {
                    *segment = 1;
                    yield_for(*delay)
                } else {
                    *segment = 2;
                    let mut v = TaskValue::Unit;
                    core::mem::swap(value, &mut v);
                    Resume::Completed(v)
                }
            },
            Task::MultiYield { delays, next, done } => {
                if *next < delays.len() {
                    let d = delays[*next];
                    *next = *next + 1;
                    yield_for(d)
                } else {
                    *done = true;
                    Resume::Completed(TaskValue::Unit)
                }
            },
            Task::Scoped { important_value, delay, segment } => {
                if *segment == 0 {
                    *segment = 1;
                    yield_for(*delay)
                } else {
                    *segment = 2;
                    let doubled: i64 = 2 * (*important_value as i64);
                    Resume::Completed(TaskValue::Int(doubled))
                }
            },
            Task::Complex { id, data, processed, segment } => {
                if *segment == 0 {
                    *segment = 1;
                    yield_for(30)
                } else if *segment == 1 {
                    if *id == 0 {
                        *segment = 4;
                        Resume::Failed(TaskError::Validation(render_invalid_id()))
                    } else {
                        *segment = 2;
                        yield_for(30)
                    }
                } else if *segment == 2 {
                    let rendered = render_processed(*id, data.as_str());
                    *processed = rendered;
                    *segment = 3;
                    yield_for(30)
                } else {
                    *segment = 4;
                    let mut s = String::new();
                    core::mem::swap(processed, &mut s);
                    Resume::Completed(TaskValue::Text(s))
                }
            },
        }
    }
}

} // verus!
