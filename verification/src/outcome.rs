//! The values, errors and step results that suspendable work produces,
//! together with their ghost-level descriptions.

use vstd::prelude::*;

verus! {

/// Ghost description of a value: integers unbounded, text as a character
/// sequence.  Contracts speak of these rather than of the executable types.
pub enum GValue {
    Unit,
    Int(int),
    Text(Seq<char>),
}

/// Ghost description of an error.
pub enum GError {
    /// an input failed a precondition
    Validation(Seq<char>),
    /// the external fetch collaborator failed or answered with a
    /// non-success status
    Transport(Seq<char>),
}

/// Ghost description of a terminal outcome.
pub enum GOutcome {
    Completed(GValue),
    Failed(GError),
}

/// A plain value a task can complete with.
#[derive(Debug, Clone, PartialEq, Eq)]
pub enum TaskValue {
    Unit,
    Int(i64),
    Text(String),
}

impl View for TaskValue {
    type V = GValue;

    open spec fn view(&self) -> GValue {
        match self {
            TaskValue::Unit => GValue::Unit,
            TaskValue::Int(n) => GValue::Int(*n as int),
            TaskValue::Text(s) => GValue::Text(s@),
        }
    }
}

/// An error a task can fail with.
#[derive(Debug, Clone, PartialEq, Eq)]
pub enum TaskError {
    /// an input failed a precondition
    Validation(String),
    /// the external fetch collaborator failed or answered with a
    /// non-success status
    Transport(String),
}

impl View for TaskError {
    type V = GError;

    open spec fn view(&self) -> GError {
        match self {
            TaskError::Validation(m) => GError::Validation(m@),
            TaskError::Transport(m) => GError::Transport(m@),
        }
    }
}

impl TaskError {
    /// The human-readable message carried by the error.
    pub fn message(&self) -> (m: &String)
        ensures
            self@ == GError::Validation(m@) || self@ == GError::Transport(m@),
    {
        match self {
            TaskError::Validation(m) => m,
            TaskError::Transport(m) => m,
        }
    }
}

/// The terminal outcome of one unit of work.
#[derive(Debug, Clone, PartialEq, Eq)]
pub enum Outcome {
    Completed(TaskValue),
    Failed(TaskError),
}

impl View for Outcome {
    type V = GOutcome;

    open spec fn view(&self) -> GOutcome {
        match self {
            Outcome::Completed(v) => GOutcome::Completed(v@),
            Outcome::Failed(e) => GOutcome::Failed(e@),
        }
    }
}

/// The ghost description of a sequence of values.
pub open spec fn values_view(vs: Seq<TaskValue>) -> Seq<GValue> {
    vs.map_values(|v: TaskValue| v@)
}

/// What one resume step of a task reports back to the executor: either a
/// wake condition ("do not resume me for this many time units") or a
/// terminal outcome.
#[derive(Debug, Clone, PartialEq, Eq)]
pub enum Resume {
    Suspended(u64),
    Completed(TaskValue),
    Failed(TaskError),
}

/// The timed-yield primitive: a resume step ends with this to hand control
/// back to the executor with a wake condition of now + `duration`.  A
/// duration of zero yields once and is immediately eligible again.
pub fn yield_for(duration: u64) -> (r: Resume)
    ensures
        r == Resume::Suspended(duration),
{
    Resume::Suspended(duration)
}

} // verus!
