//! The decision segment around the opaque network-fetch collaborator.
//!
//! The fetch itself is a single black-box suspending operation performed
//! outside this library: given a URL it eventually hands back either a
//! response (status and body) or a transport failure.  The logic that
//! turns that event into a task outcome lives here and is verified for
//! every possible event.

use vstd::prelude::*;
use crate::outcome::{GOutcome, GValue, GError, Outcome, TaskError, TaskValue};
use crate::text::{http_error_msg, render_http_error};

verus! {

/// What the external fetch collaborator eventually reports.
#[derive(Debug, Clone, PartialEq, Eq)]
pub enum FetchEvent {
    /// the request completed with a status code and a body
    Response { status: u16, body: String },
    /// the request could not be completed at all
    TransportFailure { message: String },
}

/// A response status that counts as success.
pub open spec fn status_success(status: u16) -> bool {
    200 <= status < 300
}

/// The outcome a fetch task reaches for a given event.
pub open spec fn fetch_event_outcome(e: FetchEvent) -> GOutcome {
    match e {
        FetchEvent::Response { status, body } => if status_success(status) {
            GOutcome::Completed(GValue::Text(body@))
        } else {
            GOutcome::Failed(GError::Transport(http_error_msg(status)))
        },
        FetchEvent::TransportFailure { message } => GOutcome::Failed(GError::Transport(message@)),
    }
}

/// Resumes a fetch task once its single suspension point is over: a
/// transport failure or a non-success status fails the task with a
/// transport error, a success status completes it with the body.
pub fn fetch_data_outcome(event: FetchEvent) -> (o: Outcome)
    ensures
        o@ == fetch_event_outcome(event),
{
    match event {
        FetchEvent::Response { status, body } => {
            if 200 <= status && status < 300 {
                Outcome::Completed(TaskValue::Text(body))
            } else {
                Outcome::Failed(TaskError::Transport(render_http_error(status)))
            }
        },
        FetchEvent::TransportFailure { message } => Outcome::Failed(
            TaskError::Transport(message),
        ),
    }
}

} // verus!
