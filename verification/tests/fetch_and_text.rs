use coop_tasks::fetch::{fetch_data_outcome, FetchEvent};
use coop_tasks::outcome::{Outcome, TaskError, TaskValue};
use coop_tasks::text::{decimal_string, render_http_error, render_invalid_id, render_processed};

#[test]
fn fetch_success_completes_with_body() {
    let event = FetchEvent::Response { status: 200, body: "hello".to_string() };
    assert_eq!(
        fetch_data_outcome(event),
        Outcome::Completed(TaskValue::Text("hello".to_string()))
    );
    let event = FetchEvent::Response { status: 299, body: String::new() };
    assert_eq!(
        fetch_data_outcome(event),
        Outcome::Completed(TaskValue::Text(String::new()))
    );
}

#[test]
fn fetch_non_success_status_is_a_transport_error() {
    let event = FetchEvent::Response { status: 404, body: "ignored".to_string() };
    assert_eq!(
        fetch_data_outcome(event),
        Outcome::Failed(TaskError::Transport("HTTP error: 404".to_string()))
    );
    let event = FetchEvent::Response { status: 199, body: String::new() };
    assert_eq!(
        fetch_data_outcome(event),
        Outcome::Failed(TaskError::Transport("HTTP error: 199".to_string()))
    );
    let event = FetchEvent::Response { status: 300, body: String::new() };
    assert_eq!(
        fetch_data_outcome(event),
        Outcome::Failed(TaskError::Transport("HTTP error: 300".to_string()))
    );
}

#[test]
fn fetch_transport_failure_keeps_its_message() {
    let event = FetchEvent::TransportFailure { message: "connection refused".to_string() };
    assert_eq!(
        fetch_data_outcome(event),
        Outcome::Failed(TaskError::Transport("connection refused".to_string()))
    );
}

#[test]
fn decimal_rendering_is_exact() {
    assert_eq!(decimal_string(0), "0");
    assert_eq!(decimal_string(7), "7");
    assert_eq!(decimal_string(10), "10");
    assert_eq!(decimal_string(42), "42");
    assert_eq!(decimal_string(65535), "65535");
    assert_eq!(decimal_string(u64::MAX), "18446744073709551615");
}

#[test]
fn rendered_messages_are_exact() {
    assert_eq!(render_processed(42, "test"), "Processed(id=42, data=test)");
    assert_eq!(render_processed(0, ""), "Processed(id=0, data=)");
    assert_eq!(render_invalid_id(), "Invalid ID: cannot be zero");
    assert_eq!(render_http_error(500), "HTTP error: 500");
}

#[test]
fn error_message_accessor_returns_the_text() {
    let e = TaskError::Validation("nope".to_string());
    assert_eq!(e.message(), "nope");
    let e = TaskError::Transport("down".to_string());
    assert_eq!(e.message(), "down");
}
