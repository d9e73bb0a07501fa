use coop_tasks::demos::{
    async_state_machine_example, async_sugar_example, complex_async_function,
    concurrent_execution_example, multi_yield_task, multiple_awaits_example, timed_task,
    variable_scoping_example,
};
use coop_tasks::executor::{run, run_all, run_join};
use coop_tasks::join::{join, JoinResult};
use coop_tasks::outcome::{yield_for, Outcome, Resume, TaskError, TaskValue};
use coop_tasks::task::Task;

#[test]
fn test_async_state_machine() {
    let report = run(async_state_machine_example());
    assert_eq!(report.outcome, Outcome::Completed(TaskValue::Unit));
    assert_eq!(report.elapsed, 100);
    assert_eq!(report.suspensions, 1);
}

#[test]
fn test_multiple_awaits() {
    let report = run(multiple_awaits_example());
    assert_eq!(report.outcome, Outcome::Completed(TaskValue::Unit));
    assert_eq!(report.elapsed, 150);
    assert_eq!(report.suspensions, 3);
}

#[test]
fn test_variable_scoping() {
    let report = run(variable_scoping_example());
    assert_eq!(report.outcome, Outcome::Completed(TaskValue::Int(84)));
    assert_eq!(report.suspensions, 1);
}

#[test]
fn test_complex_async_function_success() {
    let report = run(complex_async_function(42, "test".to_string()));
    match report.outcome {
        Outcome::Completed(TaskValue::Text(text)) => {
            assert!(text.contains("Processed"));
            assert_eq!(text, "Processed(id=42, data=test)");
        }
        other => panic!("expected a completed text, got {:?}", other),
    }
}

#[test]
fn test_complex_async_function_error() {
    let report = run(complex_async_function(0, "test".to_string()));
    assert_eq!(
        report.outcome,
        Outcome::Failed(TaskError::Validation("Invalid ID: cannot be zero".to_string()))
    );
    // the failure comes right after the validation suspension: no later
    // segment ran
    assert_eq!(report.suspensions, 1);
    assert_eq!(report.elapsed, 30);
}

#[test]
fn test_concurrent_execution() {
    let report = run_join(concurrent_execution_example());
    assert_eq!(
        report.result,
        JoinResult::Completed(vec![
            TaskValue::Int(1),
            TaskValue::Int(2),
            TaskValue::Int(3),
        ])
    );
    // terminal exactly when the slowest child is
    assert_eq!(report.elapsed, 100);
}

#[test]
fn test_async_sugar() {
    let report = run(async_sugar_example());
    assert_eq!(report.outcome, Outcome::Completed(TaskValue::Int(42)));
    assert_eq!(report.elapsed, 10);
}

#[test]
fn single_yield_elapsed_is_at_least_delay() {
    for delay in [0u64, 1, 50, 100, 10_000] {
        let report = run(timed_task(delay, TaskValue::Unit));
        assert!(report.elapsed >= delay);
        assert_eq!(report.elapsed, delay);
        assert_eq!(report.suspensions, 1);
        assert_eq!(report.outcome, Outcome::Completed(TaskValue::Unit));
    }
}

#[test]
fn suspension_count_matches_suspension_points() {
    for n in [0usize, 1, 2, 5, 17] {
        let delays: Vec<u64> = (0..n as u64).collect();
        let report = run(multi_yield_task(delays));
        assert_eq!(report.suspensions, n);
        assert_eq!(report.outcome, Outcome::Completed(TaskValue::Unit));
    }
}

#[test]
fn zero_delay_yield_still_suspends_once() {
    let report = run(timed_task(0, TaskValue::Int(7)));
    assert_eq!(report.suspensions, 1);
    assert_eq!(report.elapsed, 0);
    assert_eq!(report.outcome, Outcome::Completed(TaskValue::Int(7)));
}

#[test]
fn captured_value_reads_back_unchanged() {
    // the value captured before the suspension is read back after it;
    // the completion value is computed from the captured value alone
    let report = run(variable_scoping_example());
    assert_eq!(report.outcome, Outcome::Completed(TaskValue::Int(2 * 42)));
}

#[test]
fn join_reports_values_in_construction_order() {
    // the middle child finishes first, the first child last; the result
    // order follows construction, not completion
    let report = run_join(join(vec![
        timed_task(100, TaskValue::Int(1)),
        timed_task(50, TaskValue::Int(2)),
        timed_task(75, TaskValue::Int(3)),
    ]));
    assert_eq!(
        report.result,
        JoinResult::Completed(vec![
            TaskValue::Int(1),
            TaskValue::Int(2),
            TaskValue::Int(3),
        ])
    );
    assert_eq!(report.elapsed, 100);
}

#[test]
fn join_failure_carries_first_failing_child_error() {
    let make = || {
        join(vec![
            timed_task(100, TaskValue::Int(1)),
            complex_async_function(0, "middle".to_string()),
            timed_task(75, TaskValue::Int(3)),
        ])
    };
    let first = run_join(make());
    assert_eq!(
        first.result,
        JoinResult::Failed(TaskError::Validation("Invalid ID: cannot be zero".to_string()))
    );
    // siblings are not cancelled: the composite still waits for the
    // slowest child
    assert_eq!(first.elapsed, 100);
    // deterministic on repeated runs
    let second = run_join(make());
    assert_eq!(first.result, second.result);
    assert_eq!(first.elapsed, second.elapsed);
}

#[test]
fn join_of_no_children_completes_empty() {
    let report = run_join(join(Vec::new()));
    assert_eq!(report.result, JoinResult::Completed(Vec::new()));
    assert_eq!(report.elapsed, 0);
}

#[test]
fn construction_alone_has_no_effect() {
    // constructing a task runs no segment: the state machine is exactly
    // its initial state, with nothing precomputed
    let task = complex_async_function(7, "payload".to_string());
    assert_eq!(
        task,
        Task::Complex {
            id: 7,
            data: "payload".to_string(),
            processed: String::new(),
            segment: 0,
        }
    );
    let never_run = async_sugar_example();
    assert_eq!(
        never_run,
        Task::Timed { delay: 10, value: TaskValue::Int(42), segment: 0 }
    );
}

#[test]
fn run_all_drives_every_task_to_completion() {
    let report = run_all(vec![
        timed_task(5, TaskValue::Int(10)),
        multi_yield_task(vec![1, 2, 3]),
        timed_task(2, TaskValue::Text("done".to_string())),
    ]);
    assert_eq!(
        report.result,
        JoinResult::Completed(vec![
            TaskValue::Int(10),
            TaskValue::Unit,
            TaskValue::Text("done".to_string()),
        ])
    );
    assert_eq!(report.elapsed, 6);
}

#[test]
fn run_all_surfaces_the_first_failure_by_index() {
    let report = run_all(vec![
        timed_task(500, TaskValue::Int(1)),
        complex_async_function(0, "a".to_string()),
        complex_async_function(0, "b".to_string()),
    ]);
    assert_eq!(
        report.result,
        JoinResult::Failed(TaskError::Validation("Invalid ID: cannot be zero".to_string()))
    );
    assert_eq!(report.elapsed, 500);
}

#[test]
fn yield_for_registers_the_wake_condition() {
    assert_eq!(yield_for(250), Resume::Suspended(250));
    assert_eq!(yield_for(0), Resume::Suspended(0));
}
