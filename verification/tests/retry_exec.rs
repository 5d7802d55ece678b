use quotestats::retry::{
    classify, initial_state, method_supported, run, step, wake, HttpMethod, ResponseClass,
    ResponseEvent, RetryState, RunOutcome, ATTEMPT_LIMIT, REQUEST_TIMEOUT_MILLIS,
    RETRY_DELAY_MILLIS,
};

#[test]
fn only_get_and_post_are_supported() {
    assert!(method_supported(HttpMethod::Get));
    assert!(method_supported(HttpMethod::Post));
    assert!(!method_supported(HttpMethod::Put));
    assert!(!method_supported(HttpMethod::Delete));
    assert!(!method_supported(HttpMethod::Head));
    assert!(!method_supported(HttpMethod::Patch));
    assert!(!method_supported(HttpMethod::Options));
}

#[test]
fn classification_of_status_codes() {
    assert_eq!(classify(200), ResponseClass::Success);
    assert_eq!(classify(404), ResponseClass::TransientExpected);
    assert_eq!(classify(429), ResponseClass::TransientExpected);
    assert_eq!(classify(504), ResponseClass::Fatal);
    assert_eq!(classify(500), ResponseClass::TransientUnexpected);
    assert_eq!(classify(403), ResponseClass::TransientUnexpected);
    assert_eq!(classify(301), ResponseClass::TransientUnexpected);
}

#[test]
fn policy_constants() {
    assert_eq!(ATTEMPT_LIMIT, 15);
    assert_eq!(RETRY_DELAY_MILLIS, 1500);
    assert_eq!(REQUEST_TIMEOUT_MILLIS, 5000);
}

#[test]
fn two_rate_limits_then_success_consume_three_attempts_and_two_sleeps() {
    let bodies = vec!["too many", "too many", "the quotes"];
    let events = vec![
        ResponseEvent::Status(429),
        ResponseEvent::Status(429),
        ResponseEvent::Status(200),
    ];
    let summary = run(&events);
    assert_eq!(summary.outcome, RunOutcome::Success);
    assert_eq!(summary.attempts, 3);
    assert_eq!(summary.sleeps, 2);
    // The body of the attempt consumed last is what the executor returns.
    assert_eq!(bodies[summary.attempts - 1], "the quotes");
}

#[test]
fn gateway_timeout_fails_at_once_without_delay() {
    let events = vec![ResponseEvent::Status(504)];
    let summary = run(&events);
    assert_eq!(summary.outcome, RunOutcome::FatalFailure { status: 504 });
    assert_eq!(summary.attempts, 1);
    assert_eq!(summary.sleeps, 0);
}

#[test]
fn fifteen_server_errors_exhaust_the_attempt_budget() {
    let events = vec![ResponseEvent::Status(500); 15];
    let summary = run(&events);
    assert_eq!(summary.outcome, RunOutcome::AttemptsExhausted);
    assert_eq!(summary.attempts, 15);
    assert_eq!(summary.sleeps, 15);
}

#[test]
fn transport_failures_retry_without_sleeping() {
    let events = vec![
        ResponseEvent::TransportFailure,
        ResponseEvent::TransportFailure,
        ResponseEvent::Status(200),
    ];
    let summary = run(&events);
    assert_eq!(summary.outcome, RunOutcome::Success);
    assert_eq!(summary.attempts, 3);
    assert_eq!(summary.sleeps, 0);
}

#[test]
fn fifteen_transport_failures_exhaust_the_budget_without_sleeping() {
    let events = vec![ResponseEvent::TransportFailure; 15];
    let summary = run(&events);
    assert_eq!(summary.outcome, RunOutcome::AttemptsExhausted);
    assert_eq!(summary.attempts, 15);
    assert_eq!(summary.sleeps, 0);
}

#[test]
fn events_after_a_success_are_never_consumed() {
    let events = vec![
        ResponseEvent::Status(200),
        ResponseEvent::Status(504),
        ResponseEvent::Status(500),
    ];
    let summary = run(&events);
    assert_eq!(summary.outcome, RunOutcome::Success);
    assert_eq!(summary.attempts, 1);
    assert_eq!(summary.sleeps, 0);
}

#[test]
fn a_script_too_short_leaves_the_executor_wanting_more() {
    let events = vec![ResponseEvent::Status(429)];
    let summary = run(&events);
    assert_eq!(summary.outcome, RunOutcome::OutOfEvents);
    assert_eq!(summary.attempts, 1);
    assert_eq!(summary.sleeps, 1);
}

#[test]
fn single_transitions_follow_the_policy() {
    let s0 = initial_state();
    assert_eq!(s0, RetryState::Attempting { attempt: 1 });
    assert_eq!(
        step(s0, ResponseEvent::Status(200)),
        RetryState::Succeeded { attempt: 1 }
    );
    assert_eq!(
        step(s0, ResponseEvent::Status(504)),
        RetryState::FailedFatal { status: 504 }
    );
    assert_eq!(
        step(s0, ResponseEvent::Status(404)),
        RetryState::Sleeping { attempt: 1 }
    );
    assert_eq!(
        step(s0, ResponseEvent::TransportFailure),
        RetryState::Attempting { attempt: 2 }
    );
    assert_eq!(
        wake(RetryState::Sleeping { attempt: 1 }),
        RetryState::Attempting { attempt: 2 }
    );
    assert_eq!(
        wake(RetryState::Sleeping { attempt: 15 }),
        RetryState::FailedExhausted
    );
    assert_eq!(
        step(RetryState::Attempting { attempt: 15 }, ResponseEvent::TransportFailure),
        RetryState::FailedExhausted
    );
}
