use std::sync::{Arc, Mutex};

use mehoy::cancel::{
    CancellationCause, CancellationStrategy, CancellationToken, RequestBudget, RequestHandle,
    RequestState, UnloadBudget,
};
use mehoy::id::RequestId;

#[test]
fn a_new_request_is_starting() {
    let handle = RequestHandle::new(RequestId::from_raw(1));
    assert_eq!(handle.state(), RequestState::Starting);
    assert!(!handle.is_terminal());
}

#[test]
fn cancelling_moves_to_cancelling_and_not_to_cancelled() {
    // Asking is not the same as having stopped. The backend may keep working
    // for seconds afterwards.
    let mut handle = RequestHandle::new(RequestId::from_raw(1));
    assert!(handle.request_cancellation(CancellationCause::User));
    assert_eq!(handle.state(), RequestState::Cancelling);
    assert!(!handle.is_terminal());
}

#[test]
fn cancelling_twice_is_claimed_once() {
    let mut handle = RequestHandle::new(RequestId::from_raw(1));
    assert!(handle.request_cancellation(CancellationCause::User));
    assert!(!handle.request_cancellation(CancellationCause::User));
}

#[test]
fn a_finished_request_cannot_be_cancelled() {
    let mut handle = RequestHandle::new(RequestId::from_raw(1));
    assert!(handle.finish(RequestState::Completed));
    assert!(!handle.request_cancellation(CancellationCause::User));
    assert_eq!(handle.state(), RequestState::Completed);
}

#[test]
fn only_the_first_terminal_state_is_recorded() {
    // The race that matters: a completion arriving as a cancellation lands.
    let mut handle = RequestHandle::new(RequestId::from_raw(1));
    assert!(handle.finish(RequestState::Completed));
    assert!(!handle.finish(RequestState::Cancelled));
    assert_eq!(handle.state(), RequestState::Completed);
}

#[test]
fn a_cancelled_request_can_still_finish_as_cancelled() {
    let mut handle = RequestHandle::new(RequestId::from_raw(1));
    handle.request_cancellation(CancellationCause::User);
    assert!(handle.finish(RequestState::Cancelled));
    assert_eq!(handle.state(), RequestState::Cancelled);
    assert_eq!(handle.cancellation_cause(), Some(CancellationCause::User));
}

#[test]
fn a_cancelled_request_that_completes_first_reports_completed() {
    // Cancellation requested, but the backend finished before it took effect.
    let mut handle = RequestHandle::new(RequestId::from_raw(1));
    handle.request_cancellation(CancellationCause::User);
    assert!(handle.finish(RequestState::Completed));
    assert_eq!(handle.state(), RequestState::Completed);
}

#[test]
fn running_cannot_move_a_stopping_request_backwards() {
    let mut handle = RequestHandle::new(RequestId::from_raw(1));
    handle.request_cancellation(CancellationCause::User);
    handle.mark_running();
    assert_eq!(handle.state(), RequestState::Cancelling);
}

#[test]
fn a_fresh_token_is_not_cancelled() {
    let token = CancellationToken::new();
    assert!(!token.is_cancelled());
    assert_eq!(token.cause(), None);
}

#[test]
fn the_first_cause_wins() {
    // A timeout and a caller can arrive together. Whichever is first decides
    // why the request stopped, and the other does not rewrite history.
    let mut token = CancellationToken::new();
    assert!(token.cancel(CancellationCause::StreamIdleTimeout));
    assert!(!token.cancel(CancellationCause::User));
    assert_eq!(token.cause(), Some(CancellationCause::StreamIdleTimeout));
}

#[test]
fn only_ended_states_are_terminal() {
    for state in [
        RequestState::Starting,
        RequestState::Running,
        RequestState::Cancelling,
    ] {
        assert!(!state.is_terminal(), "{} should not be terminal", state.to_string());
    }
    for state in [
        RequestState::Completed,
        RequestState::Cancelled,
        RequestState::Failed,
    ] {
        assert!(state.is_terminal(), "{} should be terminal", state.to_string());
    }
}

#[test]
fn a_request_only_moves_forward() {
    let mut handle = RequestHandle::new(RequestId::from_raw(3));
    assert_eq!(handle.id(), RequestId::from_raw(3));
    handle.mark_running();
    assert_eq!(handle.state(), RequestState::Running);
    assert!(handle.request_cancellation(CancellationCause::InstanceUnloading));
    assert!(handle.token().is_cancelled());
    assert_eq!(handle.state(), RequestState::Cancelling);
    assert!(handle.finish(RequestState::Failed));
    handle.mark_running();
    assert_eq!(handle.state(), RequestState::Failed);
    assert!(!handle.finish(RequestState::Completed));
    assert!(handle.is_terminal());
}

#[test]
fn an_idle_timeout_is_reported_unless_something_stopped_the_request_first() {
    let mut quiet = RequestHandle::new(RequestId::from_raw(1));
    assert_eq!(quiet.idle_timeout(), CancellationCause::StreamIdleTimeout);
    assert_eq!(quiet.cancellation_cause(), Some(CancellationCause::StreamIdleTimeout));

    let mut stopped = RequestHandle::new(RequestId::from_raw(2));
    assert!(stopped.request_cancellation(CancellationCause::User));
    assert_eq!(stopped.idle_timeout(), CancellationCause::User);
    assert_eq!(stopped.cancellation_cause(), Some(CancellationCause::User));

    let mut token = CancellationToken::default();
    assert_eq!(token.idle_timeout(), CancellationCause::StreamIdleTimeout);
    assert!(token.is_cancelled());
}

#[test]
fn default_budgets_are_two_minutes_and_ten_seconds() {
    assert_eq!(RequestBudget::default().stream_idle, 120_000_000_000);
    assert_eq!(UnloadBudget::default().drain, 10_000_000_000);
}

#[test]
fn causes_states_and_strategies_are_put_in_words() {
    assert_eq!(CancellationCause::ConsumerGone.to_string(), "nothing was reading the output");
    let causes = [
        CancellationCause::User,
        CancellationCause::StreamIdleTimeout,
        CancellationCause::ConsumerGone,
        CancellationCause::InstanceUnloading,
    ];
    for a in causes {
        for b in causes {
            assert_eq!(a.to_string() == b.to_string(), a == b);
        }
    }
    let states = [
        RequestState::Starting,
        RequestState::Running,
        RequestState::Cancelling,
        RequestState::Completed,
        RequestState::Cancelled,
        RequestState::Failed,
    ];
    let words: Vec<String> = states.iter().map(|s| s.to_string()).collect();
    assert_eq!(
        words,
        vec!["starting", "running", "cancelling", "completed", "cancelled", "failed"]
    );
    assert!(!CancellationStrategy::ConnectionAbort.to_string().is_empty());
}

#[test]
fn every_clone_sees_the_same_request() {
    let handle = Arc::new(Mutex::new(RequestHandle::new(RequestId::from_raw(7))));
    let other = handle.clone();
    other.lock().expect("a request").mark_running();
    assert_eq!(handle.lock().expect("a request").state(), RequestState::Running);
    assert_eq!(other.lock().expect("a request").id(), RequestId::from_raw(7));
}

#[test]
fn cancelling_is_visible_through_every_clone() {
    let token = Arc::new(Mutex::new(CancellationToken::new()));
    let other = token.clone();
    assert!(other.lock().expect("a token").cancel(CancellationCause::User));
    assert!(token.lock().expect("a token").is_cancelled());
}

#[test]
fn only_the_first_outcome_counts_whoever_reports_it() {
    let handle = Arc::new(Mutex::new(RequestHandle::new(RequestId::from_raw(7))));
    let other = handle.clone();
    assert!(other.lock().expect("a request").finish(RequestState::Failed));
    assert!(!handle.lock().expect("a request").finish(RequestState::Completed));
    assert_eq!(handle.lock().expect("a request").state(), RequestState::Failed);
}
