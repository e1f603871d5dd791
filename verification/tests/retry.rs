use droidfoodattestation::retry::{RetryState, RetryStep};
use droidfoodattestation::types::{OverwriteAttemptError, OverwriteRequestError};

const MILLISECOND: u128 = 1_000_000;

const SECOND: u128 = 1_000_000_000;

fn retryable() -> Result<u8, OverwriteAttemptError> {
    Err(OverwriteAttemptError::Retryable("try again".to_owned()))
}

fn backend_error<T>(step: RetryStep<T>) -> String {
    match step {
        RetryStep::Finished(Err(OverwriteRequestError::Backend(message))) => message,
        _ => panic!("no backend error"),
    }
}

fn invalid_argument<T>(step: RetryStep<T>) -> String {
    match step {
        RetryStep::Finished(Err(OverwriteRequestError::InvalidArgument(message))) => message,
        _ => panic!("no invalid argument"),
    }
}

fn pause<T>(step: RetryStep<T>) -> (u128, RetryState) {
    match step {
        RetryStep::Sleep { delay_nanos, next } => (delay_nanos, next),
        RetryStep::Finished(_) => panic!("finished"),
    }
}

#[test]
fn attempt_may_take_the_time_that_is_left() {
    let state = RetryState::new();
    assert_eq!(state.before_attempt("op", 0).unwrap(), 30 * SECOND);
    assert_eq!(state.before_attempt("op", 30 * SECOND - 1).unwrap(), 1);
}

#[test]
fn no_attempt_after_the_deadline() {
    for elapsed in [30 * SECOND, 31 * SECOND, u128::MAX] {
        match RetryState::new().before_attempt("attestation overwrite", elapsed) {
            Err(OverwriteRequestError::Backend(message)) => {
                assert_eq!(message, "attestation overwrite request deadline exceeded");
            }
            _ => panic!("no deadline"),
        }
    }
}

#[test]
fn success_ends_the_request() {
    let step = RetryState::new().after_attempt::<u8>(Ok(7), 0);
    assert!(matches!(step, RetryStep::Finished(Ok(7))));
}

#[test]
fn permanent_failures_are_not_retried() {
    let invalid = Err(OverwriteAttemptError::InvalidArgument("bad".to_owned()));
    assert_eq!(invalid_argument(RetryState::new().after_attempt::<u8>(invalid, 0)), "bad");
    let fatal = Err(OverwriteAttemptError::Fatal("dead".to_owned()));
    assert_eq!(backend_error(RetryState::new().after_attempt::<u8>(fatal, 0)), "dead");
}

#[test]
fn transient_failures_are_tried_three_times() {
    let (first, state) = pause(RetryState::new().after_attempt(retryable(), 0));
    assert_eq!(first, 250 * MILLISECOND);
    assert_eq!(state.attempt, 2);
    let (second, state) = pause(state.after_attempt(retryable(), 0));
    assert_eq!(second, 500 * MILLISECOND);
    assert_eq!(state.attempt, 3);
    assert_eq!(backend_error(state.after_attempt(retryable(), 0)), "try again");
}

#[test]
fn empty_response_is_an_invalid_argument_in_the_end() {
    let empty = || Err(OverwriteAttemptError::EmptyResponse);
    let (_, state) = pause(RetryState::new().after_attempt::<u8>(empty(), 0));
    let (_, state) = pause(state.after_attempt::<u8>(empty(), 0));
    assert_eq!(invalid_argument(state.after_attempt::<u8>(empty(), 0)), "INVALID_ARGUMENT");
}

#[test]
fn last_failure_is_reported() {
    let (_, state) = pause(RetryState::new().after_attempt(retryable(), 0));
    let last = Err(OverwriteAttemptError::Fatal("the last one".to_owned()));
    assert_eq!(backend_error(state.after_attempt::<u8>(last, 0)), "the last one");
}

#[test]
fn pauses_end_before_the_deadline() {
    let latest = 30 * SECOND - 250 * MILLISECOND;
    assert_eq!(
        backend_error(RetryState::new().after_attempt(retryable(), latest)),
        "try again"
    );
    let (_, state) = pause(RetryState::new().after_attempt(retryable(), latest - 1));
    assert_eq!(
        backend_error(state.after_attempt(retryable(), 30 * SECOND - 500 * MILLISECOND)),
        "try again"
    );
}
