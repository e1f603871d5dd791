//! How often, and until when, a request to the backend is attempted.
//!
//! Times are nanoseconds since the request was begun.

use vstd::prelude::*;

use crate::rpc::INVALID_ARGUMENT;
use crate::text::join2;
use crate::types::{
    AttemptFailure, OverwriteAttemptError, OverwriteRequestError, RequestFailure,
};

verus! {

/// How long a request may take, all attempts and pauses together: 30 seconds.
pub const BACKEND_REQUEST_TIMEOUT_NANOS: u128 = 30_000_000_000;

/// The pause after the first attempt: 250 milliseconds. Each later pause is longer by as much.
pub const BACKEND_RETRY_DELAY_NANOS: u128 = 250_000_000;

pub const BACKEND_REQUEST_ATTEMPTS: usize = 3;

pub const DEADLINE_EXCEEDED: &'static str = " request deadline exceeded";

/// A request that has come to the attempt with this number.
#[derive(Debug)]
pub struct RetryState {
    pub attempt: usize,
}

/// What follows an attempt.
#[derive(Debug)]
pub enum RetryStep<T> {
    Finished(Result<T, OverwriteRequestError>),
    Sleep { delay_nanos: u128, next: RetryState },
}

/// The time that is left.
pub open spec fn remaining_nanos(elapsed_nanos: u128) -> u128 {
    if elapsed_nanos >= BACKEND_REQUEST_TIMEOUT_NANOS {
        0
    } else {
        (BACKEND_REQUEST_TIMEOUT_NANOS - elapsed_nanos) as u128
    }
}

/// The pause after the attempt with this number.
pub open spec fn retry_delay_nanos(attempt: nat) -> nat {
    attempt * (BACKEND_RETRY_DELAY_NANOS as nat)
}

/// A failure that another attempt may mend.
pub open spec fn is_transient(failure: AttemptFailure) -> bool {
    failure is EmptyResponse || failure is Retryable
}

/// What a request fails with when an attempt that failed so is its last one.
pub open spec fn final_failure(failure: AttemptFailure) -> RequestFailure {
    match failure {
        AttemptFailure::InvalidArgument(message) => RequestFailure::InvalidArgument(message),
        AttemptFailure::EmptyResponse => RequestFailure::InvalidArgument(INVALID_ARGUMENT@),
        AttemptFailure::Retryable(message) => RequestFailure::Backend(message),
        AttemptFailure::Fatal(message) => RequestFailure::Backend(message),
    }
}

/// Another attempt follows the attempt with this number, which failed so at this time.
pub open spec fn is_retried(attempt: nat, failure: AttemptFailure, elapsed_nanos: u128) -> bool {
    &&& is_transient(failure)
    &&& attempt < BACKEND_REQUEST_ATTEMPTS
    &&& remaining_nanos(elapsed_nanos) > retry_delay_nanos(attempt)
}

/// The time that is left.
fn time_left(elapsed_nanos: u128) -> (nanos: u128)
    ensures
        nanos == remaining_nanos(elapsed_nanos),
{
    if elapsed_nanos >= BACKEND_REQUEST_TIMEOUT_NANOS {
        0
    } else {
        BACKEND_REQUEST_TIMEOUT_NANOS - elapsed_nanos
    }
}

impl RetryState {
    /// The number is that of one of the attempts.
    pub open spec fn is_valid(self) -> bool {
        1 <= self.attempt <= BACKEND_REQUEST_ATTEMPTS
    }

    /// A request before its first attempt.
    pub fn new() -> (state: RetryState)
        ensures
            state.is_valid(),
            state.attempt == 1,
    {
        RetryState { attempt: 1 }
    }

    /// How long the next attempt may take, unless the time is up.
    pub fn before_attempt(&self, operation: &str, elapsed_nanos: u128) -> (timeout: Result<
        u128,
        OverwriteRequestError,
    >)
        ensures
            remaining_nanos(elapsed_nanos) > 0 ==> timeout == Ok::<u128, OverwriteRequestError>(
                remaining_nanos(elapsed_nanos),
            ),
            remaining_nanos(elapsed_nanos) == 0 ==> (timeout matches Err(error) && error@
                == RequestFailure::Backend(operation@ + DEADLINE_EXCEEDED@)),
    {
        let remaining: u128 = time_left(elapsed_nanos);
        if remaining == 0 {
            return Err(OverwriteRequestError::Backend(join2(operation, DEADLINE_EXCEEDED)));
        }
        Ok(remaining)
    }

    /// What follows an attempt with this outcome, which ended at this time.
    pub fn after_attempt<T>(
        self,
        outcome: Result<T, OverwriteAttemptError>,
        elapsed_nanos: u128,
    ) -> (step: RetryStep<T>)
        requires
            self.is_valid(),
        ensures
            match outcome {
                Ok(value) => step == RetryStep::<T>::Finished(Ok(value)),
                Err(error) => if is_retried(self.attempt as nat, error@, elapsed_nanos) {
                    step matches RetryStep::Sleep { delay_nanos, next } && delay_nanos
                        == retry_delay_nanos(self.attempt as nat) && next.attempt == self.attempt
                        + 1 && next.is_valid()
                } else {
                    step matches RetryStep::Finished(Err(failure)) && failure@ == final_failure(
                        error@,
                    )
                },
            },
    {
        let failure = match outcome {
            Ok(value) => return RetryStep::Finished(Ok(value)),
            Err(OverwriteAttemptError::InvalidArgument(message)) => {
                return RetryStep::Finished(Err(OverwriteRequestError::InvalidArgument(message)));
            },
            Err(OverwriteAttemptError::Fatal(message)) => {
                return RetryStep::Finished(Err(OverwriteRequestError::Backend(message)));
            },
            Err(OverwriteAttemptError::EmptyResponse) => {
                OverwriteRequestError::InvalidArgument(INVALID_ARGUMENT.to_owned())
            },
            Err(OverwriteAttemptError::Retryable(message)) => {
                OverwriteRequestError::Backend(message)
            },
        };
        if self.attempt == BACKEND_REQUEST_ATTEMPTS {
            return RetryStep::Finished(Err(failure));
        }
        let delay_nanos: u128 = BACKEND_RETRY_DELAY_NANOS * self.attempt as u128;
        if time_left(elapsed_nanos) <= delay_nanos {
            return RetryStep::Finished(Err(failure));
        }
        RetryStep::Sleep { delay_nanos, next: RetryState { attempt: self.attempt + 1 } }
    }
}

/// One attempt of a request: when it was due, what came of it, and when it ended.
pub ghost struct AttemptRecord<T> {
    pub due: u128,
    pub outcome: Result<T, AttemptFailure>,
    pub ended: u128,
}

/// What a request comes to whose attempts, from the one with this number on, go as recorded. It
/// comes to nothing yet while another attempt is due.
pub open spec fn request_result<T>(
    operation: Seq<char>,
    attempt: nat,
    records: Seq<AttemptRecord<T>>,
) -> Option<Result<T, RequestFailure>>
    decreases records.len(),
{
    if records.len() == 0 {
        None
    } else if remaining_nanos(records[0].due) == 0 {
        Some(Err(RequestFailure::Backend(operation + DEADLINE_EXCEEDED@)))
    } else {
        match records[0].outcome {
            Ok(value) => Some(Ok(value)),
            Err(failure) => if is_retried(attempt, failure, records[0].ended) {
                request_result(operation, attempt + 1, records.drop_first())
            } else {
                Some(Err(final_failure(failure)))
            },
        }
    }
}

/// The record at `last` ends the request: every earlier attempt was retried, and this one is not.
pub open spec fn ends_at<T>(attempt: nat, records: Seq<AttemptRecord<T>>, last: int) -> bool {
    &&& 0 <= last < records.len()
    &&& forall|i: int|
        0 <= i < last ==> {
            &&& remaining_nanos((#[trigger] records[i]).due) > 0
            &&& records[i].outcome matches Err(failure)
            &&& is_retried((attempt + i) as nat, failure, records[i].ended)
        }
    &&& remaining_nanos(records[last].due) == 0 || (records[last].outcome matches Err(failure)
        ==> !is_retried((attempt + last) as nat, failure, records[last].ended))
}

/// What a request comes to that ends with this record.
pub open spec fn result_of<T>(operation: Seq<char>, record: AttemptRecord<T>) -> Result<
    T,
    RequestFailure,
> {
    if remaining_nanos(record.due) == 0 {
        Err(RequestFailure::Backend(operation + DEADLINE_EXCEEDED@))
    } else {
        match record.outcome {
            Ok(value) => Ok(value),
            Err(failure) => Err(final_failure(failure)),
        }
    }
}

proof fn lemma_request_ends<T>(
    operation: Seq<char>,
    attempt: nat,
    records: Seq<AttemptRecord<T>>,
    last: int,
)
    requires
        ends_at(attempt, records, last),
    ensures
        request_result(operation, attempt, records) == Some(result_of(operation, records[last])),
    decreases last,
{
    if last > 0 {
        let rest = records.drop_first();
        assert(is_retried((attempt + 0) as nat, records[0].outcome->Err_0, records[0].ended));
        assert forall|i: int| 0 <= i < last - 1 implies {
            &&& remaining_nanos((#[trigger] rest[i]).due) > 0
            &&& rest[i].outcome matches Err(failure)
            &&& is_retried((attempt + 1 + i) as nat, failure, rest[i].ended)
        } by {
            assert(rest[i] == records[i + 1]);
        }
        lemma_request_ends(operation, attempt + 1, rest, last - 1);
    }
}

/// A request comes to what the first attempt that is not retried comes to: its value, its failure,
/// or the passing of the deadline.
pub proof fn law_last_attempt_decides<T>(
    operation: Seq<char>,
    records: Seq<AttemptRecord<T>>,
    last: int,
)
    requires
        ends_at(1, records, last),
    ensures
        request_result(operation, 1, records) == Some(result_of(operation, records[last])),
{
    lemma_request_ends(operation, 1, records, last);
}

proof fn lemma_attempts_run_out<T>(
    operation: Seq<char>,
    attempt: nat,
    records: Seq<AttemptRecord<T>>,
)
    requires
        attempt <= BACKEND_REQUEST_ATTEMPTS,
        attempt + records.len() > BACKEND_REQUEST_ATTEMPTS,
    ensures
        request_result(operation, attempt, records) is Some,
    decreases records.len(),
{
    if attempt < BACKEND_REQUEST_ATTEMPTS {
        lemma_attempts_run_out(operation, attempt + 1, records.drop_first());
    }
}

/// A request is over after three attempts at the latest.
pub proof fn law_attempts_are_bounded<T>(operation: Seq<char>, records: Seq<AttemptRecord<T>>)
    requires
        records.len() >= BACKEND_REQUEST_ATTEMPTS,
    ensures
        request_result(operation, 1, records) is Some,
{
    lemma_attempts_run_out(operation, 1, records);
}

/// A pause is over before the deadline, and is no longer than half a second.
pub proof fn law_pauses_end_before_the_deadline(
    attempt: nat,
    failure: AttemptFailure,
    elapsed_nanos: u128,
)
    requires
        is_retried(attempt, failure, elapsed_nanos),
    ensures
        elapsed_nanos + retry_delay_nanos(attempt) < BACKEND_REQUEST_TIMEOUT_NANOS,
        retry_delay_nanos(attempt) <= 500_000_000,
{
    assert(attempt <= 2);
    assert(retry_delay_nanos(attempt) <= 2 * 250_000_000) by (nonlinear_arith)
        requires
            attempt <= 2,
            retry_delay_nanos(attempt) == attempt * 250_000_000,
    ;
}

/// A rejected argument and a fatal failure end a request at once, whatever time is left.
pub proof fn law_permanent_failures_end_a_request(
    attempt: nat,
    failure: AttemptFailure,
    elapsed_nanos: u128,
)
    requires
        failure is InvalidArgument || failure is Fatal,
    ensures
        !is_retried(attempt, failure, elapsed_nanos),
{
}

/// An attempt is followed by another exactly when it failed transiently, was not the third, and
/// would leave time behind a pause of as many quarters of a second as there were attempts.
pub proof fn law_retry_rule(attempt: nat, failure: AttemptFailure, elapsed_nanos: u128)
    ensures
        is_retried(attempt, failure, elapsed_nanos) <==> {
            &&& failure is EmptyResponse || failure is Retryable
            &&& attempt <= 2
            &&& elapsed_nanos + 250_000_000 * attempt < 30_000_000_000
        },
        retry_delay_nanos(attempt) == 250_000_000 * attempt,
        is_transient(failure) <==> !(failure is InvalidArgument) && !(failure is Fatal),
{
    assert(attempt * 250_000_000 == 250_000_000 * attempt) by (nonlinear_arith);
}

/// The time that is left and the time that has passed are half a minute together, as long as there
/// is any left.
pub proof fn law_time_left(elapsed_nanos: u128)
    ensures
        elapsed_nanos <= 30_000_000_000 ==> remaining_nanos(elapsed_nanos) + elapsed_nanos
            == 30_000_000_000,
        elapsed_nanos > 30_000_000_000 ==> remaining_nanos(elapsed_nanos) == 0,
{
}

/// A request fails with the text of its last attempt: as an invalid argument if that was refused as
/// one or was answered by nothing at all, and else as a failure of the backend.
pub proof fn law_final_failures(message: Seq<char>)
    ensures
        final_failure(AttemptFailure::InvalidArgument(message)) == RequestFailure::InvalidArgument(
            message,
        ),
        final_failure(AttemptFailure::EmptyResponse) == RequestFailure::InvalidArgument(
            "INVALID_ARGUMENT"@,
        ),
        final_failure(AttemptFailure::Retryable(message)) == RequestFailure::Backend(message),
        final_failure(AttemptFailure::Fatal(message)) == RequestFailure::Backend(message),
{
}

/// The attempts are the first, the second and the third.
pub proof fn law_attempt_numbers(state: RetryState)
    ensures
        state.is_valid() <==> state.attempt == 1 || state.attempt == 2 || state.attempt == 3,
{
}

} // verus!
