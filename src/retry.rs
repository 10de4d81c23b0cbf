//! The retry policy for reaching the store: a connection reset is retried
//! after a pause, a bounded number of times; anything else ends the attempt.

use vstd::prelude::*;

verus! {

/// What one attempt to reach the store came to.
#[derive(Clone, Copy, Debug, PartialEq, Eq, Structural)]
pub enum AttemptOutcome {
    Succeeded,
    ConnectionReset,
    OtherFailure,
}

/// What to do after an attempt.
#[derive(Clone, Copy, Debug, PartialEq, Eq, Structural)]
pub enum RetryAction {
    /// Hand the connection to the caller.
    Finish,
    /// Pause, then try again.
    RetryAfterPause,
    /// Hand the failure to the caller.
    GiveUp,
}

/// Decides the step after an attempt, given how many retries were already
/// made; returns the action and the retries made once it is taken.
pub fn next_retry_step(attempts: usize, max_retries: usize, outcome: AttemptOutcome) -> (r: (
    RetryAction,
    usize,
))
    requires
        attempts <= max_retries,
    ensures
        r.1 <= max_retries,
        outcome == AttemptOutcome::Succeeded ==> r == (RetryAction::Finish, attempts),
        outcome == AttemptOutcome::OtherFailure ==> r == (RetryAction::GiveUp, attempts),
        outcome == AttemptOutcome::ConnectionReset ==> r == (if attempts < max_retries {
            (RetryAction::RetryAfterPause, (attempts + 1) as usize)
        } else {
            (RetryAction::GiveUp, attempts)
        }),
{
    match outcome {
        AttemptOutcome::Succeeded => (RetryAction::Finish, attempts),
        AttemptOutcome::OtherFailure => (RetryAction::GiveUp, attempts),
        AttemptOutcome::ConnectionReset => {
            if attempts < max_retries {
                (RetryAction::RetryAfterPause, attempts + 1)
            } else {
                (RetryAction::GiveUp, attempts)
            }
        },
    }
}

} // verus!
