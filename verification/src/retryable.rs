//! The three-way outcome of one attempt, and the policy that a recoverable
//! error carries.
use std::time::Duration;
use std::time::Instant;
use vstd::prelude::*;

verus! {

/// A recoverable error that knows how retrying goes on after it.
///
/// `wait_time` holds the policy. It sees the failure itself, the instant at
/// which it was observed and every recoverable failure recorded before it,
/// oldest first and without this one, and answers with the time to wait
/// before the next attempt, or `None` to give up. An exponential backoff
/// looks at the instants alone; another policy may give up once the same
/// error keeps coming back.
///
/// `to_fatal` turns the failure into the error that the caller gets when
/// retrying ends with it.
pub trait Retryable: Sized {
    type FatalError;

    fn to_fatal(self) -> Self::FatalError;

    fn wait_time(
        &self,
        my_time: Instant,
        previous_retriable_failures: &[(Self, Instant)],
    ) -> Option<Duration>;
}

/// What one attempt came to.
#[verifier::reject_recursive_types(F)]
pub enum RetryableResult<T, R, F> where R: Retryable<FatalError = F> {
    GoodResult(T),
    Retryable(R),
    Fatal(F),
}

} // verus!
