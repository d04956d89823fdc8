//! An HTTP status code as a recoverable error, with exponential backoff and a
//! hard cutoff as its policy.
use std::time::Duration;
use std::time::Instant;
use http::status::InvalidStatusCode;
use http::status::StatusCode;
use vstd::prelude::*;
use crate::clock::{
    checked_gap, duration_nanos, from_millis, gap_between, nanos, times, wait_nanos,
    NANOS_PER_MILLI,
};
use crate::retryable::Retryable;

verus! {

/// `http::status::StatusCode`, known only by its number.
#[verifier::external_type_specification]
#[verifier::external_body]
pub struct StatusCodeDecl(http::status::StatusCode);

/// `http::status::InvalidStatusCode`: the error of `StatusCode::from_u16`.
#[verifier::external_type_specification]
#[verifier::external_body]
pub struct InvalidStatusCodeDecl(http::status::InvalidStatusCode);

/// The number of a status code, as `StatusCode::as_u16` returns it.
pub uninterp spec fn status_number(code: StatusCode) -> u16;

/// `StatusCode::from_u16`: the code with that number, for the numbers from
/// 100 to 999; an error for all others.
#[verifier::external_body]
fn status_from_u16(src: u16) -> (code: Result<StatusCode, InvalidStatusCode>)
    ensures
        code is Ok <==> 100 <= src <= 999,
        code matches Ok(c) ==> status_number(c) == src,
{
    StatusCode::from_u16(src)
}

/// `StatusCode::as_u16`: the number of the code.
#[verifier::external_body]
fn status_as_u16(code: &StatusCode) -> (number: u16)
    ensures
        number == status_number(*code),
{
    code.as_u16()
}

/// The wait after the first recoverable failure, and wherever the clock gives
/// no gap to the failure before: one second.
pub const DEFAULT_WAIT_MILLIS: u64 = 1000;

/// The longest gap between two failures after which another attempt is made:
/// thirty seconds, in nanoseconds.
pub const CUTOFF_NANOS: u128 = 30_000_000_000;

/// The number was not one of a status code.
#[derive(Debug, PartialEq, Eq)]
pub struct InvalidCode(pub u16);

/// A status code that is worth another attempt.
pub struct RetryingStatusCode(pub StatusCode);

/// The backoff rule in nanoseconds. With no gap to go by, wait the default.
/// A gap over the cutoff ends retrying. Any other gap is doubled.
pub open spec fn backoff_wait(gap: Option<Duration>) -> Option<nat> {
    match gap {
        None => Some((DEFAULT_WAIT_MILLIS * NANOS_PER_MILLI) as nat),
        Some(g) => if duration_nanos(g) > CUTOFF_NANOS {
            None
        } else {
            Some(2 * duration_nanos(g))
        },
    }
}

/// The gap that the rule goes by: from the last recorded failure to `my_time`,
/// where there is such a failure and the clock gives the gap.
pub open spec fn last_gap<R>(my_time: Instant, previous: Seq<(R, Instant)>) -> Option<Duration> {
    if previous.len() == 0 {
        None
    } else {
        gap_between(my_time, previous.last().1)
    }
}

/// Applies the backoff rule to the gap between the last two failures.
pub fn backoff(gap: Option<Duration>) -> (wait: Option<Duration>)
    ensures
        wait_nanos(wait) == backoff_wait(gap),
{
    match gap {
        Some(last_two_gap) => {
            if nanos(&last_two_gap) > CUTOFF_NANOS {
                None
            } else {
                Some(times(last_two_gap, 2))
            }
        },
        None => Some(from_millis(DEFAULT_WAIT_MILLIS)),
    }
}

impl RetryingStatusCode {
    /// The code with that number, where it is one: from 100 to 999.
    pub fn from_u16(u: u16) -> (made: Result<RetryingStatusCode, InvalidCode>)
        ensures
            made is Ok <==> 100 <= u <= 999,
            made matches Ok(code) ==> status_number(code.0) == u,
            made matches Err(e) ==> e == InvalidCode(u),
    {
        match status_from_u16(u) {
            Ok(code) => Ok(RetryingStatusCode(code)),
            Err(_) => Err(InvalidCode(u)),
        }
    }

    /// The number of the code.
    pub fn as_u16(&self) -> (number: u16)
        ensures
            number == status_number(self.0),
    {
        status_as_u16(&self.0)
    }
}

impl Retryable for RetryingStatusCode {
    type FatalError = StatusCode;

    fn to_fatal(self) -> (fatal: StatusCode)
        ensures
            fatal == self.0,
    {
        self.0
    }

    /// Waits twice as long as the gap between this failure and the one before
    /// it. The first failure waits a second. A gap of more than thirty
    /// seconds ends retrying.
    fn wait_time(
        &self,
        my_time: Instant,
        previous_retriable_failures: &[(Self, Instant)],
    ) -> (wait: Option<Duration>)
        ensures
            wait_nanos(wait) == backoff_wait(last_gap(my_time, previous_retriable_failures@)),
    {
        let seen = previous_retriable_failures.len();
        if seen == 0 {
            backoff(None)
        } else {
            let last_time = previous_retriable_failures[seen - 1].1;
            backoff(checked_gap(my_time, last_time))
        }
    }
}

/// The first recoverable failure, with no failure before it, waits the
/// default: one second.
pub proof fn lemma_first_failure_waits_default<R>(my_time: Instant)
    ensures
        backoff_wait(last_gap(my_time, Seq::<(R, Instant)>::empty())) == Some(1_000_000_000nat),
{
}

/// After a failure that came a gap `g` after the one before it, the wait is
/// twice `g` where `g` is at most thirty seconds, and retrying ends where it
/// is more.
pub proof fn lemma_backoff_doubles_up_to_cutoff<R>(
    my_time: Instant,
    previous: Seq<(R, Instant)>,
    g: Duration,
)
    requires
        previous.len() > 0,
        gap_between(my_time, previous.last().1) == Some(g),
    ensures
        duration_nanos(g) <= 30_000_000_000 ==> backoff_wait(last_gap(my_time, previous)) == Some(
            2 * duration_nanos(g),
        ),
        duration_nanos(g) > 30_000_000_000 ==> backoff_wait(last_gap(my_time, previous)) is None,
{
}

} // verus!
