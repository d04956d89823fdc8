//! Time as the retry loop needs it: instants, the gap between two of them,
//! and durations measured in nanoseconds.
use std::time::Duration;
use std::time::Instant;
use vstd::prelude::*;

verus! {

/// `std::time::Instant`, carried through as it is: nothing is read inside it.
#[verifier::external_type_specification]
#[verifier::external_body]
pub struct InstantDecl(std::time::Instant);

/// The length of a duration in nanoseconds, as `Duration::as_nanos` returns it.
pub uninterp spec fn duration_nanos(d: Duration) -> nat;

/// What `Instant::checked_duration_since` returns for `later` and `earlier`:
/// the time from `earlier` to `later`, or `None` where the clock cannot give one.
pub uninterp spec fn gap_between(later: Instant, earlier: Instant) -> Option<Duration>;

/// Nanoseconds in a millisecond.
pub const NANOS_PER_MILLI: u64 = 1_000_000;

/// One more than the largest number of nanoseconds a `Duration` can hold:
/// its seconds are a `u64`, its nanoseconds stay under a second.
pub open spec fn duration_limit() -> nat {
    0x1_0000_0000_0000_0000 * 1_000_000_000
}

/// The wait in nanoseconds, where there is one.
pub open spec fn wait_nanos(wait: Option<Duration>) -> Option<nat> {
    match wait {
        Some(d) => Some(duration_nanos(d)),
        None => None,
    }
}

/// `Instant::now`. The result depends on the clock, so nothing is claimed of it.
#[verifier::external_body]
pub(crate) fn now() -> Instant {
    Instant::now()
}

/// `Instant::checked_duration_since`. The result is a function of the two
/// instants alone; the contract only gives it its name.
#[verifier::external_body]
pub(crate) fn checked_gap(later: Instant, earlier: Instant) -> (gap: Option<Duration>)
    ensures
        gap == gap_between(later, earlier),
{
    later.checked_duration_since(earlier)
}

/// `Duration::as_nanos`: the total number of nanoseconds in the duration.
#[verifier::external_body]
pub(crate) fn nanos(d: &Duration) -> (n: u128)
    ensures
        n == duration_nanos(*d),
{
    d.as_nanos()
}

/// `Duration::from_millis`: a duration of that many milliseconds.
#[verifier::external_body]
pub(crate) fn from_millis(millis: u64) -> (d: Duration)
    ensures
        duration_nanos(d) == millis * NANOS_PER_MILLI,
{
    Duration::from_millis(millis)
}

/// `Duration * u32`: the duration taken `factor` times. The operator panics
/// where the product does not fit in a `Duration`; `requires` leaves that out.
#[verifier::external_body]
pub(crate) fn times(d: Duration, factor: u32) -> (product: Duration)
    requires
        duration_nanos(d) * factor < duration_limit(),
    ensures
        duration_nanos(product) == duration_nanos(d) * factor,
{
    d * factor
}

} // verus!
