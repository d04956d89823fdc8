use http::status::StatusCode;
use std::time::{Duration, Instant};
use try_again::status::{backoff, InvalidCode, RetryingStatusCode};
use try_again::Retryable;

fn code(number: u16) -> RetryingStatusCode {
    RetryingStatusCode::from_u16(number).expect("a valid code")
}

#[test]
fn status_codes_run_from_100_to_999() {
    assert_eq!(RetryingStatusCode::from_u16(200).expect("200 is valid").as_u16(), 200);
    assert_eq!(code(100).as_u16(), 100);
    assert_eq!(code(999).as_u16(), 999);
    assert_eq!(RetryingStatusCode::from_u16(0).err(), Some(InvalidCode(0)));
    assert_eq!(RetryingStatusCode::from_u16(99).err(), Some(InvalidCode(99)));
    assert_eq!(RetryingStatusCode::from_u16(1000).err(), Some(InvalidCode(1000)));
    assert_eq!(RetryingStatusCode::from_u16(u16::MAX).err(), Some(InvalidCode(u16::MAX)));
}

#[test]
fn a_status_code_becomes_its_own_fatal_error() {
    assert_eq!(code(503).to_fatal(), StatusCode::SERVICE_UNAVAILABLE);
    assert_eq!(code(200).to_fatal(), StatusCode::from_u16(200).expect("200 is valid"));
}

#[test]
fn backoff_without_a_gap_waits_a_second() {
    assert_eq!(backoff(None), Some(Duration::from_millis(1000)));
}

#[test]
fn backoff_doubles_the_gap() {
    assert_eq!(backoff(Some(Duration::from_secs(3))), Some(Duration::from_secs(6)));
    assert_eq!(backoff(Some(Duration::from_nanos(1))), Some(Duration::from_nanos(2)));
    assert_eq!(backoff(Some(Duration::ZERO)), Some(Duration::ZERO));
    assert_eq!(backoff(Some(Duration::from_millis(1500))), Some(Duration::from_secs(3)));
}

#[test]
fn backoff_stops_above_thirty_seconds() {
    assert_eq!(backoff(Some(Duration::from_millis(30000))), Some(Duration::from_secs(60)));
    assert_eq!(backoff(Some(Duration::from_nanos(30_000_000_001))), None);
    assert_eq!(backoff(Some(Duration::from_secs(31))), None);
    assert_eq!(backoff(Some(Duration::MAX)), None);
}

#[test]
fn the_first_failure_waits_a_second() {
    let now = Instant::now();
    assert_eq!(code(500).wait_time(now, &[]), Some(Duration::from_secs(1)));
}

#[test]
fn the_wait_is_twice_the_gap_to_the_last_failure() {
    let start = Instant::now();
    let history = [
        (code(500), start),
        (code(502), start + Duration::from_secs(1)),
    ];
    let my_time = start + Duration::from_secs(4);
    assert_eq!(code(503).wait_time(my_time, &history), Some(Duration::from_secs(6)));
    assert_eq!(code(503).wait_time(my_time, &history[..1]), Some(Duration::from_secs(8)));
}

#[test]
fn the_policy_gives_up_after_a_gap_of_more_than_thirty_seconds() {
    let start = Instant::now();
    let history = [(code(500), start)];
    let at_cutoff = start + Duration::from_secs(30);
    let past_cutoff = start + Duration::from_millis(30001);
    assert_eq!(code(500).wait_time(at_cutoff, &history), Some(Duration::from_secs(60)));
    assert_eq!(code(500).wait_time(past_cutoff, &history), None);
}

#[test]
fn a_clock_that_ran_backwards_gets_the_default_wait() {
    let start = Instant::now();
    let history = [(code(500), start + Duration::from_secs(5))];
    assert_eq!(code(500).wait_time(start, &history), Some(Duration::from_secs(1)));
}

#[test]
fn the_policy_does_not_look_at_which_codes_failed() {
    let start = Instant::now();
    let same = [(code(503), start), (code(503), start + Duration::from_secs(2))];
    let mixed = [(code(429), start), (code(500), start + Duration::from_secs(2))];
    let my_time = start + Duration::from_secs(5);
    assert_eq!(
        code(503).wait_time(my_time, &same),
        code(404).wait_time(my_time, &mixed)
    );
}
