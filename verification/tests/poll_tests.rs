//! The readiness poller's timing behavior.

use brp_tool::poll::{poll_outcomes, PollVerdict, Poller};

#[test]
fn test_success_on_nth_attempt_timing() {
    // success on the third attempt: each attempt is preceded by one
    // interval, so the wait ends at or after 3 * interval, before timeout
    let outcomes = vec![false, false, true];
    let (ok, elapsed) = poll_outcomes(&outcomes, 100, 10);
    assert!(ok);
    assert_eq!(elapsed, 30);
    assert!(elapsed >= 3 * 10);
    assert!(elapsed < 100);
}

#[test]
fn test_first_attempt_costs_one_interval() {
    let (ok, elapsed) = poll_outcomes(&vec![true], 100, 10);
    assert!(ok);
    assert_eq!(elapsed, 10);
}

#[test]
fn test_never_succeeding_fails_near_timeout() {
    // the wait ends within one interval past the timeout
    let outcomes = vec![false; 10];
    let (ok, elapsed) = poll_outcomes(&outcomes, 42, 10);
    assert!(!ok);
    assert!(42 <= elapsed && elapsed < 52);
    assert_eq!(elapsed, 50);
}

#[test]
fn test_success_after_timeout_does_not_count() {
    // the pause before the fifth attempt crosses the timeout, so its
    // success comes too late
    let outcomes = vec![false, false, false, false, true];
    let (ok, elapsed) = poll_outcomes(&outcomes, 42, 10);
    assert!(!ok);
    assert_eq!(elapsed, 50);
}

#[test]
fn test_poller_verdicts() {
    let mut p = Poller::new(25, 10);
    assert_eq!(p.record_attempt(false), PollVerdict::RetryAfterInterval);
    assert_eq!(p.record_attempt(false), PollVerdict::RetryAfterInterval);
    assert_eq!(p.record_attempt(false), PollVerdict::TimedOut);
    assert_eq!(p.elapsed_ms, 30);

    let mut p = Poller::new(25, 10);
    assert_eq!(p.record_attempt(true), PollVerdict::Ready);
    assert_eq!(p.elapsed_ms, 10);
}
