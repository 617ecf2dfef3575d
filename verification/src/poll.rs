//! The readiness poller: a fixed-interval retry loop that invokes a check
//! until it succeeds or a total timeout elapses. The check itself is outside
//! work, so the loop's decisions live here as a state machine: the caller
//! pauses one interval, performs one check, and hands the outcome back.
//! Every failure is treated alike and retried; only the timeout ends the
//! wait, and a pause that crosses the timeout ends it whatever the check
//! then found — as racing the check loop against a timer does.
use vstd::prelude::*;

verus! {

/// What the poller decides after one check.
#[derive(Debug, PartialEq, Eq, Clone, Copy, Structural)]
pub enum PollVerdict {
    /// The check succeeded in time: the wait is over.
    Ready,
    /// The check failed and time remains: pause one interval and try again.
    RetryAfterInterval,
    /// The pause crossed the timeout: fail with the caller's message.
    TimedOut,
}

/// What polling a given sequence of check outcomes comes to: whether it
/// succeeds, and how much waiting time has elapsed by then. Every check is
/// preceded by one interval's pause, so the first check fires at one
/// interval and the n-th at n intervals; a pause that crosses the timeout
/// ends the wait before its check counts.
pub open spec fn poll_outcome(outcomes: Seq<bool>, timeout: int, interval: int) -> (bool, int)
    decreases outcomes.len(),
{
    if outcomes.len() == 0 {
        (false, 0)
    } else if interval >= timeout {
        (false, interval)
    } else if outcomes[0] {
        (true, interval)
    } else {
        let (s, e) = poll_outcome(outcomes.drop_first(), timeout - interval, interval);
        (s, e + interval)
    }
}

/// A check that first succeeds on its n-th attempt (counting from 1), early
/// enough that n intervals stay under the timeout, ends the wait
/// successfully at exactly n intervals elapsed — at or after n times the
/// interval, and before the timeout.
pub proof fn lemma_poll_success_time(outcomes: Seq<bool>, timeout: int, interval: int, n: int)
    requires
        interval > 0,
        timeout > 0,
        1 <= n <= outcomes.len(),
        forall|i: int| 0 <= i < n - 1 ==> !outcomes[i],
        outcomes[n - 1],
        n * interval < timeout,
    ensures
        poll_outcome(outcomes, timeout, interval).0 == true,
        poll_outcome(outcomes, timeout, interval).1 == n * interval,
        n * interval < timeout,
    decreases n,
{
    assert(interval < timeout) by (nonlinear_arith)
        requires
            n >= 1,
            interval > 0,
            n * interval < timeout,
    ;
    if n == 1 {
        assert(outcomes[0]);
        assert(n * interval == interval) by (nonlinear_arith)
            requires
                n == 1,
        ;
    } else {
        assert(!outcomes[0]);
        let d = outcomes.drop_first();
        assert(forall|i: int| 0 <= i < n - 2 ==> #[trigger] d[i] == outcomes[i + 1]);
        assert(d[n - 2] == outcomes[n - 1]);
        assert((n - 1) * interval < timeout - interval) by (nonlinear_arith)
            requires
                n * interval < timeout,
        ;
        lemma_poll_success_time(d, timeout - interval, interval, n - 1);
        assert((n - 1) * interval + interval == n * interval) by (nonlinear_arith);
        let sub = poll_outcome(d, timeout - interval, interval);
        assert(sub.0 == true && sub.1 == (n - 1) * interval);
        assert(poll_outcome(outcomes, timeout, interval) == (sub.0, sub.1 + interval));
    }
}

/// A check that never succeeds ends the wait in failure once the attempts
/// have spent the timeout: the elapsed time reaches the timeout, overshooting
/// it by less than one interval.
pub proof fn lemma_poll_timeout(outcomes: Seq<bool>, timeout: int, interval: int)
    requires
        interval > 0,
        timeout > 0,
        forall|i: int| 0 <= i < outcomes.len() ==> !outcomes[i],
        outcomes.len() * interval >= timeout,
    ensures
        ({
            let (s, e) = poll_outcome(outcomes, timeout, interval);
            !s && timeout <= e < timeout + interval
        }),
    decreases outcomes.len(),
{
    assert(outcomes.len() > 0) by (nonlinear_arith)
        requires
            outcomes.len() * interval >= timeout,
            timeout > 0,
            interval > 0,
    ;
    if interval >= timeout {
    } else {
        assert(!outcomes[0]);
        let d = outcomes.drop_first();
        assert(forall|i: int| 0 <= i < d.len() ==> #[trigger] d[i] == outcomes[i + 1]);
        assert(d.len() * interval >= timeout - interval) by (nonlinear_arith)
            requires
                outcomes.len() * interval >= timeout,
                d.len() == outcomes.len() - 1,
        ;
        lemma_poll_timeout(d, timeout - interval, interval);
    }
}

/// The poller's state between checks: how long it may wait in all, how long
/// each pause is, and how much waiting has happened.
pub struct Poller {
    pub timeout_ms: u64,
    pub interval_ms: u64,
    pub elapsed_ms: u64,
}

impl Poller {
    /// Between checks the poller still has time left, and one more pause
    /// cannot overflow the clock arithmetic.
    pub open spec fn wf(self) -> bool {
        self.interval_ms > 0 && self.timeout_ms > 0 && self.timeout_ms + self.interval_ms
            <= u64::MAX && self.elapsed_ms < self.timeout_ms
    }

    /// A poller that has not waited yet.
    pub fn new(timeout_ms: u64, interval_ms: u64) -> (r: Self)
        requires
            interval_ms > 0,
            timeout_ms > 0,
            timeout_ms + interval_ms <= u64::MAX,
        ensures
            r.wf(),
            r.timeout_ms == timeout_ms,
            r.interval_ms == interval_ms,
            r.elapsed_ms == 0,
    {
        Poller { timeout_ms, interval_ms, elapsed_ms: 0 }
    }

    /// Takes one check's outcome and decides what happens next. The pause
    /// that preceded the check is charged first; a pause that crossed the
    /// timeout ends the wait whatever the check found, so success on the
    /// n-th attempt always stands at n intervals elapsed, strictly before
    /// the timeout.
    pub fn record_attempt(&mut self, check_succeeded: bool) -> (verdict: PollVerdict)
        requires
            old(self).wf(),
        ensures
            final(self).timeout_ms == old(self).timeout_ms,
            final(self).interval_ms == old(self).interval_ms,
            final(self).elapsed_ms == old(self).elapsed_ms + old(self).interval_ms,
            verdict == PollVerdict::TimedOut <==> final(self).elapsed_ms >= old(self).timeout_ms,
            final(self).elapsed_ms < old(self).timeout_ms ==> (verdict == PollVerdict::Ready
                <==> check_succeeded),
            final(self).elapsed_ms < old(self).timeout_ms ==> (verdict
                == PollVerdict::RetryAfterInterval <==> !check_succeeded),
            verdict == PollVerdict::RetryAfterInterval ==> final(self).wf(),
    {
        self.elapsed_ms = self.elapsed_ms + self.interval_ms;
        if self.elapsed_ms >= self.timeout_ms {
            PollVerdict::TimedOut
        } else if check_succeeded {
            PollVerdict::Ready
        } else {
            PollVerdict::RetryAfterInterval
        }
    }
}

/// Runs the poller over a recorded sequence of check outcomes, yielding
/// whether it succeeded and the waiting time elapsed; it agrees exactly with
/// [`poll_outcome`].
pub fn poll_outcomes(outcomes: &Vec<bool>, timeout_ms: u64, interval_ms: u64) -> (r: (bool, u64))
    requires
        interval_ms > 0,
        timeout_ms > 0,
        timeout_ms + interval_ms <= u64::MAX,
    ensures
        (r.0, r.1 as int) == poll_outcome(outcomes@, timeout_ms as int, interval_ms as int),
{
    let ghost full = poll_outcome(outcomes@, timeout_ms as int, interval_ms as int);
    let mut p = Poller::new(timeout_ms, interval_ms);
    let mut k: usize = 0;
    proof {
        assert(outcomes@.skip(0) =~= outcomes@);
    }
    while k < outcomes.len()
        invariant
            k <= outcomes@.len(),
            p.wf(),
            p.timeout_ms == timeout_ms,
            p.interval_ms == interval_ms,
            full == poll_outcome(outcomes@, timeout_ms as int, interval_ms as int),
            full.0 == poll_outcome(
                outcomes@.skip(k as int),
                timeout_ms - p.elapsed_ms,
                interval_ms as int,
            ).0,
            full.1 == poll_outcome(
                outcomes@.skip(k as int),
                timeout_ms - p.elapsed_ms,
                interval_ms as int,
            ).1 + p.elapsed_ms,
        decreases outcomes@.len() - k,
    {
        let ghost suffix = outcomes@.skip(k as int);
        proof {
            assert(suffix[0] == outcomes@[k as int]);
            assert(suffix.drop_first() =~= outcomes@.skip(k + 1));
        }
        let ghost elapsed_before = p.elapsed_ms;
        match p.record_attempt(outcomes[k]) {
            PollVerdict::TimedOut => {
                proof {
                    assert(interval_ms >= timeout_ms - elapsed_before);
                    assert(full == (false, interval_ms + elapsed_before as int));
                }
                return (false, p.elapsed_ms);
            },
            PollVerdict::Ready => {
                proof {
                    assert(interval_ms < timeout_ms - elapsed_before);
                    assert(full == (true, interval_ms + elapsed_before as int));
                }
                return (true, p.elapsed_ms);
            },
            PollVerdict::RetryAfterInterval => {
                proof {
                    assert(interval_ms < timeout_ms - elapsed_before);
                }
            },
        }
        k = k + 1;
    }
    proof {
        assert(outcomes@.skip(outcomes@.len() as int) =~= Seq::<bool>::empty());
        assert(full == (false, p.elapsed_ms as int));
    }
    (false, p.elapsed_ms)
}

} // verus!
