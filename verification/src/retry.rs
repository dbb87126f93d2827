//! Waiting for a condition with a bounded number of retries at a constant
//! interval. The wait is a small machine: the caller observes the condition
//! and sleeps; the machine says after each observation what comes next.

use crate::error::HarnessError;
use vstd::prelude::*;

verus! {

/// The bounds of a wait: how long to sleep between two observations, and how
/// many times to retry after the first observation.
#[derive(Clone, Copy, Debug, PartialEq, Eq, Structural)]
pub struct RetryPolicy {
    pub interval_ms: u64,
    pub max_retries: u64,
}

/// Where a wait stands.
#[derive(Clone, Copy, Debug, PartialEq, Eq, Structural)]
pub enum Phase {
    /// The condition has not held yet and retries are left.
    Waiting,
    /// The condition held at the last observation.
    Satisfied,
    /// The condition did not hold at any observation the bounds allow.
    TimedOut,
    /// The wait was called off.
    Cancelled,
}

/// What the caller of a wait does next.
#[derive(Clone, Copy, Debug, PartialEq, Eq, Structural)]
pub enum Decision {
    /// Stop: the condition holds.
    Succeed,
    /// Sleep for `millis` milliseconds, then observe again.
    SleepThenRetry { millis: u64 },
    /// Stop: the bounds are spent.
    GiveUp,
}

/// A wait as the contracts see it.
pub struct WaitView {
    pub policy: RetryPolicy,
    /// How many observations have been made.
    pub observed: nat,
    /// How many sleeps have been ordered.
    pub slept: nat,
    pub phase: Phase,
}

/// A wait that has not observed anything yet.
pub open spec fn fresh(policy: RetryPolicy) -> WaitView {
    WaitView { policy, observed: 0, slept: 0, phase: Phase::Waiting }
}

/// The wait after one more observation, and what the caller does next. A wait
/// that has ended stays as it is.
pub open spec fn advance(w: WaitView, satisfied: bool) -> (WaitView, Decision) {
    if w.phase != Phase::Waiting {
        (
            w,
            if w.phase == Phase::Satisfied {
                Decision::Succeed
            } else {
                Decision::GiveUp
            },
        )
    } else if satisfied {
        (WaitView { observed: w.observed + 1, phase: Phase::Satisfied, ..w }, Decision::Succeed)
    } else if w.slept < w.policy.max_retries {
        (
            WaitView { observed: w.observed + 1, slept: w.slept + 1, ..w },
            Decision::SleepThenRetry { millis: w.policy.interval_ms },
        )
    } else {
        (WaitView { observed: w.observed + 1, phase: Phase::TimedOut, ..w }, Decision::GiveUp)
    }
}

/// The wait after the observations `seen`, one after the other.
pub open spec fn run(w: WaitView, seen: Seq<bool>) -> WaitView
    decreases seen.len(),
{
    if seen.len() == 0 {
        w
    } else {
        run(advance(w, seen[0]).0, seen.drop_first())
    }
}

/// The milliseconds that the sleeps of a wait add up to.
pub open spec fn slept_ms(w: WaitView) -> nat {
    w.slept * w.policy.interval_ms as nat
}

/// A wait in progress.
#[derive(Clone, Copy, Debug)]
pub struct RetryPoll {
    policy: RetryPolicy,
    slept: u64,
    phase: Phase,
}

impl View for RetryPoll {
    type V = WaitView;

    closed spec fn view(&self) -> WaitView {
        WaitView {
            policy: self.policy,
            observed: if self.phase == Phase::Satisfied || self.phase == Phase::TimedOut {
                (self.slept + 1) as nat
            } else {
                self.slept as nat
            },
            slept: self.slept as nat,
            phase: self.phase,
        }
    }
}

impl RetryPoll {
    /// No more sleeps were ordered than the bounds allow, and a wait that
    /// timed out has used them all.
    pub closed spec fn wf(&self) -> bool {
        &&& self.slept <= self.policy.max_retries
        &&& self.phase == Phase::TimedOut ==> self.slept == self.policy.max_retries
    }

    /// A wait within the bounds `policy`, before its first observation.
    pub fn begin(policy: RetryPolicy) -> (w: RetryPoll)
        ensures
            w.wf(),
            w@ == fresh(policy),
    {
        RetryPoll { policy, slept: 0, phase: Phase::Waiting }
    }

    /// Where the wait stands.
    pub fn phase(&self) -> (p: Phase)
        ensures
            p == self@.phase,
    {
        self.phase
    }

    /// How many sleeps have been ordered so far.
    pub fn retries_used(&self) -> (n: u64)
        ensures
            n == self@.slept,
    {
        self.slept
    }

    /// The milliseconds that the sleeps ordered so far add up to.
    pub fn slept_millis(&self) -> (ms: u128)
        ensures
            ms == slept_ms(self@),
    {
        assert(self.slept * self.policy.interval_ms <= u64::MAX * u64::MAX) by (nonlinear_arith)
            requires
                self.slept <= u64::MAX,
                self.policy.interval_ms <= u64::MAX,
        ;
        (self.slept as u128) * (self.policy.interval_ms as u128)
    }

    /// Takes one observation of the condition and says what comes next.
    pub fn observe(&mut self, satisfied: bool) -> (d: Decision)
        requires
            old(self).wf(),
        ensures
            final(self).wf(),
            (final(self)@, d) == advance(old(self)@, satisfied),
    {
        match self.phase {
            Phase::Waiting => {
                if satisfied {
                    self.phase = Phase::Satisfied;
                    Decision::Succeed
                } else if self.slept < self.policy.max_retries {
                    self.slept = self.slept + 1;
                    Decision::SleepThenRetry { millis: self.policy.interval_ms }
                } else {
                    self.phase = Phase::TimedOut;
                    Decision::GiveUp
                }
            },
            Phase::Satisfied => Decision::Succeed,
            _ => Decision::GiveUp,
        }
    }

    /// Takes one observation of the condition, made on the values `observed`
    /// while `expected` was waited for: `None` if the condition holds, the
    /// milliseconds to sleep before the next observation if retries are left,
    /// and else the failure of the wait, which carries the values.
    pub fn judge(&mut self, satisfied: bool, expected: u64, observed: Vec<u64>) -> (r: Result<
        Option<u64>,
        HarnessError,
    >)
        requires
            old(self).wf(),
        ensures
            final(self).wf(),
            final(self)@ == advance(old(self)@, satisfied).0,
            match advance(old(self)@, satisfied).1 {
                Decision::Succeed => r == Ok::<Option<u64>, HarnessError>(None),
                Decision::SleepThenRetry { millis } => r == Ok::<Option<u64>, HarnessError>(
                    Some(millis),
                ),
                Decision::GiveUp => r matches Err(
                    HarnessError::AssertionTimeout { expected: e, last_observed: l },
                ) && e == expected && l == observed,
            },
    {
        match self.observe(satisfied) {
            Decision::Succeed => Ok(None),
            Decision::SleepThenRetry { millis } => Ok(Some(millis)),
            Decision::GiveUp => Err(
                HarnessError::AssertionTimeout { expected, last_observed: observed },
            ),
        }
    }

    /// Calls the wait off. A wait that has ended stays as it ended.
    pub fn cancel(&mut self)
        requires
            old(self).wf(),
        ensures
            final(self).wf(),
            final(self)@ == if old(self)@.phase == Phase::Waiting {
                WaitView { phase: Phase::Cancelled, ..old(self)@ }
            } else {
                old(self)@
            },
    {
        if self.phase == Phase::Waiting {
            self.phase = Phase::Cancelled;
        }
    }

    /// The wait that results from the observations `seen`, taken one after
    /// the other from a fresh wait within the bounds `policy`.
    pub fn replay(policy: RetryPolicy, seen: &Vec<bool>) -> (w: RetryPoll)
        ensures
            w.wf(),
            w@ == run(fresh(policy), seen@),
    {
        let mut w = RetryPoll::begin(policy);
        let mut i: usize = 0;
        assert(seen@.skip(0) =~= seen@);
        while i < seen.len()
            invariant
                i <= seen.len(),
                w.wf(),
                run(fresh(policy), seen@) == run(w@, seen@.skip(i as int)),
            decreases seen.len() - i,
        {
            assert(seen@.skip(i as int).drop_first() =~= seen@.skip(i + 1));
            w.observe(seen[i]);
            i += 1;
        }
        w
    }
}

/// A wait that has ended takes no further observation into account.
pub proof fn lemma_ended_wait_stays(w: WaitView, seen: Seq<bool>)
    requires
        w.phase != Phase::Waiting,
    ensures
        run(w, seen) == w,
    decreases seen.len(),
{
    if seen.len() > 0 {
        lemma_ended_wait_stays(w, seen.drop_first());
    }
}

proof fn lemma_run_without_success(w: WaitView, seen: Seq<bool>)
    requires
        w.phase == Phase::Waiting,
        w.slept <= w.policy.max_retries,
        seen.len() >= w.policy.max_retries - w.slept + 1,
        forall|i: int| 0 <= i < seen.len() ==> !seen[i],
    ensures
        run(w, seen) == (WaitView {
            observed: (w.observed + w.policy.max_retries - w.slept + 1) as nat,
            slept: w.policy.max_retries as nat,
            phase: Phase::TimedOut,
            ..w
        }),
    decreases seen.len(),
{
    let next = advance(w, seen[0]).0;
    if w.slept < w.policy.max_retries {
        lemma_run_without_success(next, seen.drop_first());
    } else {
        lemma_ended_wait_stays(next, seen.drop_first());
    }
}

proof fn lemma_run_to_success(w: WaitView, seen: Seq<bool>, k: int)
    requires
        w.phase == Phase::Waiting,
        1 <= k <= seen.len(),
        w.slept + k <= w.policy.max_retries + 1,
        seen[k - 1],
        forall|i: int| 0 <= i < k - 1 ==> !seen[i],
    ensures
        run(w, seen) == (WaitView {
            observed: (w.observed + k) as nat,
            slept: (w.slept + k - 1) as nat,
            phase: Phase::Satisfied,
            ..w
        }),
    decreases k,
{
    let next = advance(w, seen[0]).0;
    if k == 1 {
        lemma_ended_wait_stays(next, seen.drop_first());
    } else {
        assert(!seen[0]);
        lemma_run_to_success(next, seen.drop_first(), k - 1);
    }
}

/// A wait whose condition never holds gives up after exactly one observation
/// more than it has retries, and has then slept for as many intervals as it
/// has retries: observations that would follow are not made.
pub proof fn law_unsatisfied_wait_times_out(policy: RetryPolicy, seen: Seq<bool>)
    requires
        seen.len() >= policy.max_retries + 1,
        forall|i: int| 0 <= i < seen.len() ==> !seen[i],
    ensures
        run(fresh(policy), seen).phase == Phase::TimedOut,
        run(fresh(policy), seen).observed == policy.max_retries + 1,
        run(fresh(policy), seen).slept == policy.max_retries,
        slept_ms(run(fresh(policy), seen)) == policy.max_retries * policy.interval_ms,
{
    lemma_run_without_success(fresh(policy), seen);
}

/// A wait whose condition holds for the first time at its `k`-th observation,
/// with `k` no more than one above the retries, succeeds there: it has made
/// `k` observations and slept `k - 1` times, whatever would have been seen
/// afterwards.
pub proof fn law_satisfied_wait_stops(policy: RetryPolicy, seen: Seq<bool>, k: int)
    requires
        1 <= k <= policy.max_retries + 1,
        k <= seen.len(),
        seen[k - 1],
        forall|i: int| 0 <= i < k - 1 ==> !seen[i],
    ensures
        run(fresh(policy), seen).phase == Phase::Satisfied,
        run(fresh(policy), seen).observed == k,
        run(fresh(policy), seen).slept == k - 1,
        slept_ms(run(fresh(policy), seen)) == (k - 1) * policy.interval_ms,
        slept_ms(run(fresh(policy), seen)) <= policy.max_retries * policy.interval_ms,
{
    lemma_run_to_success(fresh(policy), seen, k);
    assert((k - 1) * policy.interval_ms <= policy.max_retries * policy.interval_ms)
        by (nonlinear_arith)
        requires
            0 <= k - 1 <= policy.max_retries,
            0 <= policy.interval_ms,
    ;
}

} // verus!
