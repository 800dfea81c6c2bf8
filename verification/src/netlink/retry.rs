//! When a failed operation is tried again: with a delay that doubles up to a limit, as often as
//! the policy allows and only after failures that may pass.

use vstd::prelude::*;

use crate::time::Duration;

verus! {

/// How often and how soon an operation is tried again.
#[derive(Debug, Clone, Copy, PartialEq, Eq, Structural)]
pub struct RetryConfig {
    /// Delay before the second attempt.
    pub base: Duration,
    /// Longest delay after that.
    pub max: Duration,
    /// Attempts in all, at least one.
    pub attempts: u32,
}

impl Default for RetryConfig {
    fn default() -> (r: RetryConfig)
        ensures
            r.base.total() == 1_000_000,
            r.max.total() == 100_000_000,
            r.attempts == 30,
    {
        RetryConfig {
            base: Duration::from_millis(1),
            max: Duration::from_millis(100),
            attempts: 30,
        }
    }
}

/// The number of attempts that a policy allows.
pub open spec fn allowed(cfg: RetryConfig) -> nat {
    if cfg.attempts == 0 {
        1
    } else {
        cfg.attempts as nat
    }
}

/// The delay after the `k`-th failed attempt, counted from zero, in nanoseconds.
pub open spec fn delay_after(cfg: RetryConfig, k: nat) -> nat
    decreases k,
{
    if k == 0 {
        cfg.base.total()
    } else {
        let twice = 2 * delay_after(cfg, (k - 1) as nat);
        if twice < cfg.max.total() {
            twice
        } else {
            cfg.max.total()
        }
    }
}

/// What comes after a failed attempt.
#[derive(Debug, Clone, Copy, PartialEq, Eq, Structural)]
pub enum RetryStep {
    /// The failure is final.
    GiveUp,
    /// Try again after so many nanoseconds.
    Again(u128),
}

/// What comes after an attempt.
#[derive(Debug)]
pub enum Attempt<T, E> {
    /// This is the outcome of the operation.
    Done(Result<T, E>),
    /// Try again after so many nanoseconds.
    Again(u128),
}

/// The attempts made so far.
#[derive(Debug, Clone, Copy)]
pub struct Retry {
    cfg: RetryConfig,
    failed: u32,
    delay: u128,
}

impl Retry {
    /// The policy.
    pub closed spec fn policy(self) -> RetryConfig {
        self.cfg
    }

    /// How many attempts have failed.
    pub closed spec fn failures(self) -> nat {
        self.failed as nat
    }

    /// The next delay is the one of the policy, and the number of attempts is within it.
    pub closed spec fn wf(self) -> bool {
        &&& self.failed < allowed(self.cfg)
        &&& self.delay == delay_after(self.cfg, self.failed as nat)
        &&& self.delay <= 0xffff_ffff_ffff_ffff * 1_000_000_000 + 0xffff_ffff
    }

    /// No attempt made yet.
    pub fn new(cfg: RetryConfig) -> (r: Retry)
        ensures
            r.wf(),
            r.policy() == cfg,
            r.failures() == 0,
    {
        Retry { cfg, failed: 0, delay: cfg.base.as_nanos() }
    }

    /// Takes in a failed attempt: one that cannot pass is final, and so is the last one that the
    /// policy allows.
    pub fn after_failure(&mut self, retryable: bool) -> (r: RetryStep)
        requires
            old(self).wf(),
        ensures
            final(self).wf(),
            final(self).policy() == old(self).policy(),
            r == if !retryable || old(self).failures() + 1 >= allowed(old(self).policy()) {
                RetryStep::GiveUp
            } else {
                RetryStep::Again(delay_after(old(self).policy(), old(self).failures()) as u128)
            },
            r is Again ==> final(self).failures() == old(self).failures() + 1,
            r is GiveUp ==> *final(self) == *old(self),
    {
        let attempts: u32 = if self.cfg.attempts == 0 {
            1
        } else {
            self.cfg.attempts
        };
        if !retryable || self.failed + 1 >= attempts {
            return RetryStep::GiveUp;
        }
        let now: u128 = self.delay;
        let twice: u128 = now * 2;
        let max: u128 = self.cfg.max.as_nanos();
        self.delay = if twice < max {
            twice
        } else {
            max
        };
        self.failed = self.failed + 1;
        RetryStep::Again(now)
    }

    /// Takes in an attempt: a success is the outcome, with its value; a failure that is final is
    /// the outcome, with its error.
    pub fn after_attempt<T, E>(&mut self, outcome: Result<T, E>, retryable: bool) -> (r: Attempt<
        T,
        E,
    >)
        requires
            old(self).wf(),
        ensures
            final(self).wf(),
            final(self).policy() == old(self).policy(),
            r == if outcome is Ok || !retryable || old(self).failures() + 1 >= allowed(
                old(self).policy(),
            ) {
                Attempt::Done(outcome)
            } else {
                Attempt::Again(delay_after(old(self).policy(), old(self).failures()) as u128)
            },
            r is Again ==> final(self).failures() == old(self).failures() + 1,
            r is Done ==> *final(self) == *old(self),
    {
        match outcome {
            Ok(v) => Attempt::Done(Ok(v)),
            Err(e) => match self.after_failure(retryable) {
                RetryStep::GiveUp => Attempt::Done(Err(e)),
                RetryStep::Again(nanos) => Attempt::Again(nanos),
            },
        }
    }
}

/// After the first delay none is longer than the policy's limit.
pub proof fn lemma_delay_is_capped(cfg: RetryConfig, k: nat)
    requires
        k > 0,
    ensures
        delay_after(cfg, k) <= cfg.max.total(),
{
}

} // verus!
