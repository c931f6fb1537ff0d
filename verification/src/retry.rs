//! Bounded retry with exponential backoff.
//!
//! A `Retry` counts the failed attempts at one remote call. The caller makes
//! an attempt, reports its result with `Retry::record`, and either hands the
//! result on or waits for `backoff_delay` milliseconds and tries again.

use vstd::prelude::*;
use vstd::arithmetic::power2::pow2;
use crate::pacing::random_in_range;

verus! {

/// The most attempts a `Retry` can be asked to make. After the failure
/// numbered 63 the wait of two to the 63rd milliseconds is the last that a
/// `u64` holds.
pub const ATTEMPT_CEILING: u32 = 64;

/// The longest random addition to a wait, in milliseconds.
pub const JITTER_CEILING_MS: u64 = 1000;

/// The count of failed attempts at one call.
#[derive(Debug, Clone, Copy, PartialEq, Eq)]
pub struct Retry {
    max_attempts: u32,
    failures: u32,
}

/// What a `Retry` holds.
pub struct RetryView {
    /// The number of attempts after which the call is given up.
    pub max_attempts: nat,
    /// The number of failed attempts that were followed by a wait.
    pub failures: nat,
}

/// What to do after an attempt.
#[derive(Debug, PartialEq, Eq)]
pub enum Step<T, E> {
    /// Hand this result to the caller. No further attempt is made.
    Done(Result<T, E>),
    /// Wait, then make another attempt. `failures` is the number of attempts
    /// that have failed so far, from which the wait is computed.
    Wait { failures: u32 },
}

impl View for Retry {
    type V = RetryView;

    closed spec fn view(&self) -> RetryView {
        RetryView { max_attempts: self.max_attempts as nat, failures: self.failures as nat }
    }
}

impl RetryView {
    /// The state before the first attempt.
    pub open spec fn fresh(max_attempts: nat) -> RetryView {
        RetryView { max_attempts, failures: 0 }
    }

    /// The failures counted stay below the number of attempts allowed, which
    /// stays within the ceiling.
    pub open spec fn wf(self) -> bool {
        &&& self.max_attempts <= ATTEMPT_CEILING
        &&& (self.failures == 0 || self.failures < self.max_attempts)
    }

    /// The state and the step after an attempt that ended in `outcome`. A
    /// success is handed on at once. A failure is handed on, unchanged, when
    /// it was the last attempt allowed; before that it is counted and followed
    /// by a wait.
    pub open spec fn record<T, E>(self, outcome: Result<T, E>) -> (RetryView, Step<T, E>) {
        match outcome {
            Ok(value) => (self, Step::Done(Ok(value))),
            Err(error) => if self.failures + 1 >= self.max_attempts {
                (self, Step::Done(Err(error)))
            } else {
                (
                    RetryView { failures: self.failures + 1, ..self },
                    Step::Wait { failures: (self.failures + 1) as u32 },
                )
            },
        }
    }
}

/// What a caller has seen who made attempts until a result was handed on.
pub struct RetryRun<T, E> {
    /// The number of attempts made.
    pub attempts: nat,
    /// The result handed on, or `None` where the attempts ran out of
    /// results before one was.
    pub outcome: Option<Result<T, E>>,
}

/// The run of a caller that starts in state `retry` and whose attempts end in
/// `results`, one after the other.
pub open spec fn spec_run<T, E>(retry: RetryView, results: Seq<Result<T, E>>) -> RetryRun<T, E>
    decreases results.len(),
{
    if results.len() == 0 {
        RetryRun { attempts: 0, outcome: None }
    } else {
        match retry.record(results[0]) {
            (_, Step::Done(result)) => RetryRun { attempts: 1, outcome: Some(result) },
            (next, Step::Wait { .. }) => {
                let rest = spec_run(next, results.skip(1));
                RetryRun { attempts: rest.attempts + 1, outcome: rest.outcome }
            },
        }
    }
}

impl Retry {
    /// A retry state for a call that is attempted at most `max_attempts`
    /// times. The first attempt is always made: zero allows as many as one.
    pub fn new(max_attempts: u32) -> (retry: Retry)
        requires
            max_attempts <= ATTEMPT_CEILING,
        ensures
            retry@ == RetryView::fresh(max_attempts as nat),
            retry@.wf(),
    {
        Retry { max_attempts, failures: 0 }
    }

    /// The number of attempts after which the call is given up.
    pub fn max_attempts(&self) -> (n: u32)
        ensures
            n == self@.max_attempts,
    {
        self.max_attempts
    }

    /// The number of failed attempts counted so far.
    pub fn failures(&self) -> (n: u32)
        ensures
            n == self@.failures,
    {
        self.failures
    }

    /// Takes the result of an attempt and says what to do next.
    pub fn record<T, E>(&mut self, outcome: Result<T, E>) -> (step: Step<T, E>)
        requires
            old(self)@.wf(),
        ensures
            (final(self)@, step) == old(self)@.record(outcome),
            final(self)@.wf(),
    {
        match outcome {
            Ok(value) => Step::Done(Ok(value)),
            Err(error) => {
                if self.failures + 1 >= self.max_attempts {
                    Step::Done(Err(error))
                } else {
                    self.failures = self.failures + 1;
                    Step::Wait { failures: self.failures }
                }
            },
        }
    }
}

/// A call that fails `failed` times and then succeeds, with attempts left
/// for it, is attempted `failed + 1` times, and its success is what the
/// caller gets.
pub proof fn lemma_success_after_failures<T, E>(
    retry: RetryView,
    results: Seq<Result<T, E>>,
    failed: nat,
)
    requires
        retry.failures + failed < retry.max_attempts,
        failed < results.len(),
        forall|i: int| 0 <= i < failed ==> (#[trigger] results[i]) is Err,
        results[failed as int] is Ok,
    ensures
        spec_run(retry, results) == (RetryRun {
            attempts: failed + 1,
            outcome: Some(results[failed as int]),
        }),
    decreases failed,
{
    if failed > 0 {
        let next = RetryView { failures: retry.failures + 1, ..retry };
        let rest = results.skip(1);
        assert(results[0] is Err);
        assert forall|i: int| 0 <= i < failed - 1 implies (#[trigger] rest[i]) is Err by {
            assert(rest[i] == results[i + 1]);
        }
        lemma_success_after_failures(next, rest, (failed - 1) as nat);
    }
}

/// A call that always fails is attempted as often as it is allowed to be,
/// and the error of the last attempt is what the caller gets.
pub proof fn lemma_gives_up_after_max_attempts<T, E>(
    retry: RetryView,
    results: Seq<Result<T, E>>,
)
    requires
        retry.max_attempts >= 1,
        retry.failures < retry.max_attempts,
        results.len() >= retry.max_attempts - retry.failures,
        forall|i: int|
            0 <= i < retry.max_attempts - retry.failures ==> (#[trigger] results[i]) is Err,
    ensures
        spec_run(retry, results) == (RetryRun {
            attempts: (retry.max_attempts - retry.failures) as nat,
            outcome: Some(results[retry.max_attempts - retry.failures - 1]),
        }),
    decreases retry.max_attempts - retry.failures,
{
    assert(results[0] is Err);
    if retry.failures + 1 < retry.max_attempts {
        let next = RetryView { failures: retry.failures + 1, ..retry };
        let rest = results.skip(1);
        assert forall|i: int| 0 <= i < next.max_attempts - next.failures implies (#[trigger] rest[i])
            is Err by {
            assert(rest[i] == results[i + 1]);
        }
        lemma_gives_up_after_max_attempts(next, rest);
    }
}

/// The wait after the given number of failures: two to that power, plus the
/// jitter, in milliseconds.
pub open spec fn spec_backoff_ms(failures: nat, jitter: nat) -> nat {
    pow2(failures) + jitter
}

/// The wait in milliseconds after `failures` failed attempts, for a jitter
/// that has been drawn.
pub fn backoff_with_jitter(failures: u32, jitter: u64) -> (ms: u64)
    requires
        failures < ATTEMPT_CEILING,
        jitter <= JITTER_CEILING_MS,
    ensures
        ms == spec_backoff_ms(failures as nat, jitter as nat),
{
    proof {
        vstd::arithmetic::power2::lemma2_to64_rest();
        if failures < 63 {
            vstd::arithmetic::power2::lemma_pow2_strictly_increases(failures as nat, 63);
        }
        vstd::bits::lemma_u64_shl_is_mul(1, failures as u64);
    }
    let base: u64 = 1u64 << (failures as u64);
    base + jitter
}

/// Draws the wait in milliseconds after `failures` failed attempts: two to
/// that power, plus a random jitter of at most `JITTER_CEILING_MS`.
pub fn backoff_delay(failures: u32) -> (ms: u64)
    requires
        failures < ATTEMPT_CEILING,
    ensures
        spec_backoff_ms(failures as nat, 0) <= ms <= spec_backoff_ms(
            failures as nat,
            JITTER_CEILING_MS as nat,
        ),
{
    let jitter = random_in_range(0, JITTER_CEILING_MS);
    backoff_with_jitter(failures, jitter)
}

} // verus!
