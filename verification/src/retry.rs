//! The retry policy: how many attempts a URL gets, how long to wait between
//! them, and what is reported at the end.

use vstd::prelude::*;

verus! {

/// The wait after the first failed attempt, in milliseconds; each further
/// failure waits this much longer.
pub const BACKOFF_STEP_MS: u64 = 200;

/// The largest attempt index whose wait still fits in 64 bits.
pub const MAX_BACKOFF_ATTEMPT: u64 = 92233720368547757;

/// What one attempt brought: the status code and the elapsed milliseconds,
/// or the reason of the failure.
pub type Attempt = Result<(u16, u128), String>;

/// The final report on one URL in one round.
#[derive(Debug)]
pub struct Verdict {
    pub status: Result<u16, String>,
    pub response_time_ms: u128,
}

/// What follows an attempt.
#[derive(Debug)]
pub enum RetryStep {
    /// The job is over, with this report.
    Finish(Verdict),
    /// Wait `wait_ms` milliseconds, then make the attempt numbered `next_attempt`.
    Backoff { wait_ms: u64, next_attempt: usize },
}

/// The wait after the failed attempt numbered `attempt` (counted from zero).
pub open spec fn backoff_delay(attempt: nat) -> nat {
    200 * (attempt + 1)
}

/// The waits of a job whose first `failures` attempts failed and were each
/// followed by another attempt, summed.
pub open spec fn total_backoff(failures: nat) -> nat
    decreases failures,
{
    if failures == 0 {
        0
    } else {
        total_backoff((failures - 1) as nat) + backoff_delay((failures - 1) as nat)
    }
}

/// The number of attempts a job gets at most.
pub open spec fn attempts_allowed(max_retries: nat) -> nat {
    max_retries + 1
}

/// What follows the attempt numbered `attempt` under a limit of
/// `max_retries` retries, as a relation on the step taken.
pub open spec fn step_follows(
    attempt: nat,
    max_retries: nat,
    result: Attempt,
    step: RetryStep,
) -> bool {
    match result {
        Ok((code, elapsed)) => step matches RetryStep::Finish(v) && v.status == Ok::<u16, String>(
            code,
        ) && v.response_time_ms == elapsed,
        Err(reason) => if attempt < max_retries {
            step matches RetryStep::Backoff { wait_ms, next_attempt } && wait_ms as nat
                == backoff_delay(attempt) && next_attempt as nat == attempt + 1
        } else {
            step matches RetryStep::Finish(v) && v.status == Err::<u16, String>(reason)
                && v.response_time_ms == 0
        },
    }
}

/// The wait after the failed attempt numbered `attempt`.
pub fn backoff_ms(attempt: usize) -> (r: u64)
    requires
        attempt <= MAX_BACKOFF_ATTEMPT,
    ensures
        r as nat == backoff_delay(attempt as nat),
{
    let a: u64 = attempt as u64;
    BACKOFF_STEP_MS * (a + 1)
}

/// Decides what follows the attempt numbered `attempt`: a success ends the
/// job with its status and its own elapsed time; a failure is followed by a
/// wait and another attempt while retries are left, and else ends the job
/// with the reason of this last attempt and an elapsed time of zero.
pub fn after_attempt(attempt: usize, max_retries: usize, result: Attempt) -> (step: RetryStep)
    requires
        attempt <= max_retries,
        attempt < max_retries ==> attempt <= MAX_BACKOFF_ATTEMPT,
    ensures
        step_follows(attempt as nat, max_retries as nat, result, step),
{
    match result {
        Ok((code, elapsed)) => RetryStep::Finish(
            Verdict { status: Ok(code), response_time_ms: elapsed },
        ),
        Err(reason) => {
            if attempt < max_retries {
                RetryStep::Backoff { wait_ms: backoff_ms(attempt), next_attempt: attempt + 1 }
            } else {
                RetryStep::Finish(Verdict { status: Err(reason), response_time_ms: 0 })
            }
        },
    }
}

/// A job that fails every attempt under a limit of `r` retries has waited
/// `200 * 1 + 200 * 2 + ... + 200 * r` milliseconds in all, which is
/// `100 * r * (r + 1)`: one wait after each attempt but the last.
pub proof fn lemma_total_backoff_closed_form(r: nat)
    ensures
        total_backoff(r) == 100 * r * (r + 1),
    decreases r,
{
    if r > 0 {
        lemma_total_backoff_closed_form((r - 1) as nat);
        let p = (r - 1) as nat;
        let t = total_backoff(p);
        assert(total_backoff(r) == t + backoff_delay(p));
        assert(t + 200 * (p + 1) == 100 * r * (r + 1)) by (nonlinear_arith)
            requires
                t == 100 * p * (p + 1),
                r == p + 1,
        ;
    } else {
        assert(100 * r * (r + 1) == 0) by (nonlinear_arith)
            requires
                r == 0,
        ;
    }
}

/// The wait that a step asks for: none when the job is over.
pub open spec fn wait_of(step: RetryStep) -> nat {
    match step {
        RetryStep::Finish(_) => 0,
        RetryStep::Backoff { wait_ms, .. } => wait_ms as nat,
    }
}

/// The waits of the given steps, summed.
pub open spec fn waits_sum(steps: Seq<RetryStep>) -> nat
    decreases steps.len(),
{
    if steps.len() == 0 {
        0
    } else {
        waits_sum(steps.drop_last()) + wait_of(steps.last())
    }
}

/// A job whose attempts all fail: under a limit of `max_retries` retries
/// it takes `max_retries + 1` steps. Every step but the last asks for the
/// wait of its attempt and for the next attempt; the last ends the job
/// with the reason of the last attempt and an elapsed time of zero, and
/// asks for no wait. The waits add up to `100 * r * (r + 1)` milliseconds
/// for `r = max_retries`.
pub proof fn lemma_failed_job(max_retries: nat, reasons: Seq<String>, steps: Seq<RetryStep>)
    requires
        reasons.len() == max_retries + 1,
        steps.len() == max_retries + 1,
        forall|a: int|
            0 <= a <= max_retries ==> step_follows(
                a as nat,
                max_retries,
                Err(reasons[a]),
                #[trigger] steps[a],
            ),
    ensures
        forall|a: int| 0 <= a < max_retries ==> wait_of(#[trigger] steps[a]) == backoff_delay(a as nat),
        steps[max_retries as int] matches RetryStep::Finish(v) && v.status == Err::<u16, String>(
            reasons[max_retries as int],
        ) && v.response_time_ms == 0,
        waits_sum(steps) == total_backoff(max_retries),
        waits_sum(steps) == 100 * max_retries * (max_retries + 1),
{
    assert forall|a: int| 0 <= a < max_retries implies wait_of(#[trigger] steps[a])
        == backoff_delay(a as nat) by {
        assert(step_follows(a as nat, max_retries, Err(reasons[a]), steps[a]));
    }
    assert(step_follows(
        max_retries,
        max_retries,
        Err(reasons[max_retries as int]),
        steps[max_retries as int],
    ));
    let waiting = steps.drop_last();
    assert forall|a: int| 0 <= a < waiting.len() implies wait_of(#[trigger] waiting[a])
        == backoff_delay(a as nat) by {
        assert(waiting[a] == steps[a]);
    }
    lemma_waits_are_backoff(waiting);
    assert(wait_of(steps.last()) == 0);
    lemma_total_backoff_closed_form(max_retries);
}

/// Steps that each ask for the wait of their attempt ask for the total
/// backoff of as many failures.
pub proof fn lemma_waits_are_backoff(steps: Seq<RetryStep>)
    requires
        forall|a: int| 0 <= a < steps.len() ==> wait_of(#[trigger] steps[a]) == backoff_delay(a as nat),
    ensures
        waits_sum(steps) == total_backoff(steps.len()),
    decreases steps.len(),
{
    if steps.len() > 0 {
        let front = steps.drop_last();
        assert forall|a: int| 0 <= a < front.len() implies wait_of(#[trigger] front[a])
            == backoff_delay(a as nat) by {
            assert(front[a] == steps[a]);
        }
        lemma_waits_are_backoff(front);
    }
}

} // verus!
