//! The round scheduler as a state machine. The driver performs the action
//! it is handed (enqueue a URL, await a result, print the summary, sleep one
//! step) and then asks for the next one, reporting whether shutdown was
//! requested and whether the result channel has closed.

use vstd::prelude::*;

verus! {

/// Length of one sleep step in milliseconds: the shutdown signal is looked
/// at once per step while waiting for the next round.
pub const SLEEP_STEP_MS: u64 = 200;

/// Where the scheduler stands. Each phase names what the driver was last
/// asked to do.
#[derive(Debug, Clone, Copy)]
pub enum Phase {
    /// Nothing was asked yet.
    Idle,
    /// The URLs before index `next` were handed out for enqueuing.
    Enqueuing { next: usize },
    /// A result is awaited; `remaining` results are due, this one included.
    Collecting { remaining: usize },
    /// The summary of the round was asked for.
    Summarizing,
    /// Sleep steps adding up to `slept_ms` were asked for since the round ended.
    Sleeping { slept_ms: u128 },
    /// The run is over.
    Terminated,
}

/// What the driver has to do next.
#[derive(Debug, Clone, Copy)]
pub enum Action {
    /// Push the URL at this index of the configured list onto the job queue.
    Enqueue(usize),
    /// Block for one result, emit it and fold it into the statistics.
    AwaitResult,
    /// Render the statistics gathered so far.
    Summarize,
    /// Sleep for this many milliseconds.
    Sleep(u64),
    /// Close the job queue, join the workers and leave.
    Shutdown,
}

/// The part of the configuration that the scheduler reads.
#[derive(Debug, Clone, Copy)]
pub struct Plan {
    /// Number of configured URLs.
    pub url_count: usize,
    /// Time between rounds in seconds; `None` for a single round.
    pub period_secs: Option<u64>,
}

/// State of the scheduler: the number of rounds begun and the phase.
#[derive(Debug, Clone, Copy)]
pub struct Scheduler {
    pub round: u64,
    pub phase: Phase,
}

/// A transition: the state reached and the action asked of the driver.
#[derive(Debug, Clone, Copy)]
pub struct Move {
    pub state: Scheduler,
    pub action: Action,
}

/// The round counter after one more round has begun. It stops at the top of
/// its range.
pub open spec fn bump(round: u64) -> u64 {
    if round < u64::MAX {
        (round + 1) as u64
    } else {
        round
    }
}

/// One fewer result due.
pub open spec fn one_less(remaining: usize) -> usize {
    if remaining > 0 {
        (remaining - 1) as usize
    } else {
        0
    }
}

/// Ends the round: the summary is asked for.
pub open spec fn summarize_spec(round: u64) -> Move {
    Move { state: Scheduler { round, phase: Phase::Summarizing }, action: Action::Summarize }
}

/// Ends the run.
pub open spec fn terminate_spec(round: u64) -> Move {
    Move { state: Scheduler { round, phase: Phase::Terminated }, action: Action::Shutdown }
}

/// Collecting with `remaining` results due: await one, or end the round
/// when none is due.
pub open spec fn collect_spec(round: u64, remaining: usize) -> Move {
    if remaining > 0 {
        Move {
            state: Scheduler { round, phase: Phase::Collecting { remaining } },
            action: Action::AwaitResult,
        }
    } else {
        summarize_spec(round)
    }
}

/// Enqueuing from index `next`: hand out that URL, unless the list is
/// through or shutdown was requested; then collecting begins, for as many
/// results as there are URLs.
pub open spec fn enqueue_spec(round: u64, plan: Plan, stop: bool, next: usize) -> Move {
    if next < plan.url_count && !stop {
        Move {
            state: Scheduler { round, phase: Phase::Enqueuing { next: (next + 1) as usize } },
            action: Action::Enqueue(next),
        }
    } else {
        collect_spec(round, plan.url_count)
    }
}

/// Begins a round: the counter goes up, and the run ends at once when
/// shutdown was requested.
pub open spec fn start_round_spec(round: u64, plan: Plan, stop: bool) -> Move {
    if stop {
        terminate_spec(bump(round))
    } else {
        enqueue_spec(bump(round), plan, stop, 0)
    }
}

/// After a round, with `slept_ms` already slept: a single-round plan ends
/// the run; else another step is slept while the period is not over and no
/// shutdown was requested, and then the next round begins.
pub open spec fn sleep_spec(round: u64, plan: Plan, stop: bool, slept_ms: u128) -> Move {
    match plan.period_secs {
        None => terminate_spec(round),
        Some(period) => if slept_ms < period * 1000 && !stop {
            Move {
                state: Scheduler {
                    round,
                    phase: Phase::Sleeping { slept_ms: (slept_ms + 200) as u128 },
                },
                action: Action::Sleep(200),
            }
        } else {
            start_round_spec(round, plan, stop)
        },
    }
}

/// The transition function. `stop` tells whether shutdown was requested;
/// `closed` tells whether the awaited result failed to come because the
/// result channel closed, and is read only while collecting.
pub open spec fn next_spec(s: Scheduler, plan: Plan, stop: bool, closed: bool) -> Move {
    match s.phase {
        Phase::Idle => start_round_spec(s.round, plan, stop),
        Phase::Enqueuing { next } => enqueue_spec(s.round, plan, stop, next),
        Phase::Collecting { remaining } => if closed {
            summarize_spec(s.round)
        } else {
            collect_spec(s.round, one_less(remaining))
        },
        Phase::Summarizing => sleep_spec(s.round, plan, stop, 0),
        Phase::Sleeping { slept_ms } => sleep_spec(s.round, plan, stop, slept_ms),
        Phase::Terminated => terminate_spec(s.round),
    }
}

/// The state after `steps` transitions in which no shutdown is requested
/// and the result channel stays open.
pub open spec fn after_quiet_steps(s: Scheduler, plan: Plan, steps: nat) -> Scheduler
    decreases steps,
{
    if steps == 0 {
        s
    } else {
        after_quiet_steps(next_spec(s, plan, false, false).state, plan, (steps - 1) as nat)
    }
}

fn summarize(round: u64) -> (m: Move)
    ensures
        m == summarize_spec(round),
{
    Move { state: Scheduler { round, phase: Phase::Summarizing }, action: Action::Summarize }
}

fn terminate(round: u64) -> (m: Move)
    ensures
        m == terminate_spec(round),
{
    Move { state: Scheduler { round, phase: Phase::Terminated }, action: Action::Shutdown }
}

fn collect(round: u64, remaining: usize) -> (m: Move)
    ensures
        m == collect_spec(round, remaining),
{
    if remaining > 0 {
        Move {
            state: Scheduler { round, phase: Phase::Collecting { remaining } },
            action: Action::AwaitResult,
        }
    } else {
        summarize(round)
    }
}

fn enqueue(round: u64, plan: &Plan, stop: bool, next: usize) -> (m: Move)
    ensures
        m == enqueue_spec(round, *plan, stop, next),
{
    if next < plan.url_count && !stop {
        Move {
            state: Scheduler { round, phase: Phase::Enqueuing { next: next + 1 } },
            action: Action::Enqueue(next),
        }
    } else {
        collect(round, plan.url_count)
    }
}

fn start_round(round: u64, plan: &Plan, stop: bool) -> (m: Move)
    ensures
        m == start_round_spec(round, *plan, stop),
{
    let bumped: u64 = if round < u64::MAX {
        round + 1
    } else {
        round
    };
    if stop {
        terminate(bumped)
    } else {
        enqueue(bumped, plan, stop, 0)
    }
}

fn sleep(round: u64, plan: &Plan, stop: bool, slept_ms: u128) -> (m: Move)
    ensures
        m == sleep_spec(round, *plan, stop, slept_ms),
{
    match plan.period_secs {
        None => terminate(round),
        Some(period) => {
            if slept_ms < (period as u128) * 1000 && !stop {
                Move {
                    state: Scheduler { round, phase: Phase::Sleeping { slept_ms: slept_ms + 200 } },
                    action: Action::Sleep(SLEEP_STEP_MS),
                }
            } else {
                start_round(round, plan, stop)
            }
        },
    }
}

impl Scheduler {
    /// The scheduler before its first round.
    pub fn new() -> (s: Scheduler)
        ensures
            s.round == 0,
            s.phase == Phase::Idle,
    {
        Scheduler { round: 0, phase: Phase::Idle }
    }

    /// Whether the run is over.
    pub fn is_terminated(&self) -> (r: bool)
        ensures
            r == (self.phase is Terminated),
    {
        match self.phase {
            Phase::Terminated => true,
            _ => false,
        }
    }

    /// Takes one transition: returns the state reached and the action that
    /// the driver has to perform before it asks again.
    pub fn next(&self, plan: &Plan, stop: bool, closed: bool) -> (m: Move)
        ensures
            m == next_spec(*self, *plan, stop, closed),
    {
        match self.phase {
            Phase::Idle => start_round(self.round, plan, stop),
            Phase::Enqueuing { next } => enqueue(self.round, plan, stop, next),
            Phase::Collecting { remaining } => {
                if closed {
                    summarize(self.round)
                } else {
                    let left: usize = if remaining > 0 {
                        remaining - 1
                    } else {
                        0
                    };
                    collect(self.round, left)
                }
            },
            Phase::Summarizing => sleep(self.round, plan, stop, 0),
            Phase::Sleeping { slept_ms } => sleep(self.round, plan, stop, slept_ms),
            Phase::Terminated => terminate(self.round),
        }
    }
}

/// Without a period the scheduler never asks for a sleep, whatever the
/// state and the signals.
pub proof fn lemma_single_round_never_sleeps(s: Scheduler, plan: Plan, stop: bool, closed: bool)
    requires
        plan.period_secs is None,
    ensures
        !(next_spec(s, plan, stop, closed).action is Sleep),
{
}

/// Without a period the run ends right after the summary of the first
/// round, and no further round is begun.
pub proof fn lemma_single_round_ends_after_summary(round: u64, plan: Plan, stop: bool, closed: bool)
    requires
        plan.period_secs is None,
    ensures
        next_spec(Scheduler { round, phase: Phase::Summarizing }, plan, stop, closed)
            == terminate_spec(round),
{
}

/// Once shutdown is requested no URL is enqueued and no sleep is begun.
pub proof fn lemma_stop_halts_enqueuing_and_sleeping(s: Scheduler, plan: Plan, closed: bool)
    ensures
        !(next_spec(s, plan, true, closed).action is Enqueue),
        !(next_spec(s, plan, true, closed).action is Sleep),
{
}

/// The terminated state is final.
pub proof fn lemma_terminated_is_final(s: Scheduler, plan: Plan, stop: bool, closed: bool)
    requires
        s.phase is Terminated,
    ensures
        next_spec(s, plan, stop, closed) == terminate_spec(s.round),
{
}

/// Quiet steps compose.
pub proof fn lemma_quiet_steps_compose(s: Scheduler, plan: Plan, a: nat, b: nat)
    ensures
        after_quiet_steps(s, plan, a + b) == after_quiet_steps(
            after_quiet_steps(s, plan, a),
            plan,
            b,
        ),
    decreases a,
{
    if a > 0 {
        lemma_quiet_steps_compose(
            next_spec(s, plan, false, false).state,
            plan,
            (a - 1) as nat,
            b,
        );
        assert(a + b - 1 == (a - 1) + b);
    }
}

/// Where the scheduler stands `k` quiet steps into its first round over
/// `n` URLs: it has handed out the first `k` URLs, or is awaiting one of the
/// `n` results, or has asked for the summary.
pub open spec fn first_round_state(n: usize, k: nat) -> Scheduler {
    if k == 0 {
        Scheduler { round: 0, phase: Phase::Idle }
    } else if k <= n {
        Scheduler { round: 1, phase: Phase::Enqueuing { next: k as usize } }
    } else if k <= 2 * n {
        Scheduler { round: 1, phase: Phase::Collecting { remaining: (2 * n - k + 1) as usize } }
    } else {
        Scheduler { round: 1, phase: Phase::Summarizing }
    }
}

/// What the scheduler asks for at step `k` (counted from zero) of its first
/// round over `n` URLs: each URL once, in list order, then one result per
/// URL, then the summary.
pub open spec fn first_round_action(n: usize, k: nat) -> Action {
    if k < n {
        Action::Enqueue(k as usize)
    } else if k < 2 * n {
        Action::AwaitResult
    } else {
        Action::Summarize
    }
}

/// A fresh scheduler, left undisturbed, goes through its first round as
/// [`first_round_state`] and [`first_round_action`] say: every URL is
/// enqueued exactly once and exactly as many results are awaited as there
/// are URLs, whatever the period.
pub proof fn lemma_first_round(plan: Plan, k: nat)
    requires
        k <= 2 * plan.url_count,
    ensures
        after_quiet_steps(Scheduler { round: 0, phase: Phase::Idle }, plan, k)
            == first_round_state(plan.url_count, k),
        next_spec(first_round_state(plan.url_count, k), plan, false, false) == (Move {
            state: first_round_state(plan.url_count, k + 1),
            action: first_round_action(plan.url_count, k),
        }),
    decreases k,
{
    let s0 = Scheduler { round: 0, phase: Phase::Idle };
    if k > 0 {
        let j = (k - 1) as nat;
        lemma_first_round(plan, j);
        lemma_quiet_steps_compose(s0, plan, j, 1);
        let mid = first_round_state(plan.url_count, j);
        assert(after_quiet_steps(mid, plan, 1) == next_spec(mid, plan, false, false).state) by {
            assert(after_quiet_steps(next_spec(mid, plan, false, false).state, plan, 0)
                == next_spec(mid, plan, false, false).state);
        }
    }
}

/// A fresh scheduler without a period, left undisturbed, is terminated
/// after one round: `n` enqueues, `n` awaited results, the summary and the
/// shutdown, which are `2 * n + 2` steps for `n` URLs. The round counter
/// then stands at one, and no step asked for a sleep.
pub proof fn lemma_single_round_run(plan: Plan)
    requires
        plan.period_secs is None,
    ensures
        after_quiet_steps(
            Scheduler { round: 0, phase: Phase::Idle },
            plan,
            (2 * plan.url_count + 2) as nat,
        ) == (Scheduler { round: 1, phase: Phase::Terminated }),
        next_spec(
            after_quiet_steps(
                Scheduler { round: 0, phase: Phase::Idle },
                plan,
                (2 * plan.url_count + 1) as nat,
            ),
            plan,
            false,
            false,
        ).action == Action::Shutdown,
{
    let n = plan.url_count;
    let s0 = Scheduler { round: 0, phase: Phase::Idle };
    let summing = Scheduler { round: 1, phase: Phase::Summarizing };
    let done = Scheduler { round: 1, phase: Phase::Terminated };
    lemma_first_round(plan, (2 * n) as nat);
    lemma_quiet_steps_compose(s0, plan, (2 * n) as nat, 1);
    lemma_quiet_steps_compose(s0, plan, (2 * n + 1) as nat, 1);
    let last = first_round_state(n, (2 * n) as nat);
    assert(next_spec(last, plan, false, false).state == summing);
    assert(after_quiet_steps(last, plan, 1) == summing) by {
        assert(after_quiet_steps(summing, plan, 0) == summing);
    }
    assert(after_quiet_steps(summing, plan, 1) == done) by {
        assert(next_spec(summing, plan, false, false).state == done);
        assert(after_quiet_steps(done, plan, 0) == done);
    }
}

} // verus!
