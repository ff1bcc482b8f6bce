//! Tick-schedule arithmetic. Each job ticks on its own fixed-period clock:
//! tick number k fires k whole periods after start, so over `elapsed` seconds
//! a job with period `interval` completes `elapsed / interval` ticks — one
//! outcome each, never more frequently than once per period, and at least one
//! once the longest configured period has passed.

use crate::job::JobDefView;
use crate::runner::run_outcomes;
use vstd::arithmetic::div_mod::{
    lemma_div_is_ordered,
    lemma_div_non_zero,
    lemma_div_plus_one,
    lemma_fundamental_div_mod,
};
use vstd::arithmetic::mul::lemma_mul_inequality;
use vstd::prelude::*;

verus! {

/// How many ticks a job with period `interval` has completed once `elapsed`
/// whole seconds have passed: the first tick fires one full period in.
pub open spec fn tick_count(interval: nat, elapsed: nat) -> nat
    recommends
        interval > 0,
{
    elapsed / interval
}

/// The instant, in seconds after start, of tick number `k` (counting from 1).
pub open spec fn tick_time(interval: nat, k: nat) -> nat {
    k * interval
}

/// How many outcomes one job has produced `elapsed_seconds` after start.
pub fn outcomes_within(interval_seconds: u64, elapsed_seconds: u64) -> (r: u64)
    requires
        interval_seconds > 0,
    ensures
        r == tick_count(interval_seconds as nat, elapsed_seconds as nat),
{
    elapsed_seconds / interval_seconds
}

/// The instant of tick number `k` of a job with period `interval_seconds`.
pub fn tick_instant(interval_seconds: u64, k: u64) -> (r: u64)
    requires
        interval_seconds > 0,
        k <= u64::MAX / interval_seconds,
    ensures
        r == tick_time(interval_seconds as nat, k as nat),
{
    proof {
        lemma_fundamental_div_mod(u64::MAX as int, interval_seconds as int);
        lemma_mul_inequality(k as int, u64::MAX as int / interval_seconds as int, interval_seconds as int);
    }
    k * interval_seconds
}

/// The largest interval among the jobs.
pub open spec fn max_interval(jobs: Seq<JobDefView>) -> nat
    decreases jobs.len(),
{
    if jobs.len() == 0 {
        0
    } else {
        let rest = max_interval(jobs.drop_first());
        if jobs[0].interval_seconds as nat >= rest {
            jobs[0].interval_seconds as nat
        } else {
            rest
        }
    }
}

/// No job's interval exceeds the largest one.
pub proof fn lemma_max_interval_bounds(jobs: Seq<JobDefView>)
    ensures
        forall|i: int|
            0 <= i < jobs.len() ==> (#[trigger] jobs[i]).interval_seconds as nat <= max_interval(
                jobs,
            ),
    decreases jobs.len(),
{
    if jobs.len() > 0 {
        lemma_max_interval_bounds(jobs.drop_first());
        assert forall|i: int|
            0 <= i < jobs.len() implies (#[trigger] jobs[i]).interval_seconds as nat
            <= max_interval(jobs) by {
            if i > 0 {
                assert(jobs.drop_first()[i - 1] == jobs[i]);
            }
        }
    }
}

/// Once at least the largest configured interval has elapsed, every job has
/// completed at least one tick, and so produced at least one outcome.
pub proof fn lemma_every_job_has_an_outcome(jobs: Seq<JobDefView>, elapsed: nat)
    requires
        forall|i: int| 0 <= i < jobs.len() ==> (#[trigger] jobs[i]).wf(),
        elapsed >= max_interval(jobs),
    ensures
        forall|i: int|
            0 <= i < jobs.len() ==> tick_count(
                (#[trigger] jobs[i]).interval_seconds as nat,
                elapsed,
            ) >= 1,
{
    lemma_max_interval_bounds(jobs);
    assert forall|i: int|
        0 <= i < jobs.len() implies tick_count((#[trigger] jobs[i]).interval_seconds as nat, elapsed)
        >= 1 by {
        lemma_div_non_zero(elapsed as int, jobs[i].interval_seconds as int);
    }
}

/// Once at least the largest configured interval has elapsed, every job has
/// emitted at least one outcome: each runner emits one outcome per completed
/// tick, and by then every job has completed at least one tick. `results[i]`
/// and `stamps[i]` are job i's dispatch results and timestamps, one per
/// completed tick.
pub proof fn lemma_every_job_emits(
    jobs: Seq<JobDefView>,
    elapsed: nat,
    results: Seq<Seq<Result<u16, Seq<char>>>>,
    stamps: Seq<Seq<Seq<char>>>,
)
    requires
        forall|i: int| 0 <= i < jobs.len() ==> (#[trigger] jobs[i]).wf(),
        elapsed >= max_interval(jobs),
        results.len() == jobs.len(),
        stamps.len() == jobs.len(),
        forall|i: int|
            0 <= i < jobs.len() ==> (#[trigger] results[i]).len() == tick_count(
                jobs[i].interval_seconds as nat,
                elapsed,
            ),
        forall|i: int| 0 <= i < jobs.len() ==> (#[trigger] stamps[i]).len() == results[i].len(),
    ensures
        forall|i: int|
            0 <= i < jobs.len() ==> (#[trigger] run_outcomes(jobs[i], results[i], stamps[i])).len()
                >= 1,
{
    lemma_every_job_has_an_outcome(jobs, elapsed);
    assert forall|i: int|
        0 <= i < jobs.len() implies (#[trigger] run_outcomes(jobs[i], results[i], stamps[i])).len()
        >= 1 by {
        crate::runner::lemma_one_outcome_per_tick(jobs[i], results[i], stamps[i]);
    }
}

/// Consecutive ticks of one job are spaced exactly one period apart.
pub proof fn lemma_tick_spacing(interval: nat, k: nat)
    ensures
        tick_time(interval, k + 1) == tick_time(interval, k) + interval,
{
    assert((k + 1) * interval == k * interval + interval) by (nonlinear_arith);
}

/// Ticks never come more often than once per period: over any span no longer
/// than one period, a job completes at most one more tick.
pub proof fn lemma_no_burst(interval: nat, t1: nat, t2: nat)
    requires
        interval > 0,
        t1 <= t2,
        t2 - t1 <= interval,
    ensures
        tick_count(interval, t2) <= tick_count(interval, t1) + 1,
{
    lemma_div_is_ordered(t2 as int, t1 as int + interval as int, interval as int);
    lemma_div_plus_one(t1 as int, interval as int);
}

/// More time never means fewer ticks.
pub proof fn lemma_tick_count_monotone(interval: nat, t1: nat, t2: nat)
    requires
        interval > 0,
        t1 <= t2,
    ensures
        tick_count(interval, t1) <= tick_count(interval, t2),
{
    lemma_div_is_ordered(t1 as int, t2 as int, interval as int);
}

} // verus!
