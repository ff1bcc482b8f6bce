//! The per-job runner state machine. A runner is either waiting for its next
//! tick or has one request in flight; a tick that fires while a request is in
//! flight is skipped, never queued, so outcomes of one job come in tick
//! order. Every transition is a pure function of the job's own definition,
//! state and event — no sibling job's data enters into it, so one job's
//! failures cannot touch another's behaviour.

use crate::job::{JobDefView, JobDefinition};
use crate::method::recognized_method;
use crate::outcome::{outcome_for, make_outcome, Outcome, OutcomeView};
use crate::outcome::current_timestamp;
use crate::request::{build_request, built_request, RequestDescription, RequestView};
use vstd::prelude::*;

verus! {

/// The two phases of one job's runner: between ticks, or request in flight.
#[derive(Clone, Copy, PartialEq, Eq, Structural, Debug)]
pub enum RunnerState {
    Waiting,
    Dispatching,
}

/// What the outside loop reports to the runner: its timer fired, or the
/// in-flight dispatch finished with the given result.
#[derive(Debug)]
pub enum RunnerEvent {
    TickFired,
    DispatchDone(Result<u16, String>),
}

/// Ghost image of a runner event.
pub enum RunnerEventView {
    TickFired,
    DispatchDone(Result<u16, Seq<char>>),
}

impl View for RunnerEvent {
    type V = RunnerEventView;

    open spec fn view(&self) -> RunnerEventView {
        match self {
            RunnerEvent::TickFired => RunnerEventView::TickFired,
            RunnerEvent::DispatchDone(res) => RunnerEventView::DispatchDone(
                match res {
                    Ok(s) => Ok(*s),
                    Err(e) => Err(e@),
                },
            ),
        }
    }
}

/// What the outside loop must do after a transition: start the described
/// dispatch (the flag asks for an unrecognized-method warning), emit the
/// outcome, or nothing — an overlapping tick is skipped and a stray
/// completion is ignored.
#[derive(Debug)]
pub enum RunnerAction {
    StartDispatch(RequestDescription, bool),
    EmitOutcome(Outcome),
    Skip,
}

/// Ghost image of a runner action.
pub enum RunnerActionView {
    StartDispatch(RequestView, bool),
    EmitOutcome(OutcomeView),
    Skip,
}

impl View for RunnerAction {
    type V = RunnerActionView;

    open spec fn view(&self) -> RunnerActionView {
        match self {
            RunnerAction::StartDispatch(req, warned) => RunnerActionView::StartDispatch(
                req@,
                *warned,
            ),
            RunnerAction::EmitOutcome(o) => RunnerActionView::EmitOutcome(o@),
            RunnerAction::Skip => RunnerActionView::Skip,
        }
    }
}

/// One transition of a job's runner: from the state and the event to the next
/// state and the required action. Waiting + tick starts a dispatch;
/// dispatching + tick skips the tick; dispatching + completion emits the
/// outcome and returns to waiting; a completion while waiting is ignored.
pub open spec fn step_result(
    j: JobDefView,
    state: RunnerState,
    ev: RunnerEventView,
    ts: Seq<char>,
) -> (RunnerState, RunnerActionView) {
    match (state, ev) {
        (RunnerState::Waiting, RunnerEventView::TickFired) => (
            RunnerState::Dispatching,
            RunnerActionView::StartDispatch(built_request(j), recognized_method(j.method) is None),
        ),
        (RunnerState::Dispatching, RunnerEventView::TickFired) => (
            RunnerState::Dispatching,
            RunnerActionView::Skip,
        ),
        (RunnerState::Dispatching, RunnerEventView::DispatchDone(res)) => (
            RunnerState::Waiting,
            RunnerActionView::EmitOutcome(outcome_for(j, res, ts)),
        ),
        (RunnerState::Waiting, RunnerEventView::DispatchDone(_)) => (
            RunnerState::Waiting,
            RunnerActionView::Skip,
        ),
    }
}

/// Advance a job's runner by one event; an emitted outcome carries `timestamp`.
pub fn runner_step(
    job: &JobDefinition,
    state: RunnerState,
    event: RunnerEvent,
    timestamp: String,
) -> (r: (RunnerState, RunnerAction))
    ensures
        r.0 == step_result(job@, state, event@, timestamp@).0,
        r.1@ == step_result(job@, state, event@, timestamp@).1,
{
    match (state, event) {
        (RunnerState::Waiting, RunnerEvent::TickFired) => {
            let (req, warned) = build_request(job);
            (RunnerState::Dispatching, RunnerAction::StartDispatch(req, warned))
        },
        (RunnerState::Dispatching, RunnerEvent::TickFired) => (
            RunnerState::Dispatching,
            RunnerAction::Skip,
        ),
        (RunnerState::Dispatching, RunnerEvent::DispatchDone(res)) => {
            let o = make_outcome(job, res, timestamp);
            (RunnerState::Waiting, RunnerAction::EmitOutcome(o))
        },
        (RunnerState::Waiting, RunnerEvent::DispatchDone(_)) => (
            RunnerState::Waiting,
            RunnerAction::Skip,
        ),
    }
}

/// Advance a job's runner by one event, timestamping with the current local
/// time (at least 19 characters; its content depends on the clock).
pub fn runner_step_now(job: &JobDefinition, state: RunnerState, event: RunnerEvent) -> (r: (
    RunnerState,
    RunnerAction,
))
    ensures
        exists|ts: Seq<char>|
            #![auto]
            ts.len() >= 19 && r.0 == step_result(job@, state, event@, ts).0 && r.1@ == step_result(
                job@,
                state,
                event@,
                ts,
            ).1,
{
    let ts = current_timestamp();
    runner_step(job, state, event, ts)
}

/// One runner per job, each starting between ticks, all at the same moment.
pub fn initial_runner_states(jobs: &Vec<JobDefinition>) -> (r: Vec<RunnerState>)
    ensures
        r@.len() == jobs@.len(),
        forall|i: int| 0 <= i < r@.len() ==> r@[i] == RunnerState::Waiting,
{
    let mut r: Vec<RunnerState> = Vec::new();
    let mut i: usize = 0;
    while i < jobs.len()
        invariant
            i <= jobs@.len(),
            r@.len() == i,
            forall|j: int| 0 <= j < i ==> r@[j] == RunnerState::Waiting,
        decreases jobs@.len() - i,
    {
        r.push(RunnerState::Waiting);
        i += 1;
    }
    r
}

/// The outcomes a runner emits when, starting between ticks, its timer fires
/// `results.len()` times and each dispatch in turn finishes with the matching
/// result at the matching timestamp: one full waiting → dispatching → waiting
/// cycle per tick.
pub open spec fn run_outcomes(
    j: JobDefView,
    results: Seq<Result<u16, Seq<char>>>,
    stamps: Seq<Seq<char>>,
) -> Seq<OutcomeView>
    recommends
        stamps.len() == results.len(),
    decreases results.len(),
{
    if results.len() == 0 {
        Seq::empty()
    } else {
        let mid = step_result(j, RunnerState::Waiting, RunnerEventView::TickFired, stamps[0]).0;
        let done = step_result(j, mid, RunnerEventView::DispatchDone(results[0]), stamps[0]);
        let emitted = match done.1 {
            RunnerActionView::EmitOutcome(o) => seq![o],
            _ => Seq::empty(),
        };
        emitted + run_outcomes(j, results.drop_first(), stamps.drop_first())
    }
}

/// A runner emits exactly one outcome per completed tick, in tick order, and
/// each outcome is the record of that tick's own result — whatever the
/// results were.
pub proof fn lemma_one_outcome_per_tick(
    j: JobDefView,
    results: Seq<Result<u16, Seq<char>>>,
    stamps: Seq<Seq<char>>,
)
    requires
        stamps.len() == results.len(),
    ensures
        run_outcomes(j, results, stamps).len() == results.len(),
        forall|k: int|
            0 <= k < results.len() ==> #[trigger] run_outcomes(j, results, stamps)[k]
                == outcome_for(j, results[k], stamps[k]),
    decreases results.len(),
{
    if results.len() > 0 {
        lemma_one_outcome_per_tick(j, results.drop_first(), stamps.drop_first());
        assert forall|k: int| 0 <= k < results.len() implies #[trigger] run_outcomes(
            j,
            results,
            stamps,
        )[k] == outcome_for(j, results[k], stamps[k]) by {
            if k > 0 {
                assert(run_outcomes(j, results, stamps)[k] == run_outcomes(
                    j,
                    results.drop_first(),
                    stamps.drop_first(),
                )[k - 1]);
                assert(results.drop_first()[k - 1] == results[k]);
                assert(stamps.drop_first()[k - 1] == stamps[k]);
            }
        }
    }
}

/// A job whose dispatches all fail transport-level keeps ticking and keeps
/// emitting: one failure outcome per tick, each carrying that tick's
/// (non-empty) cause. The run is a function of this job's own definition,
/// results and timestamps alone, so a sibling job's failures cannot appear in
/// it.
pub proof fn lemma_failing_job_keeps_emitting(
    j: JobDefView,
    results: Seq<Result<u16, Seq<char>>>,
    stamps: Seq<Seq<char>>,
)
    requires
        stamps.len() == results.len(),
        forall|k: int|
            0 <= k < results.len() ==> (#[trigger] results[k]) is Err && results[k]->Err_0.len()
                > 0,
    ensures
        run_outcomes(j, results, stamps).len() == results.len(),
        forall|k: int|
            0 <= k < results.len() ==> (#[trigger] run_outcomes(j, results, stamps)[k]).kind
                is Failure && run_outcomes(j, results, stamps)[k].kind->Failure_0.len() > 0,
{
    lemma_one_outcome_per_tick(j, results, stamps);
}

} // verus!
