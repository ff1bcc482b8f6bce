//! Outcome records: one per dispatch attempt, carrying a timestamp, the job's
//! URL and resolved method, and either the HTTP status code the call came
//! back with (any status — a non-success code is still a completed call) or
//! the transport-level cause of failure.

use crate::job::{JobDefView, JobDefinition};
use crate::method::{resolve_method, resolved_method, HttpMethod};
use vstd::prelude::*;

verus! {

/// What one dispatch attempt came to: a completed HTTP exchange with its
/// status code, or a transport-level failure with its cause.
#[derive(Debug)]
pub enum OutcomeKind {
    Status(u16),
    Failure(String),
}

/// Ghost image of an outcome kind.
pub enum OutcomeKindView {
    Status(u16),
    Failure(Seq<char>),
}

impl View for OutcomeKind {
    type V = OutcomeKindView;

    open spec fn view(&self) -> OutcomeKindView {
        match self {
            OutcomeKind::Status(s) => OutcomeKindView::Status(*s),
            OutcomeKind::Failure(e) => OutcomeKindView::Failure(e@),
        }
    }
}

/// Ghost image of an outcome record.
pub struct OutcomeView {
    pub timestamp: Seq<char>,
    pub url: Seq<char>,
    pub method: HttpMethod,
    pub kind: OutcomeKindView,
}

/// One outcome record, emitted once per tick and never retained.
#[derive(Debug)]
pub struct Outcome {
    pub timestamp: String,
    pub url: String,
    pub method: HttpMethod,
    pub kind: OutcomeKind,
}

impl View for Outcome {
    type V = OutcomeView;

    open spec fn view(&self) -> OutcomeView {
        OutcomeView {
            timestamp: self.timestamp@,
            url: self.url@,
            method: self.method,
            kind: self.kind@,
        }
    }
}

/// The view of a dispatch result as the HTTP client hands it back: the status
/// code of a completed exchange, or the cause of a transport failure.
pub open spec fn dispatch_view(r: Result<u16, String>) -> Result<u16, Seq<char>> {
    match r {
        Ok(s) => Ok(s),
        Err(e) => Err(e@),
    }
}

/// The outcome recorded for job `j` when a dispatch finished as `res` at time
/// `ts`: a completed exchange keeps its status code, whatever it was; a
/// transport failure keeps its cause.
pub open spec fn outcome_for(j: JobDefView, res: Result<u16, Seq<char>>, ts: Seq<char>) -> OutcomeView {
    OutcomeView {
        timestamp: ts,
        url: j.url,
        method: resolved_method(j.method),
        kind: match res {
            Ok(s) => OutcomeKindView::Status(s),
            Err(e) => OutcomeKindView::Failure(e),
        },
    }
}

/// Record the outcome of one finished dispatch of `job` at `timestamp`.
pub fn make_outcome(job: &JobDefinition, result: Result<u16, String>, timestamp: String) -> (o:
    Outcome)
    ensures
        o@ == outcome_for(job@, dispatch_view(result), timestamp@),
{
    let (method, _) = resolve_method(job.method.as_str());
    Outcome {
        timestamp,
        url: job.url.clone(),
        method,
        kind: match result {
            Ok(s) => OutcomeKind::Status(s),
            Err(e) => OutcomeKind::Failure(e),
        },
    }
}

impl Outcome {
    /// Whether this outcome records a transport-level failure.
    pub fn is_failure(&self) -> (r: bool)
        ensures
            r == (self@.kind is Failure),
    {
        match &self.kind {
            OutcomeKind::Status(_) => false,
            OutcomeKind::Failure(_) => true,
        }
    }
}

/// Relies on chrono's `Local::now` and `DateTime::format`: the current local
/// time rendered as `%Y-%m-%d %H:%M:%S`. The zero-padded fields and the fixed
/// separators make the rendering at least 19 characters long; its content
/// depends on the clock, so nothing more is claimed of it.
#[verifier::external_body]
pub(crate) fn current_timestamp() -> (r: String)
    ensures
        r@.len() >= 19,
{
    chrono::Local::now().format("%Y-%m-%d %H:%M:%S").to_string()
}

} // verus!
