//! Building a concrete request description from a job definition: a pure,
//! total transformation. The method string is resolved (GET on an
//! unrecognized one, with a warning flag), the URL passes through unchanged,
//! headers are attached verbatim, and a body is attached exactly when one is
//! configured — on any method.

use crate::job::{pair_views, JobDefView, JobDefinition};
use crate::method::{recognized_method, resolved_method, resolve_method, HttpMethod};
use vstd::prelude::*;

verus! {

/// Ghost image of a request description.
pub struct RequestView {
    pub method: HttpMethod,
    pub url: Seq<char>,
    pub headers: Seq<(Seq<char>, Seq<char>)>,
    pub body: Option<Seq<char>>,
}

/// Everything the HTTP client needs for one dispatch: resolved method, target
/// URL, headers, and the optional body.
#[derive(Debug)]
pub struct RequestDescription {
    pub method: HttpMethod,
    pub url: String,
    pub headers: Vec<(String, String)>,
    pub body: Option<String>,
}

impl View for RequestDescription {
    type V = RequestView;

    open spec fn view(&self) -> RequestView {
        RequestView {
            method: self.method,
            url: self.url@,
            headers: pair_views(self.headers@),
            body: crate::job::opt_view(self.body),
        }
    }
}

/// The request built for job `j`: method resolved, everything else verbatim.
pub open spec fn built_request(j: JobDefView) -> RequestView {
    RequestView { method: resolved_method(j.method), url: j.url, headers: j.headers, body: j.body }
}

fn clone_headers(h: &Vec<(String, String)>) -> (r: Vec<(String, String)>)
    ensures
        r@ == h@,
{
    let mut r: Vec<(String, String)> = Vec::new();
    let mut i: usize = 0;
    while i < h.len()
        invariant
            i <= h@.len(),
            r@ =~= h@.take(i as int),
        decreases h@.len() - i,
    {
        let key = h[i].0.clone();
        let val = h[i].1.clone();
        r.push((key, val));
        proof {
            assert(r@ =~= h@.take(i as int + 1));
        }
        i += 1;
    }
    proof {
        assert(h@.take(h@.len() as int) =~= h@);
    }
    r
}

/// Build the request for one tick of `job`. Total: every job definition
/// yields a request; the flag reports that the configured method string was
/// unrecognized and a warning is due.
pub fn build_request(job: &JobDefinition) -> (r: (RequestDescription, bool))
    ensures
        r.0@ == built_request(job@),
        r.1 == (recognized_method(job@.method) is None),
{
    let (method, warned) = resolve_method(job.method.as_str());
    let body = match &job.body {
        Some(b) => Some(b.clone()),
        None => None,
    };
    let req = RequestDescription {
        method,
        url: job.url.clone(),
        headers: clone_headers(&job.headers),
        body,
    };
    (req, warned)
}

} // verus!
