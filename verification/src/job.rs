//! Job definitions and startup validation: a raw configured record either
//! yields a well-formed job (URL non-empty, interval positive, header keys
//! unique, duplicate keys collapsed last-write-wins) or a fatal startup error,
//! and one bad record prevents the whole list from starting.

use vstd::prelude::*;
use vstd::string::StringExecFns;

verus! {

/// Ghost image of one raw configured record.
pub struct RawJobView {
    pub url: Option<Seq<char>>,
    pub method: Option<Seq<char>>,
    pub headers: Option<Seq<(Seq<char>, Seq<char>)>>,
    pub body: Option<Seq<char>>,
    pub interval_seconds: Option<u64>,
}

/// One record of the raw configured job list, before validation. `url` and
/// `interval_seconds` are required; the rest are optional.
#[derive(Debug)]
pub struct RawJob {
    pub url: Option<String>,
    pub method: Option<String>,
    pub headers: Option<Vec<(String, String)>>,
    pub body: Option<String>,
    pub interval_seconds: Option<u64>,
}

/// The views of a header list, pair by pair.
pub open spec fn pair_views(s: Seq<(String, String)>) -> Seq<(Seq<char>, Seq<char>)> {
    s.map_values(|p: (String, String)| (p.0@, p.1@))
}

/// The view of an optional string.
pub open spec fn opt_view(o: Option<String>) -> Option<Seq<char>> {
    match o {
        Some(s) => Some(s@),
        None => None,
    }
}

impl View for RawJob {
    type V = RawJobView;

    open spec fn view(&self) -> RawJobView {
        RawJobView {
            url: opt_view(self.url),
            method: opt_view(self.method),
            headers: match self.headers {
                Some(h) => Some(pair_views(h@)),
                None => None,
            },
            body: opt_view(self.body),
            interval_seconds: self.interval_seconds,
        }
    }
}

/// Ghost image of a validated job definition.
pub struct JobDefView {
    pub url: Seq<char>,
    pub method: Seq<char>,
    pub headers: Seq<(Seq<char>, Seq<char>)>,
    pub body: Option<Seq<char>>,
    pub interval_seconds: u64,
}

/// One validated job: target URL, configured method string (resolved at
/// request-building time), headers with unique keys, optional body, and the
/// tick interval in whole seconds.
#[derive(Debug)]
pub struct JobDefinition {
    pub url: String,
    pub method: String,
    pub headers: Vec<(String, String)>,
    pub body: Option<String>,
    pub interval_seconds: u64,
}

impl View for JobDefinition {
    type V = JobDefView;

    open spec fn view(&self) -> JobDefView {
        JobDefView {
            url: self.url@,
            method: self.method@,
            headers: pair_views(self.headers@),
            body: opt_view(self.body),
            interval_seconds: self.interval_seconds,
        }
    }
}

/// No two header pairs share a key.
pub open spec fn unique_keys(h: Seq<(Seq<char>, Seq<char>)>) -> bool {
    forall|i: int, j: int| 0 <= i < j < h.len() ==> h[i].0 != h[j].0
}

impl JobDefView {
    /// A job definition is well formed when its URL is non-empty, its tick
    /// interval is positive, and its header keys are unique.
    pub open spec fn wf(self) -> bool {
        &&& self.url.len() > 0
        &&& self.interval_seconds > 0
        &&& unique_keys(self.headers)
    }
}

/// Why startup was refused: the index of the first offending record and its fault.
#[derive(Clone, Copy, PartialEq, Eq, Structural, Debug)]
pub enum StartupConfigError {
    MissingUrl { index: usize },
    EmptyUrl { index: usize },
    MissingInterval { index: usize },
    ZeroInterval { index: usize },
}

impl RawJobView {
    /// A raw record is valid when it has a non-empty URL and a positive interval.
    pub open spec fn valid(self) -> bool {
        &&& self.url is Some
        &&& self.url->0.len() > 0
        &&& self.interval_seconds is Some
        &&& self.interval_seconds->0 > 0
    }

    /// The fault reported for an invalid record at `index`, checked in order:
    /// URL present, URL non-empty, interval present, interval positive.
    pub open spec fn fault(self, index: usize) -> StartupConfigError
        recommends
            !self.valid(),
    {
        if self.url is None {
            StartupConfigError::MissingUrl { index }
        } else if self.url->0.len() == 0 {
            StartupConfigError::EmptyUrl { index }
        } else if self.interval_seconds is None {
            StartupConfigError::MissingInterval { index }
        } else {
            StartupConfigError::ZeroInterval { index }
        }
    }
}

/// Index of the first pair of `h` whose key is `k`, or -1 if no pair has it.
pub open spec fn find_key(h: Seq<(Seq<char>, Seq<char>)>, k: Seq<char>) -> int
    decreases h.len(),
{
    if h.len() == 0 {
        -1
    } else if h[0].0 == k {
        0
    } else {
        let r = find_key(h.drop_first(), k);
        if r < 0 {
            -1
        } else {
            r + 1
        }
    }
}

/// What `find_key` finds: the least index holding the key, or nothing anywhere.
pub proof fn lemma_find_key(h: Seq<(Seq<char>, Seq<char>)>, k: Seq<char>)
    ensures
        find_key(h, k) == -1 || 0 <= find_key(h, k) < h.len(),
        find_key(h, k) == -1 ==> forall|i: int| 0 <= i < h.len() ==> h[i].0 != k,
        find_key(h, k) >= 0 ==> h[find_key(h, k)].0 == k,
        forall|i: int| 0 <= i < find_key(h, k) ==> h[i].0 != k,
    decreases h.len(),
{
    if h.len() > 0 && h[0].0 != k {
        lemma_find_key(h.drop_first(), k);
        assert(forall|i: int| 0 < i < h.len() ==> h[i] == h.drop_first()[i - 1]);
    }
}

/// The header list with duplicate keys collapsed: keys keep the order of their
/// first occurrence, each key carries the value of its last occurrence.
pub open spec fn spec_dedup(h: Seq<(Seq<char>, Seq<char>)>) -> Seq<(Seq<char>, Seq<char>)>
    decreases h.len(),
{
    if h.len() == 0 {
        Seq::empty()
    } else {
        let rest = spec_dedup(h.drop_last());
        let at = find_key(rest, h.last().0);
        if at >= 0 {
            rest.update(at, h.last())
        } else {
            rest.push(h.last())
        }
    }
}

/// Index of the last pair of `h` whose key is `k`, or -1 if no pair has it.
pub open spec fn last_key_index(h: Seq<(Seq<char>, Seq<char>)>, k: Seq<char>) -> int
    decreases h.len(),
{
    if h.len() == 0 {
        -1
    } else if h.last().0 == k {
        h.len() - 1
    } else {
        last_key_index(h.drop_last(), k)
    }
}

/// Where `last_key_index` points: inside `h`, at a pair carrying the key.
pub proof fn lemma_last_key_index(h: Seq<(Seq<char>, Seq<char>)>, k: Seq<char>)
    ensures
        -1 <= last_key_index(h, k) < h.len(),
        last_key_index(h, k) >= 0 ==> h[last_key_index(h, k)].0 == k,
    decreases h.len(),
{
    if h.len() > 0 && h.last().0 != k {
        lemma_last_key_index(h.drop_last(), k);
        if last_key_index(h.drop_last(), k) >= 0 {
            assert(h.drop_last()[last_key_index(h, k)] == h[last_key_index(h, k)]);
        }
    }
}

/// Deduplication is faithful to map semantics: the result's keys are unique,
/// a key appears exactly when it appears in the input, and it carries the
/// value of the input's last pair with that key.
pub proof fn lemma_dedup_last_wins(h: Seq<(Seq<char>, Seq<char>)>)
    ensures
        unique_keys(spec_dedup(h)),
        forall|j: int| 0 <= j < spec_dedup(h).len() ==> {
            let p = #[trigger] spec_dedup(h)[j];
            &&& last_key_index(h, p.0) >= 0
            &&& h[last_key_index(h, p.0)].1 == p.1
        },
        forall|i: int| 0 <= i < h.len() ==> find_key(spec_dedup(h), h[i].0) >= 0,
    decreases h.len(),
{
    if h.len() > 0 {
        let pre = h.drop_last();
        let rest = spec_dedup(pre);
        let last = h.last();
        lemma_dedup_last_wins(pre);
        lemma_find_key(rest, last.0);
        let at = find_key(rest, last.0);
        let d = spec_dedup(h);
        let slot = if at >= 0 { at } else { rest.len() as int };
        assert(forall|x: int| 0 <= x < pre.len() ==> pre[x] == h[x]);
        assert(last_key_index(h, last.0) == h.len() - 1);
        assert(d.len() == if at >= 0 { rest.len() as int } else { rest.len() as int + 1 });
        assert(d[slot] == last);
        assert forall|x: int| 0 <= x < d.len() && x != slot implies #[trigger] d[x] == rest[x]
            && spec_dedup(pre)[x] == d[x] by {}
        // a pair kept from `rest` never carries the new pair's key
        assert forall|x: int| 0 <= x < d.len() && x != slot implies (#[trigger] d[x]).0
            != last.0 by {
            if at >= 0 {
                assert(rest[at].0 == last.0);
                if x < at {
                    assert(rest[x].0 != rest[at].0);
                } else {
                    assert(rest[at].0 != rest[x].0);
                }
            }
        }
        assert forall|i: int, j: int| 0 <= i < j < d.len() implies d[i].0 != d[j].0 by {
            if i != slot && j != slot {
                assert(rest[i].0 != rest[j].0);
            }
        }
        assert forall|j: int| 0 <= j < d.len() implies last_key_index(h, (#[trigger] d[j]).0)
            >= 0 && h[last_key_index(h, d[j].0)].1 == d[j].1 by {
            if j == slot {
                assert(d[j] == last);
            } else {
                assert(spec_dedup(pre)[j] == d[j]);
                lemma_last_key_index(pre, d[j].0);
                let lk = last_key_index(pre, d[j].0);
                assert(lk >= 0);
                assert(d[j].0 != last.0);
                assert(last_key_index(h, d[j].0) == lk);
                assert(pre[lk] == h[lk]);
            }
        }
        assert forall|i: int| 0 <= i < h.len() implies find_key(d, h[i].0) >= 0 by {
            lemma_find_key(d, h[i].0);
            if find_key(d, h[i].0) == -1 {
                if i == h.len() - 1 {
                    assert(d[slot].0 == h[i].0);
                } else {
                    assert(pre[i] == h[i]);
                    assert(find_key(spec_dedup(pre), pre[i].0) >= 0);
                    let f = find_key(rest, h[i].0);
                    lemma_find_key(rest, h[i].0);
                    assert(rest[f].0 == h[i].0);
                    if at >= 0 {
                        if f == at {
                            assert(d[slot].0 == last.0);
                            assert(rest[at].0 == last.0);
                            assert(d[slot].0 == h[i].0);
                        } else {
                            assert(d[f] == rest[f]);
                            assert(d[f].0 == h[i].0);
                        }
                    } else {
                        assert(d[f] == rest[f]);
                        assert(d[f].0 == h[i].0);
                    }
                }
            }
        }
    }
}

/// Index of the first pair of `r` whose key equals `key`, by content.
fn find_header(r: &Vec<(String, String)>, key: &String) -> (idx: Option<usize>)
    ensures
        match idx {
            Some(i) => i < r@.len() && find_key(pair_views(r@), key@) == i as int,
            None => find_key(pair_views(r@), key@) == -1,
        },
{
    proof {
        lemma_find_key(pair_views(r@), key@);
    }
    let mut i: usize = 0;
    while i < r.len()
        invariant
            i <= r@.len(),
            forall|j: int| 0 <= j < i ==> pair_views(r@)[j].0 != key@,
        decreases r@.len() - i,
    {
        if r[i].0 == *key {
            proof {
                lemma_find_key(pair_views(r@), key@);
                assert(pair_views(r@)[i as int].0 == key@);
            }
            return Some(i);
        }
        i += 1;
    }
    proof {
        lemma_find_key(pair_views(r@), key@);
    }
    None
}

/// The header list with duplicate keys collapsed, last write wins.
pub fn dedup_headers(h: &Vec<(String, String)>) -> (r: Vec<(String, String)>)
    ensures
        pair_views(r@) == spec_dedup(pair_views(h@)),
        unique_keys(pair_views(r@)),
{
    let mut r: Vec<(String, String)> = Vec::new();
    let mut i: usize = 0;
    while i < h.len()
        invariant
            i <= h@.len(),
            pair_views(r@) == spec_dedup(pair_views(h@).take(i as int)),
        decreases h@.len() - i,
    {
        let ghost pref = pair_views(h@).take(i as int);
        let ghost next = pair_views(h@).take(i as int + 1);
        proof {
            assert(next.drop_last() =~= pref);
            assert(next.last() == pair_views(h@)[i as int]);
        }
        let key = h[i].0.clone();
        let val = h[i].1.clone();
        match find_header(&r, &key) {
            Some(at) => {
                r[at] = (key, val);
            },
            None => {
                r.push((key, val));
            },
        }
        proof {
            assert(pair_views(r@) =~= spec_dedup(next));
        }
        i += 1;
    }
    proof {
        assert(pair_views(h@).take(h@.len() as int) =~= pair_views(h@));
        lemma_dedup_last_wins(pair_views(h@));
    }
    r
}

/// The job built from a valid raw record: URL and interval as given, method
/// defaulted to "GET" when absent, headers collapsed last-write-wins, body as
/// given.
pub open spec fn job_of_raw(r: RawJobView) -> JobDefView
    recommends
        r.valid(),
{
    JobDefView {
        url: r.url->0,
        method: match r.method {
            Some(m) => m,
            None => "GET"@,
        },
        headers: spec_dedup(
            match r.headers {
                Some(hs) => hs,
                None => Seq::empty(),
            },
        ),
        body: r.body,
        interval_seconds: r.interval_seconds->0,
    }
}

/// Validate one raw record: a well-formed job exactly when the record is
/// valid, its fault otherwise.
pub fn job_from_raw(raw: &RawJob, index: usize) -> (r: Result<
    JobDefinition,
    StartupConfigError,
>)
    ensures
        raw@.valid() ==> r is Ok && r->Ok_0@ == job_of_raw(raw@) && r->Ok_0@.wf(),
        !raw@.valid() ==> r is Err && r->Err_0 == raw@.fault(index),
{
    let url = match &raw.url {
        Some(u) => u.clone(),
        None => {
            return Err(StartupConfigError::MissingUrl { index });
        },
    };
    if url.as_str().is_empty() {
        return Err(StartupConfigError::EmptyUrl { index });
    }
    let interval_seconds = match &raw.interval_seconds {
        Some(s) => *s,
        None => {
            return Err(StartupConfigError::MissingInterval { index });
        },
    };
    if interval_seconds == 0 {
        return Err(StartupConfigError::ZeroInterval { index });
    }
    let method = match &raw.method {
        Some(m) => m.clone(),
        None => String::from_str("GET"),
    };
    let headers = match &raw.headers {
        Some(hs) => dedup_headers(hs),
        None => Vec::new(),
    };
    let body = match &raw.body {
        Some(b) => Some(b.clone()),
        None => None,
    };
    proof {
        assert(spec_dedup(Seq::<(Seq<char>, Seq<char>)>::empty()) =~= Seq::<
            (Seq<char>, Seq<char>),
        >::empty());
        assert(pair_views(Seq::<(String, String)>::empty()) =~= Seq::<
            (Seq<char>, Seq<char>),
        >::empty());
    }
    let job = JobDefinition { url, method, headers, body, interval_seconds };
    Ok(job)
}

/// The views of a raw job list, record by record.
pub open spec fn raw_views(s: Seq<RawJob>) -> Seq<RawJobView> {
    s.map_values(|r: RawJob| r@)
}

/// Validate the whole configured job list. Startup is all-or-nothing: the
/// validated jobs come back exactly when every record is valid; otherwise the
/// fault of the first invalid record comes back and no job list exists.
pub fn validate_jobs(raws: &Vec<RawJob>) -> (r: Result<Vec<JobDefinition>, StartupConfigError>)
    ensures
        r is Ok <==> (forall|i: int|
            0 <= i < raw_views(raws@).len() ==> raw_views(raws@)[i].valid()),
        r is Ok ==> {
            &&& r->Ok_0@.len() == raws@.len()
            &&& forall|i: int|
                0 <= i < raws@.len() ==> (#[trigger] r->Ok_0@[i])@ == job_of_raw(
                    raw_views(raws@)[i],
                ) && r->Ok_0@[i]@.wf()
        },
        r is Err ==> exists|k: int|
            {
                &&& 0 <= k < raws@.len()
                &&& !(#[trigger] raw_views(raws@)[k]).valid()
                &&& (forall|j: int| 0 <= j < k ==> raw_views(raws@)[j].valid())
                &&& r->Err_0 == raw_views(raws@)[k].fault(k as usize)
            },
{
    let mut jobs: Vec<JobDefinition> = Vec::new();
    let mut idx: usize = 0;
    while idx < raws.len()
        invariant
            idx <= raws@.len(),
            jobs@.len() == idx,
            forall|j: int| 0 <= j < idx ==> raw_views(raws@)[j].valid(),
            forall|j: int|
                0 <= j < idx ==> (#[trigger] jobs@[j])@ == job_of_raw(raw_views(raws@)[j])
                    && jobs@[j]@.wf(),
        decreases raws@.len() - idx,
    {
        let raw = &raws[idx];
        proof {
            assert(raw@ == raw_views(raws@)[idx as int]);
        }
        match job_from_raw(raw, idx) {
            Ok(job) => {
                jobs.push(job);
            },
            Err(e) => {
                proof {
                    assert(!raw_views(raws@)[idx as int].valid());
                    assert(exists|k: int|
                        {
                            &&& 0 <= k < raws@.len()
                            &&& !(#[trigger] raw_views(raws@)[k]).valid()
                            &&& (forall|j: int| 0 <= j < k ==> raw_views(raws@)[j].valid())
                            &&& e == raw_views(raws@)[k].fault(k as usize)
                        });
                }
                return Err(e);
            },
        }
        idx += 1;
    }
    Ok(jobs)
}

} // verus!
