use pinger::job::{job_from_raw, validate_jobs, JobDefinition, RawJob, StartupConfigError};
use pinger::method::{method_name, resolve_method, HttpMethod};
use pinger::outcome::OutcomeKind;
use pinger::request::build_request;
use pinger::runner::{initial_runner_states, runner_step, runner_step_now, RunnerAction, RunnerEvent, RunnerState};
use pinger::schedule::{outcomes_within, tick_instant};

fn job(url: &str, method: &str, interval: u64) -> JobDefinition {
    let raw = RawJob {
        url: Some(url.to_string()),
        method: Some(method.to_string()),
        headers: None,
        body: None,
        interval_seconds: Some(interval),
    };
    job_from_raw(&raw, 0).expect("valid job")
}

#[test]
fn recognized_methods_resolve_case_insensitively() {
    for (s, want) in [
        ("GET", HttpMethod::Get),
        ("get", HttpMethod::Get),
        ("Get", HttpMethod::Get),
        ("POST", HttpMethod::Post),
        ("pOsT", HttpMethod::Post),
        ("put", HttpMethod::Put),
        ("PUT", HttpMethod::Put),
        ("delete", HttpMethod::Delete),
        ("DELETE", HttpMethod::Delete),
    ] {
        let (m, warned) = resolve_method(s);
        assert_eq!(m, want, "method string {s}");
        assert!(!warned, "method string {s}");
    }
}

#[test]
fn unrecognized_method_falls_back_to_get_with_warning() {
    for s in ["PATCH", "HEAD", "OPTIONS", "", "G ET", "GETX"] {
        let (m, warned) = resolve_method(s);
        assert_eq!(m, HttpMethod::Get, "method string {s:?}");
        assert!(warned, "method string {s:?}");
    }
}

#[test]
fn method_names_render_upper_case() {
    assert_eq!(method_name(HttpMethod::Get), "GET");
    assert_eq!(method_name(HttpMethod::Post), "POST");
    assert_eq!(method_name(HttpMethod::Put), "PUT");
    assert_eq!(method_name(HttpMethod::Delete), "DELETE");
}

#[test]
fn missing_url_is_fatal_and_no_jobs_start() {
    let good = RawJob {
        url: Some("http://x/ping".to_string()),
        method: Some("GET".to_string()),
        headers: None,
        body: None,
        interval_seconds: Some(5),
    };
    let bad = RawJob {
        url: None,
        method: Some("GET".to_string()),
        headers: None,
        body: None,
        interval_seconds: Some(5),
    };
    let r = validate_jobs(&vec![good, bad]);
    match r {
        Ok(_) => panic!("a record without a url must refuse startup"),
        Err(e) => assert_eq!(e, StartupConfigError::MissingUrl { index: 1 }),
    }
}

#[test]
fn empty_url_and_bad_intervals_are_fatal() {
    let mk = |url: Option<&str>, interval: Option<u64>| RawJob {
        url: url.map(|u| u.to_string()),
        method: None,
        headers: None,
        body: None,
        interval_seconds: interval,
    };
    assert_eq!(
        validate_jobs(&vec![mk(Some(""), Some(1))]).unwrap_err(),
        StartupConfigError::EmptyUrl { index: 0 }
    );
    assert_eq!(
        validate_jobs(&vec![mk(Some("http://a"), None)]).unwrap_err(),
        StartupConfigError::MissingInterval { index: 0 }
    );
    assert_eq!(
        validate_jobs(&vec![mk(Some("http://a"), Some(0))]).unwrap_err(),
        StartupConfigError::ZeroInterval { index: 0 }
    );
}

#[test]
fn valid_records_all_start_with_defaults() {
    let raw = RawJob {
        url: Some("http://x/ping".to_string()),
        method: None,
        headers: None,
        body: None,
        interval_seconds: Some(5),
    };
    let jobs = validate_jobs(&vec![raw]).expect("valid list");
    assert_eq!(jobs.len(), 1);
    assert_eq!(jobs[0].url, "http://x/ping");
    assert_eq!(jobs[0].method, "GET");
    assert!(jobs[0].headers.is_empty());
    assert!(jobs[0].body.is_none());
    assert_eq!(jobs[0].interval_seconds, 5);
}

#[test]
fn duplicate_header_keys_collapse_last_write_wins() {
    let raw = RawJob {
        url: Some("http://x".to_string()),
        method: Some("POST".to_string()),
        headers: Some(vec![
            ("x-a".to_string(), "1".to_string()),
            ("x-b".to_string(), "2".to_string()),
            ("x-a".to_string(), "3".to_string()),
        ]),
        body: None,
        interval_seconds: Some(1),
    };
    let j = job_from_raw(&raw, 0).expect("valid job");
    assert_eq!(
        j.headers,
        vec![("x-a".to_string(), "3".to_string()), ("x-b".to_string(), "2".to_string())]
    );
}

#[test]
fn build_request_resolves_method_and_keeps_everything_else() {
    let raw = RawJob {
        url: Some("http://x/hook".to_string()),
        method: Some("post".to_string()),
        headers: Some(vec![("x-token".to_string(), "SECRET-REDACTED".to_string())]),
        body: Some("{\"a\":1}".to_string()),
        interval_seconds: Some(7),
    };
    let j = job_from_raw(&raw, 0).expect("valid job");
    let (req, warned) = build_request(&j);
    assert!(!warned);
    assert_eq!(req.method, HttpMethod::Post);
    assert_eq!(req.url, "http://x/hook");
    assert_eq!(req.headers, vec![("x-token".to_string(), "SECRET-REDACTED".to_string())]);
    assert_eq!(req.body.as_deref(), Some("{\"a\":1}"));
}

#[test]
fn body_is_attached_even_on_get() {
    let raw = RawJob {
        url: Some("http://x".to_string()),
        method: Some("GET".to_string()),
        headers: None,
        body: Some("payload".to_string()),
        interval_seconds: Some(1),
    };
    let j = job_from_raw(&raw, 0).expect("valid job");
    let (req, warned) = build_request(&j);
    assert!(!warned);
    assert_eq!(req.method, HttpMethod::Get);
    assert_eq!(req.body.as_deref(), Some("payload"));
}

#[test]
fn unrecognized_method_builds_a_get_request_not_an_error() {
    let j = job("http://x", "PATCH", 1);
    let (req, warned) = build_request(&j);
    assert!(warned);
    assert_eq!(req.method, HttpMethod::Get);
}

#[test]
fn tick_fires_from_waiting_and_starts_a_dispatch() {
    let j = job("http://x/ping", "GET", 5);
    let (state, action) =
        runner_step(&j, RunnerState::Waiting, RunnerEvent::TickFired, "t".to_string());
    assert_eq!(state, RunnerState::Dispatching);
    match action {
        RunnerAction::StartDispatch(req, warned) => {
            assert_eq!(req.url, "http://x/ping");
            assert_eq!(req.method, HttpMethod::Get);
            assert!(!warned);
        }
        _ => panic!("a tick while waiting must start a dispatch"),
    }
}

#[test]
fn overlapping_tick_is_skipped_not_queued() {
    let j = job("http://x", "GET", 1);
    let (state, action) =
        runner_step(&j, RunnerState::Dispatching, RunnerEvent::TickFired, "t".to_string());
    assert_eq!(state, RunnerState::Dispatching);
    assert!(matches!(action, RunnerAction::Skip));
}

#[test]
fn completion_emits_outcome_and_returns_to_waiting() {
    let j = job("http://x/ping", "GET", 5);
    let (state, action) = runner_step(
        &j,
        RunnerState::Dispatching,
        RunnerEvent::DispatchDone(Ok(503)),
        "2024-01-01 00:00:05".to_string(),
    );
    assert_eq!(state, RunnerState::Waiting);
    match action {
        RunnerAction::EmitOutcome(o) => {
            assert_eq!(o.timestamp, "2024-01-01 00:00:05");
            assert_eq!(o.url, "http://x/ping");
            assert_eq!(o.method, HttpMethod::Get);
            assert!(!o.is_failure());
            match o.kind {
                OutcomeKind::Status(s) => assert_eq!(s, 503),
                OutcomeKind::Failure(_) => panic!("a completed exchange is not a failure"),
            }
        }
        _ => panic!("a completion while dispatching must emit an outcome"),
    }
}

#[test]
fn stray_completion_while_waiting_is_ignored() {
    let j = job("http://x", "GET", 1);
    let (state, action) = runner_step(
        &j,
        RunnerState::Waiting,
        RunnerEvent::DispatchDone(Err("boom".to_string())),
        "t".to_string(),
    );
    assert_eq!(state, RunnerState::Waiting);
    assert!(matches!(action, RunnerAction::Skip));
}

#[test]
fn runner_step_now_stamps_with_the_clock() {
    let j = job("http://x", "GET", 1);
    let (_, action) =
        runner_step_now(&j, RunnerState::Dispatching, RunnerEvent::DispatchDone(Ok(200)));
    match action {
        RunnerAction::EmitOutcome(o) => {
            assert!(o.timestamp.len() >= 19, "timestamp was {:?}", o.timestamp);
            assert!(o.timestamp.contains(':'));
        }
        _ => panic!("a completion must emit an outcome"),
    }
}

#[test]
fn one_runner_per_job_all_waiting() {
    let jobs = vec![job("http://a", "GET", 1), job("http://b", "PUT", 2)];
    let states = initial_runner_states(&jobs);
    assert_eq!(states, vec![RunnerState::Waiting, RunnerState::Waiting]);
}

#[test]
fn twelve_seconds_at_period_five_yield_exactly_two_outcomes() {
    assert_eq!(outcomes_within(5, 12), 2);
    let j = job("http://x/ping", "GET", 5);
    let mut outcomes = Vec::new();
    let mut state = RunnerState::Waiting;
    for k in 1..=2u64 {
        let at = tick_instant(5, k);
        let (s1, a1) = runner_step(&j, state, RunnerEvent::TickFired, String::new());
        state = s1;
        assert!(matches!(a1, RunnerAction::StartDispatch(_, false)));
        let (s2, a2) =
            runner_step(&j, state, RunnerEvent::DispatchDone(Ok(200)), format!("{at}"));
        state = s2;
        match a2 {
            RunnerAction::EmitOutcome(o) => outcomes.push(o),
            _ => panic!("each completed tick emits one outcome"),
        }
    }
    assert_eq!(outcomes.len(), 2);
    for o in &outcomes {
        assert_eq!(o.method, HttpMethod::Get);
        assert_eq!(o.url, "http://x/ping");
    }
    let t1: u64 = outcomes[0].timestamp.parse().unwrap();
    let t2: u64 = outcomes[1].timestamp.parse().unwrap();
    assert_eq!(t1, 5);
    assert_eq!(t2 - t1, 5);
}

#[test]
fn three_seconds_at_period_one_yield_three_failure_outcomes() {
    assert_eq!(outcomes_within(1, 3), 3);
    let j = job("http://bad.invalid", "GET", 1);
    let mut outcomes = Vec::new();
    let mut state = RunnerState::Waiting;
    for _ in 0..3 {
        let (s1, _) = runner_step(&j, state, RunnerEvent::TickFired, String::new());
        let (s2, a) = runner_step(
            &j,
            s1,
            RunnerEvent::DispatchDone(Err("dns error: name not resolved".to_string())),
            "t".to_string(),
        );
        state = s2;
        match a {
            RunnerAction::EmitOutcome(o) => outcomes.push(o),
            _ => panic!("each completed tick emits one outcome"),
        }
    }
    assert_eq!(outcomes.len(), 3);
    for o in &outcomes {
        assert!(o.is_failure());
        match &o.kind {
            OutcomeKind::Failure(cause) => assert!(!cause.is_empty()),
            OutcomeKind::Status(_) => panic!("a transport failure is not a status"),
        }
    }
}

#[test]
fn a_job_produces_an_outcome_once_its_own_interval_has_passed() {
    for k in [1u64, 2, 5, 60, 3600] {
        assert_eq!(outcomes_within(k, k), 1);
        assert_eq!(outcomes_within(k, k - 1), 0);
    }
}

#[test]
fn ticks_never_come_more_often_than_the_period() {
    for t in 0..30u64 {
        let now = outcomes_within(5, t);
        let later = outcomes_within(5, t + 5);
        assert!(later <= now + 1);
        assert!(later >= now);
    }
}
