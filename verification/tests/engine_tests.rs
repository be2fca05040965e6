use sitecheck::engine::{
    body_read_error, check_body, check_headers, judge_body, judge_header, judge_response,
    request_error, HeaderCheck, Judgement, Probe,
};
use sitecheck::retry::{after_attempt, backoff_ms, Attempt, RetryStep, Verdict};
use sitecheck::status::WebsiteStatus;

fn observed(name: &str, expected: &str, got: Option<&str>) -> HeaderCheck {
    HeaderCheck {
        name: name.to_string(),
        expected: expected.to_string(),
        observed: got.map(|s| s.to_string()),
    }
}

/// One attempt: the probe, the body that a read would give, the elapsed time.
fn attempt(
    probe: &Probe,
    body: &Result<String, String>,
    contains: &Option<String>,
    elapsed_ms: u128,
) -> Attempt {
    let status = match judge_response(probe, contains) {
        Judgement::Done(r) => r,
        Judgement::ReadBody => match probe {
            Probe::Answered { status, .. } => {
                judge_body(*status, body, contains.as_ref().unwrap().as_str())
            }
            Probe::Failed { .. } => unreachable!(),
        },
    };
    status.map(|code| (code, elapsed_ms))
}

/// Runs the retry policy over the same probe, and returns the report and the waits.
fn check(
    url: &str,
    probe: &Probe,
    body: &Result<String, String>,
    contains: &Option<String>,
    max_retries: usize,
) -> (WebsiteStatus, Vec<u64>, usize) {
    let mut waits = Vec::new();
    let mut n = 0usize;
    let mut attempts = 0usize;
    loop {
        attempts += 1;
        match after_attempt(n, max_retries, attempt(probe, body, contains, 7)) {
            RetryStep::Finish(v) => {
                return (WebsiteStatus::stamped(url, v, 1_700_000_000, 250), waits, attempts)
            }
            RetryStep::Backoff { wait_ms, next_attempt } => {
                waits.push(wait_ms);
                n = next_attempt;
            }
        }
    }
}

#[test]
fn test_success_ok() {
    let probe = Probe::Answered {
        status: 200,
        headers: vec![observed("Server", "unit-test", Some("unit-test"))],
    };
    let contains = Some("hello".to_string());
    let (status, waits, attempts) =
        check("http://127.0.0.1/ok", &probe, &Ok("hello world".to_string()), &contains, 0);
    assert!(status.status.is_ok());
    assert!(status.response_time_ms > 0);
    assert_eq!(status.status, Ok(200));
    assert_eq!(status.url, "http://127.0.0.1/ok");
    assert_eq!(status.timestamp_secs, 1_700_000_000);
    assert_eq!(status.timestamp_subsec_nanos, 250);
    assert!(status.is_ok());
    assert!(waits.is_empty());
    assert_eq!(attempts, 1);
}

#[test]
fn test_header_mismatch() {
    let probe = Probe::Answered {
        status: 200,
        headers: vec![observed("Server", "expected", Some("unit-test"))],
    };
    let (status, _, _) = check("http://127.0.0.1/h", &probe, &Ok("ok".to_string()), &None, 0);
    assert!(status.status.is_err());
    let msg = status.status.err().unwrap();
    assert!(msg.contains("header mismatch"));
    assert_eq!(msg, "header mismatch: Server expected 'expected' got 'unit-test'");
}

#[test]
fn test_body_contains_validation() {
    let probe = Probe::Answered { status: 200, headers: vec![] };
    let body = Ok("foo bar baz".to_string());
    let (status, _, _) = check("http://127.0.0.1/b", &probe, &body, &Some("bar".into()), 0);
    assert!(status.status.is_ok());
    let (status_fail, _, _) = check("http://127.0.0.1/b", &probe, &body, &Some("nope".into()), 0);
    assert!(status_fail.status.is_err());
    assert_eq!(
        status_fail.status.err().unwrap(),
        "body validation failed: missing substring 'nope'"
    );
}

#[test]
fn test_timeout_error() {
    let probe = Probe::Failed { detail: "timed out reading response".to_string() };
    let (status, _, _) = check("http://127.0.0.1/slow", &probe, &Ok("slow".to_string()), &None, 0);
    assert!(status.status.is_err());
    let msg = status.status.err().unwrap();
    assert!(msg.contains("error"));
    assert_eq!(msg, "request error: timed out reading response");
    assert_eq!(status.response_time_ms, 0);
}

#[test]
fn missing_header_is_reported_by_name() {
    let c = observed("X-Trace", "1", None);
    assert_eq!(judge_header(&c), Some("missing required header: X-Trace".to_string()));
    assert_eq!(judge_header(&observed("X-Trace", "1", Some("1"))), None);
}

#[test]
fn first_header_fault_wins() {
    let checks = vec![
        observed("A", "1", Some("1")),
        observed("B", "2", Some("3")),
        observed("C", "4", None),
    ];
    assert_eq!(check_headers(&checks), Err("header mismatch: B expected '2' got '3'".to_string()));
    assert_eq!(check_headers(&vec![]), Ok(()));
    assert_eq!(check_headers(&vec![observed("A", "1", Some("1"))]), Ok(()));
}

#[test]
fn header_value_must_match_exactly() {
    assert!(judge_header(&observed("Server", "nginx", Some("Nginx"))).is_some());
    assert!(judge_header(&observed("Server", "nginx", Some("nginx "))).is_some());
}

#[test]
fn header_fault_comes_before_body() {
    let probe = Probe::Answered { status: 200, headers: vec![observed("A", "1", None)] };
    match judge_response(&probe, &Some("x".to_string())) {
        Judgement::Done(Err(e)) => assert_eq!(e, "missing required header: A"),
        _ => panic!("the header fault decides"),
    }
}

#[test]
fn body_is_asked_for_only_with_a_needle() {
    let probe = Probe::Answered { status: 204, headers: vec![] };
    assert!(matches!(judge_response(&probe, &None), Judgement::Done(Ok(204))));
    assert!(matches!(judge_response(&probe, &Some("x".to_string())), Judgement::ReadBody));
}

#[test]
fn body_read_failure_is_reported() {
    let r = judge_body(200, &Err("broken pipe".to_string()), "x");
    assert_eq!(r, Err("body read error: broken pipe".to_string()));
    assert_eq!(body_read_error("eof"), "body read error: eof");
    assert_eq!(request_error("dns"), "request error: dns");
}

#[test]
fn body_search_finds_runs_only() {
    assert!(check_body("foo bar baz", "bar baz").is_ok());
    assert!(check_body("foo bar baz", "").is_ok());
    assert!(check_body("", "").is_ok());
    assert!(check_body("foo bar baz", "foobar").is_err());
    assert!(check_body("ab", "abc").is_err());
    assert!(check_body("abc", "abc").is_ok());
}

#[test]
fn backoff_is_linear() {
    assert_eq!(backoff_ms(0), 200);
    assert_eq!(backoff_ms(1), 400);
    assert_eq!(backoff_ms(2), 600);
    assert_eq!(backoff_ms(9), 2000);
}

#[test]
fn waits_stand_between_attempts_only() {
    let probe = Probe::Failed { detail: "refused".to_string() };
    let (status, waits, attempts) = check("u", &probe, &Ok(String::new()), &None, 3);
    assert_eq!(attempts, 4);
    assert_eq!(waits, vec![200, 400, 600]);
    assert_eq!(waits.iter().sum::<u64>(), 100 * 3 * 4);
    assert_eq!(status.status, Err("request error: refused".to_string()));
    assert_eq!(status.response_time_ms, 0);
}

#[test]
fn last_reason_is_reported() {
    let first = after_attempt(0, 1, Err("first".to_string()));
    assert!(matches!(first, RetryStep::Backoff { wait_ms: 200, next_attempt: 1 }));
    match after_attempt(1, 1, Err("second".to_string())) {
        RetryStep::Finish(Verdict { status, response_time_ms }) => {
            assert_eq!(status, Err("second".to_string()));
            assert_eq!(response_time_ms, 0);
        }
        _ => panic!("the last attempt ends the job"),
    }
}

#[test]
fn success_after_failure_keeps_its_own_time() {
    assert!(matches!(after_attempt(0, 2, Err("x".to_string())), RetryStep::Backoff { .. }));
    match after_attempt(1, 2, Ok((301, 42))) {
        RetryStep::Finish(v) => {
            assert_eq!(v.status, Ok(301));
            assert_eq!(v.response_time_ms, 42);
        }
        _ => panic!("a success ends the job"),
    }
}

#[test]
fn report_is_stamped_with_the_clock() {
    let before = std::time::SystemTime::now()
        .duration_since(std::time::UNIX_EPOCH)
        .unwrap()
        .as_secs() as i64;
    let s = WebsiteStatus::now("http://a", Verdict { status: Ok(200), response_time_ms: 12 });
    assert_eq!(s.url, "http://a");
    assert_eq!(s.status, Ok(200));
    assert_eq!(s.response_time_ms, 12);
    assert!(s.timestamp_secs >= before);
    assert!(s.timestamp_secs <= before + 60);
    assert!(s.timestamp_subsec_nanos < 2_000_000_000);
}
