//! Judging one fetch attempt: the configured header and body expectations
//! held against what the server answered, and the reason given when one of
//! them is not met.

use crate::text::{has_substring, occurs_at, str_contains};
use vstd::prelude::*;
use vstd::string::*;

verus! {

/// One configured header expectation together with what the response held
/// under that name (looked up without regard to case), if anything.
#[derive(Debug, Clone)]
pub struct HeaderCheck {
    pub name: String,
    pub expected: String,
    pub observed: Option<String>,
}

/// What the transport delivered for one request.
#[derive(Debug, Clone)]
pub enum Probe {
    /// The request failed before a response arrived; `detail` says how.
    Failed { detail: String },
    /// A response arrived with this status and these header observations.
    Answered { status: u16, headers: Vec<HeaderCheck> },
}

/// What to do once the headers of a response have been judged.
#[derive(Debug)]
pub enum Judgement {
    /// The attempt is decided: the status code, or the reason of the failure.
    Done(Result<u16, String>),
    /// The headers passed and a body expectation is configured: the body has
    /// to be read and judged.
    ReadBody,
}

/// Reason given when the transport fails.
pub open spec fn request_error_text(detail: Seq<char>) -> Seq<char> {
    "request error: "@ + detail
}

/// Reason given when the body cannot be read.
pub open spec fn body_read_error_text(detail: Seq<char>) -> Seq<char> {
    "body read error: "@ + detail
}

/// Reason given when a required header is absent.
pub open spec fn missing_header_text(name: Seq<char>) -> Seq<char> {
    "missing required header: "@ + name
}

/// Reason given when a header is present with another value.
pub open spec fn header_mismatch_text(
    name: Seq<char>,
    expected: Seq<char>,
    actual: Seq<char>,
) -> Seq<char> {
    "header mismatch: "@ + name + " expected '"@ + expected + "' got '"@ + actual + "'"@
}

/// Reason given when the body lacks the required text.
pub open spec fn missing_substring_text(needle: Seq<char>) -> Seq<char> {
    "body validation failed: missing substring '"@ + needle + "'"@
}

/// The fault of a single header expectation, if it is not met.
pub open spec fn header_fault(c: HeaderCheck) -> Option<Seq<char>> {
    match c.observed {
        None => Some(missing_header_text(c.name@)),
        Some(v) => if v@ == c.expected@ {
            None
        } else {
            Some(header_mismatch_text(c.name@, c.expected@, v@))
        },
    }
}

/// The fault of the first expectation that is not met, in list order.
pub open spec fn first_fault(checks: Seq<HeaderCheck>) -> Option<Seq<char>>
    decreases checks.len(),
{
    if checks.len() == 0 {
        None
    } else {
        match header_fault(checks.first()) {
            Some(reason) => Some(reason),
            None => first_fault(checks.drop_first()),
        }
    }
}

/// Whether a result of the engine carries exactly this abstract verdict.
pub open spec fn verdict_is(r: Result<u16, String>, v: Result<u16, Seq<char>>) -> bool {
    match (r, v) {
        (Ok(a), Ok(b)) => a == b,
        (Err(a), Err(b)) => a@ == b,
        _ => false,
    }
}

/// What the headers of a response decide, given whether a body expectation
/// is configured: `None` stands for "read the body".
pub open spec fn response_verdict(probe: Probe, wants_body: bool) -> Option<
    Result<u16, Seq<char>>,
> {
    match probe {
        Probe::Failed { detail } => Some(Err(request_error_text(detail@))),
        Probe::Answered { status, headers } => match first_fault(headers@) {
            Some(reason) => Some(Err(reason)),
            None => if wants_body {
                None
            } else {
                Some(Ok(status))
            },
        },
    }
}

/// What a body read decides for a response of the given status.
pub open spec fn body_verdict(
    status: u16,
    body: Result<String, String>,
    needle: Seq<char>,
) -> Result<u16, Seq<char>> {
    match body {
        Err(detail) => Err(body_read_error_text(detail@)),
        Ok(text) => if has_substring(text@, needle) {
            Ok(status)
        } else {
            Err(missing_substring_text(needle))
        },
    }
}

/// Builds the reason for a transport failure.
pub fn request_error(detail: &str) -> (r: String)
    ensures
        r@ == request_error_text(detail@),
{
    String::from_str("request error: ").concat(detail)
}

/// Builds the reason for a body that could not be read.
pub fn body_read_error(detail: &str) -> (r: String)
    ensures
        r@ == body_read_error_text(detail@),
{
    String::from_str("body read error: ").concat(detail)
}

/// Judges one header expectation: `None` when it is met, else the reason.
pub fn judge_header(check: &HeaderCheck) -> (r: Option<String>)
    ensures
        match header_fault(*check) {
            Some(reason) => r matches Some(s) && s@ == reason,
            None => r is None,
        },
{
    match &check.observed {
        None => Some(String::from_str("missing required header: ").concat(check.name.as_str())),
        Some(v) => {
            if *v == check.expected {
                None
            } else {
                Some(
                    String::from_str("header mismatch: ").concat(check.name.as_str()).concat(
                        " expected '",
                    ).concat(check.expected.as_str()).concat("' got '").concat(v.as_str()).concat(
                        "'",
                    ),
                )
            }
        },
    }
}

/// Judges all header expectations in order and stops at the first that is
/// not met.
pub fn check_headers(checks: &Vec<HeaderCheck>) -> (r: Result<(), String>)
    ensures
        match first_fault(checks@) {
            Some(reason) => r matches Err(s) && s@ == reason,
            None => r is Ok,
        },
{
    let mut i: usize = 0;
    assert(checks@.subrange(0, checks.len() as int) =~= checks@);
    while i < checks.len()
        invariant
            i <= checks.len(),
            first_fault(checks@) == first_fault(checks@.subrange(i as int, checks.len() as int)),
        decreases checks.len() - i,
    {
        assert(checks@.subrange(i as int, checks.len() as int).drop_first() =~= checks@.subrange(
            i as int + 1,
            checks.len() as int,
        ));
        match judge_header(&checks[i]) {
            Some(reason) => {
                return Err(reason);
            },
            None => {},
        }
        i = i + 1;
    }
    Ok(())
}

/// Judges the body against the required text.
pub fn check_body(body: &str, needle: &str) -> (r: Result<(), String>)
    ensures
        has_substring(body@, needle@) ==> r is Ok,
        !has_substring(body@, needle@) ==> (r matches Err(s) && s@ == missing_substring_text(
            needle@,
        )),
{
    if str_contains(body, needle) {
        Ok(())
    } else {
        Err(
            String::from_str("body validation failed: missing substring '").concat(needle).concat(
                "'",
            ),
        )
    }
}

/// Judges what the transport delivered. A transport failure and a header
/// fault decide the attempt; so does a clean response when no body
/// expectation is configured. Otherwise the body has to be read.
pub fn judge_response(probe: &Probe, contains: &Option<String>) -> (r: Judgement)
    ensures
        match response_verdict(*probe, contains is Some) {
            Some(v) => r matches Judgement::Done(d) && verdict_is(d, v),
            None => r is ReadBody,
        },
{
    match probe {
        Probe::Failed { detail } => Judgement::Done(Err(request_error(detail.as_str()))),
        Probe::Answered { status, headers } => {
            match check_headers(headers) {
                Err(reason) => Judgement::Done(Err(reason)),
                Ok(_) => {
                    if contains.is_some() {
                        Judgement::ReadBody
                    } else {
                        Judgement::Done(Ok(*status))
                    }
                },
            }
        },
    }
}

/// Judges the body of a response whose headers passed: a read failure and a
/// body without the required text fail the attempt, else the status stands.
pub fn judge_body(status: u16, body: &Result<String, String>, needle: &str) -> (r: Result<
    u16,
    String,
>)
    ensures
        verdict_is(r, body_verdict(status, *body, needle@)),
{
    match body {
        Err(detail) => Err(body_read_error(detail.as_str())),
        Ok(text) => {
            match check_body(text.as_str(), needle) {
                Ok(_) => Ok(status),
                Err(reason) => Err(reason),
            }
        },
    }
}

/// The headers pass exactly when every single expectation is met.
pub proof fn lemma_no_fault_iff_all_met(checks: Seq<HeaderCheck>)
    ensures
        first_fault(checks) is None <==> forall|i: int|
            0 <= i < checks.len() ==> header_fault(#[trigger] checks[i]) is None,
    decreases checks.len(),
{
    if checks.len() > 0 {
        let rest = checks.drop_first();
        lemma_no_fault_iff_all_met(rest);
        if first_fault(checks) is None {
            assert forall|i: int| 0 <= i < checks.len() implies header_fault(
                #[trigger] checks[i],
            ) is None by {
                if i > 0 {
                    assert(checks[i] == rest[i - 1]);
                }
            }
        } else if header_fault(checks.first()) is None {
            let k = choose|k: int| 0 <= k < rest.len() && !(header_fault(#[trigger] rest[k]) is None);
            assert(checks[k + 1] == rest[k]);
        } else {
            assert(checks[0] == checks.first());
        }
    }
}

/// A response whose headers all match succeeds with its own status code
/// when no body expectation is configured, and when one is configured and
/// the body holds the required text.
pub proof fn lemma_matching_response_succeeds(
    status: u16,
    headers: Vec<HeaderCheck>,
    text: String,
    needle: Seq<char>,
)
    requires
        forall|i: int| 0 <= i < headers@.len() ==> header_fault(#[trigger] headers@[i]) is None,
        has_substring(text@, needle),
    ensures
        response_verdict(Probe::Answered { status, headers }, false) == Some(
            Ok::<u16, Seq<char>>(status),
        ),
        response_verdict(Probe::Answered { status, headers }, true) is None,
        body_verdict(status, Ok(text), needle) == Ok::<u16, Seq<char>>(status),
{
    lemma_no_fault_iff_all_met(headers@);
}

/// A header that is present with another value than the expected one
/// fails with a reason that holds the words "header mismatch".
pub proof fn lemma_mismatch_is_named(c: HeaderCheck)
    requires
        c.observed matches Some(v) && v@ != c.expected@,
    ensures
        header_fault(c) matches Some(reason) && has_substring(reason, "header mismatch"@),
{
    reveal_strlit("header mismatch: ");
    reveal_strlit("header mismatch");
    let reason = header_fault(c)->0;
    assert(reason.subrange(0, 15) =~= "header mismatch"@);
    assert(occurs_at(reason, "header mismatch"@, 0));
}

/// A header that is absent fails with a reason that names it.
pub proof fn lemma_missing_header_is_named(c: HeaderCheck)
    requires
        c.observed is None,
    ensures
        header_fault(c) == Some(missing_header_text(c.name@)),
        has_substring(missing_header_text(c.name@), c.name@),
{
    reveal_strlit("missing required header: ");
    let reason = missing_header_text(c.name@);
    assert(reason.subrange(25, 25 + c.name@.len() as int) =~= c.name@);
    assert(occurs_at(reason, c.name@, 25));
}

/// A body without the required text fails with a reason that holds the
/// words "body validation failed".
pub proof fn lemma_missing_substring_is_named(status: u16, text: String, needle: Seq<char>)
    requires
        !has_substring(text@, needle),
    ensures
        body_verdict(status, Ok(text), needle) matches Err(reason) && has_substring(
            reason,
            "body validation failed"@,
        ),
{
    reveal_strlit("body validation failed: missing substring '");
    reveal_strlit("body validation failed");
    let reason = missing_substring_text(needle);
    assert(reason.subrange(0, 22) =~= "body validation failed"@);
    assert(occurs_at(reason, "body validation failed"@, 0));
}

/// A transport failure, a timeout among them, fails the attempt with a
/// reason that holds the word "error", whatever was configured.
pub proof fn lemma_transport_failure_is_named(detail: String, wants_body: bool)
    ensures
        response_verdict(Probe::Failed { detail }, wants_body) matches Some(Err(reason))
            && has_substring(reason, "error"@),
{
    reveal_strlit("request error: ");
    reveal_strlit("error");
    let reason = request_error_text(detail@);
    assert(reason.subrange(8, 13) =~= "error"@);
    assert(occurs_at(reason, "error"@, 8));
}

/// The first header fault decides the attempt, whatever the body holds.
pub proof fn lemma_header_fault_decides(status: u16, headers: Vec<HeaderCheck>, wants_body: bool)
    requires
        first_fault(headers@) is Some,
    ensures
        response_verdict(Probe::Answered { status, headers }, wants_body) == Some(
            Err::<u16, Seq<char>>(first_fault(headers@)->0),
        ),
{
}

} // verus!
