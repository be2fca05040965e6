//! The report on one URL in one round.

use crate::retry::Verdict;
use vstd::prelude::*;

verus! {

/// The final result of checking one URL once: the status code of the
/// response or the reason of the failure, the elapsed time of the deciding
/// attempt in milliseconds, and the time of the report as whole seconds
/// since the Unix epoch (UTC) plus the nanoseconds into that second.
#[derive(Debug)]
pub struct WebsiteStatus {
    pub url: String,
    pub status: Result<u16, String>,
    pub response_time_ms: u128,
    pub timestamp_secs: i64,
    pub timestamp_subsec_nanos: u32,
}

/// The present time as whole seconds since the Unix epoch (UTC) and the
/// nanoseconds into that second.
///
/// Not proved: reads the clock through `chrono::Utc::now` and takes the
/// reading apart with `DateTime::timestamp` and
/// `DateTime::timestamp_subsec_nanos`. Nothing is claimed of the reading.
/// `chrono` gives up on a clock that stands before the epoch.
#[verifier::external_body]
fn utc_now() -> (r: (i64, u32)) {
    let now = chrono::Utc::now();
    (now.timestamp(), now.timestamp_subsec_nanos())
}

impl WebsiteStatus {
    /// Puts the verdict on `url` together with the present time.
    pub fn now(url: &str, verdict: Verdict) -> (r: WebsiteStatus)
        ensures
            r.url@ == url@,
            r.status == verdict.status,
            r.response_time_ms == verdict.response_time_ms,
    {
        let (secs, nanos) = utc_now();
        WebsiteStatus::stamped(url, verdict, secs, nanos)
    }

    /// Puts the verdict on `url` together with the time at which it was reached.
    pub fn stamped(
        url: &str,
        verdict: Verdict,
        timestamp_secs: i64,
        timestamp_subsec_nanos: u32,
    ) -> (r: WebsiteStatus)
        ensures
            r.url@ == url@,
            r.status == verdict.status,
            r.response_time_ms == verdict.response_time_ms,
            r.timestamp_secs == timestamp_secs,
            r.timestamp_subsec_nanos == timestamp_subsec_nanos,
    {
        WebsiteStatus {
            url: url.to_owned(),
            status: verdict.status,
            response_time_ms: verdict.response_time_ms,
            timestamp_secs,
            timestamp_subsec_nanos,
        }
    }

    /// Whether the check succeeded.
    pub fn is_ok(&self) -> (r: bool)
        ensures
            r == (self.status is Ok),
    {
        self.status.is_ok()
    }
}

} // verus!
