//! Running per-URL counters and the figures derived from them.

use vstd::prelude::*;

verus! {

/// The mathematical content of a [`UrlStats`].
pub struct UrlStatsView {
    pub checks: nat,
    pub successes: nat,
    pub total_ms: nat,
}

impl UrlStatsView {
    /// The counters before anything was recorded.
    pub open spec fn zero() -> UrlStatsView {
        UrlStatsView { checks: 0, successes: 0, total_ms: 0 }
    }

    /// The counters after one more check that took `elapsed_ms`.
    pub open spec fn record(self, ok: bool, elapsed_ms: nat) -> UrlStatsView {
        UrlStatsView {
            checks: self.checks + 1,
            successes: if ok {
                self.successes + 1
            } else {
                self.successes
            },
            total_ms: self.total_ms + elapsed_ms,
        }
    }

    /// Successful checks per thousand, rounded down; zero before the first check.
    pub open spec fn uptime_permille(self) -> nat {
        if self.checks == 0 {
            0
        } else {
            (self.successes * 1000) / self.checks
        }
    }

    /// Mean elapsed milliseconds, rounded down; zero before the first check.
    pub open spec fn avg_ms_floor(self) -> nat {
        if self.checks == 0 {
            0
        } else {
            self.total_ms / self.checks
        }
    }

    /// Whether one more check of `elapsed_ms` still fits the machine counters.
    pub open spec fn has_room(self, elapsed_ms: nat) -> bool {
        self.checks < u64::MAX && self.total_ms + elapsed_ms <= u128::MAX
    }
}

/// Counters for one URL: how often it was checked, how often the check
/// succeeded, and the elapsed time summed over all checks.
#[derive(Debug, Clone, Copy)]
pub struct UrlStats {
    checks: u64,
    successes: u64,
    total_response_ms: u128,
}

impl View for UrlStats {
    type V = UrlStatsView;

    closed spec fn view(&self) -> UrlStatsView {
        UrlStatsView {
            checks: self.checks as nat,
            successes: self.successes as nat,
            total_ms: self.total_response_ms as nat,
        }
    }
}

impl UrlStats {
    #[verifier::type_invariant]
    closed spec fn inv(self) -> bool {
        self.successes <= self.checks
    }

    /// Fresh counters, all zero.
    pub fn new() -> (r: UrlStats)
        ensures
            r@ == UrlStatsView::zero(),
    {
        UrlStats { checks: 0, successes: 0, total_response_ms: 0 }
    }

    /// Counts one finished check: `ok` tells whether it succeeded and
    /// `elapsed_ms` how long it took.
    pub fn record(&mut self, ok: bool, elapsed_ms: u128)
        requires
            old(self)@.has_room(elapsed_ms as nat),
        ensures
            final(self)@ == old(self)@.record(ok, elapsed_ms as nat),
    {
        proof {
            use_type_invariant(&*self);
        }
        self.checks = self.checks + 1;
        if ok {
            self.successes = self.successes + 1;
        }
        self.total_response_ms = self.total_response_ms + elapsed_ms;
    }

    /// Whether one more check of `elapsed_ms` can be recorded without
    /// running over the counters.
    pub fn has_room(&self, elapsed_ms: u128) -> (r: bool)
        ensures
            r == self@.has_room(elapsed_ms as nat),
    {
        self.checks < u64::MAX && elapsed_ms <= u128::MAX - self.total_response_ms
    }

    /// Number of checks recorded; never fewer than [`Self::successes`].
    pub fn checks(&self) -> (r: u64)
        ensures
            r as nat == self@.checks,
            self@.successes <= self@.checks,
    {
        proof {
            use_type_invariant(self);
        }
        self.checks
    }

    /// Number of successful checks recorded; never more than [`Self::checks`].
    pub fn successes(&self) -> (r: u64)
        ensures
            r as nat == self@.successes,
            self@.successes <= self@.checks,
    {
        proof {
            use_type_invariant(self);
        }
        self.successes
    }

    /// Sum of the elapsed milliseconds of all checks recorded.
    pub fn total_response_ms(&self) -> (r: u128)
        ensures
            r as nat == self@.total_ms,
    {
        self.total_response_ms
    }

    /// Share of successful checks in thousandths, rounded down; zero while
    /// nothing was recorded.
    pub fn uptime_permille(&self) -> (r: u64)
        ensures
            r as nat == self@.uptime_permille(),
            r <= 1000,
    {
        proof {
            use_type_invariant(self);
        }
        if self.checks == 0 {
            0
        } else {
            let s: u128 = self.successes as u128;
            let c: u128 = self.checks as u128;
            let q: u128 = s * 1000 / c;
            proof {
                lemma_share_at_most_thousand(s as nat, c as nat);
            }
            q as u64
        }
    }

    /// Mean elapsed milliseconds per check, rounded down; zero while nothing
    /// was recorded.
    pub fn avg_ms_floor(&self) -> (r: u128)
        ensures
            r as nat == self@.avg_ms_floor(),
    {
        if self.checks == 0 {
            0
        } else {
            self.total_response_ms / (self.checks as u128)
        }
    }
}

impl Default for UrlStats {
    fn default() -> (r: UrlStats)
        ensures
            r@ == UrlStatsView::zero(),
    {
        UrlStats::new()
    }
}

/// A part of a whole is at most a thousand thousandths of it.
pub proof fn lemma_share_at_most_thousand(part: nat, whole: nat)
    requires
        part <= whole,
        whole > 0,
    ensures
        (part * 1000) / whole <= 1000,
{
    assert((part * 1000) / whole <= 1000) by (nonlinear_arith)
        requires
            part <= whole,
            whole > 0,
    ;
}

/// Before the first check both derived figures are zero: nothing is divided
/// by a zero count.
pub proof fn lemma_no_checks_no_figures(s: UrlStatsView)
    requires
        s.checks == 0,
    ensures
        s.uptime_permille() == 0,
        s.avg_ms_floor() == 0,
{
}

/// Recording keeps the successes at or below the checks.
pub proof fn lemma_record_keeps_bound(s: UrlStatsView, ok: bool, elapsed_ms: nat)
    requires
        s.successes <= s.checks,
    ensures
        s.record(ok, elapsed_ms).successes <= s.record(ok, elapsed_ms).checks,
        s.record(ok, elapsed_ms).checks == s.checks + 1,
{
}

} // verus!
