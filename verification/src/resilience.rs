//! Settings of the resilience layer (rate limiting, circuit breaking, retries) and the
//! decisions taken around a provider call.
use vstd::prelude::*;

use crate::error::PaperError;
use crate::fetch::error::PaperFetchError;
use crate::text::string_of;

verus! {

/// A rate-limiting quota of `governor`: a burst size and the time that replenishes one cell.
#[verifier::external_type_specification]
#[verifier::external_body]
pub struct ExQuota(governor::Quota);

/// A span of time: whole seconds and the nanoseconds below one second.
#[derive(Clone, Copy, Debug, PartialEq, Eq, Structural)]
pub struct TimeSpan {
    pub secs: u64,
    pub nanos: u32,
}

impl TimeSpan {
    /// The length of the span in nanoseconds.
    pub open spec fn total_nanos(self) -> int {
        self.secs * 1_000_000_000 + self.nanos
    }

    /// Whether the nanoseconds lie below one second.
    pub open spec fn valid(self) -> bool {
        self.nanos < 1_000_000_000
    }

    /// A span of whole seconds (as `Duration::from_secs`).
    pub fn from_secs(secs: u64) -> (r: TimeSpan)
        ensures
            r.valid(),
            r.secs == secs,
            r.nanos == 0,
    {
        TimeSpan { secs, nanos: 0 }
    }

    /// A span of milliseconds (as `Duration::from_millis`).
    pub fn from_millis(ms: u64) -> (r: TimeSpan)
        ensures
            r.valid(),
            r.total_nanos() == ms * 1_000_000,
    {
        let r = TimeSpan { secs: ms / 1000, nanos: ((ms % 1000) * 1_000_000) as u32 };
        assert(r.total_nanos() == ms * 1_000_000) by (nonlinear_arith)
            requires
                r.secs == ms / 1000,
                r.nanos == (ms % 1000) * 1_000_000,
        ;
        r
    }
}

/// Configuration for resilience patterns.
#[derive(Clone, Debug)]
pub struct ResilienceConfig {
    /// Requests per second for rate limiting
    pub rate_limit_rps: u32,
    /// Circuit breaker: initial backoff in seconds
    pub cb_initial_backoff_secs: u64,
    /// Circuit breaker: maximum backoff in seconds
    pub cb_max_backoff_secs: u64,
    /// Circuit breaker: consecutive failures before opening
    pub cb_failure_threshold: u32,
    /// Retry: maximum number of attempts
    pub retry_max_attempts: usize,
    /// Retry: minimum backoff in milliseconds
    pub retry_min_backoff_ms: u64,
    /// Retry: maximum backoff in seconds
    pub retry_max_backoff_secs: u64,
}

impl ResilienceConfig {
    /// Initial backoff of the circuit breaker.
    pub fn cb_initial_backoff(&self) -> (r: TimeSpan)
        ensures
            r.valid() && r.secs == self.cb_initial_backoff_secs && r.nanos == 0,
    {
        TimeSpan::from_secs(self.cb_initial_backoff_secs)
    }

    /// Maximum backoff of the circuit breaker.
    pub fn cb_max_backoff(&self) -> (r: TimeSpan)
        ensures
            r.valid() && r.secs == self.cb_max_backoff_secs && r.nanos == 0,
    {
        TimeSpan::from_secs(self.cb_max_backoff_secs)
    }

    /// Maximum delay between retries.
    pub fn retry_max_backoff(&self) -> (r: TimeSpan)
        ensures
            r.valid() && r.secs == self.retry_max_backoff_secs && r.nanos == 0,
    {
        TimeSpan::from_secs(self.retry_max_backoff_secs)
    }

    /// The number of retries after the first attempt: `retry_max_attempts` counts every
    /// attempt, the first included.
    pub fn retry_times(&self) -> (r: usize)
        ensures
            r == if self.retry_max_attempts > 0 {
                self.retry_max_attempts - 1
            } else {
                0
            },
    {
        if self.retry_max_attempts > 0 {
            self.retry_max_attempts - 1
        } else {
            0
        }
    }

    /// Minimum delay between retries.
    pub fn retry_min_backoff(&self) -> (r: TimeSpan)
        ensures
            r.valid() && r.total_nanos() == self.retry_min_backoff_ms * 1_000_000,
    {
        TimeSpan::from_millis(self.retry_min_backoff_ms)
    }
}

impl Default for ResilienceConfig {
    fn default() -> (r: ResilienceConfig)
        ensures
            r.rate_limit_rps == 1,
            r.cb_initial_backoff_secs == 10,
            r.cb_max_backoff_secs == 60,
            r.cb_failure_threshold == 3,
            r.retry_max_attempts == 5,
            r.retry_min_backoff_ms == 100,
            r.retry_max_backoff_secs == 30,
    {
        ResilienceConfig {
            rate_limit_rps: 1,
            cb_initial_backoff_secs: 10,
            cb_max_backoff_secs: 60,
            cb_failure_threshold: 3,
            retry_max_attempts: 5,
            retry_min_backoff_ms: 100,
            retry_max_backoff_secs: 30,
        }
    }
}

/// The number of cells that a rate limiter with quota `q` lets through at once: the stored
/// burst size that `Quota::burst_size` reads back.
pub uninterp spec fn quota_burst(q: governor::Quota) -> nat;

/// The nanoseconds in which a rate limiter with quota `q` replenishes one cell: the stored
/// interval that `Quota::replenish_interval` reads back.
pub uninterp spec fn quota_period_nanos(q: governor::Quota) -> nat;

/// `governor::Quota::per_second`: a quota of `n` cells per second, `n` also being the burst
/// size. The count is handed over as a `NonZeroU32`, so it must not be zero. Its source
/// stores `n` as the burst size and one second divided by `n` (in whole nanoseconds) as the
/// interval that replenishes one cell.
#[verifier::external_body]
fn quota_per_second(n: u32) -> (q: governor::Quota)
    requires
        n > 0,
    ensures
        quota_burst(q) == n,
        quota_period_nanos(q) == 1_000_000_000int / (n as int),
{
    governor::Quota::per_second(std::num::NonZeroU32::new(n).unwrap())
}

/// `governor::Quota::with_period`: a quota that replenishes one cell per `period`. Its
/// source returns `None` exactly when the period is zero nanoseconds long, and otherwise a
/// quota with a burst size of 1 and `period` as its interval.
#[verifier::external_body]
fn quota_with_period(period: TimeSpan) -> (q: Option<governor::Quota>)
    requires
        period.valid(),
    ensures
        q is Some <==> period.total_nanos() > 0,
        q matches Some(x) ==> quota_burst(x) == 1 && quota_period_nanos(x) == period.total_nanos(),
{
    governor::Quota::with_period(std::time::Duration::new(period.secs, period.nanos))
}

/// `governor::Quota::allow_burst`: the same quota with a burst size of `n` cells, which must
/// not be zero; its source keeps the interval and replaces the burst size.
#[verifier::external_body]
fn quota_allow_burst(q: governor::Quota, n: u32) -> (r: governor::Quota)
    requires
        n > 0,
    ensures
        quota_burst(r) == n,
        quota_period_nanos(r) == quota_period_nanos(q),
{
    q.allow_burst(std::num::NonZeroU32::new(n).unwrap())
}

/// The message of the error for a rate of zero requests per second.
pub open spec fn zero_rate_message() -> Seq<char> {
    "requests_per_second must be greater than 0"@
}

/// The per-provider quota of the search service: `requests_per_second` calls per second.
/// A rate of zero is refused as invalid input.
pub fn per_second_quota(requests_per_second: u32) -> (r: Result<governor::Quota, PaperFetchError>)
    ensures
        r is Ok <==> requests_per_second > 0,
        r is Err ==> (r matches Err(PaperFetchError::InvalidInput(m)) && m@ == zero_rate_message()),
        r matches Ok(q) ==> quota_burst(q) == requests_per_second && quota_period_nanos(q)
            == 1_000_000_000int / (requests_per_second as int),
{
    if requests_per_second == 0 {
        Err(PaperFetchError::InvalidInput(String::from_str("requests_per_second must be greater than 0")))
    } else {
        Ok(quota_per_second(requests_per_second))
    }
}

/// The quota of a provider that allows one call per `interval` and no bursts. The interval
/// must not be zero.
pub fn one_call_per(interval: TimeSpan) -> (q: governor::Quota)
    requires
        interval.valid(),
        interval.total_nanos() > 0,
    ensures
        quota_burst(q) == 1,
        quota_period_nanos(q) == interval.total_nanos(),
{
    let q = quota_with_period(interval).unwrap();
    quota_allow_burst(q, 1)
}

/// Whether a provider call may go ahead: it may when the circuit breaker permits calls;
/// otherwise the call is refused with `CircuitBreakerOpen` naming the provider.
pub fn admit_call(call_permitted: bool, provider: &str) -> (r: Result<(), PaperError>)
    ensures
        call_permitted <==> r is Ok,
        !call_permitted ==> (r matches Err(PaperError::CircuitBreakerOpen(p)) && p@ == provider@),
{
    if call_permitted {
        Ok(())
    } else {
        let v = crate::text::chars_of(provider);
        Err(PaperError::CircuitBreakerOpen(string_of(v.as_slice())))
    }
}

} // verus!
