//! Errors of the paper providers and how each kind of error is handled by retries.
use vstd::prelude::*;

use crate::resilience::TimeSpan;

verus! {

/// An error of a provider or of a download.
#[derive(Debug)]
pub enum PaperError {
    InvalidInput(String),
    NoDownloadUrl(String),
    NotFound(String),
    ParseError(String),
    /// A failed HTTP exchange: its message and whether it timed out.
    Http { message: String, timed_out: bool },
    RateLimited { provider: String, retry_after: Option<TimeSpan> },
    ProviderUnavailable(String),
    CircuitBreakerOpen(String),
    Io(String),
}

/// How an error is handled: never retried, retried with backoff, retried after the provider's
/// delay, or refused while the circuit is open.
#[derive(Clone, Copy, Debug, PartialEq, Eq, Structural)]
pub enum ErrorCategory {
    Permanent,
    Transient,
    RateLimited,
    CircuitBreaker,
}

/// The category of an error: timeouts and unavailable providers are transient; rate limits
/// and open circuits have categories of their own; everything else is permanent.
pub open spec fn category_of(e: PaperError) -> ErrorCategory {
    match e {
        PaperError::Http { timed_out, .. } => if timed_out {
            ErrorCategory::Transient
        } else {
            ErrorCategory::Permanent
        },
        PaperError::ProviderUnavailable(_) => ErrorCategory::Transient,
        PaperError::RateLimited { .. } => ErrorCategory::RateLimited,
        PaperError::CircuitBreakerOpen(_) => ErrorCategory::CircuitBreaker,
        _ => ErrorCategory::Permanent,
    }
}

/// Exit status of a failure that fits no other status.
pub const GENERAL_ERROR: u8 = 1;

/// Exit status of a usage error.
pub const USAGE_ERROR: u8 = 2;

/// Exit status of a network failure.
pub const NETWORK_ERROR: u8 = 3;

/// The exit status of the command line for an error: usage errors for bad input and missing
/// download URLs, network errors for HTTP failures, rate limits, unavailable providers and
/// open circuits, and the general status otherwise.
pub open spec fn cli_exit_code_of(e: PaperError) -> u8 {
    match e {
        PaperError::InvalidInput(_) | PaperError::NoDownloadUrl(_) => USAGE_ERROR,
        PaperError::NotFound(_) | PaperError::ParseError(_) => GENERAL_ERROR,
        PaperError::Http { .. }
        | PaperError::RateLimited { .. }
        | PaperError::ProviderUnavailable(_)
        | PaperError::CircuitBreakerOpen(_) => NETWORK_ERROR,
        PaperError::Io(_) => GENERAL_ERROR,
    }
}

/// The exit status of a failed run: that of the first provider error in the chain of causes,
/// or the general status when there is none.
pub fn exit_status(first_error: Option<&PaperError>) -> (r: u8)
    ensures
        r == match first_error {
            Some(e) => cli_exit_code_of(*e),
            None => GENERAL_ERROR,
        },
{
    match first_error {
        Some(e) => e.exit_code(),
        None => GENERAL_ERROR,
    }
}

impl PaperError {
    /// The category that decides how the error is handled.
    pub fn category(&self) -> (r: ErrorCategory)
        ensures
            r == category_of(*self),
    {
        match self {
            PaperError::Http { timed_out, .. } => if *timed_out {
                ErrorCategory::Transient
            } else {
                ErrorCategory::Permanent
            },
            PaperError::ProviderUnavailable(_) => ErrorCategory::Transient,
            PaperError::RateLimited { .. } => ErrorCategory::RateLimited,
            PaperError::CircuitBreakerOpen(_) => ErrorCategory::CircuitBreaker,
            _ => ErrorCategory::Permanent,
        }
    }

    /// Whether a retry loop tries the operation again after this error: it does for
    /// transient errors and rate limits, and for nothing else.
    pub fn is_retryable(&self) -> (r: bool)
        ensures
            r <==> (category_of(*self) == ErrorCategory::Transient || category_of(*self)
                == ErrorCategory::RateLimited),
    {
        match self.category() {
            ErrorCategory::Transient | ErrorCategory::RateLimited => true,
            _ => false,
        }
    }

    /// The exit status of the command line for this error.
    pub fn exit_code(&self) -> (r: u8)
        ensures
            r == cli_exit_code_of(*self),
    {
        match self {
            PaperError::InvalidInput(_) | PaperError::NoDownloadUrl(_) => USAGE_ERROR,
            PaperError::NotFound(_) | PaperError::ParseError(_) => GENERAL_ERROR,
            PaperError::Http { .. }
            | PaperError::RateLimited { .. }
            | PaperError::ProviderUnavailable(_)
            | PaperError::CircuitBreakerOpen(_) => NETWORK_ERROR,
            PaperError::Io(_) => GENERAL_ERROR,
        }
    }

    /// The delay the provider asked for, if the error is a rate limit that gave one.
    pub fn retry_after(&self) -> (r: Option<TimeSpan>)
        ensures
            r == match *self {
                PaperError::RateLimited { retry_after, .. } => retry_after,
                _ => None,
            },
    {
        match self {
            PaperError::RateLimited { retry_after, .. } => *retry_after,
            _ => None,
        }
    }
}

} // verus!

verus! {

/// Whether a retry loop tries the operation again after an error of this category.
pub open spec fn retried(c: ErrorCategory) -> bool {
    c == ErrorCategory::Transient || c == ErrorCategory::RateLimited
}

/// Permanent errors fail at once, timeouts and unavailable providers are retried, rate
/// limits are retried, and calls refused by an open circuit are not retried.
pub proof fn lemma_retry_policy(
    message: String,
    provider: String,
    retry_after: Option<TimeSpan>,
    timed_out: bool,
)
    ensures
        !retried(category_of(PaperError::InvalidInput(message))),
        !retried(category_of(PaperError::NotFound(message))),
        !retried(category_of(PaperError::ParseError(message))),
        retried(category_of(PaperError::Http { message, timed_out })) == timed_out,
        retried(category_of(PaperError::ProviderUnavailable(message))),
        retried(category_of(PaperError::RateLimited { provider, retry_after })),
        category_of(PaperError::CircuitBreakerOpen(provider)) == ErrorCategory::CircuitBreaker,
        !retried(category_of(PaperError::CircuitBreakerOpen(provider))),
{
}

} // verus!
