//! Errors of the search service, their handling category, and process exit codes.
use vstd::prelude::*;

use crate::error::ErrorCategory;
use crate::resilience::TimeSpan;

verus! {

/// An error of a provider, a download or the configuration.
#[derive(Debug)]
pub enum PaperFetchError {
    InvalidInput(String),
    NotFound(String),
    ParseError(String),
    /// A failed HTTP exchange: its message and whether it timed out.
    Http { message: String, timed_out: bool },
    RateLimited { provider: String, retry_after: Option<TimeSpan> },
    ProviderUnavailable(String),
    CircuitBreakerOpen(String),
    Io(String),
    NoDownloadUrl(String),
}

/// The category of an error: timeouts and unavailable providers are transient; rate limits
/// and open circuits have categories of their own; everything else is permanent.
pub open spec fn fetch_category_of(e: PaperFetchError) -> ErrorCategory {
    match e {
        PaperFetchError::Http { timed_out, .. } => if timed_out {
            ErrorCategory::Transient
        } else {
            ErrorCategory::Permanent
        },
        PaperFetchError::ProviderUnavailable(_) => ErrorCategory::Transient,
        PaperFetchError::RateLimited { .. } => ErrorCategory::RateLimited,
        PaperFetchError::CircuitBreakerOpen(_) => ErrorCategory::CircuitBreaker,
        _ => ErrorCategory::Permanent,
    }
}

/// Exit status of a failure that fits no other status.
pub const GENERAL_ERROR: u8 = 1;

/// Exit status of a usage error.
pub const USAGE_ERROR: u8 = 2;

/// Exit status when a service is unavailable.
pub const UNAVAILABLE: u8 = 69;

/// Exit status of a temporary failure.
pub const TEMPFAIL: u8 = 75;

/// Exit status of a configuration error.
pub const CONFIG_ERROR: u8 = 78;

/// The exit status for an error: usage errors for bad input and missing download URLs,
/// temporary failure for HTTP errors and rate limits, unavailable for unavailable providers
/// and open circuits, and the general status otherwise.
pub open spec fn exit_code_of(e: PaperFetchError) -> u8 {
    match e {
        PaperFetchError::InvalidInput(_) => USAGE_ERROR,
        PaperFetchError::NotFound(_) | PaperFetchError::ParseError(_) => GENERAL_ERROR,
        PaperFetchError::Http { .. } | PaperFetchError::RateLimited { .. } => TEMPFAIL,
        PaperFetchError::ProviderUnavailable(_) | PaperFetchError::CircuitBreakerOpen(_) => UNAVAILABLE,
        PaperFetchError::Io(_) => GENERAL_ERROR,
        PaperFetchError::NoDownloadUrl(_) => USAGE_ERROR,
    }
}

impl PaperFetchError {
    /// The category that decides how the error is handled.
    pub fn category(&self) -> (r: ErrorCategory)
        ensures
            r == fetch_category_of(*self),
    {
        match self {
            PaperFetchError::Http { timed_out, .. } => if *timed_out {
                ErrorCategory::Transient
            } else {
                ErrorCategory::Permanent
            },
            PaperFetchError::ProviderUnavailable(_) => ErrorCategory::Transient,
            PaperFetchError::RateLimited { .. } => ErrorCategory::RateLimited,
            PaperFetchError::CircuitBreakerOpen(_) => ErrorCategory::CircuitBreaker,
            _ => ErrorCategory::Permanent,
        }
    }

    /// Whether a retry loop tries again after this error (transient errors only).
    pub fn is_transient(&self) -> (r: bool)
        ensures
            r <==> fetch_category_of(*self) == ErrorCategory::Transient,
    {
        match self.category() {
            ErrorCategory::Transient => true,
            _ => false,
        }
    }

    /// The delay the provider asked for, if the error is a rate limit that gave one.
    pub fn retry_after(&self) -> (r: Option<TimeSpan>)
        ensures
            r == match *self {
                PaperFetchError::RateLimited { retry_after, .. } => retry_after,
                _ => None,
            },
    {
        match self {
            PaperFetchError::RateLimited { retry_after, .. } => *retry_after,
            _ => None,
        }
    }

    /// The process exit status for this error.
    pub fn exit_code(&self) -> (r: u8)
        ensures
            r == exit_code_of(*self),
    {
        match self {
            PaperFetchError::InvalidInput(_) => USAGE_ERROR,
            PaperFetchError::NotFound(_) | PaperFetchError::ParseError(_) => GENERAL_ERROR,
            PaperFetchError::Http { .. } | PaperFetchError::RateLimited { .. } => TEMPFAIL,
            PaperFetchError::ProviderUnavailable(_) | PaperFetchError::CircuitBreakerOpen(_) => UNAVAILABLE,
            PaperFetchError::Io(_) => GENERAL_ERROR,
            PaperFetchError::NoDownloadUrl(_) => USAGE_ERROR,
        }
    }
}

/// The exit status of a failed run: that of the first error of the service in the chain of
/// causes, or the general status when there is none.
pub fn exit_status(first_service_error: Option<&PaperFetchError>) -> (r: u8)
    ensures
        r == match first_service_error {
            Some(e) => exit_code_of(*e),
            None => GENERAL_ERROR,
        },
{
    match first_service_error {
        Some(e) => e.exit_code(),
        None => GENERAL_ERROR,
    }
}

} // verus!
