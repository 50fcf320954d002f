use paper_core::error::{ErrorCategory, PaperError};
use paper_core::fetch::error::{exit_status, PaperFetchError, GENERAL_ERROR, TEMPFAIL, UNAVAILABLE, USAGE_ERROR};
use paper_core::resilience::{admit_call, TimeSpan};

#[test]
fn categories_drive_retries() {
    let timeout = PaperError::Http { message: "timed out".to_string(), timed_out: true };
    let refused = PaperError::Http { message: "refused".to_string(), timed_out: false };
    assert_eq!(timeout.category(), ErrorCategory::Transient);
    assert!(timeout.is_retryable());
    assert_eq!(refused.category(), ErrorCategory::Permanent);
    assert!(!refused.is_retryable());
    let limited = PaperError::RateLimited { provider: "openalex".to_string(), retry_after: Some(TimeSpan { secs: 3, nanos: 0 }) };
    assert_eq!(limited.category(), ErrorCategory::RateLimited);
    assert!(limited.is_retryable());
    assert_eq!(limited.retry_after(), Some(TimeSpan { secs: 3, nanos: 0 }));
    assert!(PaperError::ProviderUnavailable("x".to_string()).is_retryable());
    assert!(!PaperError::InvalidInput("x".to_string()).is_retryable());
    assert!(!PaperError::ParseError("x".to_string()).is_retryable());
    assert!(!PaperError::NotFound("x".to_string()).is_retryable());
    let open = PaperError::CircuitBreakerOpen("arxiv".to_string());
    assert_eq!(open.category(), ErrorCategory::CircuitBreaker);
    assert!(!open.is_retryable());
    assert_eq!(open.retry_after(), None);
}

#[test]
fn open_circuit_refuses_calls() {
    assert!(admit_call(true, "arxiv").is_ok());
    match admit_call(false, "arxiv") {
        Err(PaperError::CircuitBreakerOpen(p)) => assert_eq!(p, "arxiv"),
        other => panic!("unexpected {:?}", other),
    }
}

#[test]
fn exit_codes_of_service_errors() {
    let s = |m: &str| m.to_string();
    assert_eq!(PaperFetchError::InvalidInput(s("x")).exit_code(), USAGE_ERROR);
    assert_eq!(PaperFetchError::NoDownloadUrl(s("x")).exit_code(), USAGE_ERROR);
    assert_eq!(PaperFetchError::NotFound(s("x")).exit_code(), GENERAL_ERROR);
    assert_eq!(PaperFetchError::ParseError(s("x")).exit_code(), GENERAL_ERROR);
    assert_eq!(PaperFetchError::Io(s("x")).exit_code(), GENERAL_ERROR);
    assert_eq!(PaperFetchError::Http { message: s("x"), timed_out: false }.exit_code(), TEMPFAIL);
    assert_eq!(PaperFetchError::RateLimited { provider: s("a"), retry_after: None }.exit_code(), TEMPFAIL);
    assert_eq!(PaperFetchError::ProviderUnavailable(s("x")).exit_code(), UNAVAILABLE);
    assert_eq!(PaperFetchError::CircuitBreakerOpen(s("x")).exit_code(), UNAVAILABLE);
    assert_eq!(exit_status(None), GENERAL_ERROR);
    assert_eq!(exit_status(Some(&PaperFetchError::InvalidInput(s("x")))), 2);
    assert_eq!((USAGE_ERROR, UNAVAILABLE, TEMPFAIL), (2, 69, 75));
}

#[test]
fn service_error_categories() {
    assert!(PaperFetchError::Http { message: "t".to_string(), timed_out: true }.is_transient());
    assert!(PaperFetchError::ProviderUnavailable("u".to_string()).is_transient());
    assert!(!PaperFetchError::RateLimited { provider: "a".to_string(), retry_after: None }.is_transient());
    assert_eq!(PaperFetchError::CircuitBreakerOpen("a".to_string()).category(), ErrorCategory::CircuitBreaker);
    assert_eq!(
        PaperFetchError::RateLimited { provider: "a".to_string(), retry_after: Some(TimeSpan { secs: 1, nanos: 0 }) }.retry_after(),
        Some(TimeSpan { secs: 1, nanos: 0 })
    );
}

#[test]
fn exit_codes_of_provider_errors() {
    let s = |m: &str| m.to_string();
    assert_eq!(PaperError::InvalidInput(s("x")).exit_code(), 2);
    assert_eq!(PaperError::NoDownloadUrl(s("x")).exit_code(), 2);
    assert_eq!(PaperError::NotFound(s("x")).exit_code(), 1);
    assert_eq!(PaperError::ParseError(s("x")).exit_code(), 1);
    assert_eq!(PaperError::Io(s("x")).exit_code(), 1);
    assert_eq!(PaperError::Http { message: s("x"), timed_out: true }.exit_code(), paper_core::error::NETWORK_ERROR);
    assert_eq!(PaperError::RateLimited { provider: s("a"), retry_after: None }.exit_code(), 3);
    assert_eq!(PaperError::ProviderUnavailable(s("x")).exit_code(), 3);
    assert_eq!(PaperError::CircuitBreakerOpen(s("x")).exit_code(), 3);
    assert_eq!(paper_core::error::exit_status(None), 1);
    assert_eq!(paper_core::error::exit_status(Some(&PaperError::NotFound(s("x")))), 1);
}

#[test]
fn retries_follow_the_attempt_count() {
    let mut c = paper_core::resilience::ResilienceConfig::default();
    assert_eq!(c.retry_times(), 4);
    c.retry_max_attempts = 1;
    assert_eq!(c.retry_times(), 0);
    c.retry_max_attempts = 0;
    assert_eq!(c.retry_times(), 0);
}
