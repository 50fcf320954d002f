use paper_core::fetch::error::PaperFetchError;
use paper_core::resilience::{one_call_per, per_second_quota, TimeSpan};
use std::time::Duration;

#[test]
fn zero_rate_is_refused() {
    match per_second_quota(0) {
        Err(PaperFetchError::InvalidInput(m)) => {
            assert_eq!(m, "requests_per_second must be greater than 0")
        }
        _ => panic!("a rate of zero must be refused"),
    }
}

#[test]
fn positive_rate_builds_quota() {
    let q = per_second_quota(4).expect("quota");
    assert_eq!(q.burst_size().get(), 4);
    assert_eq!(q.replenish_interval(), Duration::from_millis(250));
}

#[test]
fn interval_quota_allows_single_calls() {
    let q = one_call_per(TimeSpan::from_millis(3000));
    assert_eq!(q.burst_size().get(), 1);
    assert_eq!(q.replenish_interval(), Duration::from_secs(3));
}
