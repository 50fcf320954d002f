use paper_core::config::{ArxivConfig, Config, DownloadConfig, ProvidersConfig};
use paper_core::fetch::config::Config as FetchConfig;
use paper_core::resilience::{ResilienceConfig, TimeSpan};
use paper_core::text::join_path;

#[test]
fn core_config_defaults_for_a_home_directory() {
    let c = Config::for_home(Some("/home/u".to_string()));
    assert_eq!(c.download_path, "/home/u/Downloads/home-still/papers");
    assert_eq!(c.cache_path, "/home/u/.home-still/paper/cache");
    assert_eq!(c.providers.arxiv.base_url, "http://export.arxiv.org/api/query");
    assert_eq!(c.providers.arxiv.timeout_secs, 30);
    assert_eq!(c.providers.arxiv.rate_limit_interval_ms, 3000);
    assert_eq!(c.download.max_concurrent, 4);
    assert_eq!(c.download.timeout_secs, 120);
    let n = Config::for_home(None);
    assert_eq!(n.download_path, "./downloads");
    assert_eq!(n.cache_path, "./cache");
}

#[test]
fn core_config_paths() {
    assert_eq!(
        Config::config_path_in(Some("/home/u/".to_string())).as_deref(),
        Some("/home/u/.home-still/paper/config.yaml")
    );
    assert_eq!(Config::config_path_in(None), None);
    let d = Config::default();
    assert_eq!(d.resilience.retry_max_attempts, 5);
    assert!(d.download_path.ends_with("downloads") || d.download_path.ends_with("papers"));
    let _ = Config::config_path();
}

#[test]
fn provider_and_download_defaults() {
    let a = ArxivConfig::default();
    assert_eq!(a.base_url, "http://export.arxiv.org/api/query");
    let p = ProvidersConfig::default();
    assert_eq!(p.arxiv.rate_limit_interval_ms, 3000);
    let d = DownloadConfig::default();
    assert_eq!((d.max_concurrent, d.timeout_secs), (4, 120));
}

#[test]
fn fetch_config_builders_change_one_path() {
    let c = FetchConfig::for_home(Some("/h".to_string()));
    assert_eq!(c.cache_path, "/h/.home-still/paper-fetch/cache");
    let c = c.with_download_path("/tmp/papers".to_string());
    assert_eq!(c.download_path, "/tmp/papers");
    assert_eq!(c.cache_path, "/h/.home-still/paper-fetch/cache");
    let c = c.with_cache_path("/tmp/cache".to_string());
    assert_eq!(c.cache_path, "/tmp/cache");
    assert_eq!(c.download_path, "/tmp/papers");
    assert_eq!(c.resilience.rate_limit_rps, 1);
    assert_eq!(
        FetchConfig::config_path_in(Some("/h".to_string())).as_deref(),
        Some("/h/.home-still/paper-fetch/config.yaml")
    );
    assert_eq!(FetchConfig::for_home(None).download_path, "./downloads");
}

#[test]
fn path_joining() {
    assert_eq!(join_path("/a", "b/c"), "/a/b/c");
    assert_eq!(join_path("/a/", "b"), "/a/b");
    assert_eq!(join_path("", "b"), "b");
    assert_eq!(join_path("/a", "/etc/x"), "/etc/x");
}

#[test]
fn resilience_defaults_and_spans() {
    let r = ResilienceConfig::default();
    assert_eq!(r.cb_initial_backoff(), TimeSpan { secs: 10, nanos: 0 });
    assert_eq!(r.cb_max_backoff(), TimeSpan { secs: 60, nanos: 0 });
    assert_eq!(r.retry_max_backoff(), TimeSpan { secs: 30, nanos: 0 });
    assert_eq!(r.retry_min_backoff(), TimeSpan { secs: 0, nanos: 100_000_000 });
    assert_eq!(r.cb_failure_threshold, 3);
    assert_eq!(TimeSpan::from_millis(1500), TimeSpan { secs: 1, nanos: 500_000_000 });
    assert_eq!(TimeSpan::from_secs(7), TimeSpan { secs: 7, nanos: 0 });
}
