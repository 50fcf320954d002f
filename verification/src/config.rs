//! Application configuration and its defaults.
use vstd::prelude::*;

use crate::resilience::ResilienceConfig;
use crate::text::{join_path, path_join};

verus! {

/// The home directory of the user, as text.
/// Trusted: calls `dirs::home_dir` (which reads the environment) and converts the path to
/// text, replacing what is not UTF-8. Nothing is promised of the outcome.
#[verifier::external_body]
pub(crate) fn home_dir() -> (r: Option<String>) {
    match dirs::home_dir() {
        Some(p) => Some(p.to_string_lossy().into_owned()),
        None => None,
    }
}

/// Settings of the arXiv provider.
#[derive(Clone, Debug)]
pub struct ArxivConfig {
    pub base_url: String,
    pub timeout_secs: u64,
    pub rate_limit_interval_ms: u64,
}

impl Default for ArxivConfig {
    fn default() -> (r: ArxivConfig)
        ensures
            r.base_url@ == "http://export.arxiv.org/api/query"@,
            r.timeout_secs == 30,
            r.rate_limit_interval_ms == 3000,
    {
        ArxivConfig {
            base_url: String::from_str("http://export.arxiv.org/api/query"),
            timeout_secs: 30,
            rate_limit_interval_ms: 3000,
        }
    }
}

/// Settings of the OpenAlex provider.
#[derive(Clone, Debug)]
pub struct OpenAlexConfig {
    pub base_url: String,
    pub timeout_secs: u64,
    pub api_key: Option<String>,
}

/// Settings of every provider.
#[derive(Clone, Debug)]
pub struct ProvidersConfig {
    pub arxiv: ArxivConfig,
}

impl Default for ProvidersConfig {
    fn default() -> (r: ProvidersConfig)
        ensures
            r.arxiv.base_url@ == "http://export.arxiv.org/api/query"@,
            r.arxiv.timeout_secs == 30,
            r.arxiv.rate_limit_interval_ms == 3000,
    {
        ProvidersConfig { arxiv: ArxivConfig::default() }
    }
}

/// Settings of downloads.
#[derive(Clone, Debug)]
pub struct DownloadConfig {
    /// Maximum concurrent downloads
    pub max_concurrent: usize,
    /// Per-file download timeout in seconds
    pub timeout_secs: u64,
}

impl Default for DownloadConfig {
    fn default() -> (r: DownloadConfig)
        ensures
            r.max_concurrent == 4,
            r.timeout_secs == 120,
    {
        DownloadConfig { max_concurrent: 4, timeout_secs: 120 }
    }
}

/// Main application configuration.
#[derive(Clone, Debug)]
pub struct Config {
    /// Resilience patterns configuration
    pub resilience: ResilienceConfig,
    /// Directory where downloaded papers are stored
    pub download_path: String,
    /// Directory for caching metadata and search results
    pub cache_path: String,
    /// Paper providers
    pub providers: ProvidersConfig,
    /// Download config
    pub download: DownloadConfig,
}

/// The download directory for a home directory, or `./downloads` without one.
pub open spec fn download_dir_for(home: Option<Seq<char>>) -> Seq<char> {
    match home {
        Some(h) => path_join(h, "Downloads/home-still/papers"@),
        None => "./downloads"@,
    }
}

/// The cache directory for a home directory, or `./cache` without one.
pub open spec fn cache_dir_for(home: Option<Seq<char>>) -> Seq<char> {
    match home {
        Some(h) => path_join(h, ".home-still/paper/cache"@),
        None => "./cache"@,
    }
}

/// The text of an optional string.
pub open spec fn opt_text(s: Option<String>) -> Option<Seq<char>> {
    match s {
        Some(x) => Some(x@),
        None => None,
    }
}

impl Config {
    /// Whether every setting other than the two directories has its default value.
    pub open spec fn has_default_settings(self) -> bool {
        &&& self.resilience.rate_limit_rps == 1
        &&& self.resilience.cb_initial_backoff_secs == 10
        &&& self.resilience.cb_max_backoff_secs == 60
        &&& self.resilience.cb_failure_threshold == 3
        &&& self.resilience.retry_max_attempts == 5
        &&& self.resilience.retry_min_backoff_ms == 100
        &&& self.resilience.retry_max_backoff_secs == 30
        &&& self.providers.arxiv.base_url@ == "http://export.arxiv.org/api/query"@
        &&& self.providers.arxiv.timeout_secs == 30
        &&& self.providers.arxiv.rate_limit_interval_ms == 3000
        &&& self.download.max_concurrent == 4
        &&& self.download.timeout_secs == 120
    }

    /// The default configuration for the given home directory.
    pub fn for_home(home: Option<String>) -> (r: Config)
        ensures
            r.has_default_settings(),
            r.download_path@ == download_dir_for(opt_text(home)),
            r.cache_path@ == cache_dir_for(opt_text(home)),
    {
        let (download_path, cache_path) = match &home {
            Some(h) => (
                join_path(h.as_str(), "Downloads/home-still/papers"),
                join_path(h.as_str(), ".home-still/paper/cache"),
            ),
            None => (String::from_str("./downloads"), String::from_str("./cache")),
        };
        Config {
            resilience: ResilienceConfig::default(),
            download_path,
            cache_path,
            providers: ProvidersConfig::default(),
            download: DownloadConfig::default(),
        }
    }

    /// The configuration file in a home directory.
    pub fn config_path_in(home: Option<String>) -> (r: Option<String>)
        ensures
            match home {
                Some(h) => r matches Some(p) && p@ == path_join(h@, ".home-still/paper/config.yaml"@),
                None => r is None,
            },
    {
        match home {
            Some(h) => Some(join_path(h.as_str(), ".home-still/paper/config.yaml")),
            None => None,
        }
    }

    /// The configuration file of the user, if the home directory is known.
    pub fn config_path() -> (r: Option<String>)
        ensures
            r is None || exists|h: Seq<char>| r->Some_0@ == path_join(
                h,
                ".home-still/paper/config.yaml"@,
            ),
    {
        Config::config_path_in(home_dir())
    }
}

impl Default for Config {
    /// The default configuration, with directories under the home directory when it is known.
    fn default() -> (r: Config)
        ensures
            r.has_default_settings(),
            (exists|h: Option<Seq<char>>| {
                &&& r.download_path@ == download_dir_for(h)
                &&& r.cache_path@ == cache_dir_for(h)
            }),
    {
        let home = home_dir();
        let r = Config::for_home(home);
        assert(r.download_path@ == download_dir_for(opt_text(home)));
        r
    }
}

} // verus!
