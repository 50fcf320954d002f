//! The domain types shared by the providers: papers, authors, queries and results.
use vstd::prelude::*;

use crate::dates::{Date, DateFilter};

verus! {

/// An author of a paper and the institutions they were affiliated with.
#[derive(Clone, Debug)]
pub struct Author {
    pub name: String,
    pub affiliations: Vec<String>,
}

/// A paper as a provider describes it.
#[derive(Clone, Debug)]
pub struct Paper {
    pub id: String,
    pub title: String,
    pub authors: Vec<Author>,
    pub abstract_text: Option<String>,
    pub publication_date: Option<Date>,
    pub doi: Option<String>,
    pub download_url: Option<String>,
    pub cited_by_count: Option<u64>,
    pub source: String,
}

/// What a query searches for.
#[derive(Clone, Copy, Debug, PartialEq, Eq, Structural)]
pub enum SearchType {
    Keywords,
    Title,
    Author,
    DOI,
    Subject,
}

/// The order results are asked for in.
#[derive(Clone, Copy, Debug, PartialEq, Eq, Structural)]
pub enum SortBy {
    Relevance,
    Date,
    Citations,
}

/// A search request.
#[derive(Clone, Debug)]
pub struct SearchQuery {
    pub query: String,
    pub search_type: SearchType,
    pub max_results: usize,
    pub offset: usize,
    pub date_filter: Option<DateFilter>,
    pub sort_by: SortBy,
}

/// One page of search results.
#[derive(Clone, Debug)]
pub struct SearchResult {
    pub papers: Vec<Paper>,
    pub total_results: usize,
    pub next_offset: Option<usize>,
    pub provider: String,
}

/// A finished download: where the file is, its SHA-256 digest and its size.
#[derive(Clone, Debug)]
pub struct DownloadResult {
    pub file_path: String,
    pub doi: Option<String>,
    pub sha256: String,
    pub size_bytes: u64,
}

/// The outcome of downloading several papers.
#[derive(Clone, Debug)]
pub struct BatchDownloadResult {
    pub succeeded: Vec<DownloadResult>,
    pub failed: Vec<DownloadFailure>,
    pub total_requested: usize,
}

/// A paper that could not be downloaded and why.
#[derive(Clone, Debug)]
pub struct DownloadFailure {
    pub paper_id: String,
    pub title: String,
    pub error: String,
}

/// Counts kept while merging results of several providers.
#[derive(Clone, Copy, Debug, PartialEq, Eq, Structural)]
pub struct DedupStats {
    /// The number of papers before merging.
    pub total_raw: usize,
}

} // verus!
