//! Papers, queries and results of the search service.
use vstd::prelude::*;

use crate::dates::Date;

verus! {

/// An author of a paper.
#[derive(Clone, Debug)]
pub struct Author {
    pub name: String,
    pub affiliation: Option<String>,
}

/// A paper as a provider describes it.
#[derive(Clone, Debug)]
pub struct Paper {
    pub id: String,
    pub title: String,
    pub authors: Vec<Author>,
    pub abstract_text: Option<String>,
    pub publication_date: Option<Date>,
    pub doi: Option<String>,
    pub download_url: Option<String>,
    pub source: String,
}

/// What a query searches for.
#[derive(Clone, Copy, Debug, PartialEq, Eq, Structural)]
pub enum SearchType {
    Keywords,
    Title,
    Author,
    DOI,
    Subject,
}

/// A search request.
#[derive(Clone, Debug)]
pub struct SearchQuery {
    pub query: String,
    pub search_type: SearchType,
    pub max_results: usize,
    pub offset: usize,
}

/// One page of search results.
#[derive(Clone, Debug)]
pub struct SearchResult {
    pub papers: Vec<Paper>,
    pub total_results: usize,
    pub next_offset: Option<usize>,
    pub provider: String,
}

/// A finished download: where the file is, its SHA-256 digest (lowercase hex) and its size.
#[derive(Clone, Debug)]
pub struct DownloadResult {
    pub file_path: String,
    pub doi: Option<String>,
    pub sha256: String,
    pub size_bytes: u64,
}

} // verus!
