//! Paper search library: query models, date filters, provider request building and
//! response interpretation, deduplication helpers and download bookkeeping.
pub mod text;
pub mod dates;
pub mod error;
pub mod resilience;
pub mod web;
pub mod config;
pub mod models;
pub mod openalex;
pub mod dedup;
pub mod batch;
pub mod xml;
pub mod fetch;
