//! The arXiv-centred search and download service: its own models, errors, configuration,
//! the arXiv provider, the downloader and the text output of the command line.
pub mod arxiv;
pub mod config;
pub mod download;
pub mod error;
pub mod models;
pub mod render;
