# paper_core

A library for searching academic papers, verified with Verus, and a small command line
program around it.

## Layout

- `src/` — the verified library.
  - `text.rs`: character-sequence helpers (splitting into words, prefixes, decimal text,
    `str::parse` for unsigned numbers, path joining) with their specifications.
  - `dates.rs`: the proleptic Gregorian calendar, partial dates and publication-date
    filters such as `>=2024 <2025-06`.
  - `error.rs`, `resilience.rs`: provider errors, how each kind is retried, the resilience
    settings, the rate-limit quotas built with `governor`, and exit statuses.
  - `web.rs`: form-urlencoded query strings and URL building with `url`.
  - `config.rs`, `models.rs`: settings and the paper, query and result models.
  - `openalex.rs`: OpenAlex request URLs, response interpretation and abstract
    reconstruction from the inverted index.
  - `dedup.rs`: DOI keys, normalized titles, flattening and grouping results by DOI.
  - `batch.rs`: the outcome of a batch of downloads and the lines that report it.
  - `xml.rs`: the node table that `roxmltree` yields and queries over it.
  - `fetch/`: the arXiv-centred search service: arXiv query URLs and Atom feed reading,
    downloads with a SHA-256 digest (`sha2`), exit statuses, and the text the command line
    prints.
- `tests/` — tests run against the compiled library.
- `app/` — the `paper` command: argument parsing, configuration files, HTTP, files,
  rate limiting, circuit breaking and retries around the library.

Trusted items (calls into `chrono`, `url`, `roxmltree`, `sha2`, `reqwest`, `dirs`,
`governor` and a few `std` functions) are the functions marked
`#[verifier::external_body]` and the declared outside types; each states in its doc comment
what its contract claims of the outside code.
