use paper_core::config::OpenAlexConfig;
use paper_core::dates::{Date, DateFilter};
use paper_core::error::PaperError;
use paper_core::models::{SearchQuery, SearchType, SortBy};
use paper_core::openalex::{
    check_lookup_status, check_search_status, doi_search_result, reconstruct_abstract,
    retry_after_from_header, AuthorRef, Authorship, Institution, Meta, OaLocation, OpenAccess,
    OpenAlexProvider, OpenAlexResponse, SearchStep, Work,
};
use paper_core::resilience::TimeSpan;

fn entry(word: &str, positions: Vec<usize>) -> (String, Vec<usize>) {
    (word.to_string(), positions)
}

fn provider(api_key: Option<&str>) -> OpenAlexProvider {
    OpenAlexProvider::new(&OpenAlexConfig {
        base_url: "https://api.openalex.org".to_string(),
        timeout_secs: 30,
        api_key: api_key.map(|k| k.to_string()),
    })
    .expect("Failed to create provider")
}

fn query(text: &str, search_type: SearchType, max_results: usize, offset: usize) -> SearchQuery {
    SearchQuery {
        query: text.to_string(),
        search_type,
        max_results,
        offset,
        date_filter: None,
        sort_by: SortBy::Relevance,
    }
}

const SELECT: &str = "select=id%2Cdoi%2Cdisplay_name%2Cpublication_date%2Cabstract_inverted_index%2Cauthorships%2Copen_access%2Cbest_oa_location%2Ccited_by_count";

#[test]
fn test_reconstruct_abstract() {
    let index = vec![
        entry("Despite", vec![0]),
        entry("growing", vec![1]),
        entry("interest", vec![2]),
        entry("in", vec![3, 7]),
        entry("the", vec![4, 8]),
        entry("field", vec![5]),
        entry("and", vec![6]),
        entry("results", vec![9]),
    ];
    let result = reconstruct_abstract(&index);
    assert_eq!(
        result,
        "Despite growing interest in the field and in the results"
    );
}

#[test]
fn test_reconstruct_abstract_empty() {
    let index: Vec<(String, Vec<usize>)> = Vec::new();
    let result = reconstruct_abstract(&index);
    assert!(result.trim().is_empty());
}

#[test]
fn reconstruct_abstract_leaves_gaps_empty() {
    let index = vec![entry("b", vec![2]), entry("a", vec![0])];
    assert_eq!(reconstruct_abstract(&index), "a  b");
}

#[test]
fn reconstruct_abstract_later_entry_wins_a_shared_position() {
    let index = vec![entry("first", vec![0, 1]), entry("second", vec![1])];
    assert_eq!(reconstruct_abstract(&index), "first second");
}

fn sample_work() -> Work {
    Work {
        id: "https://openalex.org/W2741809807".to_string(),
        doi: Some("https://doi.org/10.7717/peerj.4375".to_string()),
        display_name: Some("The state of OA".to_string()),
        publication_date: Some("2018-02-13".to_string()),
        abstract_inverted_index: Some(vec![entry("Open", vec![0]), entry("access", vec![1])]),
        authorships: Some(vec![
            Authorship {
                author: AuthorRef { display_name: Some("Heather Piwowar".to_string()) },
                institutions: Some(vec![
                    Institution { display_name: Some("Impactstory".to_string()) },
                    Institution { display_name: None },
                ]),
            },
            Authorship { author: AuthorRef { display_name: None }, institutions: None },
        ]),
        open_access: Some(OpenAccess { oa_url: Some("https://peerj.com/a.pdf".to_string()) }),
        best_oa_location: Some(OaLocation { pdf_url: None }),
        cited_by_count: Some(42),
    }
}

#[test]
fn work_to_paper_maps_every_field() {
    let p = provider(None);
    let paper = p.work_to_paper(sample_work());
    assert_eq!(paper.id, "W2741809807");
    assert_eq!(paper.title, "The state of OA");
    assert_eq!(paper.authors.len(), 2);
    assert_eq!(paper.authors[0].name, "Heather Piwowar");
    assert_eq!(paper.authors[0].affiliations, vec!["Impactstory".to_string()]);
    assert_eq!(paper.authors[1].name, "");
    assert!(paper.authors[1].affiliations.is_empty());
    assert_eq!(paper.abstract_text.as_deref(), Some("Open access"));
    assert_eq!(paper.publication_date, Date::from_ymd(2018, 2, 13));
    assert_eq!(paper.doi.as_deref(), Some("10.7717/peerj.4375"));
    assert_eq!(paper.download_url.as_deref(), Some("https://peerj.com/a.pdf"));
    assert_eq!(paper.cited_by_count, Some(42));
    assert_eq!(paper.source, "openalex");
}

#[test]
fn work_to_paper_prefers_best_location_pdf_and_skips_empty_abstract() {
    let p = provider(None);
    let mut w = sample_work();
    w.best_oa_location = Some(OaLocation { pdf_url: Some("https://x.org/best.pdf".to_string()) });
    w.abstract_inverted_index = Some(Vec::new());
    w.publication_date = Some("not a date".to_string());
    w.id = "W1".to_string();
    let paper = p.work_to_paper(w);
    assert_eq!(paper.download_url.as_deref(), Some("https://x.org/best.pdf"));
    assert!(paper.abstract_text.is_none());
    assert!(paper.publication_date.is_none());
    assert_eq!(paper.id, "W1");
}

#[test]
fn author_ref_default_is_unknown() {
    assert_eq!(AuthorRef::default().display_name.as_deref(), Some("Unknown"));
}

#[test]
fn build_search_url_for_keywords() {
    let p = provider(None);
    let url = p.build_search_url(&query("x", SearchType::Keywords, 10, 20)).expect("url");
    assert_eq!(
        url,
        format!("https://api.openalex.org/works?search=x&sort=relevance_score%3Adesc&per_page=10&page=3&{}", SELECT)
    );
}

#[test]
fn build_search_url_for_titles_with_dates_and_key() {
    let p = provider(Some("k1"));
    let mut q = query("neural nets", SearchType::Title, 500, 0);
    q.sort_by = SortBy::Citations;
    q.date_filter = Some(DateFilter::parse(">=2023 <2025").expect("filter"));
    let url = p.build_search_url(&q).expect("url");
    assert_eq!(
        url,
        format!("https://api.openalex.org/works?filter=title.search%3Aneural+nets&filter=from_publication_date%3A2023-01-01%2Cto_publication_date%3A2024-12-31&sort=cited_by_count%3Adesc&per_page=200&page=1&{}&api_key=k1", SELECT)
    );
}

#[test]
fn search_params_by_search_type() {
    let p = provider(None);
    let a = p.search_params(&query("Ada", SearchType::Author, 0, 7));
    assert_eq!(a[0], ("filter".to_string(), "authorships.author.display_name.search:Ada".to_string()));
    assert_eq!(a[1], ("per_page".to_string(), "0".to_string()));
    assert_eq!(a[2], ("page".to_string(), "8".to_string()));
    let s = p.search_params(&query("ml", SearchType::Subject, 5, 0));
    assert_eq!(s[0], ("filter".to_string(), "topics.display_name.search:ml".to_string()));
    let d = p.search_params(&query("10.1/x", SearchType::DOI, 5, 0));
    assert_eq!(d[0], ("search".to_string(), "10.1/x".to_string()));
    assert_eq!(d[1].0, "per_page");
    let mut q = query("q", SearchType::Keywords, 5, 0);
    q.sort_by = SortBy::Date;
    let k = p.search_params(&q);
    assert_eq!(k[1], ("sort".to_string(), "publication_date:desc".to_string()));
}

#[test]
fn plan_search_routes_doi_queries_to_lookup() {
    let p = provider(None);
    match p.plan_search(&query("10.1/x", SearchType::DOI, 5, 0)).expect("plan") {
        SearchStep::LookupDoi(d) => assert_eq!(d, "10.1/x"),
        SearchStep::Fetch(_) => panic!("expected a lookup"),
    }
    match p.plan_search(&query("x", SearchType::Keywords, 5, 0)).expect("plan") {
        SearchStep::Fetch(u) => assert!(u.starts_with("https://api.openalex.org/works?search=x")),
        SearchStep::LookupDoi(_) => panic!("expected a fetch"),
    }
}

#[test]
fn build_search_url_rejects_a_bad_base() {
    let p = OpenAlexProvider::new(&OpenAlexConfig {
        base_url: "not a url".to_string(),
        timeout_secs: 5,
        api_key: None,
    })
    .expect("provider");
    match p.build_search_url(&query("x", SearchType::Keywords, 1, 0)) {
        Err(PaperError::InvalidInput(m)) => assert_eq!(m, "relative URL without a base"),
        other => panic!("unexpected {:?}", other),
    }
}

#[test]
fn doi_lookup_url_strips_the_resolver_prefix() {
    let p = provider(Some("k"));
    assert_eq!(
        p.doi_lookup_url("https://doi.org/10.7717/peerj.4375"),
        "https://api.openalex.org/works/doi:10.7717/peerj.4375?select=id,doi,display_name,publication_date,abstract_inverted_index,authorships,open_access,best_oa_location,cited_by_count&api_key=k"
    );
}

#[test]
fn search_status_meanings() {
    match check_search_status(429, "429 Too Many Requests", Some("7")) {
        Err(PaperError::RateLimited { provider, retry_after }) => {
            assert_eq!(provider, "openalex");
            assert_eq!(retry_after, Some(TimeSpan { secs: 7, nanos: 0 }));
        }
        other => panic!("unexpected {:?}", other),
    }
    match check_search_status(503, "503 Service Unavailable", None) {
        Err(PaperError::ProviderUnavailable(m)) => {
            assert_eq!(m, "OpenAlex returned 503 Service Unavailable")
        }
        other => panic!("unexpected {:?}", other),
    }
    assert!(check_search_status(200, "200 OK", None).is_ok());
    assert!(check_search_status(404, "404 Not Found", None).is_err());
}

#[test]
fn lookup_status_meanings() {
    assert_eq!(check_lookup_status(404, "404 Not Found", None).ok(), Some(false));
    assert_eq!(check_lookup_status(200, "200 OK", None).ok(), Some(true));
    assert!(matches!(
        check_lookup_status(429, "429 Too Many Requests", Some("x")),
        Err(PaperError::RateLimited { retry_after: None, .. })
    ));
    assert!(matches!(
        check_lookup_status(500, "500 Internal Server Error", None),
        Err(PaperError::ProviderUnavailable(_))
    ));
}

#[test]
fn retry_after_header_values() {
    assert_eq!(retry_after_from_header(Some("+15")), Some(TimeSpan { secs: 15, nanos: 0 }));
    assert_eq!(retry_after_from_header(Some("120")), Some(TimeSpan { secs: 120, nanos: 0 }));
    assert_eq!(retry_after_from_header(Some("abc")), None);
    assert_eq!(retry_after_from_header(Some("")), None);
    assert_eq!(retry_after_from_header(Some("-1")), None);
    assert_eq!(retry_after_from_header(Some("18446744073709551616")), None);
    assert_eq!(retry_after_from_header(None), None);
}

fn response(count: usize, works: Vec<Work>) -> OpenAlexResponse {
    OpenAlexResponse { meta: Meta { count, per_page: 25, page: 1 }, results: works }
}

#[test]
fn search_result_pages_until_the_count_or_ten_thousand() {
    let p = provider(None);
    let r = p.search_result_from(&query("x", SearchType::Keywords, 25, 0), response(100, vec![sample_work()]));
    assert_eq!(r.papers.len(), 1);
    assert_eq!(r.papers[0].id, "W2741809807");
    assert_eq!(r.total_results, 100);
    assert_eq!(r.next_offset, Some(25));
    assert_eq!(r.provider, "openalex");
    let r = p.search_result_from(&query("x", SearchType::Keywords, 25, 0), response(20, vec![]));
    assert_eq!(r.next_offset, None);
    let r = p.search_result_from(&query("x", SearchType::Keywords, 25, 9990), response(1_000_000, vec![]));
    assert_eq!(r.next_offset, None);
    let r = p.search_result_from(&query("x", SearchType::Keywords, 5, 9990), response(1_000_000, vec![]));
    assert_eq!(r.next_offset, Some(9995));
}

#[test]
fn doi_search_results() {
    let p = provider(None);
    let found = doi_search_result(Some(p.work_to_paper(sample_work())));
    assert_eq!(found.total_results, 1);
    assert_eq!(found.papers.len(), 1);
    assert_eq!(found.next_offset, None);
    let none = doi_search_result(None);
    assert_eq!(none.total_results, 0);
    assert!(none.papers.is_empty());
    assert_eq!(none.provider, "openalex");
}

#[test]
fn provider_identity() {
    let p = provider(None);
    assert_eq!(p.name(), "openalex");
    assert_eq!(p.priority(), 90);
    assert_eq!(
        p.supported_search_types(),
        vec![
            SearchType::Keywords,
            SearchType::Title,
            SearchType::Author,
            SearchType::DOI,
            SearchType::Subject
        ]
    );
}
