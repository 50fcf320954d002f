use paper_core::dates::Date;
use paper_core::fetch::arxiv::{check_status, doi_query, first_paper, ArxivProvider};
use paper_core::fetch::config::ArxivConfig;
use paper_core::fetch::error::PaperFetchError;
use paper_core::fetch::models::{SearchQuery, SearchType};

fn provider() -> ArxivProvider {
    ArxivProvider::new(&ArxivConfig::default()).expect("Failed to create provider")
}

#[test]
fn test_build_query_url_title() {
    let p = provider();
    let query = SearchQuery {
        query: String::from("neural networks"),
        search_type: SearchType::Title,
        max_results: 10,
        offset: 0,
    };
    let url = p.build_query_url(&query).expect("Failed to build URL");
    assert!(url.contains("search_query=ti%3A"));
    assert!(url.contains("max_results=10"));
    assert!(url.contains("start=0"));
}

#[test]
fn test_parse_atom_feed_extracts_paper() {
    let p = provider();
    let xml = r#"<?xml version="1.0" encoding="UTF-8"?>
              <feed xmlns="http://www.w3.org/2005/Atom"
                    xmlns:opensearch="http://a9.com/-/spec/opensearch/1.1/"
                    xmlns:arxiv="http://arxiv.org/schemas/atom">
                  <opensearch:totalResults>1</opensearch:totalResults>
                  <entry>
                      <id>http://arxiv.org/abs/2301.00001v1</id>
                      <title>Test Paper Title</title>
                      <author><name>Alice Smith</name></author>
                      <author><name>Bob Jones</name></author>
                      <summary>This is the abstract.</summary>
                      <published>2023-01-15T00:00:00Z</published>
                      <link href="http://arxiv.org/pdf/2301.00001v1" title="pdf" rel="related" type="application/pdf"/>
                      <arxiv:doi>10.1234/test.doi</arxiv:doi>
                  </entry>
              </feed>"#;

    let (papers, total) = p.parse_atom_feed(xml).expect("Failed to parse");
    assert_eq!(total, 1);
    assert_eq!(papers.len(), 1);

    let paper = &papers[0];
    assert_eq!(paper.id, "2301.00001v1");
    assert_eq!(paper.title, "Test Paper Title");
    assert_eq!(paper.authors.len(), 2);
    assert_eq!(paper.authors[0].name, "Alice Smith");
    assert_eq!(
        paper.abstract_text.as_deref(),
        Some("This is the abstract.")
    );
    assert_eq!(
        paper.publication_date,
        Some(Date::from_ymd(2023, 1, 15).expect("Invalid date"))
    );
    assert_eq!(
        paper.download_url.as_deref(),
        Some("http://arxiv.org/pdf/2301.00001v1")
    );
    assert_eq!(paper.doi.as_deref(), Some("10.1234/test.doi"));
    assert_eq!(paper.source, "arxiv");
}

#[test]
fn test_parse_atom_feed_empty() {
    let p = provider();
    let xml = r#"<?xml version="1.0" encoding="UTF-8"?>
              <feed xmlns="http://www.w3.org/2005/Atom"
                    xmlns:opensearch="http://a9.com/-/spec/opensearch/1.1/">
                  <opensearch:totalResults>0</opensearch:totalResults>
              </feed>"#;

    let (papers, total) = p.parse_atom_feed(xml).expect("Failed to parse");
    assert_eq!(total, 0);
    assert!(papers.is_empty());
}

#[test]
fn build_query_url_exact_text() {
    let p = provider();
    let q = SearchQuery {
        query: String::from("graph neural"),
        search_type: SearchType::Author,
        max_results: 25,
        offset: 50,
    };
    assert_eq!(
        p.build_query_url(&q).expect("url"),
        "http://export.arxiv.org/api/query?search_query=au%3A%22graph+neural%22&start=50&max_results=25"
    );
    let k = SearchQuery { search_type: SearchType::Subject, ..q.clone() };
    assert!(p.build_query_url(&k).expect("url").contains("search_query=all%3A%22graph+neural%22"));
}

#[test]
fn build_query_url_rejects_a_bad_base() {
    let p = ArxivProvider::new(&ArxivConfig { base_url: "::".to_string(), timeout_secs: 1 })
        .expect("provider");
    let q = SearchQuery { query: "x".to_string(), search_type: SearchType::Keywords, max_results: 1, offset: 0 };
    assert!(matches!(p.build_query_url(&q), Err(PaperFetchError::InvalidInput(_))));
}

#[test]
fn parse_atom_feed_skips_entries_without_id_or_title() {
    let p = provider();
    let xml = r#"<feed xmlns="http://www.w3.org/2005/Atom">
          <entry><title>No id</title></entry>
          <entry><id>http://arxiv.org/abs/1</id></entry>
          <entry><id>plainid</id><title>  Padded
             title </title><summary>
             text </summary><published>2020-02-30T00:00:00Z</published>
             <link href="http://a/abs" title="abs"/><link title="pdf" href="http://a/pdf"/></entry>
        </feed>"#;
    let (papers, total) = p.parse_atom_feed(xml).expect("parse");
    assert_eq!(total, 0);
    assert_eq!(papers.len(), 1);
    assert_eq!(papers[0].id, "plainid");
    assert_eq!(papers[0].title, "Padded\n             title");
    assert_eq!(papers[0].abstract_text.as_deref(), Some("text"));
    assert_eq!(papers[0].publication_date, None);
    assert_eq!(papers[0].download_url.as_deref(), Some("http://a/pdf"));
    assert!(papers[0].authors.is_empty());
    assert!(papers[0].doi.is_none());
}

#[test]
fn parse_atom_feed_reports_malformed_xml() {
    let p = provider();
    assert!(matches!(p.parse_atom_feed("<feed>"), Err(PaperFetchError::ParseError(_))));
    assert!(matches!(p.parse_atom_feed("<feed"), Err(PaperFetchError::ParseError(_))));
}

#[test]
fn odd_published_dates_are_read_as_none() {
    let p = provider();
    let cut = r#"<feed xmlns="http://www.w3.org/2005/Atom"><entry><id>a</id><title>t</title><published>2023-01-1é</published></entry></feed>"#;
    let (papers, _) = p.parse_atom_feed(cut).expect("parse");
    assert_eq!(papers.len(), 1);
    assert_eq!(papers[0].publication_date, None);
    let short = r#"<feed xmlns="http://www.w3.org/2005/Atom"><entry><id>a</id><title>t</title><published>2023</published></entry></feed>"#;
    let (papers, _) = p.parse_atom_feed(short).expect("parse");
    assert_eq!(papers[0].publication_date, None);
    assert_eq!(papers[0].title, "t");
    let good = r#"<feed xmlns="http://www.w3.org/2005/Atom" xmlns:o="http://a9.com/-/spec/opensearch/1.1/"><o:totalResults>+7</o:totalResults><entry><id>a/b/c</id><title>t</title><published>2023-01-15</published></entry></feed>"#;
    let (papers, total) = p.parse_atom_feed(good).expect("parse");
    assert_eq!(total, 7);
    assert_eq!(papers[0].id, "c");
    assert_eq!(papers[0].publication_date, Date::from_ymd(2023, 1, 15));
}

#[test]
fn arxiv_search_result_and_status() {
    let p = provider();
    let q = SearchQuery { query: "x".to_string(), search_type: SearchType::Keywords, max_results: 10, offset: 30 };
    let r = p.search_result(&q, Vec::new(), 5);
    assert_eq!(r.next_offset, Some(40));
    assert_eq!(r.total_results, 5);
    assert_eq!(r.provider, "arxiv");
    assert!(check_status(200, "200 OK").is_ok());
    match check_status(503, "503 Service Unavailable") {
        Err(PaperFetchError::ProviderUnavailable(m)) => assert_eq!(m, "arXiv returned 503 Service Unavailable"),
        other => panic!("unexpected {:?}", other),
    }
}

#[test]
fn doi_lookup_query_and_first_paper() {
    let q = doi_query("10.48550/arXiv.2301.00001");
    assert_eq!(q.query, "10.48550/arXiv.2301.00001");
    assert_eq!(q.search_type, SearchType::DOI);
    assert_eq!(q.max_results, 1);
    assert_eq!(q.offset, 0);
    let p = provider();
    let empty = p.search_result(&q, Vec::new(), 0);
    assert!(first_paper(empty).is_none());
    assert_eq!(p.name(), "arxiv");
    assert_eq!(p.priority(), 80);
    assert_eq!(p.supported_search_types(), vec![SearchType::Keywords, SearchType::Title, SearchType::Author]);
}
