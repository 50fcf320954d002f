use paper_core::dates::Date;
use paper_core::fetch::models::{Author, Paper, SearchResult};
use paper_core::fetch::render::{more_results_hint, paper_details, paper_row, result_rows, search_summary};

fn paper(with_extras: bool) -> Paper {
    Paper {
        id: "2301.00001v1".to_string(),
        title: "Test Paper Title".to_string(),
        authors: vec![
            Author { name: "Alice Smith".to_string(), affiliation: None },
            Author { name: "Bob Jones".to_string(), affiliation: None },
        ],
        abstract_text: if with_extras { Some("Abstract.".to_string()) } else { None },
        publication_date: if with_extras { Date::from_ymd(2023, 1, 15) } else { None },
        doi: if with_extras { Some("10.1/x".to_string()) } else { None },
        download_url: if with_extras { Some("http://arxiv.org/pdf/2301.00001v1".to_string()) } else { None },
        source: "arxiv".to_string(),
    }
}

fn result(next: Option<usize>, total: usize) -> SearchResult {
    SearchResult { papers: vec![paper(true), paper(false)], total_results: total, next_offset: next, provider: "arxiv".to_string() }
}

#[test]
fn summary_line() {
    assert_eq!(search_summary(&result(None, 120)), "Found 120 results from arxiv (showing 2)\n");
}

#[test]
fn next_page_hint() {
    assert_eq!(
        more_results_hint(&result(Some(10), 120)).as_deref(),
        Some("\nMore results available. Use --offset 10 to see next page.")
    );
    assert_eq!(more_results_hint(&result(Some(120), 120)), None);
    assert_eq!(more_results_hint(&result(None, 120)), None);
}

#[test]
fn rows_of_papers() {
    assert_eq!(
        paper_row(1, &paper(true)),
        "1. Test Paper Title\n   Alice Smith, Bob Jones (2023-01-15)\n   2301.00001v1  doi:10.1/x\n   http://arxiv.org/pdf/2301.00001v1\n\n"
    );
    assert_eq!(
        paper_row(12, &paper(false)),
        "12. Test Paper Title\n   Alice Smith, Bob Jones ()\n   2301.00001v1\n\n"
    );
    let all = result_rows(&result(None, 2));
    assert!(all.starts_with("1. Test Paper Title\n"));
    assert!(all.contains("\n\n2. Test Paper Title\n"));
}

#[test]
fn details_of_a_paper() {
    assert_eq!(
        paper_details(&paper(true)),
        "Title:    Test Paper Title\nAuthors:  Alice Smith, Bob Jones\nDate:     2023-01-15\nID:       2301.00001v1\nDOI:      10.1/x\nPDF:      http://arxiv.org/pdf/2301.00001v1\n\nAbstract.\n"
    );
    assert_eq!(
        paper_details(&paper(false)),
        "Title:    Test Paper Title\nAuthors:  Alice Smith, Bob Jones\nID:       2301.00001v1\n"
    );
}
