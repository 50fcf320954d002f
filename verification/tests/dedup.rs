use paper_core::dedup::{flatten_results, group_by_doi, normalize_doi, preprocess_title};
use paper_core::models::Paper;

fn paper(id: &str, doi: Option<&str>) -> Paper {
    Paper {
        id: id.to_string(),
        title: format!("title {id}"),
        authors: Vec::new(),
        abstract_text: None,
        publication_date: None,
        doi: doi.map(|d| d.to_string()),
        download_url: None,
        cited_by_count: None,
        source: "test".to_string(),
    }
}

#[test]
fn doi_keys() {
    assert_eq!(normalize_doi("https://doi.org/10.1000/ABC"), "10.1000/abc");
    assert_eq!(normalize_doi("10.1000/Abc"), "10.1000/abc");
    assert_eq!(normalize_doi("HTTPS://DOI.ORG/10.1/x"), "https://doi.org/10.1/x");
}

#[test]
fn title_normalization() {
    assert_eq!(
        preprocess_title("The Art of Computer Programming: A Survey!"),
        "art of computer programming a survey"
    );
    assert_eq!(preprocess_title("A Tale of a City"), "tale of a city");
    assert_eq!(preprocess_title("  An   apple,  a\tday "), "apple a day");
    assert_eq!(preprocess_title("The A An"), "a an");
    assert_eq!(preprocess_title("the"), "");
    assert_eq!(preprocess_title("Théorie des Ensembles"), "théorie des ensembles");
}

#[test]
fn flattening_keeps_source_and_rank() {
    let (all, stats) = flatten_results(vec![
        ("arxiv".to_string(), vec![paper("a0", None), paper("a1", Some("10.1/x"))]),
        ("openalex".to_string(), vec![paper("o0", Some("10.1/X"))]),
    ]);
    assert_eq!(stats.total_raw, 3);
    assert_eq!(all.len(), 3);
    assert_eq!((all[0].source.as_str(), all[0].rank, all[0].paper.id.as_str()), ("arxiv", 0, "a0"));
    assert_eq!((all[1].source.as_str(), all[1].rank), ("arxiv", 1));
    assert_eq!((all[2].source.as_str(), all[2].rank, all[2].paper.id.as_str()), ("openalex", 0, "o0"));
}

#[test]
fn grouping_by_doi_key() {
    let (all, _) = flatten_results(vec![
        ("arxiv".to_string(), vec![
            paper("a0", Some("https://doi.org/10.1/A")),
            paper("a1", None),
            paper("a2", Some("10.2/b")),
        ]),
        ("openalex".to_string(), vec![paper("o0", Some("10.1/a"))]),
    ]);
    let (groups, no_doi) = group_by_doi(all);
    assert_eq!(groups.len(), 2);
    assert_eq!(groups[0].0, "10.1/a");
    let ids: Vec<&str> = groups[0].1.iter().map(|sp| sp.paper.id.as_str()).collect();
    assert_eq!(ids, vec!["a0", "o0"]);
    assert_eq!(groups[1].0, "10.2/b");
    assert_eq!(groups[1].1.len(), 1);
    assert_eq!(no_doi.len(), 1);
    assert_eq!(no_doi[0].paper.id, "a1");
}
