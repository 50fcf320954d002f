use paper_core::batch::{batch_failure, batch_result, completion_line, failure_line};
use paper_core::models::DownloadResult;

fn done(path: &str, size: u64) -> DownloadResult {
    DownloadResult { file_path: path.to_string(), doi: None, sha256: "00".to_string(), size_bytes: size }
}

#[test]
fn batch_splits_successes_and_failures_in_order() {
    let b = batch_result(vec![
        ("p1".to_string(), "One".to_string(), Ok(done("/d/p1.pdf", 10))),
        ("p2".to_string(), "Two".to_string(), Err("HTTP error: 404".to_string())),
        ("p3".to_string(), "Three".to_string(), Ok(done("/d/p3.pdf", 30))),
    ]);
    assert_eq!(b.total_requested, 3);
    assert_eq!(b.succeeded.len(), 2);
    assert_eq!(b.succeeded[0].file_path, "/d/p1.pdf");
    assert_eq!(b.succeeded[1].size_bytes, 30);
    assert_eq!(b.failed.len(), 1);
    assert_eq!(b.failed[0].paper_id, "p2");
    assert_eq!(b.failed[0].title, "Two");
    assert_eq!(completion_line(&b), "\nCompleted: 2/3 succeeded, 1 failed");
    assert_eq!(failure_line(&b.failed[0]), "p2 -- HTTP error: 404");
    assert_eq!(batch_failure(&b), Some("1 of 3 downloads failed".to_string()));
}

#[test]
fn batch_without_failures_is_not_an_error() {
    let b = batch_result(vec![("p1".to_string(), "One".to_string(), Ok(done("/d/p1.pdf", 1)))]);
    assert_eq!(batch_failure(&b), None);
    assert_eq!(completion_line(&b), "\nCompleted: 1/1 succeeded, 0 failed");
    let empty = batch_result(vec![]);
    assert_eq!(empty.total_requested, 0);
    assert_eq!(batch_failure(&empty), None);
}
