use paper_core::fetch::config::DownloadConfig;
use paper_core::fetch::download::{download_target, hex_encode, DownloadDigest, PaperDownloader};
use paper_core::fetch::error::PaperFetchError;

#[test]
fn digest_of_pieces_is_digest_of_the_whole() {
    let mut d = DownloadDigest::new();
    d.absorb(b"ab");
    d.absorb(b"");
    d.absorb(b"c");
    assert_eq!(d.size_bytes(), 3);
    let r = d.finish("/tmp/x.pdf".to_string());
    assert_eq!(r.sha256, "ba7816bf8f01cfea414140de5dae2223b00361a396177a9cb410ff61f20015ad");
    assert_eq!(r.size_bytes, 3);
    assert_eq!(r.file_path, "/tmp/x.pdf");
    assert!(r.doi.is_none());
}

#[test]
fn digest_of_nothing() {
    let r = DownloadDigest::new().finish("f".to_string());
    assert_eq!(r.sha256, "e3b0c44298fc1c149afbf4c8996fb92427ae41e4649b934ca495991b7852b855");
    assert_eq!(r.size_bytes, 0);
}

#[test]
fn hex_text_of_bytes() {
    assert_eq!(hex_encode(&[0x00, 0x0f, 0xa0, 0xff]), "000fa0ff");
    assert_eq!(hex_encode(&[]), "");
}

#[test]
fn arxiv_doi_download_target() {
    let (url, name) = download_target("10.48550/arXiv.2301.00001").expect("arxiv doi");
    assert_eq!(url, "https://arxiv.org/pdf/2301.00001");
    assert_eq!(name, "10.48550_arXiv.2301.00001.pdf");
    match download_target("10.1000/xyz") {
        Err(PaperFetchError::NotFound(m)) => assert_eq!(m, "Cannot resolve download URL for DOI: 10.1000/xyz"),
        other => panic!("unexpected {:?}", other),
    }
}

#[test]
fn downloader_file_paths() {
    let d = PaperDownloader::new("/tmp/papers".to_string(), &DownloadConfig::default()).expect("downloader");
    assert_eq!(d.download_dir(), "/tmp/papers");
    assert_eq!(d.file_path("a.pdf"), "/tmp/papers/a.pdf");
}
