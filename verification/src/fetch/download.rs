//! Downloads: where a DOI's PDF is fetched from, where it is stored, and the size and
//! SHA-256 digest of the bytes received.
use vstd::prelude::*;

use crate::fetch::config::DownloadConfig;
use crate::fetch::error::PaperFetchError;
use crate::fetch::models::DownloadResult;
use crate::text::{chars_of, join_path, path_join, push_all, push_str, string_of, strip, strip_prefix, text};
use crate::web::{build_http_client, client_timeout_secs};

verus! {

/// A SHA-256 hasher (`sha2::Sha256`) that absorbs bytes piece by piece; what it has absorbed
/// is known through `sha256_input`.
#[verifier::external_body]
pub struct Sha256State {
    inner: sha2::Sha256,
}

/// The bytes that a SHA-256 hasher has absorbed so far.
pub uninterp spec fn sha256_input(h: Sha256State) -> Seq<u8>;

/// The SHA-256 digest of a byte sequence.
pub uninterp spec fn sha256_of(data: Seq<u8>) -> Seq<u8>;

/// Trusted: `sha2::Sha256::new` starts a hasher that has absorbed nothing.
#[verifier::external_body]
fn sha256_new() -> (h: Sha256State)
    ensures
        sha256_input(h) == Seq::<u8>::empty(),
{
    Sha256State { inner: <sha2::Sha256 as sha2::Digest>::new() }
}

/// Trusted: `sha2::Digest::update` absorbs the bytes after those absorbed before.
#[verifier::external_body]
fn sha256_update(h: &mut Sha256State, data: &[u8])
    ensures
        sha256_input(*final(h)) == sha256_input(*old(h)) + data@,
{
    sha2::Digest::update(&mut h.inner, data)
}

/// Trusted: `sha2::Digest::finalize` gives the 32-byte SHA-256 digest of the absorbed bytes.
#[verifier::external_body]
fn sha256_finish(h: Sha256State) -> (d: Vec<u8>)
    ensures
        d@ == sha256_of(sha256_input(h)),
        d@.len() == 32,
{
    sha2::Digest::finalize(h.inner).to_vec()
}

/// Lowercase hexadecimal digit for `n < 16`.
pub open spec fn hex_lower(n: int) -> char {
    if n < 10 {
        (n + 48) as char
    } else {
        (n - 10 + 97) as char
    }
}

/// The lowercase hexadecimal text of bytes, two digits per byte (`{:x}` of a digest).
pub open spec fn hex_text(bs: Seq<u8>) -> Seq<char>
    decreases bs.len(),
{
    if bs.len() == 0 {
        seq![]
    } else {
        hex_text(bs.drop_last()) + seq![
            hex_lower((bs.last() / 16) as int),
            hex_lower((bs.last() % 16) as int),
        ]
    }
}

/// The hexadecimal text of bytes has two characters per byte, each a digit or a
/// lowercase letter from `a` to `f`.
pub proof fn lemma_hex_text(bs: Seq<u8>)
    ensures
        hex_text(bs).len() == 2 * bs.len(),
        forall|i: int|
            0 <= i < hex_text(bs).len() ==> ('0' <= #[trigger] hex_text(bs)[i] <= '9') || ('a'
                <= hex_text(bs)[i] <= 'f'),
    decreases bs.len(),
{
    if bs.len() > 0 {
        lemma_hex_text(bs.drop_last());
        let h = hex_text(bs.drop_last());
        let b = bs.last();
        assert(b / 16 < 16 && b % 16 < 16);
        assert forall|i: int| 0 <= i < hex_text(bs).len() implies ('0' <= #[trigger] hex_text(
            bs,
        )[i] <= '9') || ('a' <= hex_text(bs)[i] <= 'f') by {
            if i >= h.len() {
                let d: int = if i == h.len() {
                    (b / 16) as int
                } else {
                    (b % 16) as int
                };
                assert(hex_text(bs)[i] == hex_lower(d));
            }
        }
    }
}

fn hex_digit(n: u8) -> (c: char)
    requires
        n < 16,
    ensures
        c == hex_lower(n as int),
{
    if n < 10 {
        (n + 48) as char
    } else {
        (n - 10 + 97) as char
    }
}

/// Writes bytes as lowercase hexadecimal.
pub fn hex_encode(bs: &[u8]) -> (r: String)
    ensures
        r@ == hex_text(bs@),
{
    let mut out: Vec<char> = Vec::new();
    let mut i: usize = 0;
    while i < bs.len()
        invariant
            0 <= i <= bs@.len(),
            out@ == hex_text(bs@.take(i as int)),
        decreases bs@.len() - i,
    {
        let b = bs[i];
        proof {
            assert(bs@.take(i + 1).drop_last() =~= bs@.take(i as int));
        }
        out.push(hex_digit(b / 16));
        out.push(hex_digit(b % 16));
        i = i + 1;
    }
    assert(bs@.take(bs@.len() as int) =~= bs@);
    string_of(out.as_slice())
}

/// The running state of a download: the digest of the bytes received and their count.
pub struct DownloadDigest {
    hasher: Sha256State,
    size_bytes: u64,
}

impl DownloadDigest {
    /// The bytes received so far.
    pub closed spec fn received(&self) -> Seq<u8> {
        sha256_input(self.hasher)
    }

    /// The number of bytes received so far.
    pub closed spec fn size(&self) -> u64 {
        self.size_bytes
    }

    /// Whether the byte count is the length of the bytes received.
    pub closed spec fn wf(&self) -> bool {
        self.size_bytes == sha256_input(self.hasher).len()
    }

    /// A state with nothing received.
    pub fn new() -> (r: DownloadDigest)
        ensures
            r.wf(),
            r.received() == Seq::<u8>::empty(),
            r.size() == 0,
    {
        DownloadDigest { hasher: sha256_new(), size_bytes: 0 }
    }

    /// Receives a chunk of bytes.
    pub fn absorb(&mut self, chunk: &[u8])
        requires
            old(self).wf(),
            old(self).size() + chunk@.len() <= u64::MAX,
        ensures
            final(self).wf(),
            final(self).received() == old(self).received() + chunk@,
            final(self).size() == old(self).size() + chunk@.len(),
    {
        sha256_update(&mut self.hasher, chunk);
        self.size_bytes = self.size_bytes + chunk.len() as u64;
    }

    /// The byte count so far.
    pub fn size_bytes(&self) -> (r: u64)
        ensures
            r == self.size(),
    {
        self.size_bytes
    }

    /// The result of a finished download stored at `file_path`: the digest in lowercase hex
    /// and the byte count of everything received.
    pub fn finish(self, file_path: String) -> (r: DownloadResult)
        requires
            self.wf(),
        ensures
            r.file_path == file_path,
            r.doi is None,
            r.sha256@ == hex_text(sha256_of(self.received())),
            r.sha256@.len() == 64,
            r.size_bytes == self.received().len(),
    {
        let size_bytes = self.size_bytes;
        let digest = sha256_finish(self.hasher);
        proof {
            lemma_hex_text(digest@);
        }
        DownloadResult { file_path, doi: None, sha256: hex_encode(digest.as_slice()), size_bytes }
    }
}

/// `s` with every `/` replaced by `_`.
pub open spec fn slashes_to_underscores(s: Seq<char>) -> Seq<char> {
    s.map_values(|c: char| if c == '/' {
        '_'
    } else {
        c
    })
}

/// Where an arXiv DOI (`10.48550/arXiv.<id>`) is downloaded from and the file name it is
/// stored under (the DOI with `/` replaced by `_`, then `.pdf`); other DOIs cannot be
/// resolved.
pub open spec fn doi_target(doi: Seq<char>) -> Result<(Seq<char>, Seq<char>), Seq<char>> {
    match strip(doi, "10.48550/arXiv."@) {
        Some(id) => Ok(("https://arxiv.org/pdf/"@ + id, slashes_to_underscores(doi) + ".pdf"@)),
        None => Err("Cannot resolve download URL for DOI: "@ + doi),
    }
}

/// The download URL and file name for a DOI; `NotFound` for a DOI that is not an arXiv one.
pub fn download_target(doi: &str) -> (r: Result<(String, String), PaperFetchError>)
    ensures
        match doi_target(doi@) {
            Ok((url, name)) => r matches Ok((u, f)) && u@ == url && f@ == name,
            Err(m) => r matches Err(PaperFetchError::NotFound(e)) && e@ == m,
        },
{
    let d = chars_of(doi);
    let p = chars_of("10.48550/arXiv.");
    match strip_prefix(d.as_slice(), p.as_slice()) {
        None => {
            let mut m = text("Cannot resolve download URL for DOI: ");
            push_all(&mut m, d.as_slice());
            Err(PaperFetchError::NotFound(string_of(m.as_slice())))
        },
        Some(id) => {
            let mut url = text("https://arxiv.org/pdf/");
            push_all(&mut url, id.as_slice());
            let mut name: Vec<char> = Vec::new();
            let mut i: usize = 0;
            while i < d.len()
                invariant
                    0 <= i <= d@.len(),
                    name@ == slashes_to_underscores(d@.take(i as int)),
                decreases d@.len() - i,
            {
                let c = d[i];
                name.push(if c == '/' {
                    '_'
                } else {
                    c
                });
                i = i + 1;
                assert(name@ =~= slashes_to_underscores(d@.take(i as int)));
            }
            assert(d@.take(d@.len() as int) =~= d@);
            push_str(&mut name, ".pdf");
            Ok((string_of(url.as_slice()), string_of(name.as_slice())))
        },
    }
}

/// A downloader that stores papers in a directory.
pub struct PaperDownloader {
    client: reqwest::Client,
    download_path: String,
}

impl PaperDownloader {
    /// The directory where papers are stored.
    pub closed spec fn directory(&self) -> Seq<char> {
        self.download_path@
    }

    /// A downloader storing papers in `download_path`; fails when the HTTP client cannot be
    /// built.
    pub fn new(download_path: String, config: &DownloadConfig) -> (r: Result<
        PaperDownloader,
        PaperFetchError,
    >)
        ensures
            match r {
                Ok(d) => d.directory() == download_path@ && client_timeout_secs(d.http_client())
                    == config.timeout_secs,
                Err(e) => e matches PaperFetchError::Http { timed_out, .. } && !timed_out,
            },
    {
        match build_http_client(config.timeout_secs) {
            Ok(client) => Ok(PaperDownloader { client, download_path }),
            Err(e) => Err(PaperFetchError::Http { message: e, timed_out: false }),
        }
    }

    /// The HTTP client that the downloader sends its requests with.
    pub closed spec fn http_client(&self) -> reqwest::Client {
        self.client
    }

    /// The HTTP client of the downloader.
    pub fn client(&self) -> (r: &reqwest::Client)
        ensures
            *r == self.http_client(),
    {
        &self.client
    }

    /// The directory where papers are stored.
    pub fn download_dir(&self) -> (r: &String)
        ensures
            r@ == self.directory(),
    {
        &self.download_path
    }

    /// The path a file of the given name is stored at.
    pub fn file_path(&self, filename: &str) -> (r: String)
        ensures
            r@ == path_join(self.directory(), filename@),
    {
        join_path(self.download_path.as_str(), filename)
    }
}

} // verus!
