//! URL building with query parameters and HTTP client construction.
use vstd::prelude::*;
use vstd::utf8::encode_utf8;

verus! {

/// Upper-case hexadecimal digit for `n < 16`.
pub open spec fn hex_upper(n: int) -> char {
    if n < 10 {
        (n + 48) as char
    } else {
        (n - 10 + 65) as char
    }
}

/// Whether `application/x-www-form-urlencoded` keeps a byte as it is.
pub open spec fn form_unchanged(b: u8) -> bool {
    b == 42 || b == 45 || b == 46 || (48 <= b <= 57) || (65 <= b <= 90) || b == 95 || (97 <= b
        <= 122)
}

/// How `application/x-www-form-urlencoded` writes one byte: kept, `+` for a space, else
/// `%XX` with upper-case hexadecimal.
pub open spec fn form_byte(b: u8) -> Seq<char> {
    if form_unchanged(b) {
        seq![b as char]
    } else if b == 32 {
        seq!['+']
    } else {
        seq!['%', hex_upper((b / 16) as int), hex_upper((b % 16) as int)]
    }
}

/// The form encoding of a byte sequence.
pub open spec fn form_bytes(bs: Seq<u8>) -> Seq<char>
    decreases bs.len(),
{
    if bs.len() == 0 {
        seq![]
    } else {
        form_bytes(bs.drop_last()) + form_byte(bs.last())
    }
}

/// The form encoding of the UTF-8 bytes of a text.
pub open spec fn form_component(s: Seq<char>) -> Seq<char> {
    form_bytes(encode_utf8(s))
}

/// The form encoding of name/value pairs: `name=value` joined with `&`.
pub open spec fn form_pairs(ps: Seq<(Seq<char>, Seq<char>)>) -> Seq<char>
    decreases ps.len(),
{
    if ps.len() == 0 {
        seq![]
    } else {
        let last = form_component(ps.last().0) + seq!['='] + form_component(ps.last().1);
        if ps.len() == 1 {
            last
        } else {
            form_pairs(ps.drop_last()) + seq!['&'] + last
        }
    }
}

/// The texts of name/value pairs.
pub open spec fn pair_views(ps: Seq<(String, String)>) -> Seq<(Seq<char>, Seq<char>)> {
    ps.map_values(|p: (String, String)| (p.0@, p.1@))
}

/// What `url::Url::parse_with_params(base, params)` followed by `to_string` gives: the URL
/// text, or the text of the parse error.
pub uninterp spec fn url_with_query(base: Seq<char>, params: Seq<(Seq<char>, Seq<char>)>) -> Result<
    Seq<char>,
    Seq<char>,
>;

/// Parses `base` as an absolute URL and appends `params` to its query string.
/// Trusted: calls `url::Url::parse_with_params` and `Url::to_string`; the outcome is named
/// `url_with_query`. When `base` holds neither `?` nor `#` and there is at least one pair, a
/// successful result ends with `?` and the form encoding of the pairs.
#[verifier::external_body]
pub(crate) fn build_url(base: &str, params: &Vec<(String, String)>) -> (r: Result<String, String>)
    ensures
        match r {
            Ok(u) => url_with_query(base@, pair_views(params@)) == Ok::<Seq<char>, Seq<char>>(u@),
            Err(e) => url_with_query(base@, pair_views(params@)) == Err::<Seq<char>, Seq<char>>(
                e@,
            ),
        },
        r is Ok && !base@.contains('?') && !base@.contains('#') && params@.len() > 0 ==> (seq![
            '?',
        ] + form_pairs(pair_views(params@))).is_suffix_of(r->Ok_0@),
{
    match url::Url::parse_with_params(base, params.iter().map(|(k, v)| (k.as_str(), v.as_str())))
    {
        Ok(u) => Ok(u.to_string()),
        Err(e) => Err(e.to_string()),
    }
}

#[verifier::external_type_specification]
#[verifier::external_body]
pub struct ExHttpClient(reqwest::Client);

/// The whole-request timeout, in seconds, that a client was built with
/// (`ClientBuilder::timeout`, kept by `ClientBuilder::build` as the client's request timeout).
pub uninterp spec fn client_timeout_secs(c: reqwest::Client) -> u64;

/// An HTTP client with a whole-request timeout.
/// Trusted: calls `reqwest::Client::builder`, `ClientBuilder::timeout` and
/// `ClientBuilder::build`; an error becomes its text. A client built holds the timeout it was
/// given; whether the build succeeds depends on the machine and is not promised.
#[verifier::external_body]
pub(crate) fn build_http_client(timeout_secs: u64) -> (r: Result<reqwest::Client, String>)
    ensures
        r matches Ok(c) ==> client_timeout_secs(c) == timeout_secs,
{
    match reqwest::Client::builder().timeout(std::time::Duration::from_secs(timeout_secs)).build() {
        Ok(c) => Ok(c),
        Err(e) => Err(e.to_string()),
    }
}

} // verus!
