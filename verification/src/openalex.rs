//! The OpenAlex provider: request URLs, and the mapping of OpenAlex works and responses to
//! papers and search results.
use vstd::prelude::*;

use crate::config::OpenAlexConfig;
use crate::dates::{date_text, date_text_of, parse_ymd, prev_day, valid_triple, Date, DateFilter};
use crate::error::PaperError;
use crate::models::{Author, Paper, SearchQuery, SearchResult, SearchType, SortBy};
use crate::resilience::TimeSpan;
use crate::text::{
    chars_of, copy_chars, decimal, decimal_text, join, join_with, parse_unsigned,
    parse_unsigned_text, push_all, push_str, string_of, strip_or_keep, strip_prefix_or_keep, views,
};
use crate::web::{build_http_client, build_url, client_timeout_secs, form_pairs, pair_views, url_with_query};

verus! {

/// The counts of an OpenAlex result page.
#[derive(Clone, Debug)]
pub struct Meta {
    pub count: usize,
    pub per_page: usize,
    pub page: usize,
}

/// A page of OpenAlex works.
#[derive(Clone, Debug)]
pub struct OpenAlexResponse {
    pub meta: Meta,
    pub results: Vec<Work>,
}

/// An OpenAlex work record. The inverted abstract lists each word with the positions where it
/// occurs.
#[derive(Clone, Debug)]
pub struct Work {
    pub id: String,
    pub doi: Option<String>,
    pub display_name: Option<String>,
    pub publication_date: Option<String>,
    pub abstract_inverted_index: Option<Vec<(String, Vec<usize>)>>,
    pub authorships: Option<Vec<Authorship>>,
    pub open_access: Option<OpenAccess>,
    pub best_oa_location: Option<OaLocation>,
    pub cited_by_count: Option<u64>,
}

/// An author of a work with the author's institutions.
#[derive(Clone, Debug)]
pub struct Authorship {
    pub author: AuthorRef,
    pub institutions: Option<Vec<Institution>>,
}

/// The name of an author.
#[derive(Clone, Debug)]
pub struct AuthorRef {
    pub display_name: Option<String>,
}

impl Default for AuthorRef {
    fn default() -> (r: AuthorRef)
        ensures
            r.display_name matches Some(n) && n@ == "Unknown"@,
    {
        AuthorRef { display_name: Some(String::from_str("Unknown")) }
    }
}

/// An institution of an author.
#[derive(Clone, Debug)]
pub struct Institution {
    pub display_name: Option<String>,
}

/// Open-access information of a work.
#[derive(Clone, Debug)]
pub struct OpenAccess {
    pub oa_url: Option<String>,
}

/// The best open-access location of a work.
#[derive(Clone, Debug)]
pub struct OaLocation {
    pub pdf_url: Option<String>,
}

// ---------------------------------------------------------------------------------------------
// Abstract reconstruction
/// The entries of an inverted abstract as texts and positions.
pub open spec fn index_view(entries: Seq<(String, Vec<usize>)>) -> Seq<(Seq<char>, Seq<usize>)> {
    entries.map_values(|e: (String, Vec<usize>)| (e.0@, e.1@))
}

/// The largest position listed in the first `k` entries, or 0 when there is none.
pub open spec fn max_position_upto(entries: Seq<(Seq<char>, Seq<usize>)>, k: int) -> nat
    decreases k,
{
    if k <= 0 {
        0
    } else {
        let m = max_position_upto(entries, k - 1);
        let e = max_in(entries[k - 1].1, entries[k - 1].1.len() as int);
        if e > m {
            e
        } else {
            m
        }
    }
}

/// The largest of the first `k` positions, or 0.
pub open spec fn max_in(ps: Seq<usize>, k: int) -> nat
    decreases k,
{
    if k <= 0 {
        0
    } else {
        let m = max_in(ps, k - 1);
        if ps[k - 1] > m {
            ps[k - 1] as nat
        } else {
            m
        }
    }
}

/// The largest position of the index, or 0.
pub open spec fn max_position(entries: Seq<(Seq<char>, Seq<usize>)>) -> nat {
    max_position_upto(entries, entries.len() as int)
}

/// The word at position `p` after the first `k` entries are placed: the word of the last of
/// them that lists `p`, or the empty word.
pub open spec fn word_at_upto(entries: Seq<(Seq<char>, Seq<usize>)>, k: int, p: int) -> Seq<char>
    decreases k,
{
    if k <= 0 {
        seq![]
    } else if entries[k - 1].1.contains(p as usize) && 0 <= p {
        entries[k - 1].0
    } else {
        word_at_upto(entries, k - 1, p)
    }
}

/// The text of an inverted abstract: one slot per position from 0 to the largest one, each
/// holding the word of the last entry that lists it (or nothing), joined with spaces.
pub open spec fn abstract_text_of(entries: Seq<(Seq<char>, Seq<usize>)>) -> Seq<char> {
    join_with(
        Seq::new(max_position(entries) + 1, |p: int| word_at_upto(entries, entries.len() as int, p)),
        seq![' '],
    )
}

/// Whether every position of the index is below `usize::MAX`.
pub open spec fn positions_bounded(entries: Seq<(Seq<char>, Seq<usize>)>) -> bool {
    forall|i: int, j: int|
        0 <= i < entries.len() && 0 <= j < entries[i].1.len() ==> #[trigger] entries[i].1[j]
            < usize::MAX
}

proof fn lemma_max_in_bound(ps: Seq<usize>, k: int)
    requires
        0 <= k <= ps.len(),
    ensures
        forall|j: int| 0 <= j < k ==> ps[j] <= max_in(ps, k),
        k > 0 ==> exists|j: int| 0 <= j < k && ps[j] == max_in(ps, k),
        k == 0 ==> max_in(ps, k) == 0,
    decreases k,
{
    if k > 0 {
        lemma_max_in_bound(ps, k - 1);
        if ps[k - 1] > max_in(ps, k - 1) {
            assert(ps[k - 1] == max_in(ps, k));
        } else if k == 1 {
            assert(ps[0] == max_in(ps, k));
        } else {
            let j = choose|j: int| 0 <= j < k - 1 && ps[j] == max_in(ps, k - 1);
            assert(ps[j] == max_in(ps, k));
        }
    }
}

proof fn lemma_max_position_bound(entries: Seq<(Seq<char>, Seq<usize>)>, k: int)
    requires
        0 <= k <= entries.len(),
    ensures
        forall|i: int, j: int|
            0 <= i < k && 0 <= j < entries[i].1.len() ==> #[trigger] entries[i].1[j]
                <= max_position_upto(entries, k),
        max_position_upto(entries, k) == 0 || exists|i: int, j: int|
            0 <= i < k && 0 <= j < entries[i].1.len() && entries[i].1[j] == max_position_upto(
                entries,
                k,
            ),
    decreases k,
{
    if k > 0 {
        lemma_max_position_bound(entries, k - 1);
        lemma_max_in_bound(entries[k - 1].1, entries[k - 1].1.len() as int);
    }
}

proof fn lemma_push_contains(s: Seq<usize>, x: usize, y: usize)
    ensures
        s.push(x).contains(y) <==> (s.contains(y) || x == y),
{
    if s.push(x).contains(y) {
        let q = choose|q: int| 0 <= q < s.push(x).len() && #[trigger] s.push(x)[q] == y;
        if q < s.len() {
            assert(s[q] == y);
        }
    }
    if s.contains(y) {
        let q = choose|q: int| 0 <= q < s.len() && #[trigger] s[q] == y;
        assert(s.push(x)[q] == y);
    }
    if x == y {
        assert(s.push(x)[s.len() as int] == y);
    }
}

/// The largest position of the index.
fn max_position_exec(entries: &Vec<(String, Vec<usize>)>) -> (r: usize)
    ensures
        r == max_position(index_view(entries@)),
{
    let ghost ev = index_view(entries@);
    let mut m: usize = 0;
    let mut i: usize = 0;
    while i < entries.len()
        invariant
            0 <= i <= entries@.len(),
            ev == index_view(entries@),
            m == max_position_upto(ev, i as int),
        decreases entries@.len() - i,
    {
        let ps = &entries[i].1;
        assert(ev[i as int].1 == ps@);
        let mut e: usize = 0;
        let mut j: usize = 0;
        while j < ps.len()
            invariant
                0 <= j <= ps@.len(),
                e == max_in(ps@, j as int),
            decreases ps@.len() - j,
        {
            if ps[j] > e {
                e = ps[j];
            }
            j = j + 1;
        }
        if e > m {
            m = e;
        }
        i = i + 1;
    }
    m
}

/// Rebuilds the text of an abstract from its inverted index (word to positions). Positions
/// that no word lists stay empty; where two entries list the same position, the later entry's
/// word is kept.
pub fn reconstruct_abstract(entries: &Vec<(String, Vec<usize>)>) -> (r: String)
    requires
        positions_bounded(index_view(entries@)),
    ensures
        r@ == abstract_text_of(index_view(entries@)),
{
    let ghost ev = index_view(entries@);
    let max_pos = max_position_exec(entries);
    proof {
        lemma_max_position_bound(ev, ev.len() as int);
        if max_pos > 0 {
            let (i, j) = choose|i: int, j: int|
                0 <= i < ev.len() && 0 <= j < ev[i].1.len() && ev[i].1[j] == max_pos;
            assert(ev[i].1[j] < usize::MAX);
        }
    }
    let n = max_pos + 1;
    let mut slots: Vec<Vec<char>> = Vec::new();
    let mut k: usize = 0;
    while k < n
        invariant
            0 <= k <= n,
            slots@.len() == k,
            forall|p: int| 0 <= p < k ==> (#[trigger] slots@[p])@ == Seq::<char>::empty(),
        decreases n - k,
    {
        slots.push(Vec::new());
        k = k + 1;
    }
    let mut i: usize = 0;
    while i < entries.len()
        invariant
            0 <= i <= entries@.len(),
            ev == index_view(entries@),
            n == max_position(ev) + 1,
            slots@.len() == n,
            forall|i2: int, j2: int|
                0 <= i2 < ev.len() && 0 <= j2 < ev[i2].1.len() ==> #[trigger] ev[i2].1[j2] < n,
            forall|p: int| 0 <= p < n ==> (#[trigger] slots@[p])@ == word_at_upto(ev, i as int, p),
        decreases entries@.len() - i,
    {
        let word = chars_of(entries[i].0.as_str());
        let ps = &entries[i].1;
        assert(ev[i as int].1 == ps@);
        assert(ev[i as int].0 == word@);
        let mut j: usize = 0;
        while j < ps.len()
            invariant
                0 <= i < entries@.len(),
                ev == index_view(entries@),
                ev[i as int].1 == ps@,
                ev[i as int].0 == word@,
                0 <= j <= ps@.len(),
                slots@.len() == n,
                forall|j2: int| 0 <= j2 < ps@.len() ==> #[trigger] ps@[j2] < n,
                forall|p: int|
                    0 <= p < n ==> (#[trigger] slots@[p])@ == if ps@.take(j as int).contains(
                        p as usize,
                    ) {
                        word@
                    } else {
                        word_at_upto(ev, i as int, p)
                    },
            decreases ps@.len() - j,
        {
            let pos = ps[j];
            assert(ev[i as int].1[j as int] == pos);
            let w = copy_chars(word.as_slice());
            slots.set(pos, w);
            proof {
                assert forall|p: int| 0 <= p < n implies (#[trigger] slots@[p])@ == if ps@.take(
                    j + 1,
                ).contains(p as usize) {
                    word@
                } else {
                    word_at_upto(ev, i as int, p)
                } by {
                    assert(ps@.take(j + 1) =~= ps@.take(j as int).push(pos));
                    lemma_push_contains(ps@.take(j as int), pos, p as usize);
                }
            }
            j = j + 1;
        }
        proof {
            assert(ps@.take(ps@.len() as int) =~= ps@);
            assert forall|p: int| 0 <= p < n implies (#[trigger] slots@[p])@ == word_at_upto(
                ev,
                i + 1,
                p,
            ) by {}
        }
        i = i + 1;
    }
    proof {
        assert(views(slots@) =~= Seq::new(
            max_position(ev) + 1,
            |p: int| word_at_upto(ev, ev.len() as int, p),
        ));
    }
    let sep: [char; 1] = [' '];
    let joined = join(&slots, sep.as_slice());
    proof {
        assert(sep@ =~= seq![' ']);
    }
    string_of(joined.as_slice())
}


// ---------------------------------------------------------------------------------------------
// Works to papers
/// The texts of a list of strings.
pub open spec fn string_views(v: Seq<String>) -> Seq<Seq<char>> {
    v.map_values(|s: String| s@)
}

/// The text of an optional string, or the empty text.
pub open spec fn text_or_empty(s: Option<String>) -> Seq<char> {
    match s {
        Some(x) => x@,
        None => seq![],
    }
}

/// The names of the institutions that have one, in order.
pub open spec fn present_names(s: Seq<Institution>) -> Seq<Seq<char>>
    decreases s.len(),
{
    if s.len() == 0 {
        seq![]
    } else {
        let rest = present_names(s.drop_last());
        match s.last().display_name {
            Some(n) => rest.push(n@),
            None => rest,
        }
    }
}

/// The affiliations listed for an author.
pub open spec fn affiliations_of(insts: Option<Vec<Institution>>) -> Seq<Seq<char>> {
    match insts {
        Some(v) => present_names(v@),
        None => seq![],
    }
}

/// Whether `a` is the author described by `src`.
pub open spec fn author_matches(a: Author, src: Authorship) -> bool {
    &&& a.name@ == text_or_empty(src.author.display_name)
    &&& string_views(a.affiliations@) == affiliations_of(src.institutions)
}

/// The authorships of a work (none when absent).
pub open spec fn authorships_of(w: Work) -> Seq<Authorship> {
    match w.authorships {
        Some(v) => v@,
        None => seq![],
    }
}

/// The abstract of a work: the text of its inverted index when that index has entries.
pub open spec fn abstract_of(w: Work) -> Option<Seq<char>> {
    match w.abstract_inverted_index {
        Some(idx) => if idx@.len() > 0 {
            Some(abstract_text_of(index_view(idx@)))
        } else {
            None
        },
        None => None,
    }
}

/// The DOI of a work without the `https://doi.org/` prefix.
pub open spec fn doi_of(w: Work) -> Option<Seq<char>> {
    match w.doi {
        Some(d) => Some(strip_or_keep(d@, "https://doi.org/"@)),
        None => None,
    }
}

/// The publication date of a work, when its text parses as `%Y-%m-%d`.
pub open spec fn date_of(w: Work) -> Option<(int, int, int)> {
    match w.publication_date {
        Some(s) => match crate::dates::chrono_ymd(s@) {
            Ok(t) => Some(t),
            Err(_) => None,
        },
        None => None,
    }
}

/// Where a work can be downloaded: the PDF of its best open-access location, else its
/// open-access URL.
pub open spec fn download_of(w: Work) -> Option<Seq<char>> {
    let best = match w.best_oa_location {
        Some(l) => crate::config::opt_text(l.pdf_url),
        None => None,
    };
    if best is Some {
        best
    } else {
        match w.open_access {
            Some(o) => crate::config::opt_text(o.oa_url),
            None => None,
        }
    }
}

/// Whether `p` is the paper that the work `w` describes.
pub open spec fn paper_from_work(p: Paper, w: Work) -> bool {
    &&& p.id@ == strip_or_keep(w.id@, "https://openalex.org/"@)
    &&& p.title@ == text_or_empty(w.display_name)
    &&& p.authors@.len() == authorships_of(w).len()
    &&& forall|i: int|
        0 <= i < p.authors@.len() ==> author_matches(#[trigger] p.authors@[i], authorships_of(w)[i])
    &&& crate::config::opt_text(p.abstract_text) == abstract_of(w)
    &&& crate::dates::opt_ymd(p.publication_date) == date_of(w)
    &&& crate::dates::opt_valid(p.publication_date)
    &&& crate::config::opt_text(p.doi) == doi_of(w)
    &&& crate::config::opt_text(p.download_url) == download_of(w)
    &&& p.cited_by_count == w.cited_by_count
    &&& p.source@ == "openalex"@
}

/// Whether the positions of the work's inverted abstract stay below `usize::MAX`.
pub open spec fn work_ok(w: Work) -> bool {
    match w.abstract_inverted_index {
        Some(idx) => positions_bounded(index_view(idx@)),
        None => true,
    }
}

fn institution_names(insts: &Option<Vec<Institution>>) -> (r: Vec<String>)
    ensures
        string_views(r@) == affiliations_of(*insts),
{
    let mut out: Vec<String> = Vec::new();
    match insts {
        None => {
            assert(string_views(out@) =~= seq![]);
            out
        },
        Some(v) => {
            let mut i: usize = 0;
            while i < v.len()
                invariant
                    0 <= i <= v@.len(),
                    string_views(out@) == present_names(v@.take(i as int)),
                decreases v@.len() - i,
            {
                proof {
                    assert(v@.take(i + 1).drop_last() =~= v@.take(i as int));
                }
                match &v[i].display_name {
                    Some(n) => {
                        let ghost before = out@;
                        out.push(n.clone());
                        assert(string_views(out@) =~= string_views(before).push(n@));
                    },
                    None => {},
                }
                i = i + 1;
            }
            assert(v@.take(v@.len() as int) =~= v@);
            out
        },
    }
}

fn author_from(a: &Authorship) -> (r: Author)
    ensures
        author_matches(r, *a),
{
    let name = match &a.author.display_name {
        Some(n) => n.clone(),
        None => String::new(),
    };
    Author { name, affiliations: institution_names(&a.institutions) }
}

fn authors_from(w: &Work) -> (r: Vec<Author>)
    ensures
        r@.len() == authorships_of(*w).len(),
        forall|i: int| 0 <= i < r@.len() ==> author_matches(#[trigger] r@[i], authorships_of(*w)[i]),
{
    let mut out: Vec<Author> = Vec::new();
    match &w.authorships {
        None => out,
        Some(v) => {
            let mut i: usize = 0;
            while i < v.len()
                invariant
                    0 <= i <= v@.len(),
                    authorships_of(*w) == v@,
                    out@.len() == i,
                    forall|k: int| 0 <= k < i ==> author_matches(#[trigger] out@[k], v@[k]),
                decreases v@.len() - i,
            {
                out.push(author_from(&v[i]));
                i = i + 1;
            }
            out
        },
    }
}

fn strip_text(s: &String, prefix: &str) -> (r: String)
    ensures
        r@ == strip_or_keep(s@, prefix@),
{
    let v = chars_of(s.as_str());
    let p = chars_of(prefix);
    let t = strip_prefix_or_keep(v.as_slice(), p.as_slice());
    string_of(t.as_slice())
}

/// The fields asked of OpenAlex for each work.
pub open spec fn select_fields() -> Seq<char> {
    "id,doi,display_name,publication_date,abstract_inverted_index,authorships,open_access,best_oa_location,cited_by_count"@
}

/// The provider for the OpenAlex API.
pub struct OpenAlexProvider {
    client: reqwest::Client,
    base_url: String,
    api_key: Option<String>,
}

impl OpenAlexProvider {
    /// The base URL of the API.
    pub closed spec fn base(&self) -> Seq<char> {
        self.base_url@
    }

    /// The API key, if any.
    pub closed spec fn key(&self) -> Option<Seq<char>> {
        crate::config::opt_text(self.api_key)
    }

    /// A provider for the configured API; fails when the HTTP client cannot be built.
    pub fn new(config: &OpenAlexConfig) -> (r: Result<OpenAlexProvider, PaperError>)
        ensures
            match r {
                Ok(p) => p.base() == config.base_url@ && p.key() == crate::config::opt_text(
                    config.api_key,
                ) && client_timeout_secs(p.http_client()) == config.timeout_secs,
                Err(e) => e matches PaperError::Http { message, timed_out } && !timed_out
                    && "Failed to build HTTP client: "@.is_prefix_of(message@),
            },
    {
        match build_http_client(config.timeout_secs) {
            Ok(client) => Ok(
                OpenAlexProvider {
                    client,
                    base_url: config.base_url.clone(),
                    api_key: config.api_key.clone(),
                },
            ),
            Err(e) => {
                let mut m = crate::text::text("Failed to build HTTP client: ");
                let ev = chars_of(e.as_str());
                push_all(&mut m, ev.as_slice());
                Err(PaperError::Http { message: string_of(m.as_slice()), timed_out: false })
            },
        }
    }

    /// The HTTP client that the provider sends its requests with.
    pub closed spec fn http_client(&self) -> reqwest::Client {
        self.client
    }

    /// The HTTP client of the provider.
    pub fn client(&self) -> (r: &reqwest::Client)
        ensures
            *r == self.http_client(),
    {
        &self.client
    }

    pub fn name(&self) -> (r: &'static str)
        ensures
            r@ == "openalex"@,
    {
        "openalex"
    }

    pub fn priority(&self) -> (r: u8)
        ensures
            r == 90,
    {
        90
    }

    pub fn supported_search_types(&self) -> (r: Vec<SearchType>)
        ensures
            r@ == seq![
                SearchType::Keywords,
                SearchType::Title,
                SearchType::Author,
                SearchType::DOI,
                SearchType::Subject,
            ],
    {
        let mut v = Vec::new();
        v.push(SearchType::Keywords);
        v.push(SearchType::Title);
        v.push(SearchType::Author);
        v.push(SearchType::DOI);
        v.push(SearchType::Subject);
        assert(v@ =~= seq![
            SearchType::Keywords,
            SearchType::Title,
            SearchType::Author,
            SearchType::DOI,
            SearchType::Subject,
        ]);
        v
    }

    /// The paper that an OpenAlex work describes.
    pub fn work_to_paper(&self, work: Work) -> (r: Paper)
        requires
            work_ok(work),
        ensures
            paper_from_work(r, work),
    {
        self.paper_of(&work)
    }

    /// The paper that an OpenAlex work describes.
    pub fn paper_of(&self, work: &Work) -> (r: Paper)
        requires
            work_ok(*work),
        ensures
            paper_from_work(r, *work),
    {
        let id = strip_text(&work.id, "https://openalex.org/");
        let title = match &work.display_name {
            Some(t) => t.clone(),
            None => String::new(),
        };
        let authors = authors_from(work);
        let abstract_text = match &work.abstract_inverted_index {
            Some(idx) => if idx.len() > 0 {
                Some(reconstruct_abstract(idx))
            } else {
                None
            },
            None => None,
        };
        let doi = match &work.doi {
            Some(d) => Some(strip_text(d, "https://doi.org/")),
            None => None,
        };
        let publication_date = match &work.publication_date {
            Some(s) => match parse_ymd(s.as_str()) {
                Ok(d) => Some(d),
                Err(_) => None,
            },
            None => None,
        };
        let best = match &work.best_oa_location {
            Some(l) => l.pdf_url.clone(),
            None => None,
        };
        let download_url = if best.is_some() {
            best
        } else {
            match &work.open_access {
                Some(o) => o.oa_url.clone(),
                None => None,
            }
        };
        Paper {
            id,
            title,
            authors,
            abstract_text,
            publication_date,
            doi,
            download_url,
            cited_by_count: work.cited_by_count,
            source: String::from_str("openalex"),
        }
    }
}


// ---------------------------------------------------------------------------------------------
// Search requests
/// A name/value pair of texts.
pub type Param = (Seq<char>, Seq<char>);

/// The parameter that carries the query text, by search type.
pub open spec fn type_param(q: SearchQuery) -> Param {
    match q.search_type {
        SearchType::Keywords => ("search"@, q.query@),
        SearchType::Title => ("filter"@, "title.search:"@ + q.query@),
        SearchType::Author => ("filter"@, "authorships.author.display_name.search:"@ + q.query@),
        SearchType::Subject => ("filter"@, "topics.display_name.search:"@ + q.query@),
        SearchType::DOI => ("search"@, q.query@),
    }
}

/// The publication-date filter: the first day included, and the last day included (the day
/// before the exclusive upper bound).
pub open spec fn date_params(df: Option<DateFilter>) -> Seq<Param> {
    match df {
        None => seq![],
        Some(f) => {
            let from: Seq<Seq<char>> = match f.after {
                Some(a) => seq!["from_publication_date:"@ + date_text_of(a.ymd())],
                None => seq![],
            };
            let to: Seq<Seq<char>> = match f.before {
                Some(b) => seq![
                    "to_publication_date:"@ + date_text_of(
                        prev_day(b.ymd().0, b.ymd().1, b.ymd().2),
                    ),
                ],
                None => seq![],
            };
            let parts = from + to;
            if parts.len() > 0 {
                seq![("filter"@, join_with(parts, ","@))]
            } else {
                seq![]
            }
        },
    }
}

/// The sort parameter: relevance only for keyword searches, else by date or citations.
pub open spec fn sort_params(q: SearchQuery) -> Seq<Param> {
    match q.sort_by {
        SortBy::Relevance => if q.search_type == SearchType::Keywords {
            seq![("sort"@, "relevance_score:desc"@)]
        } else {
            seq![]
        },
        SortBy::Date => seq![("sort"@, "publication_date:desc"@)],
        SortBy::Citations => seq![("sort"@, "cited_by_count:desc"@)],
    }
}

/// Results per page: the requested number, at most 200.
pub open spec fn per_page_of(q: SearchQuery) -> nat {
    if q.max_results < 200 {
        q.max_results as nat
    } else {
        200
    }
}

/// The page that holds the offset, counting from 1.
pub open spec fn page_of(q: SearchQuery) -> nat {
    let size: nat = if q.max_results >= 1 {
        q.max_results as nat
    } else {
        1
    };
    (q.offset as nat / size) + 1
}

/// The query parameters of an OpenAlex search.
pub open spec fn openalex_params(q: SearchQuery, key: Option<Seq<char>>) -> Seq<Param> {
    seq![type_param(q)] + date_params(q.date_filter) + sort_params(q) + seq![
        ("per_page"@, decimal(per_page_of(q))),
        ("page"@, decimal(page_of(q))),
        ("select"@, select_fields()),
    ] + match key {
        Some(k) => seq![("api_key"@, k)],
        None => seq![],
    }
}

/// Whether a query can be turned into a search URL: its date filter holds valid days, the
/// upper bound has a day before it, and the page number fits in `usize`.
pub open spec fn query_ok(q: SearchQuery) -> bool {
    &&& match q.date_filter {
        Some(f) => f.valid() && match f.before {
            Some(b) => valid_triple(prev_day(b.ymd().0, b.ymd().1, b.ymd().2)),
            None => true,
        },
        None => true,
    }
    &&& page_of(q) <= usize::MAX
}

fn make_pair(k: &str, v: Vec<char>) -> (r: (String, String))
    ensures
        r.0@ == k@,
        r.1@ == v@,
{
    (String::from_str(k), string_of(v.as_slice()))
}

fn prefixed(p: &str, v: &[char]) -> (r: Vec<char>)
    ensures
        r@ == p@ + v@,
{
    let mut r = crate::text::text(p);
    push_all(&mut r, v);
    r
}

fn push_param(ps: &mut Vec<(String, String)>, k: &str, v: Vec<char>)
    ensures
        pair_views(final(ps)@) == pair_views(old(ps)@).push((k@, v@)),
{
    let ghost before = ps@;
    ps.push(make_pair(k, v));
    assert(pair_views(ps@) =~= pair_views(before).push((k@, v@)));
}

/// The texts of a date.
fn date_chars(d: &Date) -> (r: Vec<char>)
    requires
        d.valid(),
    ensures
        r@ == date_text_of(d.ymd()),
{
    let t = date_text(d);
    chars_of(t.as_str())
}

fn type_pair(query: &SearchQuery) -> (r: Vec<(String, String)>)
    ensures
        pair_views(r@) == seq![type_param(*query)],
{
    let mut ps: Vec<(String, String)> = Vec::new();
    let q = chars_of(query.query.as_str());
    match query.search_type {
        SearchType::Keywords => push_param(&mut ps, "search", q),
        SearchType::Title => push_param(&mut ps, "filter", prefixed("title.search:", q.as_slice())),
        SearchType::Author => push_param(
            &mut ps,
            "filter",
            prefixed("authorships.author.display_name.search:", q.as_slice()),
        ),
        SearchType::Subject => push_param(
            &mut ps,
            "filter",
            prefixed("topics.display_name.search:", q.as_slice()),
        ),
        SearchType::DOI => push_param(&mut ps, "search", q),
    }
    assert(pair_views(ps@) =~= seq![type_param(*query)]);
    ps
}

fn date_pairs(df: &Option<DateFilter>) -> (r: Vec<(String, String)>)
    requires
        match *df {
            Some(f) => f.valid() && match f.before {
                Some(b) => valid_triple(prev_day(b.ymd().0, b.ymd().1, b.ymd().2)),
                None => true,
            },
            None => true,
        },
    ensures
        pair_views(r@) == date_params(*df),
{
    let mut ps: Vec<(String, String)> = Vec::new();
    match df {
        None => {
            assert(pair_views(ps@) =~= date_params(*df));
        },
        Some(f) => {
            let mut parts: Vec<Vec<char>> = Vec::new();
            match &f.after {
                Some(a) => {
                    parts.push(prefixed("from_publication_date:", date_chars(a).as_slice()));
                },
                None => {},
            }
            let ghost first = views(parts@);
            match &f.before {
                Some(b) => {
                    let last = match crate::dates::date_pred(b) {
                        Some(d) => d,
                        None => *b,
                    };
                    parts.push(prefixed("to_publication_date:", date_chars(&last).as_slice()));
                    assert(views(parts@) =~= first.push(
                        "to_publication_date:"@ + date_text_of(
                            prev_day(b.ymd().0, b.ymd().1, b.ymd().2),
                        ),
                    ));
                },
                None => {},
            }
            let ghost from: Seq<Seq<char>> = match f.after {
                Some(a) => seq!["from_publication_date:"@ + date_text_of(a.ymd())],
                None => seq![],
            };
            let ghost to: Seq<Seq<char>> = match f.before {
                Some(b) => seq![
                    "to_publication_date:"@ + date_text_of(
                        prev_day(b.ymd().0, b.ymd().1, b.ymd().2),
                    ),
                ],
                None => seq![],
            };
            assert(first =~= from);
            assert(views(parts@) =~= from + to);
            if parts.len() > 0 {
                let sep: [char; 1] = [','];
                assert(sep@ =~= ","@) by {
                    reveal_strlit(",");
                }
                let joined = join(&parts, sep.as_slice());
                push_param(&mut ps, "filter", joined);
            }
            assert(pair_views(ps@) =~= date_params(*df));
        },
    }
    ps
}

fn sort_pairs(query: &SearchQuery) -> (r: Vec<(String, String)>)
    ensures
        pair_views(r@) == sort_params(*query),
{
    let mut ps: Vec<(String, String)> = Vec::new();
    match query.sort_by {
        SortBy::Relevance => {
            if query.search_type == SearchType::Keywords {
                push_param(&mut ps, "sort", crate::text::text("relevance_score:desc"));
            }
        },
        SortBy::Date => push_param(&mut ps, "sort", crate::text::text("publication_date:desc")),
        SortBy::Citations => push_param(&mut ps, "sort", crate::text::text("cited_by_count:desc")),
    }
    assert(pair_views(ps@) =~= sort_params(*query));
    ps
}

fn paging_pairs(query: &SearchQuery, key: &Option<String>) -> (r: Vec<(String, String)>)
    requires
        page_of(*query) <= usize::MAX,
    ensures
        pair_views(r@) == seq![
            ("per_page"@, decimal(per_page_of(*query))),
            ("page"@, decimal(page_of(*query))),
            ("select"@, select_fields()),
        ] + match crate::config::opt_text(*key) {
            Some(k) => seq![("api_key"@, k)],
            None => seq![],
        },
{
    let mut ps: Vec<(String, String)> = Vec::new();
    let per_page: usize = if query.max_results < 200 {
        query.max_results
    } else {
        200
    };
    let size: usize = if query.max_results >= 1 {
        query.max_results
    } else {
        1
    };
    let page: usize = query.offset / size + 1;
    push_param(&mut ps, "per_page", decimal_text(per_page as u64));
    push_param(&mut ps, "page", decimal_text(page as u64));
    push_param(
        &mut ps,
        "select",
        crate::text::text(
            "id,doi,display_name,publication_date,abstract_inverted_index,authorships,open_access,best_oa_location,cited_by_count",
        ),
    );
    match key {
        Some(k) => push_param(&mut ps, "api_key", chars_of(k.as_str())),
        None => {},
    }
    assert(pair_views(ps@) =~= seq![
        ("per_page"@, decimal(per_page_of(*query))),
        ("page"@, decimal(page_of(*query))),
        ("select"@, select_fields()),
    ] + match crate::config::opt_text(*key) {
        Some(k) => seq![("api_key"@, k)],
        None => seq![],
    });
    ps
}

fn append_params(a: &mut Vec<(String, String)>, b: Vec<(String, String)>)
    ensures
        pair_views(final(a)@) == pair_views(old(a)@) + pair_views(b@),
{
    let mut b = b;
    let ghost ao = a@;
    let ghost bo = b@;
    a.append(&mut b);
    assert(pair_views(a@) =~= pair_views(ao) + pair_views(bo));
}

impl OpenAlexProvider {
    /// The query parameters of a search.
    pub fn search_params(&self, query: &SearchQuery) -> (r: Vec<(String, String)>)
        requires
            query_ok(*query),
        ensures
            pair_views(r@) == openalex_params(*query, self.key()),
    {
        let mut ps = type_pair(query);
        append_params(&mut ps, date_pairs(&query.date_filter));
        append_params(&mut ps, sort_pairs(query));
        append_params(&mut ps, paging_pairs(query, &self.api_key));
        ps
    }

    /// The search URL for a query: the `works` endpoint with the search parameters. A URL
    /// that does not parse gives `InvalidInput` with the parse error's text.
    pub fn build_search_url(&self, query: &SearchQuery) -> (r: Result<String, PaperError>)
        requires
            query_ok(*query),
        ensures
            match r {
                Ok(u) => url_with_query(
                    self.base() + "/works"@,
                    openalex_params(*query, self.key()),
                ) == Ok::<Seq<char>, Seq<char>>(u@),
                Err(e) => e matches PaperError::InvalidInput(m) && url_with_query(
                    self.base() + "/works"@,
                    openalex_params(*query, self.key()),
                ) == Err::<Seq<char>, Seq<char>>(m@),
            },
            r is Ok && !self.base().contains('?') && !self.base().contains('#') ==> (seq!['?']
                + form_pairs(openalex_params(*query, self.key()))).is_suffix_of(r->Ok_0@),
    {
        let params = self.search_params(query);
        let mut base = chars_of(self.base_url.as_str());
        push_str(&mut base, "/works");
        let base_text = string_of(base.as_slice());
        proof {
            reveal_strlit("/works");
            let w = "/works"@;
            assert(base_text@ == self.base() + w);
            if base_text@.contains('?') {
                let k = choose|k: int| 0 <= k < base_text@.len() && base_text@[k] == '?';
                if k >= self.base().len() {
                    assert(w[k - self.base().len()] == '?');
                } else {
                    assert(self.base()[k] == '?');
                }
            }
            if base_text@.contains('#') {
                let k = choose|k: int| 0 <= k < base_text@.len() && base_text@[k] == '#';
                if k >= self.base().len() {
                    assert(w[k - self.base().len()] == '#');
                } else {
                    assert(self.base()[k] == '#');
                }
            }
            assert(openalex_params(*query, self.key()).len() > 0);
            assert(pair_views(params@).len() == params@.len());
        }
        match build_url(base_text.as_str(), &params) {
            Ok(u) => Ok(u),
            Err(e) => Err(PaperError::InvalidInput(e)),
        }
    }
}


// ---------------------------------------------------------------------------------------------
// Responses
/// Whether an HTTP status code means success (2xx).
pub open spec fn is_success(status: u16) -> bool {
    200 <= status <= 299
}

/// The delay given by a `Retry-After` header in whole seconds, if it is one.
pub open spec fn retry_after_of(value: Option<Seq<char>>) -> Option<TimeSpan> {
    match value {
        Some(v) => match parse_unsigned(v, u64::MAX as nat) {
            Some(n) => Some(TimeSpan { secs: n as u64, nanos: 0 }),
            None => None,
        },
        None => None,
    }
}

/// Reads a `Retry-After` header given in whole seconds.
pub fn retry_after_from_header(value: Option<&str>) -> (r: Option<TimeSpan>)
    ensures
        r == retry_after_of(match value {
            Some(v) => Some(v@),
            None => None,
        }),
{
    match value {
        None => None,
        Some(v) => {
            let cs = chars_of(v);
            match parse_unsigned_text(cs.as_slice(), u64::MAX) {
                Some(n) => Some(TimeSpan::from_secs(n)),
                None => None,
            }
        },
    }
}

/// The error for a status that is neither success nor handled otherwise.
fn unavailable(status_text: &str) -> (r: PaperError)
    ensures
        r matches PaperError::ProviderUnavailable(m) && m@ == "OpenAlex returned "@ + status_text@,
{
    let mut m = crate::text::text("OpenAlex returned ");
    push_str(&mut m, status_text);
    PaperError::ProviderUnavailable(string_of(m.as_slice()))
}

fn rate_limited(retry_after: Option<&str>) -> (r: PaperError)
    ensures
        r matches PaperError::RateLimited { provider, retry_after: ra } && provider@ == "openalex"@
            && ra == retry_after_of(match retry_after {
            Some(v) => Some(v@),
            None => None,
        }),
{
    PaperError::RateLimited {
        provider: String::from_str("openalex"),
        retry_after: retry_after_from_header(retry_after),
    }
}

/// What the status of a search response means: 429 is a rate limit (with the delay of the
/// `Retry-After` header, if it is a number of seconds), any other non-2xx status makes the
/// provider unavailable (`OpenAlex returned <status>`), and 2xx lets the body be read.
pub fn check_search_status(status: u16, status_text: &str, retry_after: Option<&str>) -> (r: Result<
    (),
    PaperError,
>)
    ensures
        status == 429 ==> (r matches Err(PaperError::RateLimited { provider, retry_after: ra })
            && provider@ == "openalex"@ && ra == retry_after_of(match retry_after {
            Some(v) => Some(v@),
            None => None,
        })),
        status != 429 && !is_success(status) ==> (r matches Err(
            PaperError::ProviderUnavailable(m),
        ) && m@ == "OpenAlex returned "@ + status_text@),
        status != 429 && is_success(status) ==> r is Ok,
{
    if status == 429 {
        Err(rate_limited(retry_after))
    } else if !(200 <= status && status <= 299) {
        Err(unavailable(status_text))
    } else {
        Ok(())
    }
}

/// What the status of a DOI lookup means: like a search, except that 404 means the work does
/// not exist (`Ok(false)`); `Ok(true)` lets the body be read.
pub fn check_lookup_status(status: u16, status_text: &str, retry_after: Option<&str>) -> (r: Result<
    bool,
    PaperError,
>)
    ensures
        status == 404 ==> r == Ok::<bool, PaperError>(false),
        status == 429 ==> (r matches Err(PaperError::RateLimited { provider, retry_after: ra })
            && provider@ == "openalex"@ && ra == retry_after_of(match retry_after {
            Some(v) => Some(v@),
            None => None,
        })),
        status != 404 && status != 429 && !is_success(status) ==> (r matches Err(
            PaperError::ProviderUnavailable(m),
        ) && m@ == "OpenAlex returned "@ + status_text@),
        is_success(status) ==> r == Ok::<bool, PaperError>(true),
{
    if status == 404 {
        Ok(false)
    } else if status == 429 {
        Err(rate_limited(retry_after))
    } else if !(200 <= status && status <= 299) {
        Err(unavailable(status_text))
    } else {
        Ok(true)
    }
}

/// The result of a DOI search: the paper if found.
pub fn doi_search_result(paper: Option<Paper>) -> (r: SearchResult)
    ensures
        r.total_results == (if paper is Some {
            1usize
        } else {
            0usize
        }),
        r.papers@ == match paper {
            Some(p) => seq![p],
            None => Seq::<Paper>::empty(),
        },
        r.next_offset is None,
        r.provider@ == "openalex"@,
{
    let total: usize = if paper.is_some() {
        1
    } else {
        0
    };
    let mut papers: Vec<Paper> = Vec::new();
    match paper {
        Some(p) => papers.push(p),
        None => {},
    }
    assert(papers@ =~= match paper {
        Some(p) => seq![p],
        None => Seq::<Paper>::empty(),
    });
    SearchResult {
        papers,
        total_results: total,
        next_offset: None,
        provider: String::from_str("openalex"),
    }
}

/// The next page offset after a page: offered while it stays below both the total count and
/// 10000 (how deep OpenAlex pages).
pub open spec fn next_offset_of(q: SearchQuery, count: usize) -> Option<usize> {
    let next = q.offset + q.max_results;
    if next < count && next < 10000 {
        Some(next as usize)
    } else {
        None
    }
}

/// What a request for a search is: a DOI lookup, or a URL to fetch.
pub enum SearchStep {
    LookupDoi(String),
    Fetch(String),
}

impl OpenAlexProvider {
    /// The results of a search response.
    pub fn search_result_from(&self, query: &SearchQuery, body: OpenAlexResponse) -> (r: SearchResult)
        requires
            query.offset + query.max_results <= usize::MAX,
            forall|i: int| 0 <= i < body.results@.len() ==> work_ok(#[trigger] body.results@[i]),
        ensures
            r.papers@.len() == body.results@.len(),
            forall|i: int|
                0 <= i < r.papers@.len() ==> paper_from_work(
                    #[trigger] r.papers@[i],
                    body.results@[i],
                ),
            r.total_results == body.meta.count,
            r.next_offset == next_offset_of(*query, body.meta.count),
            r.provider@ == "openalex"@,
    {
        let count = body.meta.count;
        let works = body.results;
        let mut papers: Vec<Paper> = Vec::new();
        let mut i: usize = 0;
        while i < works.len()
            invariant
                0 <= i <= works@.len(),
                forall|k: int| 0 <= k < works@.len() ==> work_ok(#[trigger] works@[k]),
                papers@.len() == i,
                forall|k: int| 0 <= k < i ==> paper_from_work(#[trigger] papers@[k], works@[k]),
            decreases works@.len() - i,
        {
            papers.push(self.paper_of(&works[i]));
            i = i + 1;
        }
        let next = query.offset + query.max_results;
        let next_offset = if next < count && next < 10000 {
            Some(next)
        } else {
            None
        };
        SearchResult {
            papers,
            total_results: count,
            next_offset,
            provider: String::from_str("openalex"),
        }
    }

    /// The first step of a search: DOI searches look the DOI up; other searches fetch the
    /// search URL.
    pub fn plan_search(&self, query: &SearchQuery) -> (r: Result<SearchStep, PaperError>)
        requires
            query.search_type != SearchType::DOI ==> query_ok(*query),
        ensures
            query.search_type == SearchType::DOI ==> (r matches Ok(SearchStep::LookupDoi(d))
                && d@ == query.query@),
            query.search_type != SearchType::DOI ==> match r {
                Ok(SearchStep::Fetch(u)) => url_with_query(
                    self.base() + "/works"@,
                    openalex_params(*query, self.key()),
                ) == Ok::<Seq<char>, Seq<char>>(u@),
                Ok(SearchStep::LookupDoi(_)) => false,
                Err(e) => e matches PaperError::InvalidInput(m) && url_with_query(
                    self.base() + "/works"@,
                    openalex_params(*query, self.key()),
                ) == Err::<Seq<char>, Seq<char>>(m@),
            },
    {
        if query.search_type == SearchType::DOI {
            Ok(SearchStep::LookupDoi(query.query.clone()))
        } else {
            match self.build_search_url(query) {
                Ok(u) => Ok(SearchStep::Fetch(u)),
                Err(e) => Err(e),
            }
        }
    }

    /// The URL that looks a DOI up: the work `doi:<DOI>` (without any `https://doi.org/`
    /// prefix) with the selected fields and the API key, if any.
    pub fn doi_lookup_url(&self, doi: &str) -> (r: String)
        ensures
            r@ == self.base() + "/works/doi:"@ + strip_or_keep(doi@, "https://doi.org/"@)
                + "?select="@ + select_fields() + match self.key() {
                Some(k) => "&api_key="@ + k,
                None => seq![],
            },
    {
        let d = chars_of(doi);
        let p = crate::text::text("https://doi.org/");
        let bare = strip_prefix_or_keep(d.as_slice(), p.as_slice());
        let mut u = chars_of(self.base_url.as_str());
        push_str(&mut u, "/works/doi:");
        push_all(&mut u, bare.as_slice());
        push_str(&mut u, "?select=");
        push_str(
            &mut u,
            "id,doi,display_name,publication_date,abstract_inverted_index,authorships,open_access,best_oa_location,cited_by_count",
        );
        match &self.api_key {
            Some(k) => {
                push_str(&mut u, "&api_key=");
                push_str(&mut u, k.as_str());
            },
            None => {},
        }
        string_of(u.as_slice())
    }
}


// ---------------------------------------------------------------------------------------------
// Properties of the request and of the abstract
/// A search asks for at most 200 results per page, and the page it asks for is the one
/// that holds the requested offset (pages of `max_results` results, or of 1 when that is 0).
pub proof fn lemma_page_holds_offset(q: SearchQuery)
    ensures
        per_page_of(q) <= 200,
        page_of(q) >= 1,
        ({
            let size: int = if q.max_results >= 1 {
                q.max_results as int
            } else {
                1
            };
            (page_of(q) - 1) * size <= q.offset < page_of(q) * size
        }),
{
    let size: int = if q.max_results >= 1 {
        q.max_results as int
    } else {
        1
    };
    let o = q.offset as int;
    assert((o / size) * size <= o < (o / size + 1) * size) by (nonlinear_arith)
        requires
            size >= 1,
            o >= 0,
    ;
    assert(page_of(q) == o / size + 1);
}

/// The next page of OpenAlex results starts where the requested results end, and is
/// offered only while that offset is below the total count and below 10000.
pub proof fn lemma_next_offset(q: SearchQuery, count: usize)
    ensures
        next_offset_of(q, count) matches Some(n) ==> n == q.offset + q.max_results && n < count
            && n < 10000,
        next_offset_of(q, count) is None ==> q.offset + q.max_results >= count || q.offset
            + q.max_results >= 10000,
{
}

/// A date filter sends its bounds to OpenAlex as one `filter` parameter: the inclusive lower
/// bound as `from_publication_date:` its day, the exclusive upper bound as
/// `to_publication_date:` the day before it, comma-separated when both are present. Each
/// bound is sent whether or not the other one is.
pub proof fn lemma_date_filter_sends_bounds(f: DateFilter)
    ensures
        f.after is None && f.before is None ==> date_params(Some(f)) == Seq::<Param>::empty(),
        f.after is Some && f.before is None ==> date_params(Some(f)) == seq![
            ("filter"@, "from_publication_date:"@ + date_text_of(f.after->Some_0.ymd())),
        ],
        f.after is None && f.before is Some ==> date_params(Some(f)) == seq![
            (
                "filter"@,
                "to_publication_date:"@ + date_text_of(
                    prev_day(f.before->Some_0.year as int, f.before->Some_0.month as int, f.before->Some_0.day as int),
                ),
            ),
        ],
        f.after is Some && f.before is Some ==> date_params(Some(f)) == seq![
            (
                "filter"@,
                "from_publication_date:"@ + date_text_of(f.after->Some_0.ymd()) + ","@
                    + "to_publication_date:"@ + date_text_of(
                    prev_day(f.before->Some_0.year as int, f.before->Some_0.month as int, f.before->Some_0.day as int),
                ),
            ),
        ],
{
    match (f.after, f.before) {
        (Some(a), Some(b)) => {
            let x = "from_publication_date:"@ + date_text_of(a.ymd());
            let y = "to_publication_date:"@ + date_text_of(prev_day(b.ymd().0, b.ymd().1, b.ymd().2));
            assert(seq![x] + seq![y] =~= seq![x, y]);
            assert(seq![x, y].drop_last() =~= seq![x]);
            assert(seq![x, y].last() == y);
            assert(join_with(seq![x], ","@) == x);
            assert(join_with(seq![x, y], ","@) == join_with(seq![x, y].drop_last(), ","@) + ","@
                + seq![x, y].last());
            assert(join_with(seq![x, y], ","@) == x + ","@ + y);
            let tb = date_text_of(prev_day(b.ymd().0, b.ymd().1, b.ymd().2));
            assert(x + ","@ + y =~= "from_publication_date:"@ + date_text_of(a.ymd()) + ","@
                + "to_publication_date:"@ + tb);
        },
        (Some(a), None) => {
            let x = "from_publication_date:"@ + date_text_of(a.ymd());
            assert(seq![x] + Seq::<Seq<char>>::empty() =~= seq![x]);
        },
        (None, Some(b)) => {
            let y = "to_publication_date:"@ + date_text_of(prev_day(b.ymd().0, b.ymd().1, b.ymd().2));
            assert(Seq::<Seq<char>>::empty() + seq![y] =~= seq![y]);
        },
        (None, None) => {
            assert(Seq::<Seq<char>>::empty() + Seq::<Seq<char>>::empty() =~= Seq::<Seq<char>>::empty());
        },
    }
}

/// The affiliations of an author list the names of the institutions that have one, in their
/// order: the institutions of two lists, one after the other, give the affiliations of the
/// first followed by those of the second; a named institution gives its name and an unnamed
/// one nothing.
pub proof fn lemma_affiliations_keep_every_named_institution(
    s1: Seq<Institution>,
    s2: Seq<Institution>,
    i: Institution,
)
    ensures
        present_names(s1 + s2) == present_names(s1) + present_names(s2),
        present_names(seq![i]) == match i.display_name {
            Some(n) => seq![n@],
            None => Seq::<Seq<char>>::empty(),
        },
    decreases s2.len(),
{
    assert(seq![i].drop_last() =~= Seq::<Institution>::empty());
    assert(seq![i].last() == i);
    assert(present_names(Seq::<Institution>::empty()) == Seq::<Seq<char>>::empty());
    assert(present_names(seq![i]) == match i.display_name {
        Some(n) => present_names(Seq::<Institution>::empty()).push(n@),
        None => present_names(Seq::<Institution>::empty()),
    });
    assert(Seq::<Seq<char>>::empty().push(Seq::<char>::empty()).len() == 1);
    match i.display_name {
        Some(n) => {
            assert(Seq::<Seq<char>>::empty().push(n@) =~= seq![n@]);
        },
        None => {},
    }
    if s2.len() == 0 {
        assert(s1 + s2 =~= s1);
        assert(present_names(s1) + present_names(s2) =~= present_names(s1));
    } else {
        lemma_affiliations_keep_every_named_institution(s1, s2.drop_last(), i);
        assert((s1 + s2).drop_last() =~= s1 + s2.drop_last());
        assert((s1 + s2).last() == s2.last());
        match s2.last().display_name {
            Some(n) => {
                assert(present_names(s1) + present_names(s2.drop_last()).push(n@) =~= (
                present_names(s1) + present_names(s2.drop_last())).push(n@));
            },
            None => {},
        }
    }
}

/// Whether some entry lists position `p`.
pub open spec fn listed(entries: Seq<(Seq<char>, Seq<usize>)>, p: int) -> bool {
    exists|i: int| 0 <= i < entries.len() && (#[trigger] entries[i].1).contains(p as usize)
}

/// The word of the entry that lists position `p`.
pub open spec fn word_listing(entries: Seq<(Seq<char>, Seq<usize>)>, p: int) -> Seq<char> {
    entries[choose|i: int| 0 <= i < entries.len() && entries[i].1.contains(p as usize)].0
}

proof fn lemma_word_at_unique(entries: Seq<(Seq<char>, Seq<usize>)>, k: int, p: int, i: int)
    requires
        0 <= i < k <= entries.len(),
        0 <= p,
        entries[i].1.contains(p as usize),
        forall|j: int| 0 <= j < k && j != i ==> !(#[trigger] entries[j].1).contains(p as usize),
    ensures
        word_at_upto(entries, k, p) == entries[i].0,
    decreases k,
{
    if k - 1 != i {
        lemma_word_at_unique(entries, k - 1, p, i);
    }
}

/// When every position below `n` is listed by exactly one entry and no entry lists a
/// position at or above `n`, the reconstructed abstract is the words in position order,
/// separated by single spaces.
pub proof fn lemma_abstract_of_partition(entries: Seq<(Seq<char>, Seq<usize>)>, n: nat)
    requires
        1 <= n <= usize::MAX,
        forall|i: int, j: int|
            0 <= i < entries.len() && 0 <= j < entries[i].1.len() ==> #[trigger] entries[i].1[j]
                < n,
        forall|p: int| 0 <= p < n ==> #[trigger] listed(entries, p),
        forall|p: int, i: int, j: int|
            0 <= p < n && 0 <= i < entries.len() && 0 <= j < entries.len() && i != j
                && #[trigger] entries[i].1.contains(p as usize) ==> !#[trigger] entries[j].1.contains(
                p as usize,
            ),
    ensures
        abstract_text_of(entries) == join_with(
            Seq::new(n, |p: int| word_listing(entries, p)),
            seq![' '],
        ),
{
    lemma_max_position_bound(entries, entries.len() as int);
    let m = max_position(entries);
    let last = (n - 1) as int;
    assert(listed(entries, last));
    let i0 = choose|i: int| 0 <= i < entries.len() && (#[trigger] entries[i].1).contains(
        last as usize,
    );
    let q = choose|q: int| 0 <= q < entries[i0].1.len() && entries[i0].1[q] == last as usize;
    assert(entries[i0].1[q] <= m);
    if m != 0 {
        let (a, b) = choose|a: int, b: int|
            0 <= a < entries.len() && 0 <= b < entries[a].1.len() && entries[a].1[b] == m;
        assert(entries[a].1[b] < n);
    }
    assert(m == n - 1);
    assert forall|p: int| 0 <= p < n implies word_at_upto(entries, entries.len() as int, p)
        == word_listing(entries, p) by {
        assert(listed(entries, p));
        let i = choose|i: int| 0 <= i < entries.len() && (#[trigger] entries[i].1).contains(
            p as usize,
        );
        lemma_word_at_unique(entries, entries.len() as int, p, i);
    }
    assert(Seq::new(m + 1, |p: int| word_at_upto(entries, entries.len() as int, p)) =~= Seq::new(
        n,
        |p: int| word_listing(entries, p),
    ));
}

} // verus!
