//! The arXiv provider: query URLs and the reading of arXiv Atom feeds into papers.
use vstd::prelude::*;

use crate::dates::{parse_ymd, Date};
use crate::fetch::config::ArxivConfig;
use crate::fetch::error::PaperFetchError;
use crate::fetch::models::{Author, Paper, SearchQuery, SearchResult, SearchType};
use crate::text::{
    chars_of, copy_chars, decimal, decimal_text, is_space, is_space_char, parse_unsigned,
    parse_unsigned_text, push_all, push_str, string_of, text, utf8_width,
};
use crate::web::{build_http_client, build_url, client_timeout_secs, form_pairs, pair_views, url_with_query};
use crate::xml::{
    attribute_of, child_indices, child_text, children, find_tagged, first_child_tagged,
    first_tagged_from, has_tag, node_attribute, node_has_tag, opt_chars, parse_xml, root_element,
    root_element_index, xml_nodes, XmlNode,
};

verus! {

// ---------------------------------------------------------------------------------------------
// Text helpers
/// The part of `s` after its last `/` (all of `s` when it has none), as
/// `rsplit("/").next()` gives it.
pub open spec fn last_segment(s: Seq<char>) -> Seq<char>
    decreases s.len(),
{
    if s.len() == 0 {
        s
    } else if s.last() == '/' {
        seq![]
    } else {
        last_segment(s.drop_last()).push(s.last())
    }
}

/// `s` without leading whitespace.
pub open spec fn trim_start(s: Seq<char>) -> Seq<char>
    decreases s.len(),
{
    if s.len() > 0 && is_space(s[0]) {
        trim_start(s.drop_first())
    } else {
        s
    }
}

/// `s` without trailing whitespace.
pub open spec fn trim_end(s: Seq<char>) -> Seq<char>
    decreases s.len(),
{
    if s.len() > 0 && is_space(s.last()) {
        trim_end(s.drop_last())
    } else {
        s
    }
}

/// `s` without leading and trailing whitespace (`str::trim`).
pub open spec fn trim(s: Seq<char>) -> Seq<char> {
    trim_end(trim_start(s))
}

/// The leading characters of `s` whose UTF-8 encoding takes exactly `n` bytes, if `n` falls
/// on a character boundary within `s` (what `str::get(..n)` gives).
pub open spec fn byte_prefix(s: Seq<char>, n: int) -> Option<Seq<char>>
    decreases s.len(),
{
    if n == 0 {
        Some(seq![])
    } else if s.len() == 0 || n < 0 || utf8_width(s[0]) > n {
        None
    } else {
        match byte_prefix(s.drop_first(), n - utf8_width(s[0])) {
            Some(p) => Some(seq![s[0]] + p),
            None => None,
        }
    }
}

fn last_segment_exec(s: &[char]) -> (r: Vec<char>)
    ensures
        r@ == last_segment(s@),
{
    let mut start: usize = 0;
    let mut i: usize = 0;
    while i < s.len()
        invariant
            0 <= start <= i <= s@.len(),
            last_segment(s@.take(i as int)) == s@.subrange(start as int, i as int),
        decreases s@.len() - i,
    {
        proof {
            assert(s@.take(i + 1).drop_last() =~= s@.take(i as int));
        }
        if s[i] == '/' {
            start = i + 1;
            assert(s@.subrange(start as int, i + 1) =~= seq![]);
        } else {
            assert(s@.subrange(start as int, i + 1) =~= s@.subrange(start as int, i as int).push(
                s@[i as int],
            ));
        }
        i = i + 1;
    }
    assert(s@.take(s@.len() as int) =~= s@);
    crate::text::tail_from(s, start)
}

proof fn lemma_trim_start_skip(s: Seq<char>, i: int)
    requires
        0 <= i <= s.len(),
        forall|j: int| 0 <= j < i ==> is_space(#[trigger] s[j]),
    ensures
        trim_start(s) == trim_start(s.subrange(i, s.len() as int)),
    decreases i,
{
    if i > 0 {
        assert(s.drop_first().subrange(i - 1, s.drop_first().len() as int) =~= s.subrange(
            i,
            s.len() as int,
        ));
        assert forall|j: int| 0 <= j < i - 1 implies is_space(#[trigger] s.drop_first()[j]) by {
            assert(s.drop_first()[j] == s[j + 1]);
        }
        lemma_trim_start_skip(s.drop_first(), i - 1);
    } else {
        assert(s.subrange(0, s.len() as int) =~= s);
    }
}

proof fn lemma_trim_end_cut(s: Seq<char>, k: int)
    requires
        0 <= k <= s.len(),
        forall|j: int| k <= j < s.len() ==> is_space(#[trigger] s[j]),
    ensures
        trim_end(s) == trim_end(s.subrange(0, k)),
    decreases s.len() - k,
{
    if k < s.len() {
        assert(s.drop_last().subrange(0, k) =~= s.subrange(0, k));
        assert forall|j: int| k <= j < s.drop_last().len() implies is_space(
            #[trigger] s.drop_last()[j],
        ) by {
            assert(s.drop_last()[j] == s[j]);
        }
        lemma_trim_end_cut(s.drop_last(), k);
    } else {
        assert(s.subrange(0, k) =~= s);
    }
}

/// Removes leading and trailing whitespace.
pub fn trim_exec(s: &[char]) -> (r: Vec<char>)
    ensures
        r@ == trim(s@),
{
    let mut a: usize = 0;
    while a < s.len() && is_space_char(s[a])
        invariant
            0 <= a <= s@.len(),
            forall|j: int| 0 <= j < a ==> is_space(#[trigger] s@[j]),
        decreases s@.len() - a,
    {
        a = a + 1;
    }
    proof {
        lemma_trim_start_skip(s@, a as int);
    }
    let t = crate::text::tail_from(s, a);
    assert(t@.len() == 0 || !is_space(t@[0]));
    assert(trim_start(s@) == t@);
    let mut b: usize = t.len();
    while b > 0 && is_space_char(t[b - 1])
        invariant
            0 <= b <= t@.len(),
            forall|j: int| b <= j < t@.len() ==> is_space(#[trigger] t@[j]),
        decreases b,
    {
        b = b - 1;
    }
    proof {
        lemma_trim_end_cut(t@, b as int);
        assert(t@.subrange(0, b as int).len() == 0 || !is_space(t@.subrange(0, b as int).last()));
    }
    let mut r: Vec<char> = Vec::new();
    let mut i: usize = 0;
    while i < b
        invariant
            0 <= i <= b <= t@.len(),
            r@ == t@.subrange(0, i as int),
        decreases b - i,
    {
        r.push(t[i]);
        i = i + 1;
        assert(r@ =~= t@.subrange(0, i as int));
    }
    r
}

/// The leading characters that take exactly `n` bytes, if there are such.
fn byte_prefix_exec(s: &[char], n: usize) -> (r: Option<Vec<char>>)
    ensures
        match r {
            Some(p) => byte_prefix(s@, n as int) == Some(p@),
            None => byte_prefix(s@, n as int) is None,
        },
{
    let mut used: usize = 0;
    let mut i: usize = 0;
    assert(s@.skip(0) =~= s@);
    assert forall|p: Seq<char>| #[trigger] (s@.take(0) + p) == p by {
        assert(s@.take(0) + p =~= p);
    }
    while used < n
        invariant
            0 <= i <= s@.len(),
            used <= n,
            byte_prefix(s@, n as int) == match byte_prefix(s@.skip(i as int), (n - used) as int) {
                Some(p) => Some(s@.take(i as int) + p),
                None => None::<Seq<char>>,
            },
        decreases n - used,
    {
        if i >= s.len() {
            assert(s@.skip(i as int).len() == 0);
            return None;
        }
        let u = s[i] as u32;
        let w: usize = if u < 0x80 {
            1
        } else if u < 0x800 {
            2
        } else if u < 0x10000 {
            3
        } else {
            4
        };
        assert(s@.skip(i as int)[0] == s@[i as int]);
        if w > n - used {
            return None;
        }
        proof {
            assert(s@.skip(i as int).drop_first() =~= s@.skip(i + 1));
            assert(s@.take(i + 1) =~= s@.take(i as int) + seq![s@[i as int]]);
            match byte_prefix(s@.skip(i + 1), (n - used - w) as int) {
                Some(p) => {
                    assert(s@.take(i as int) + (seq![s@[i as int]] + p) =~= s@.take(i + 1) + p);
                },
                None => {},
            }
        }
        used = used + w;
        i = i + 1;
    }
    Some(crate::text::copy_chars(&s[0..i]))
}

// ---------------------------------------------------------------------------------------------
// Entries
/// The Atom namespace.
pub open spec fn atom_ns() -> Seq<char> {
    "http://www.w3.org/2005/Atom"@
}

/// The arXiv extension namespace.
pub open spec fn arxiv_ns() -> Seq<char> {
    "http://arxiv.org/schemas/atom"@
}

/// The OpenSearch namespace.
pub open spec fn opensearch_ns() -> Seq<char> {
    "http://a9.com/-/spec/opensearch/1.1/"@
}

/// The author names of an entry among its first `t` children: for each child tagged
/// `author`, the text of its first `name` child when there is one.
pub open spec fn author_names_upto(nodes: Seq<XmlNode>, kids: Seq<int>, ns: Seq<char>, t: int) -> Seq<
    Seq<char>,
>
    decreases t,
{
    if t <= 0 {
        seq![]
    } else {
        let rest = author_names_upto(nodes, kids, ns, t - 1);
        if has_tag(nodes, kids[t - 1], ns, "author"@) {
            match child_text(nodes, kids[t - 1], ns, "name"@) {
                Some(n) => rest.push(n),
                None => rest,
            }
        } else {
            rest
        }
    }
}

/// The author names of entry `e`.
pub open spec fn author_names(nodes: Seq<XmlNode>, e: int, ns: Seq<char>) -> Seq<Seq<char>> {
    author_names_upto(nodes, children(nodes, e), ns, children(nodes, e).len() as int)
}

/// The first child among `kids[from..]` tagged `link` whose `title` attribute is `pdf`.
pub open spec fn pdf_link_from(nodes: Seq<XmlNode>, kids: Seq<int>, ns: Seq<char>, from: int) -> Option<
    int,
>
    decreases kids.len() - from,
{
    if from >= kids.len() || from < 0 {
        None
    } else if has_tag(nodes, kids[from], ns, "link"@) && attribute_of(nodes[kids[from]], "title"@)
        == Some("pdf"@) {
        Some(kids[from])
    } else {
        pdf_link_from(nodes, kids, ns, from + 1)
    }
}

/// The download URL of entry `e`: the `href` of its first `link` whose title is `pdf`.
pub open spec fn pdf_url_of(nodes: Seq<XmlNode>, e: int, ns: Seq<char>) -> Option<Seq<char>> {
    match pdf_link_from(nodes, children(nodes, e), ns, 0) {
        Some(j) => attribute_of(nodes[j], "href"@),
        None => None,
    }
}

/// The text of an optional text, trimmed.
pub open spec fn trimmed(s: Option<Seq<char>>) -> Option<Seq<char>> {
    match s {
        Some(x) => Some(trim(x)),
        None => None,
    }
}

/// Why entry `e` yields no paper, if it does not: a missing id or a missing title.
pub open spec fn entry_error(nodes: Seq<XmlNode>, e: int, ns: Seq<char>) -> Option<Seq<char>> {
    if child_text(nodes, e, ns, "id"@) is None {
        Some("Missing ID"@)
    } else if child_text(nodes, e, ns, "title"@) is None {
        Some("Missing title"@)
    } else {
        None
    }
}

/// The publication date of entry `e`: the first ten bytes of its `published` text parsed as
/// `%Y-%m-%d`; nothing when there is no such text, when it is shorter than ten bytes or its
/// tenth byte falls inside a character, or when those bytes are not a date.
pub open spec fn published_of(nodes: Seq<XmlNode>, e: int, ns: Seq<char>) -> Option<(int, int, int)> {
    match child_text(nodes, e, ns, "published"@) {
        Some(s) => match byte_prefix(s, 10) {
            Some(p) => match crate::dates::chrono_ymd(p) {
                Ok(t) => Some(t),
                Err(_) => None,
            },
            None => None,
        },
        None => None,
    }
}

/// Whether `p` is the paper that entry `e` describes.
pub open spec fn paper_from_entry(nodes: Seq<XmlNode>, e: int, ns: Seq<char>, p: Paper) -> bool {
    &&& p.id@ == last_segment(child_text(nodes, e, ns, "id"@)->Some_0)
    &&& p.title@ == trim(child_text(nodes, e, ns, "title"@)->Some_0)
    &&& p.authors@.len() == author_names(nodes, e, ns).len()
    &&& forall|i: int|
        0 <= i < p.authors@.len() ==> (#[trigger] p.authors@[i]).name@ == author_names(
            nodes,
            e,
            ns,
        )[i] && p.authors@[i].affiliation is None
    &&& crate::config::opt_text(p.abstract_text) == trimmed(child_text(nodes, e, ns, "summary"@))
    &&& crate::dates::opt_ymd(p.publication_date) == published_of(nodes, e, ns)
    &&& crate::dates::opt_valid(p.publication_date)
    &&& crate::config::opt_text(p.download_url) == pdf_url_of(nodes, e, ns)
    &&& crate::config::opt_text(p.doi) == trimmed(child_text(nodes, e, arxiv_ns(), "doi"@))
    &&& p.source@ == "arxiv"@
}

fn text_of_child(nodes: &Vec<XmlNode>, kids: &Vec<usize>, e: usize, ns: &[char], name: &str) -> (r:
    Option<String>)
    requires
        e < nodes@.len(),
        kids@.map_values(|i: usize| i as int) == children(nodes@, e as int),
        forall|i: int| 0 <= i < kids@.len() ==> #[trigger] kids@[i] < nodes@.len(),
    ensures
        opt_chars(r) == child_text(nodes@, e as int, ns@, name@),
{
    let nm = chars_of(name);
    match find_tagged(nodes, kids, ns, nm.as_slice()) {
        Some(j) => nodes[j].text.clone(),
        None => None,
    }
}

fn trimmed_text(s: Option<String>) -> (r: Option<String>)
    ensures
        opt_chars(r) == trimmed(opt_chars(s)),
{
    match s {
        Some(x) => {
            let v = chars_of(x.as_str());
            let t = trim_exec(v.as_slice());
            Some(string_of(t.as_slice()))
        },
        None => None,
    }
}

fn authors_of_entry(nodes: &Vec<XmlNode>, kids: &Vec<usize>, e: usize, ns: &[char]) -> (r: Vec<Author>)
    requires
        e < nodes@.len(),
        kids@.map_values(|i: usize| i as int) == children(nodes@, e as int),
        forall|i: int| 0 <= i < kids@.len() ==> #[trigger] kids@[i] < nodes@.len(),
    ensures
        r@.len() == author_names(nodes@, e as int, ns@).len(),
        forall|i: int|
            0 <= i < r@.len() ==> (#[trigger] r@[i]).name@ == author_names(nodes@, e as int, ns@)[i]
                && r@[i].affiliation is None,
{
    let ghost ks = kids@.map_values(|i: usize| i as int);
    let author = chars_of("author");
    let name = chars_of("name");
    let mut out: Vec<Author> = Vec::new();
    let mut t: usize = 0;
    while t < kids.len()
        invariant
            0 <= t <= kids@.len(),
            ks == kids@.map_values(|i: usize| i as int),
            ks == children(nodes@, e as int),
            forall|i: int| 0 <= i < kids@.len() ==> #[trigger] kids@[i] < nodes@.len(),
            author@ == "author"@,
            name@ == "name"@,
            out@.len() == author_names_upto(nodes@, ks, ns@, t as int).len(),
            forall|i: int|
                0 <= i < out@.len() ==> (#[trigger] out@[i]).name@ == author_names_upto(
                    nodes@,
                    ks,
                    ns@,
                    t as int,
                )[i] && out@[i].affiliation is None,
        decreases kids@.len() - t,
    {
        let k = kids[t];
        assert(ks[t as int] == k as int);
        if node_has_tag(nodes, k, ns, author.as_slice()) {
            let sub = child_indices(nodes, k);
            match find_tagged(nodes, &sub, ns, name.as_slice()) {
                Some(j) => match &nodes[j].text {
                    Some(n) => {
                        out.push(Author { name: n.clone(), affiliation: None });
                    },
                    None => {},
                },
                None => {},
            }
        }
        t = t + 1;
    }
    out
}

fn pdf_url_exec(nodes: &Vec<XmlNode>, kids: &Vec<usize>, e: usize, ns: &[char]) -> (r: Option<String>)
    requires
        e < nodes@.len(),
        kids@.map_values(|i: usize| i as int) == children(nodes@, e as int),
        forall|i: int| 0 <= i < kids@.len() ==> #[trigger] kids@[i] < nodes@.len(),
    ensures
        opt_chars(r) == pdf_url_of(nodes@, e as int, ns@),
{
    let ghost ks = kids@.map_values(|i: usize| i as int);
    let link = chars_of("link");
    let title = chars_of("title");
    let pdf = chars_of("pdf");
    let href = chars_of("href");
    let mut t: usize = 0;
    while t < kids.len()
        invariant
            0 <= t <= kids@.len(),
            ks == kids@.map_values(|i: usize| i as int),
            forall|i: int| 0 <= i < kids@.len() ==> #[trigger] kids@[i] < nodes@.len(),
            link@ == "link"@,
            title@ == "title"@,
            pdf@ == "pdf"@,
            href@ == "href"@,
            ks == children(nodes@, e as int),
            pdf_link_from(nodes@, ks, ns@, 0) == pdf_link_from(nodes@, ks, ns@, t as int),
        decreases kids@.len() - t,
    {
        let k = kids[t];
        assert(ks[t as int] == k as int);
        if node_has_tag(nodes, k, ns, link.as_slice()) {
            let tv = node_attribute(&nodes[k], title.as_slice());
            let is_pdf = match &tv {
                Some(v) => {
                    let vv = chars_of(v.as_str());
                    crate::text::same_chars(vv.as_slice(), pdf.as_slice())
                },
                None => false,
            };
            if is_pdf {
                assert(pdf_link_from(nodes@, ks, ns@, t as int) == Some(k as int));
                return node_attribute(&nodes[k], href.as_slice());
            }
        }
        t = t + 1;
    }
    None
}

/// Reads one entry of an arXiv feed into a paper.
pub fn extract_paper(nodes: &Vec<XmlNode>, entry: usize, ns: &str) -> (r: Result<
    Paper,
    PaperFetchError,
>)
    requires
        entry < nodes@.len(),
    ensures
        match r {
            Ok(p) => entry_error(nodes@, entry as int, ns@) is None && paper_from_entry(
                nodes@,
                entry as int,
                ns@,
                p,
            ),
            Err(e) => e matches PaperFetchError::ParseError(m) && entry_error(
                nodes@,
                entry as int,
                ns@,
            ) == Some(m@),
        },
{
    let nsv = chars_of(ns);
    let kids = child_indices(nodes, entry);
    let id = match text_of_child(nodes, &kids, entry, nsv.as_slice(), "id") {
        Some(s) => s,
        None => return Err(PaperFetchError::ParseError(String::from_str("Missing ID"))),
    };
    let idv = chars_of(id.as_str());
    let short_id = last_segment_exec(idv.as_slice());
    let title = match text_of_child(nodes, &kids, entry, nsv.as_slice(), "title") {
        Some(s) => s,
        None => return Err(PaperFetchError::ParseError(String::from_str("Missing title"))),
    };
    let title_v = chars_of(title.as_str());
    let title_t = trim_exec(title_v.as_slice());
    let authors = authors_of_entry(nodes, &kids, entry, nsv.as_slice());
    let abstract_text = trimmed_text(text_of_child(nodes, &kids, entry, nsv.as_slice(), "summary"));
    let publication_date = match text_of_child(nodes, &kids, entry, nsv.as_slice(), "published") {
        Some(s) => {
            let sv = chars_of(s.as_str());
            match byte_prefix_exec(sv.as_slice(), 10) {
                Some(p) => {
                    let pt = string_of(p.as_slice());
                    match parse_ymd(pt.as_str()) {
                        Ok(d) => Some(d),
                        Err(_) => None,
                    }
                },
                None => None,
            }
        },
        None => None,
    };
    let download_url = pdf_url_exec(nodes, &kids, entry, nsv.as_slice());
    let arxiv = chars_of("http://arxiv.org/schemas/atom");
    let doi = trimmed_text(text_of_child(nodes, &kids, entry, arxiv.as_slice(), "doi"));
    Ok(
        Paper {
            id: string_of(short_id.as_slice()),
            title: string_of(title_t.as_slice()),
            authors,
            abstract_text,
            publication_date,
            doi,
            download_url,
            source: String::from_str("arxiv"),
        },
    )
}


// ---------------------------------------------------------------------------------------------
// Feeds
/// The entries of a feed that yield papers, among the first `t` children of the root.
pub open spec fn paper_entries_upto(nodes: Seq<XmlNode>, kids: Seq<int>, ns: Seq<char>, t: int) -> Seq<
    int,
>
    decreases t,
{
    if t <= 0 {
        seq![]
    } else {
        let rest = paper_entries_upto(nodes, kids, ns, t - 1);
        if has_tag(nodes, kids[t - 1], ns, "entry"@) && entry_error(nodes, kids[t - 1], ns) is None {
            rest.push(kids[t - 1])
        } else {
            rest
        }
    }
}

/// The entries of the feed (children of the root element tagged `entry`) that yield papers.
pub open spec fn paper_entries(nodes: Seq<XmlNode>, ns: Seq<char>) -> Seq<int> {
    let kids = children(nodes, root_element(nodes));
    paper_entries_upto(nodes, kids, ns, kids.len() as int)
}

/// Whether child `k` of a feed's root is an entry that yields a paper: an `entry` element
/// with an id and a title.
pub open spec fn paper_entry(nodes: Seq<XmlNode>, ns: Seq<char>, k: int) -> bool {
    has_tag(nodes, k, ns, "entry"@) && entry_error(nodes, k, ns) is None
}

proof fn lemma_paper_entries_upto_filter(nodes: Seq<XmlNode>, kids: Seq<int>, ns: Seq<char>, t: int)
    requires
        0 <= t <= kids.len(),
    ensures
        paper_entries_upto(nodes, kids, ns, t) == kids.take(t).filter(
            |k: int| paper_entry(nodes, ns, k),
        ),
    decreases t,
{
    let p = |k: int| paper_entry(nodes, ns, k);
    if t == 0 {
        assert(kids.take(0) =~= Seq::<int>::empty());
        crate::text::lemma_filter_none(kids.take(0), p);
    } else {
        lemma_paper_entries_upto_filter(nodes, kids, ns, t - 1);
        assert(kids.take(t) =~= kids.take(t - 1).push(kids[t - 1]));
        crate::text::lemma_filter_push(kids.take(t - 1), kids[t - 1], p);
    }
}

/// A feed yields one paper for every child of its root that is an entry with an id and a
/// title, in document order, and for nothing else: the entries read are exactly the root's
/// children that are such entries.
pub proof fn lemma_feed_reads_every_entry(nodes: Seq<XmlNode>, ns: Seq<char>)
    ensures
        paper_entries(nodes, ns) == children(nodes, root_element(nodes)).filter(
            |k: int| paper_entry(nodes, ns, k),
        ),
{
    let kids = children(nodes, root_element(nodes));
    lemma_paper_entries_upto_filter(nodes, kids, ns, kids.len() as int);
    assert(kids.take(kids.len() as int) =~= kids);
}

/// The total result count that the feed announces (`opensearch:totalResults`), or 0 when it
/// is missing or not a number.
pub open spec fn feed_total(nodes: Seq<XmlNode>) -> nat {
    match child_text(nodes, root_element(nodes), opensearch_ns(), "totalResults"@) {
        Some(s) => match parse_unsigned(s, usize::MAX as nat) {
            Some(n) => n,
            None => 0,
        },
        None => 0,
    }
}

/// Whether `papers` and `total` are what the feed holds.
pub open spec fn feed_read(nodes: Seq<XmlNode>, ns: Seq<char>, papers: Seq<Paper>, total: usize) -> bool {
    &&& papers.len() == paper_entries(nodes, ns).len()
    &&& forall|i: int|
        0 <= i < papers.len() ==> paper_from_entry(
            nodes,
            paper_entries(nodes, ns)[i],
            ns,
            #[trigger] papers[i],
        )
    &&& total == feed_total(nodes)
}

/// Reads the papers and the announced total of a parsed feed; entries without id or title
/// are skipped.
pub fn feed_from_nodes(nodes: &Vec<XmlNode>, ns: &str) -> (r: (Vec<Paper>, usize))
    requires
        crate::xml::document_shaped(nodes@),
    ensures
        feed_read(nodes@, ns@, r.0@, r.1),
{
    let root = root_element_index(nodes);
    let kids = child_indices(nodes, root);
    let ghost ks = kids@.map_values(|i: usize| i as int);
    let os = chars_of("http://a9.com/-/spec/opensearch/1.1/");
    let total: usize = match text_of_child(nodes, &kids, root, os.as_slice(), "totalResults") {
        Some(s) => {
            let sv = chars_of(s.as_str());
            match parse_unsigned_text(sv.as_slice(), usize::MAX as u64) {
                Some(n) => n as usize,
                None => 0,
            }
        },
        None => 0,
    };
    let nsv = chars_of(ns);
    let entry = chars_of("entry");
    let mut papers: Vec<Paper> = Vec::new();
    let mut t: usize = 0;
    while t < kids.len()
        invariant
            0 <= t <= kids@.len(),
            root < nodes@.len(),
            root as int == root_element(nodes@),
            ks == kids@.map_values(|i: usize| i as int),
            ks == children(nodes@, root as int),
            forall|i: int| 0 <= i < kids@.len() ==> #[trigger] kids@[i] < nodes@.len(),
            nsv@ == ns@,
            entry@ == "entry"@,
            papers@.len() == paper_entries_upto(nodes@, ks, ns@, t as int).len(),
            forall|i: int|
                0 <= i < papers@.len() ==> paper_from_entry(
                    nodes@,
                    paper_entries_upto(nodes@, ks, ns@, t as int)[i],
                    ns@,
                    #[trigger] papers@[i],
                ),
        decreases kids@.len() - t,
    {
        let k = kids[t];
        assert(ks[t as int] == k as int);
        if node_has_tag(nodes, k, nsv.as_slice(), entry.as_slice()) {
            match extract_paper(nodes, k, ns) {
                Ok(p) => {
                    papers.push(p);
                },
                Err(_) => {},
            }
        }
        t = t + 1;
    }
    (papers, total)
}

/// The provider for the arXiv API.
pub struct ArxivProvider {
    client: reqwest::Client,
    base_url: String,
}

/// The field prefix of an arXiv search by search type.
pub open spec fn search_prefix(t: SearchType) -> Seq<char> {
    match t {
        SearchType::Title => "ti:"@,
        SearchType::Author => "au:"@,
        _ => "all:"@,
    }
}

/// The query parameters of an arXiv search: the field prefix and the quoted query, the
/// offset and the page size.
pub open spec fn arxiv_params(q: SearchQuery) -> Seq<(Seq<char>, Seq<char>)> {
    seq![
        ("search_query"@, search_prefix(q.search_type) + "\""@ + q.query@ + "\""@),
        ("start"@, decimal(q.offset as nat)),
        ("max_results"@, decimal(q.max_results as nat)),
    ]
}

/// An arXiv search asks for the quoted query in all fields for a keyword search (and for a
/// DOI or subject search), in the titles for a title search and in the author names for an
/// author search; the offset and the page size follow as `start` and `max_results`.
pub proof fn lemma_arxiv_search_fields(q: SearchQuery)
    ensures
        arxiv_params(q).len() == 3,
        q.search_type == SearchType::Keywords ==> arxiv_params(q)[0] == (
            "search_query"@,
            "all:"@ + "\""@ + q.query@ + "\""@,
        ),
        q.search_type == SearchType::DOI || q.search_type == SearchType::Subject ==> arxiv_params(
            q,
        )[0] == ("search_query"@, "all:"@ + "\""@ + q.query@ + "\""@),
        q.search_type == SearchType::Title ==> arxiv_params(q)[0] == (
            "search_query"@,
            "ti:"@ + "\""@ + q.query@ + "\""@,
        ),
        q.search_type == SearchType::Author ==> arxiv_params(q)[0] == (
            "search_query"@,
            "au:"@ + "\""@ + q.query@ + "\""@,
        ),
        arxiv_params(q)[1] == ("start"@, decimal(q.offset as nat)),
        arxiv_params(q)[2] == ("max_results"@, decimal(q.max_results as nat)),
{
}

impl ArxivProvider {
    /// The base URL of the API.
    pub closed spec fn base(&self) -> Seq<char> {
        self.base_url@
    }

    /// A provider for the configured API; fails when the HTTP client cannot be built.
    pub fn new(config: &ArxivConfig) -> (r: Result<ArxivProvider, PaperFetchError>)
        ensures
            match r {
                Ok(p) => p.base() == config.base_url@ && client_timeout_secs(p.http_client())
                    == config.timeout_secs,
                Err(e) => e matches PaperFetchError::Http { message, timed_out } && !timed_out
                    && "Failed to build HTTP client: "@.is_prefix_of(message@),
            },
    {
        match build_http_client(config.timeout_secs) {
            Ok(client) => Ok(ArxivProvider { client, base_url: config.base_url.clone() }),
            Err(e) => {
                let mut m = text("Failed to build HTTP client: ");
                push_str(&mut m, e.as_str());
                Err(PaperFetchError::Http { message: string_of(m.as_slice()), timed_out: false })
            },
        }
    }

    /// The HTTP client that the provider sends its requests with.
    pub closed spec fn http_client(&self) -> reqwest::Client {
        self.client
    }

    /// The HTTP client of the provider.
    pub fn client(&self) -> (r: &reqwest::Client)
        ensures
            *r == self.http_client(),
    {
        &self.client
    }

    pub fn name(&self) -> (r: &'static str)
        ensures
            r@ == "arxiv"@,
    {
        "arxiv"
    }

    pub fn priority(&self) -> (r: u8)
        ensures
            r == 80,
    {
        80
    }

    pub fn supported_search_types(&self) -> (r: Vec<SearchType>)
        ensures
            r@ == seq![SearchType::Keywords, SearchType::Title, SearchType::Author],
    {
        let mut v = Vec::new();
        v.push(SearchType::Keywords);
        v.push(SearchType::Title);
        v.push(SearchType::Author);
        assert(v@ =~= seq![SearchType::Keywords, SearchType::Title, SearchType::Author]);
        v
    }

    /// The search URL for a query; a URL that does not parse gives `InvalidInput`.
    pub fn build_query_url(&self, query: &SearchQuery) -> (r: Result<String, PaperFetchError>)
        ensures
            match r {
                Ok(u) => url_with_query(self.base(), arxiv_params(*query)) == Ok::<
                    Seq<char>,
                    Seq<char>,
                >(u@),
                Err(e) => e matches PaperFetchError::InvalidInput(m) && url_with_query(
                    self.base(),
                    arxiv_params(*query),
                ) == Err::<Seq<char>, Seq<char>>(m@),
            },
            r is Ok && !self.base().contains('?') && !self.base().contains('#') ==> (seq!['?']
                + form_pairs(arxiv_params(*query))).is_suffix_of(r->Ok_0@),
    {
        let mut sq = match query.search_type {
            SearchType::Keywords => text("all:"),
            SearchType::Title => text("ti:"),
            SearchType::Author => text("au:"),
            _ => text("all:"),
        };
        assert(sq@ == search_prefix(query.search_type));
        push_str(&mut sq, "\"");
        push_str(&mut sq, query.query.as_str());
        push_str(&mut sq, "\"");
        let mut params: Vec<(String, String)> = Vec::new();
        params.push((String::from_str("search_query"), string_of(sq.as_slice())));
        let start = decimal_text(query.offset as u64);
        params.push((String::from_str("start"), string_of(start.as_slice())));
        let max = decimal_text(query.max_results as u64);
        params.push((String::from_str("max_results"), string_of(max.as_slice())));
        assert(pair_views(params@) =~= arxiv_params(*query));
        match build_url(self.base_url.as_str(), &params) {
            Ok(u) => Ok(u),
            Err(e) => Err(PaperFetchError::InvalidInput(e)),
        }
    }

    /// Reads an arXiv Atom feed: its papers and announced total. A document that does not
    /// parse gives `ParseError` with the parse error's text.
    pub fn parse_atom_feed(&self, xml: &str) -> (r: Result<(Vec<Paper>, usize), PaperFetchError>)
        ensures
            match xml_nodes(xml@) {
                Err(m) => r matches Err(PaperFetchError::ParseError(e)) && e@ == m,
                Ok(nodes) => r matches Ok((papers, total)) && feed_read(
                    nodes,
                    atom_ns(),
                    papers@,
                    total,
                ),
            },
    {
        match parse_xml(xml) {
            Err(e) => Err(PaperFetchError::ParseError(e)),
            Ok(nodes) => Ok(feed_from_nodes(&nodes, "http://www.w3.org/2005/Atom")),
        }
    }

    /// The results of a search: the feed's papers and total, and the offset of the next page.
    pub fn search_result(&self, query: &SearchQuery, papers: Vec<Paper>, total_results: usize) -> (r:
        SearchResult)
        requires
            query.offset + query.max_results <= usize::MAX,
        ensures
            r.papers == papers,
            r.total_results == total_results,
            r.next_offset == Some((query.offset + query.max_results) as usize),
            r.provider@ == "arxiv"@,
    {
        SearchResult {
            papers,
            total_results,
            next_offset: Some(query.offset + query.max_results),
            provider: String::from_str("arxiv"),
        }
    }
}

/// What the status of a search response means: success lets the feed be read; any other
/// status makes the provider unavailable (`arXiv returned <status>`).
pub fn check_status(status: u16, status_text: &str) -> (r: Result<(), PaperFetchError>)
    ensures
        200 <= status <= 299 ==> r is Ok,
        !(200 <= status <= 299) ==> (r matches Err(PaperFetchError::ProviderUnavailable(m)) && m@
            == "arXiv returned "@ + status_text@),
{
    if 200 <= status && status <= 299 {
        Ok(())
    } else {
        let mut m = text("arXiv returned ");
        push_str(&mut m, status_text);
        Err(PaperFetchError::ProviderUnavailable(string_of(m.as_slice())))
    }
}

/// The query that looks a DOI up: a DOI search for one result from the start.
pub fn doi_query(doi: &str) -> (r: SearchQuery)
    ensures
        r.query@ == doi@,
        r.search_type == SearchType::DOI,
        r.max_results == 1,
        r.offset == 0,
{
    SearchQuery { query: String::from_str(doi), search_type: SearchType::DOI, max_results: 1, offset: 0 }
}

/// The paper a DOI lookup finds: the first result, if any.
pub fn first_paper(result: SearchResult) -> (r: Option<Paper>)
    ensures
        result.papers@.len() > 0 ==> r == Some(result.papers@[0]),
        result.papers@.len() == 0 ==> r is None,
{
    let mut papers = result.papers;
    if papers.len() > 0 {
        Some(papers.remove(0))
    } else {
        None
    }
}

} // verus!
