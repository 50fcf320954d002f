//! Preparing results of several providers for merging: DOI keys, normalized titles, and
//! grouping by DOI.
use vstd::prelude::*;

use crate::models::{DedupStats, Paper};
use crate::text::{
    lemma_join_single_spaced, lemma_words_solid, single_spaced, solid_word, alphanumeric, chars_of, is_alphanumeric_char, is_space, is_space_char, join, join_with,
    lemma_filter_none, lemma_filter_push, lowercase_of, same_chars, split_words, string_of, strip_or_keep,
    strip_prefix_or_keep, to_lowercase, views, words,
};

verus! {

/// The key under which a DOI is compared: without `https://doi.org/`, in lowercase.
pub open spec fn doi_key_of(doi: Seq<char>) -> Seq<char> {
    lowercase_of(strip_or_keep(doi, "https://doi.org/"@))
}

/// The comparison key of a DOI.
pub fn normalize_doi(doi: &str) -> (r: String)
    ensures
        r@ == doi_key_of(doi@),
{
    let d = chars_of(doi);
    let p = chars_of("https://doi.org/");
    let bare = strip_prefix_or_keep(d.as_slice(), p.as_slice());
    let bare_text = string_of(bare.as_slice());
    to_lowercase(bare_text.as_str())
}

/// Characters kept in a normalized title: letters, digits and whitespace.
pub open spec fn title_char(c: char) -> bool {
    alphanumeric(c) || is_space(c)
}

/// The articles that a normalized title drops from its start.
pub open spec fn article(w: Seq<char>) -> bool {
    w == "the"@ || w == "a"@ || w == "an"@
}

/// The words without the first one when that one is an article.
pub open spec fn without_leading_article(ws: Seq<Seq<char>>) -> Seq<Seq<char>> {
    if ws.len() > 0 && article(ws[0]) {
        ws.subrange(1, ws.len() as int)
    } else {
        ws
    }
}

/// The words of a title that take part in comparisons: the whitespace-separated words of the
/// lowercased title, after removing every character other than letters, digits and
/// whitespace, and without a leading article.
pub open spec fn title_words(title: Seq<char>) -> Seq<Seq<char>> {
    without_leading_article(words(lowercase_of(title).filter(|c: char| title_char(c))))
}

/// The normalized form of a title: its comparison words separated by single spaces.
pub open spec fn normalized_title(title: Seq<char>) -> Seq<char> {
    join_with(title_words(title), seq![' '])
}

fn is_article(w: &[char]) -> (r: bool)
    ensures
        r == article(w@),
{
    let the = chars_of("the");
    let a = chars_of("a");
    let an = chars_of("an");
    same_chars(w, the.as_slice()) || same_chars(w, a.as_slice()) || same_chars(w, an.as_slice())
}

/// Normalizes a title for fuzzy comparison.
pub fn preprocess_title(title: &str) -> (r: String)
    ensures
        r@ == normalized_title(title@),
{
    let lower = to_lowercase(title);
    let lc = chars_of(lower.as_str());
    let ghost keep = |c: char| title_char(c);
    let mut stripped: Vec<char> = Vec::new();
    let mut i: usize = 0;
    while i < lc.len()
        invariant
            0 <= i <= lc@.len(),
            keep == (|c: char| title_char(c)),
            stripped@ == lc@.take(i as int).filter(keep),
        decreases lc@.len() - i,
    {
        let c = lc[i];
        proof {
            assert(lc@.take(i + 1) =~= lc@.take(i as int).push(c));
            lemma_filter_push(lc@.take(i as int), c, keep);
        }
        if is_alphanumeric_char(c) || is_space_char(c) {
            stripped.push(c);
        }
        i = i + 1;
    }
    assert(lc@.take(lc@.len() as int) =~= lc@);
    let ws = split_words(stripped.as_slice());
    let start: usize = if ws.len() > 0 && is_article(ws[0].as_slice()) {
        1
    } else {
        0
    };
    let mut kept: Vec<Vec<char>> = Vec::new();
    let mut j: usize = start;
    while j < ws.len()
        invariant
            start <= j <= ws@.len(),
            views(kept@) == views(ws@).subrange(start as int, j as int),
        decreases ws@.len() - j,
    {
        let ghost before = kept@;
        kept.push(crate::text::copy_chars(ws[j].as_slice()));
        assert(views(kept@) =~= views(before).push(ws@[j as int]@));
        assert(views(ws@).subrange(start as int, j + 1) =~= views(ws@).subrange(
            start as int,
            j as int,
        ).push(ws@[j as int]@));
        j = j + 1;
    }
    assert(views(kept@) =~= without_leading_article(views(ws@)));
    let sep: [char; 1] = [' '];
    assert(sep@ =~= seq![' ']);
    let joined = join(&kept, sep.as_slice());
    string_of(joined.as_slice())
}

/// A normalized title holds only letters, digits and single spaces, and each space stands
/// between two words: no space leads, trails or follows another.
pub proof fn lemma_normalized_title_shape(title: Seq<char>)
    ensures
        single_spaced(normalized_title(title), |c: char| alphanumeric(c)),
{
    let keep = |c: char| title_char(c);
    let p = |c: char| alphanumeric(c);
    let stripped = lowercase_of(title).filter(keep);
    assert forall|j: int| 0 <= j < stripped.len() && !is_space(#[trigger] stripped[j]) implies p(
        stripped[j],
    ) by {
        lowercase_of(title).lemma_filter_pred(keep, j);
    }
    lemma_words_solid(stripped, p);
    let ws = words(stripped);
    let tw = title_words(title);
    assert forall|k: int| 0 <= k < tw.len() implies solid_word(#[trigger] tw[k], p) by {
        if ws.len() > 0 && article(ws[0]) {
            assert(tw[k] == ws[k + 1]);
        } else {
            assert(tw[k] == ws[k]);
        }
    }
    lemma_join_single_spaced(tw, p);
}

/// A paper with the provider it came from and its rank in that provider's results.
#[derive(Debug)]
pub struct SourcedPaper {
    pub paper: Paper,
    pub source: String,
    /// Position in that source's result list, from 0.
    pub rank: usize,
}

/// The DOI key of a sourced paper, if the paper has a DOI.
pub open spec fn sourced_key(sp: SourcedPaper) -> Option<Seq<char>> {
    match sp.paper.doi {
        Some(d) => Some(doi_key_of(d@)),
        None => None,
    }
}

/// The result lists of several providers as (provider, paper, rank) in order: each
/// provider's papers in their order, ranked from 0.
pub open spec fn flattened(sources: Seq<(Seq<char>, Seq<Paper>)>) -> Seq<(Seq<char>, Paper, int)>
    decreases sources.len(),
{
    if sources.len() == 0 {
        seq![]
    } else {
        let last = sources.last();
        flattened(sources.drop_last()) + Seq::new(
            last.1.len(),
            |k: int| (last.0, last.1[k], k),
        )
    }
}

/// The total number of papers in the result lists.
pub open spec fn total_papers(sources: Seq<(Seq<char>, Seq<Paper>)>) -> nat
    decreases sources.len(),
{
    if sources.len() == 0 {
        0
    } else {
        total_papers(sources.drop_last()) + sources.last().1.len()
    }
}

/// The texts of a provider's results.
pub open spec fn sources_view(s: Seq<(String, Vec<Paper>)>) -> Seq<(Seq<char>, Seq<Paper>)> {
    s.map_values(|e: (String, Vec<Paper>)| (e.0@, e.1@))
}

/// The sourced papers as (provider, paper, rank).
pub open spec fn sourced_view(s: Seq<SourcedPaper>) -> Seq<(Seq<char>, Paper, int)> {
    s.map_values(|sp: SourcedPaper| (sp.source@, sp.paper, sp.rank as int))
}

proof fn lemma_flattened_len(sources: Seq<(Seq<char>, Seq<Paper>)>)
    ensures
        flattened(sources).len() == total_papers(sources),
    decreases sources.len(),
{
    if sources.len() > 0 {
        lemma_flattened_len(sources.drop_last());
    }
}

/// Flattens the result lists of several providers, keeping each paper's provider and rank,
/// and counts the papers.
pub fn flatten_results(source_results: Vec<(String, Vec<Paper>)>) -> (r: (
    Vec<SourcedPaper>,
    DedupStats,
))
    requires
        total_papers(sources_view(source_results@)) <= usize::MAX,
    ensures
        sourced_view(r.0@) == flattened(sources_view(source_results@)),
        r.1.total_raw == total_papers(sources_view(source_results@)),
{
    let ghost sv = sources_view(source_results@);
    assert(sv.len() == source_results.len());
    let mut rest = source_results;
    let mut all: Vec<SourcedPaper> = Vec::new();
    let mut total: usize = 0;
    let mut i: usize = 0;
    while rest.len() > 0
        invariant
            0 <= i <= sv.len(),
            sv.len() <= usize::MAX,
            sources_view(rest@) == sv.skip(i as int),
            sourced_view(all@) == flattened(sv.take(i as int)),
            total == total_papers(sv.take(i as int)),
            total_papers(sv) <= usize::MAX,
        decreases rest@.len(),
    {
        let ghost rest_before = rest@;
        assert(sv.skip(i as int).len() == sv.len() - i);
        let (source, papers) = rest.remove(0);
        proof {
            assert(sources_view(rest@) =~= sources_view(rest_before).drop_first());
            assert(sv.skip(i as int)[0] == (source@, papers@));
            assert(sv.take(i + 1).drop_last() =~= sv.take(i as int));
            lemma_total_prefix(sv, i + 1);
        }
        total = total + papers.len();
        let ghost start = all@;
        let mut ps = papers;
        let mut rank: usize = 0;
        let ghost pv = ps@;
        assert(pv.len() == ps.len());
        while ps.len() > 0
            invariant
                0 <= rank <= pv.len(),
                pv.len() <= usize::MAX,
                ps@ == pv.skip(rank as int),
                sourced_view(all@) == sourced_view(start) + Seq::new(
                    rank as nat,
                    |k: int| (source@, pv[k], k),
                ),
            decreases ps@.len(),
        {
            let ghost before = all@;
            let ghost ps_before = ps@;
            assert(pv.skip(rank as int).len() == pv.len() - rank);
            let paper = ps.remove(0);
            assert(paper == pv[rank as int]);
            let src = source.clone();
            all.push(SourcedPaper { paper, source: src, rank });
            assert(sourced_view(all@) =~= sourced_view(before).push((source@, pv[rank as int], rank as int)));
            rank = rank + 1;
            assert(ps@ =~= pv.skip(rank as int));
            assert(sourced_view(all@) =~= sourced_view(start) + Seq::new(
                rank as nat,
                |k: int| (source@, pv[k], k),
            ));
        }
        i = i + 1;
        assert(sv.skip(i as int) =~= sv.skip(i - 1).drop_first());
        assert(sourced_view(all@) =~= flattened(sv.take(i as int)));
    }
    assert(sv.take(i as int) =~= sv);
    (all, DedupStats { total_raw: total })
}

proof fn lemma_total_prefix(s: Seq<(Seq<char>, Seq<Paper>)>, k: int)
    requires
        0 <= k <= s.len(),
    ensures
        total_papers(s.take(k)) <= total_papers(s),
    decreases s.len(),
{
    if k < s.len() {
        assert(s.drop_last().take(k) =~= s.take(k));
        lemma_total_prefix(s.drop_last(), k);
    } else {
        assert(s.take(k) =~= s);
    }
}


/// The DOI keys of the groups.
pub open spec fn group_keys(g: Seq<(String, Vec<SourcedPaper>)>) -> Seq<Seq<char>> {
    g.map_values(|e: (String, Vec<SourcedPaper>)| e.0@)
}

/// The papers of the groups.
pub open spec fn group_members(g: Seq<(String, Vec<SourcedPaper>)>) -> Seq<Seq<SourcedPaper>> {
    g.map_values(|e: (String, Vec<SourcedPaper>)| e.1@)
}

/// Whether `groups` and `no_doi` split `all` by DOI key: one group per distinct key, holding
/// exactly the papers with that key in their order (at least one), and the papers without a
/// DOI apart.
pub open spec fn grouped_by_doi(
    all: Seq<SourcedPaper>,
    groups: Seq<(String, Vec<SourcedPaper>)>,
    no_doi: Seq<SourcedPaper>,
) -> bool {
    let keys = group_keys(groups);
    let members = group_members(groups);
    &&& keys.no_duplicates()
    &&& forall|k: int| 0 <= k < keys.len() ==> (#[trigger] members[k]).len() > 0
    &&& forall|k: int|
        0 <= k < keys.len() ==> #[trigger] members[k] == all.filter(
            |sp: SourcedPaper| sourced_key(sp) == Some(keys[k]),
        )
    &&& forall|i: int|
        0 <= i < all.len() && (#[trigger] sourced_key(all[i])) is Some ==> keys.contains(
            sourced_key(all[i])->Some_0,
        )
    &&& no_doi == all.filter(|sp: SourcedPaper| sourced_key(sp) is None)
}

fn find_key(keys: &Vec<Vec<char>>, key: &[char]) -> (r: Option<usize>)
    ensures
        match r {
            Some(j) => j < keys@.len() && keys@[j as int]@ == key@,
            None => forall|j: int| 0 <= j < keys@.len() ==> (#[trigger] keys@[j])@ != key@,
        },
{
    let mut j: usize = 0;
    while j < keys.len()
        invariant
            0 <= j <= keys@.len(),
            forall|t: int| 0 <= t < j ==> (#[trigger] keys@[t])@ != key@,
        decreases keys@.len() - j,
    {
        if same_chars(keys[j].as_slice(), key) {
            return Some(j);
        }
        j = j + 1;
    }
    None
}

/// Groups papers by the key of their DOI; papers without a DOI are kept apart.
pub fn group_by_doi(all: Vec<SourcedPaper>) -> (r: (Vec<(String, Vec<SourcedPaper>)>, Vec<SourcedPaper>))
    ensures
        grouped_by_doi(all@, r.0@, r.1@),
{
    let ghost a = all@;
    assert(a.len() == all.len());
    let mut rest = all;
    let mut groups: Vec<(String, Vec<SourcedPaper>)> = Vec::new();
    let mut keys: Vec<Vec<char>> = Vec::new();
    let mut no_doi: Vec<SourcedPaper> = Vec::new();
    let mut i: usize = 0;
    proof {
        lemma_filter_none(a.take(0), |sp: SourcedPaper| sourced_key(sp) is None);
    }
    while rest.len() > 0
        invariant
            0 <= i <= a.len(),
            a.len() <= usize::MAX,
            rest@ == a.skip(i as int),
            views(keys@) == group_keys(groups@),
            grouped_by_doi(a.take(i as int), groups@, no_doi@),
        decreases rest@.len(),
    {
        assert(a.skip(i as int).len() == a.len() - i);
        let sp = rest.remove(0);
        let ghost t = a.take(i as int);
        proof {
            assert(sp == a[i as int]);
            assert(a.take(i + 1) =~= t.push(sp));
            lemma_filter_push(t, sp, |x: SourcedPaper| sourced_key(x) is None);
        }
        let ghost old_groups = groups@;
        let ghost old_keys = group_keys(groups@);
        let ghost old_members = group_members(groups@);
        match &sp.paper.doi {
            None => {
                no_doi.push(sp);
                proof {
                    assert forall|k: int| 0 <= k < old_keys.len() implies #[trigger] group_members(
                        groups@,
                    )[k] == a.take(i + 1).filter(
                        |x: SourcedPaper| sourced_key(x) == Some(old_keys[k]),
                    ) by {
                        lemma_filter_push(
                            t,
                            sp,
                            |x: SourcedPaper| sourced_key(x) == Some(old_keys[k]),
                        );
                    }
                    assert forall|j: int|
                        0 <= j < a.take(i + 1).len() && (#[trigger] sourced_key(
                            a.take(i + 1)[j],
                        )) is Some implies old_keys.contains(
                        sourced_key(a.take(i + 1)[j])->Some_0,
                    ) by {
                        if j < i {
                            assert(a.take(i + 1)[j] == t[j]);
                        }
                    }
                }
            },
            Some(d) => {
                let key_text = normalize_doi(d.as_str());
                let key = chars_of(key_text.as_str());
                let ghost kv = key@;
                assert(sourced_key(sp) == Some(kv));
                match find_key(&keys, key.as_slice()) {
                    Some(j) => {
                        let (kt, mut members) = groups.remove(j);
                        assert(members@ == old_members[j as int]);
                        members.push(sp);
                        let ghost entry = (kt, members);
                        groups.insert(j, (kt, members));
                        proof {
                            assert(groups@ =~= old_groups.update(j as int, entry));
                            assert(group_keys(groups@) =~= old_keys);
                            assert(group_members(groups@)[j as int] == old_members[j as int].push(sp));
                            assert forall|k: int| 0 <= k < old_keys.len() implies (
                            #[trigger] group_members(groups@)[k]).len() > 0 by {
                                if k != j {
                                    assert(group_members(groups@)[k] == old_members[k]);
                                }
                            }
                            assert forall|k: int| 0 <= k < old_keys.len() implies #[trigger] group_members(
                                groups@,
                            )[k] == a.take(i + 1).filter(
                                |x: SourcedPaper| sourced_key(x) == Some(old_keys[k]),
                            ) by {
                                lemma_filter_push(
                                    t,
                                    sp,
                                    |x: SourcedPaper| sourced_key(x) == Some(old_keys[k]),
                                );
                                if k != j {
                                    assert(group_members(groups@)[k] == old_members[k]);
                                    assert(old_keys[k] != kv) by {
                                        assert(old_keys[j as int] == kv);
                                    }
                                }
                            }
                            assert forall|q: int|
                                0 <= q < a.take(i + 1).len() && (#[trigger] sourced_key(
                                    a.take(i + 1)[q],
                                )) is Some implies old_keys.contains(
                                sourced_key(a.take(i + 1)[q])->Some_0,
                            ) by {
                                if q < i {
                                    assert(a.take(i + 1)[q] == t[q]);
                                } else {
                                    assert(old_keys[j as int] == kv);
                                }
                            }
                        }
                    },
                    None => {
                        let mut members: Vec<SourcedPaper> = Vec::new();
                        members.push(sp);
                        groups.push((key_text, members));
                        keys.push(key);
                        proof {
                            assert(group_keys(groups@) =~= old_keys.push(kv));
                            assert(!old_keys.contains(kv));
                            let nk = group_keys(groups@);
                            assert forall|k: int| 0 <= k < nk.len() implies (
                            #[trigger] group_members(groups@)[k]).len() > 0 by {
                                if k < old_keys.len() {
                                    assert(group_members(groups@)[k] == old_members[k]);
                                } else {
                                    assert(group_members(groups@)[k] =~= seq![sp]);
                                }
                            }
                            assert forall|k: int| 0 <= k < nk.len() implies #[trigger] group_members(
                                groups@,
                            )[k] == a.take(i + 1).filter(
                                |x: SourcedPaper| sourced_key(x) == Some(nk[k]),
                            ) by {
                                lemma_filter_push(
                                    t,
                                    sp,
                                    |x: SourcedPaper| sourced_key(x) == Some(nk[k]),
                                );
                                if k < old_keys.len() {
                                    assert(nk[k] == old_keys[k]);
                                    assert(group_members(groups@)[k] == old_members[k]);
                                } else {
                                    assert(nk[k] == kv);
                                    assert forall|q: int| 0 <= q < t.len() implies !(
                                        sourced_key(#[trigger] t[q]) == Some(kv)) by {
                                        if sourced_key(t[q]) == Some(kv) {
                                            assert(old_keys.contains(kv));
                                        }
                                    }
                                    lemma_filter_none(
                                        t,
                                        |x: SourcedPaper| sourced_key(x) == Some(nk[k]),
                                    );
                                    assert(group_members(groups@)[k] =~= seq![sp]);
                                }
                            }
                            assert forall|q: int|
                                0 <= q < a.take(i + 1).len() && (#[trigger] sourced_key(
                                    a.take(i + 1)[q],
                                )) is Some implies nk.contains(
                                sourced_key(a.take(i + 1)[q])->Some_0,
                            ) by {
                                if q < i {
                                    assert(a.take(i + 1)[q] == t[q]);
                                    let w = choose|w: int|
                                        0 <= w < old_keys.len() && old_keys[w] == sourced_key(
                                            t[q],
                                        )->Some_0;
                                    assert(nk[w] == old_keys[w]);
                                } else {
                                    assert(nk[old_keys.len() as int] == kv);
                                }
                            }
                            assert(nk.no_duplicates());
                        }
                    },
                }
            },
        }
        i = i + 1;
        assert(a.skip(i as int) =~= a.skip(i - 1).drop_first());
    }
    assert(a.take(i as int) =~= a);
    (groups, no_doi)
}

} // verus!
