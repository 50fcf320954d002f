//! The text that the command line prints for search results and papers.
use vstd::prelude::*;

use crate::dates::{date_text, date_text_of, opt_valid};
use crate::fetch::models::{Author, Paper, SearchResult};
use crate::text::{chars_of, decimal, decimal_text, join, join_with, push_all, push_str, string_of, text, views};

verus! {

/// The names of the authors.
pub open spec fn author_names(a: Seq<Author>) -> Seq<Seq<char>> {
    a.map_values(|x: Author| x.name@)
}

/// The authors' names separated by `, `.
pub open spec fn authors_line(a: Seq<Author>) -> Seq<char> {
    join_with(author_names(a), ", "@)
}

fn authors_text(a: &Vec<Author>) -> (r: Vec<char>)
    ensures
        r@ == authors_line(a@),
{
    let mut names: Vec<Vec<char>> = Vec::new();
    let mut i: usize = 0;
    while i < a.len()
        invariant
            0 <= i <= a@.len(),
            views(names@) == author_names(a@).take(i as int),
        decreases a@.len() - i,
    {
        let ghost before = names@;
        let nv = chars_of(a[i].name.as_str());
        assert(nv@ == author_names(a@)[i as int]);
        names.push(nv);
        assert(views(names@) =~= views(before).push(author_names(a@)[i as int]));
        assert(author_names(a@).take(i + 1) =~= author_names(a@).take(i as int).push(
            author_names(a@)[i as int],
        ));
        i = i + 1;
    }
    assert(author_names(a@).take(a@.len() as int) =~= author_names(a@));
    let sep = chars_of(", ");
    join(&names, sep.as_slice())
}

/// The header printed before search results.
pub open spec fn summary_text(r: SearchResult) -> Seq<char> {
    "Found "@ + decimal(r.total_results as nat) + " results from "@ + r.provider@ + " (showing "@
        + decimal(r.papers@.len()) + ")\n"@
}

/// The header printed before search results.
pub fn search_summary(result: &SearchResult) -> (r: String)
    ensures
        r@ == summary_text(*result),
{
    let mut m = text("Found ");
    push_all(&mut m, decimal_text(result.total_results as u64).as_slice());
    push_str(&mut m, " results from ");
    push_str(&mut m, result.provider.as_str());
    push_str(&mut m, " (showing ");
    push_all(&mut m, decimal_text(result.papers.len() as u64).as_slice());
    push_str(&mut m, ")\n");
    string_of(m.as_slice())
}

/// The hint printed after the results when another page exists: the next offset is below
/// the total.
pub open spec fn hint_text(r: SearchResult) -> Option<Seq<char>> {
    match r.next_offset {
        Some(o) => if o < r.total_results {
            Some(
                "\nMore results available. Use --offset "@ + decimal(o as nat)
                    + " to see next page."@,
            )
        } else {
            None
        },
        None => None,
    }
}

/// The hint for the next page, if there is one.
pub fn more_results_hint(result: &SearchResult) -> (r: Option<String>)
    ensures
        crate::config::opt_text(r) == hint_text(*result),
{
    match result.next_offset {
        Some(o) => if o < result.total_results {
            let mut m = text("\nMore results available. Use --offset ");
            push_all(&mut m, decimal_text(o as u64).as_slice());
            push_str(&mut m, " to see next page.");
            Some(string_of(m.as_slice()))
        } else {
            None
        },
        None => None,
    }
}

/// The text of an optional date, or nothing.
pub open spec fn date_or_empty(p: Paper) -> Seq<char> {
    match p.publication_date {
        Some(d) => date_text_of(d.ymd()),
        None => seq![],
    }
}

/// The lines printed for one paper of a result list: number and title; authors and date;
/// id and DOI; the download URL if any; and an empty line.
pub open spec fn row_text(index: nat, p: Paper) -> Seq<char> {
    decimal(index) + ". "@ + p.title@ + "\n"@ + "   "@ + authors_line(p.authors@) + " ("@
        + date_or_empty(p) + ")\n"@ + "   "@ + p.id@ + match p.doi {
        Some(d) => "  doi:"@ + d@,
        None => seq![],
    } + "\n"@ + match p.download_url {
        Some(u) => "   "@ + u@ + "\n"@,
        None => seq![],
    } + "\n"@
}

/// The lines for one paper of a result list.
pub fn paper_row(index: u64, paper: &Paper) -> (r: String)
    requires
        opt_valid(paper.publication_date),
    ensures
        r@ == row_text(index as nat, *paper),
{
    let mut m = decimal_text(index);
    push_str(&mut m, ". ");
    push_str(&mut m, paper.title.as_str());
    push_str(&mut m, "\n");
    push_str(&mut m, "   ");
    push_all(&mut m, authors_text(&paper.authors).as_slice());
    push_str(&mut m, " (");
    match &paper.publication_date {
        Some(d) => {
            let t = date_text(d);
            push_str(&mut m, t.as_str());
        },
        None => {},
    }
    push_str(&mut m, ")\n");
    push_str(&mut m, "   ");
    push_str(&mut m, paper.id.as_str());
    match &paper.doi {
        Some(d) => {
            push_str(&mut m, "  doi:");
            push_str(&mut m, d.as_str());
        },
        None => {},
    }
    push_str(&mut m, "\n");
    match &paper.download_url {
        Some(u) => {
            push_str(&mut m, "   ");
            push_str(&mut m, u.as_str());
            push_str(&mut m, "\n");
        },
        None => {},
    }
    push_str(&mut m, "\n");
    assert(m@ =~= row_text(index as nat, *paper));
    string_of(m.as_slice())
}

/// The lines printed for a single paper: title, authors, date if known, id, DOI and PDF URL
/// if known, and the abstract after an empty line.
pub open spec fn details_text(p: Paper) -> Seq<char> {
    "Title:    "@ + p.title@ + "\n"@ + "Authors:  "@ + authors_line(p.authors@) + "\n"@
        + match p.publication_date {
        Some(d) => "Date:     "@ + date_text_of(d.ymd()) + "\n"@,
        None => seq![],
    } + "ID:       "@ + p.id@ + "\n"@ + match p.doi {
        Some(d) => "DOI:      "@ + d@ + "\n"@,
        None => seq![],
    } + match p.download_url {
        Some(u) => "PDF:      "@ + u@ + "\n"@,
        None => seq![],
    } + match p.abstract_text {
        Some(a) => "\n"@ + a@ + "\n"@,
        None => seq![],
    }
}

/// The lines for a single paper.
#[verifier::rlimit(40)]
pub fn paper_details(paper: &Paper) -> (r: String)
    requires
        opt_valid(paper.publication_date),
    ensures
        r@ == details_text(*paper),
{
    let mut m = text("Title:    ");
    push_str(&mut m, paper.title.as_str());
    push_str(&mut m, "\n");
    push_str(&mut m, "Authors:  ");
    push_all(&mut m, authors_text(&paper.authors).as_slice());
    push_str(&mut m, "\n");
    let ghost a = m@;
    match &paper.publication_date {
        Some(d) => {
            push_str(&mut m, "Date:     ");
            let t = date_text(d);
            push_str(&mut m, t.as_str());
            push_str(&mut m, "\n");
        },
        None => {},
    }
    let ghost b = m@;
    push_str(&mut m, "ID:       ");
    push_str(&mut m, paper.id.as_str());
    push_str(&mut m, "\n");
    let ghost c = m@;
    match &paper.doi {
        Some(d) => {
            push_str(&mut m, "DOI:      ");
            push_str(&mut m, d.as_str());
            push_str(&mut m, "\n");
        },
        None => {},
    }
    let ghost e = m@;
    match &paper.download_url {
        Some(u) => {
            push_str(&mut m, "PDF:      ");
            push_str(&mut m, u.as_str());
            push_str(&mut m, "\n");
        },
        None => {},
    }
    let ghost f = m@;
    match &paper.abstract_text {
        Some(x) => {
            push_str(&mut m, "\n");
            push_str(&mut m, x.as_str());
            push_str(&mut m, "\n");
        },
        None => {},
    }
    assert(a =~= "Title:    "@ + paper.title@ + "\n"@ + "Authors:  "@ + authors_line(paper.authors@) + "\n"@);
    assert(m@ =~= details_text(*paper));
    string_of(m.as_slice())
}

/// The text printed for a page of results: each paper's lines, numbered from 1.
pub open spec fn rows_text(papers: Seq<Paper>) -> Seq<char>
    decreases papers.len(),
{
    if papers.len() == 0 {
        seq![]
    } else {
        rows_text(papers.drop_last()) + row_text(papers.len(), papers.last())
    }
}

/// The lines for every paper of a result page, numbered from 1.
pub fn result_rows(result: &SearchResult) -> (r: String)
    requires
        forall|i: int| 0 <= i < result.papers@.len() ==> opt_valid(#[trigger] result.papers@[i].publication_date),
    ensures
        r@ == rows_text(result.papers@),
{
    let mut m: Vec<char> = Vec::new();
    let mut i: usize = 0;
    while i < result.papers.len()
        invariant
            0 <= i <= result.papers@.len(),
            forall|k: int| 0 <= k < result.papers@.len() ==> opt_valid(#[trigger] result.papers@[k].publication_date),
            m@ == rows_text(result.papers@.take(i as int)),
        decreases result.papers@.len() - i,
    {
        let row = paper_row((i as u64) + 1, &result.papers[i]);
        let rv = chars_of(row.as_str());
        push_all(&mut m, rv.as_slice());
        proof {
            assert(result.papers@.take(i + 1).drop_last() =~= result.papers@.take(i as int));
        }
        i = i + 1;
    }
    assert(result.papers@.take(result.papers@.len() as int) =~= result.papers@);
    string_of(m.as_slice())
}

} // verus!
