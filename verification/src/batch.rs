//! The outcome of downloading several papers, and the lines that report it.
use vstd::prelude::*;

use crate::models::{BatchDownloadResult, DownloadFailure, DownloadResult};
use crate::text::{decimal, decimal_text, push_all, push_str, string_of, text};

verus! {

/// What came of downloading one paper: the paper's id and title, and the download or the
/// text of its error.
pub type DownloadOutcome = (String, String, Result<DownloadResult, String>);

/// The downloads that succeeded, in order.
pub open spec fn succeeded_of(s: Seq<DownloadOutcome>) -> Seq<DownloadResult>
    decreases s.len(),
{
    if s.len() == 0 {
        seq![]
    } else {
        let rest = succeeded_of(s.drop_last());
        match s.last().2 {
            Ok(r) => rest.push(r),
            Err(_) => rest,
        }
    }
}

/// The papers whose download failed, in order, each with its error.
pub open spec fn failed_of(s: Seq<DownloadOutcome>) -> Seq<DownloadFailure>
    decreases s.len(),
{
    if s.len() == 0 {
        seq![]
    } else {
        let rest = failed_of(s.drop_last());
        match s.last().2 {
            Ok(_) => rest,
            Err(m) => rest.push(DownloadFailure { paper_id: s.last().0, title: s.last().1, error: m }),
        }
    }
}

/// The result of a batch: the successful downloads and the failures, each in the order of
/// the outcomes, and the number of papers asked for.
pub fn batch_result(outcomes: Vec<DownloadOutcome>) -> (r: BatchDownloadResult)
    ensures
        r.succeeded@ == succeeded_of(outcomes@),
        r.failed@ == failed_of(outcomes@),
        r.total_requested == outcomes@.len(),
{
    let ghost a = outcomes@;
    let total = outcomes.len();
    let mut rest = outcomes;
    let mut succeeded: Vec<DownloadResult> = Vec::new();
    let mut failed: Vec<DownloadFailure> = Vec::new();
    let mut i: usize = 0;
    assert(a.take(0) =~= Seq::<DownloadOutcome>::empty());
    while rest.len() > 0
        invariant
            0 <= i <= a.len(),
            total == a.len(),
            rest@ == a.skip(i as int),
            succeeded@ == succeeded_of(a.take(i as int)),
            failed@ == failed_of(a.take(i as int)),
        decreases rest@.len(),
    {
        assert(a.skip(i as int).len() == a.len() - i);
        let (paper_id, title, outcome) = rest.remove(0);
        proof {
            assert(a.skip(i as int)[0] == a[i as int]);
            assert(a.take(i + 1).drop_last() =~= a.take(i as int));
            assert(a.take(i + 1).last() == a[i as int]);
            assert(a.skip(i as int).drop_first() =~= a.skip(i + 1));
        }
        match outcome {
            Ok(r) => succeeded.push(r),
            Err(m) => failed.push(DownloadFailure { paper_id, title, error: m }),
        }
        i = i + 1;
    }
    assert(a.take(a.len() as int) =~= a);
    BatchDownloadResult { succeeded, failed, total_requested: total }
}

/// The line that closes a batch: how many downloads succeeded out of how many, and how many
/// failed.
pub open spec fn completion_text(b: BatchDownloadResult) -> Seq<char> {
    "\nCompleted: "@ + decimal(b.succeeded@.len()) + "/"@ + decimal(b.total_requested as nat)
        + " succeeded, "@ + decimal(b.failed@.len()) + " failed"@
}

/// The closing line of a batch.
pub fn completion_line(b: &BatchDownloadResult) -> (r: String)
    ensures
        r@ == completion_text(*b),
{
    let mut m = text("\nCompleted: ");
    push_all(&mut m, decimal_text(b.succeeded.len() as u64).as_slice());
    push_str(&mut m, "/");
    push_all(&mut m, decimal_text(b.total_requested as u64).as_slice());
    push_str(&mut m, " succeeded, ");
    push_all(&mut m, decimal_text(b.failed.len() as u64).as_slice());
    push_str(&mut m, " failed");
    string_of(m.as_slice())
}

/// The line that reports one failed download: the paper's id and the error.
pub open spec fn failure_text(f: DownloadFailure) -> Seq<char> {
    f.paper_id@ + " -- "@ + f.error@
}

/// The line for one failed download.
pub fn failure_line(f: &DownloadFailure) -> (r: String)
    ensures
        r@ == failure_text(*f),
{
    let mut m = text(f.paper_id.as_str());
    push_str(&mut m, " -- ");
    push_str(&mut m, f.error.as_str());
    string_of(m.as_slice())
}

/// Why a batch counts as failed, when some download failed: how many failed out of how many.
pub open spec fn batch_failure_text(b: BatchDownloadResult) -> Option<Seq<char>> {
    if b.failed@.len() > 0 {
        Some(decimal(b.failed@.len()) + " of "@ + decimal(b.total_requested as nat) + " downloads failed"@)
    } else {
        None
    }
}

/// The error of a batch in which some download failed, or nothing when all succeeded.
pub fn batch_failure(b: &BatchDownloadResult) -> (r: Option<String>)
    ensures
        crate::config::opt_text(r) == batch_failure_text(*b),
{
    if b.failed.len() > 0 {
        let mut m = decimal_text(b.failed.len() as u64);
        push_str(&mut m, " of ");
        push_all(&mut m, decimal_text(b.total_requested as u64).as_slice());
        push_str(&mut m, " downloads failed");
        Some(string_of(m.as_slice()))
    } else {
        None
    }
}

} // verus!
