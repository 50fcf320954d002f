//! Calendar dates and the date-range filter language (`>=2024`, `<2025-06`, ...).
use chrono::Datelike;
use vstd::prelude::*;

use crate::text::{
    chars_of, copy_chars, digits_value, is_digit, push_all, push_str, split_words, starts_with,
    string_of, tail_from, text, utf8_len, views, words, zero_padded,
};

verus! {

/// The first year that a date can have.
pub const MIN_YEAR: i32 = -262143;

/// The last year that a date can have.
pub const MAX_YEAR: i32 = 262142;

/// Leap years of the proleptic Gregorian calendar.
pub open spec fn leap(y: int) -> bool {
    y % 4 == 0 && (y % 100 != 0 || y % 400 == 0)
}

/// The number of days of month `m` of year `y`.
pub open spec fn days_in_month(y: int, m: int) -> int {
    if m == 2 {
        if leap(y) {
            29
        } else {
            28
        }
    } else if m == 4 || m == 6 || m == 9 || m == 11 {
        30
    } else {
        31
    }
}

/// Whether `(y, m, d)` is a day of the calendar within the representable years.
pub open spec fn valid_ymd(y: int, m: int, d: int) -> bool {
    &&& MIN_YEAR <= y <= MAX_YEAR
    &&& 1 <= m <= 12
    &&& 1 <= d <= days_in_month(y, m)
}

/// The day after `(y, m, d)`.
pub open spec fn next_day(y: int, m: int, d: int) -> (int, int, int) {
    if d < days_in_month(y, m) {
        (y, m, d + 1)
    } else if m < 12 {
        (y, m + 1, 1)
    } else {
        (y + 1, 1, 1)
    }
}

/// The day before `(y, m, d)`.
pub open spec fn prev_day(y: int, m: int, d: int) -> (int, int, int) {
    if d > 1 {
        (y, m, d - 1)
    } else if m > 1 {
        (y, m - 1, days_in_month(y, m - 1))
    } else {
        (y - 1, 12, 31)
    }
}

/// Whether a triple is a valid day.
pub open spec fn valid_triple(t: (int, int, int)) -> bool {
    valid_ymd(t.0, t.1, t.2)
}

/// Chronological order on days.
pub open spec fn before_triple(a: (int, int, int), b: (int, int, int)) -> bool {
    a.0 < b.0 || (a.0 == b.0 && (a.1 < b.1 || (a.1 == b.1 && a.2 < b.2)))
}

/// A calendar day of the proleptic Gregorian calendar.
#[derive(Clone, Copy, Debug, PartialEq, Eq, Structural)]
pub struct Date {
    pub year: i32,
    pub month: u32,
    pub day: u32,
}

impl Date {
    /// The day as a year, month, day triple.
    pub open spec fn ymd(self) -> (int, int, int) {
        (self.year as int, self.month as int, self.day as int)
    }

    /// Whether the fields name a day of the calendar.
    pub open spec fn valid(self) -> bool {
        valid_triple(self.ymd())
    }

    /// The day with the given year, month and day, if there is one.
    pub fn from_ymd(year: i32, month: u32, day: u32) -> (r: Option<Date>)
        ensures
            match r {
                Some(d) => d.valid() && d.ymd() == (year as int, month as int, day as int),
                None => !valid_ymd(year as int, month as int, day as int),
            },
    {
        date_from_ymd(year, month, day)
    }

    /// Whether `self` comes strictly before `other`.
    pub fn is_before(&self, other: &Date) -> (r: bool)
        ensures
            r == before_triple(self.ymd(), other.ymd()),
    {
        self.year < other.year || (self.year == other.year && (self.month < other.month || (
        self.month == other.month && self.day < other.day)))
    }
}

/// Trusted: `chrono::NaiveDate::from_ymd_opt` returns a date exactly when the year lies in
/// `MIN_YEAR..=MAX_YEAR` and the month and day name a day of the proleptic Gregorian calendar.
#[verifier::external_body]
fn date_from_ymd(year: i32, month: u32, day: u32) -> (r: Option<Date>)
    ensures
        match r {
            Some(d) => d.valid() && d.ymd() == (year as int, month as int, day as int),
            None => !valid_ymd(year as int, month as int, day as int),
        },
{
    match chrono::NaiveDate::from_ymd_opt(year, month, day) {
        Some(d) => Some(Date { year: d.year(), month: d.month(), day: d.day() }),
        None => None,
    }
}

/// The next calendar day.
/// Trusted: `chrono::NaiveDate::succ_opt` returns the following day, or nothing past the last
/// representable day.
#[verifier::external_body]
pub(crate) fn date_succ(d: &Date) -> (r: Option<Date>)
    requires
        d.valid(),
    ensures
        match r {
            Some(n) => n.valid() && n.ymd() == next_day(d.ymd().0, d.ymd().1, d.ymd().2),
            None => !valid_triple(next_day(d.ymd().0, d.ymd().1, d.ymd().2)),
        },
{
    let nd = chrono::NaiveDate::from_ymd_opt(d.year, d.month, d.day).expect("valid date");
    match nd.succ_opt() {
        Some(n) => Some(Date { year: n.year(), month: n.month(), day: n.day() }),
        None => None,
    }
}

/// The previous calendar day.
/// Trusted: `chrono::NaiveDate::pred_opt` returns the preceding day, or nothing before the
/// first representable day.
#[verifier::external_body]
pub(crate) fn date_pred(d: &Date) -> (r: Option<Date>)
    requires
        d.valid(),
    ensures
        match r {
            Some(n) => n.valid() && n.ymd() == prev_day(d.ymd().0, d.ymd().1, d.ymd().2),
            None => !valid_triple(prev_day(d.ymd().0, d.ymd().1, d.ymd().2)),
        },
{
    let nd = chrono::NaiveDate::from_ymd_opt(d.year, d.month, d.day).expect("valid date");
    match nd.pred_opt() {
        Some(n) => Some(Date { year: n.year(), month: n.month(), day: n.day() }),
        None => None,
    }
}

/// What `chrono::NaiveDate::parse_from_str(s, "%Y-%m-%d")` gives for `s`: the day, or the
/// text of the parse error.
pub uninterp spec fn chrono_ymd(s: Seq<char>) -> Result<(int, int, int), Seq<char>>;

/// Whether `s` is four ASCII digits, `-`, two digits, `-`, two digits.
pub open spec fn canonical_ymd(s: Seq<char>) -> bool {
    &&& s.len() == 10
    &&& is_digit(s[0]) && is_digit(s[1]) && is_digit(s[2]) && is_digit(s[3])
    &&& s[4] == '-'
    &&& is_digit(s[5]) && is_digit(s[6])
    &&& s[7] == '-'
    &&& is_digit(s[8]) && is_digit(s[9])
}

/// The year, month and day written in a canonical `YYYY-MM-DD` text.
pub open spec fn canonical_value(s: Seq<char>) -> (int, int, int) {
    (
        digits_value(s.subrange(0, 4)) as int,
        digits_value(s.subrange(5, 7)) as int,
        digits_value(s.subrange(8, 10)) as int,
    )
}

/// Parses `YYYY-MM-DD`.
/// Trusted: calls `chrono::NaiveDate::parse_from_str` with the format `%Y-%m-%d`; the outcome
/// is named `chrono_ymd`. A parsed day is always a valid day, and a text of the plain shape
/// `DDDD-DD-DD` parses exactly when it names a valid day, to that day.
#[verifier::external_body]
pub(crate) fn parse_ymd(s: &str) -> (r: Result<Date, String>)
    ensures
        match r {
            Ok(d) => chrono_ymd(s@) == Ok::<(int, int, int), Seq<char>>(d.ymd()) && d.valid(),
            Err(e) => chrono_ymd(s@) == Err::<(int, int, int), Seq<char>>(e@),
        },
        canonical_ymd(s@) ==> (r is Ok <==> valid_triple(canonical_value(s@))),
        canonical_ymd(s@) && r is Ok ==> r->Ok_0.ymd() == canonical_value(s@),
{
    match chrono::NaiveDate::parse_from_str(s, "%Y-%m-%d") {
        Ok(d) => Ok(Date { year: d.year(), month: d.month(), day: d.day() }),
        Err(e) => Err(e.to_string()),
    }
}

/// The text of a day as chrono writes it with `%Y-%m-%d` (and `Display`): a four digit year
/// for years 0 to 9999, else the signed year padded to four digits, then the zero-padded
/// month and day.
pub open spec fn date_text_of(t: (int, int, int)) -> Seq<char> {
    let year = if 0 <= t.0 <= 9999 {
        zero_padded(t.0 as nat, 4)
    } else if t.0 < 0 {
        seq!['-'] + zero_padded((-t.0) as nat, 4)
    } else {
        seq!['+'] + zero_padded(t.0 as nat, 4)
    };
    year + seq!['-'] + zero_padded(t.1 as nat, 2) + seq!['-'] + zero_padded(t.2 as nat, 2)
}

/// Formats a day as `%Y-%m-%d`.
/// Trusted: calls `chrono::NaiveDate::format` with `%Y-%m-%d`, whose output is `date_text_of`.
#[verifier::external_body]
pub(crate) fn date_text(d: &Date) -> (r: String)
    requires
        d.valid(),
    ensures
        r@ == date_text_of(d.ymd()),
{
    let nd = chrono::NaiveDate::from_ymd_opt(d.year, d.month, d.day).expect("valid date");
    nd.format("%Y-%m-%d").to_string()
}

/// The comparison operators of a date filter term.
#[derive(Clone, Copy, Debug, PartialEq, Eq, Structural)]
pub enum FilterOp {
    AtLeast,
    AtMost,
    After,
    Before,
}

/// The operator of a term and the rest of the term, tried in the order `>=`, `<=`, `>`, `<`.
pub open spec fn split_op(tok: Seq<char>) -> Option<(FilterOp, Seq<char>)> {
    if seq!['>', '='].is_prefix_of(tok) {
        Some((FilterOp::AtLeast, tok.subrange(2, tok.len() as int)))
    } else if seq!['<', '='].is_prefix_of(tok) {
        Some((FilterOp::AtMost, tok.subrange(2, tok.len() as int)))
    } else if seq!['>'].is_prefix_of(tok) {
        Some((FilterOp::After, tok.subrange(1, tok.len() as int)))
    } else if seq!['<'].is_prefix_of(tok) {
        Some((FilterOp::Before, tok.subrange(1, tok.len() as int)))
    } else {
        None
    }
}

/// The day that a partial date (`YYYY`, `YYYY-MM` or `YYYY-MM-DD`, told apart by their byte
/// length) starts on, or the error message.
pub open spec fn partial_date(s: Seq<char>) -> Result<(int, int, int), Seq<char>> {
    let n = utf8_len(s);
    if n != 4 && n != 7 && n != 10 {
        Err(
            "invalid date format '"@ + s + "': use YYYY, YYYY-MM, or YYYY-MM-DD"@,
        )
    } else {
        let full = if n == 4 {
            s + "-01-01"@
        } else if n == 7 {
            s + "-01"@
        } else {
            s
        };
        match chrono_ymd(full) {
            Ok(t) => Ok(t),
            Err(e) => Err("invalid date '"@ + s + "': "@ + e),
        }
    }
}

/// The last day of the period (year, month or day) that the partial date `raw` names and that
/// starts on `start`, or the error message.
pub open spec fn period_end(raw: Seq<char>, start: (int, int, int)) -> Result<
    (int, int, int),
    Seq<char>,
> {
    let n = utf8_len(raw);
    if n == 4 {
        if valid_ymd(start.0, 12, 31) {
            Ok((start.0, 12, 31))
        } else {
            Err("invalid year end for '"@ + raw + "'"@)
        }
    } else if n == 7 {
        let next = if start.1 == 12 {
            (start.0 + 1, 1int, 1int)
        } else {
            (start.0, start.1 + 1, 1int)
        };
        if valid_triple(next) && valid_triple(prev_day(next.0, next.1, next.2)) {
            Ok(prev_day(next.0, next.1, next.2))
        } else {
            Err("invalid month end for '"@ + raw + "'"@)
        }
    } else if n == 10 {
        Ok(start)
    } else {
        Err("invalid date format '"@ + raw + "'"@)
    }
}

/// The first day after the period named by `raw`, or the error message.
pub open spec fn after_period(raw: Seq<char>, start: (int, int, int)) -> Result<
    (int, int, int),
    Seq<char>,
> {
    match period_end(raw, start) {
        Err(e) => Err(e),
        Ok(e) => {
            let n = next_day(e.0, e.1, e.2);
            if valid_triple(n) {
                Ok(n)
            } else {
                Err("date overflow"@)
            }
        },
    }
}

/// Bounds of a filter: inclusive lower bound and exclusive upper bound.
pub type Bounds = (Option<(int, int, int)>, Option<(int, int, int)>);

/// The bounds after reading one term, or the error message.
pub open spec fn apply_term(tok: Seq<char>, b: Bounds) -> Result<Bounds, Seq<char>> {
    match split_op(tok) {
        None => Err("expected '>', '>=', '<', or '<=' prefix, got: "@ + tok),
        Some((op, rest)) => match partial_date(rest) {
            Err(e) => Err(e),
            Ok(date) => match op {
                FilterOp::AtLeast | FilterOp::After => if b.0 is Some {
                    Err("duplicate lower bound"@)
                } else {
                    Ok((Some(date), b.1))
                },
                FilterOp::Before => if b.1 is Some {
                    Err("duplicate upper bound"@)
                } else {
                    Ok((b.0, Some(date)))
                },
                FilterOp::AtMost => if b.1 is Some {
                    Err("duplicate upper bound"@)
                } else {
                    match after_period(rest, date) {
                        Err(e) => Err(e),
                        Ok(a) => Ok((b.0, Some(a))),
                    }
                },
            },
        },
    }
}

/// The bounds after reading the terms `toks[i..]` starting from `b`, or the first error.
pub open spec fn apply_terms(toks: Seq<Seq<char>>, i: int, b: Bounds) -> Result<Bounds, Seq<char>>
    decreases toks.len() - i,
{
    if i >= toks.len() || i < 0 {
        Ok(b)
    } else {
        match apply_term(toks[i], b) {
            Err(e) => Err(e),
            Ok(nb) => apply_terms(toks, i + 1, nb),
        }
    }
}

/// What a date filter text means: its bounds, or the error message.
pub open spec fn filter_meaning(input: Seq<char>) -> Result<Bounds, Seq<char>> {
    match apply_terms(words(input), 0, (None, None)) {
        Err(e) => Err(e),
        Ok(b) => if b.0 is None && b.1 is None {
            Err("empty date filter"@)
        } else if b.0 is Some && b.1 is Some && !before_triple(b.0->0, b.1->0) {
            Err(
                "lower bound "@ + date_text_of(b.0->0) + " is not before upper bound "@
                    + date_text_of(b.1->0),
            )
        } else {
            Ok(b)
        },
    }
}

/// A range of publication dates: `after` is the first day included, `before` the first day
/// excluded.
#[derive(Clone, Copy, Debug, PartialEq, Eq, Structural)]
pub struct DateFilter {
    pub after: Option<Date>,
    pub before: Option<Date>,
}

/// The triple of an optional day.
pub open spec fn opt_ymd(d: Option<Date>) -> Option<(int, int, int)> {
    match d {
        Some(x) => Some(x.ymd()),
        None => None,
    }
}

/// Whether an optional day is absent or valid.
pub open spec fn opt_valid(d: Option<Date>) -> bool {
    match d {
        Some(x) => x.valid(),
        None => true,
    }
}

impl DateFilter {
    /// The bounds of the filter.
    pub open spec fn bounds(self) -> Bounds {
        (opt_ymd(self.after), opt_ymd(self.before))
    }

    /// Whether both bounds are valid days.
    pub open spec fn valid(self) -> bool {
        opt_valid(self.after) && opt_valid(self.before)
    }

    /// Parses a filter such as `>=2024 <2025-06`: whitespace-separated terms, each an operator
    /// (`>`, `>=`, `<`, `<=`) and a partial date. `>`, `>=` and `<` take the first day of the
    /// period, so that `>2023 <2025` covers 2023 through 2024; `<=` takes the day after the
    /// period's last day.
    pub fn parse(input: &str) -> (r: Result<DateFilter, String>)
        ensures
            match r {
                Ok(f) => filter_meaning(input@) == Ok::<Bounds, Seq<char>>(f.bounds()) && f.valid(),
                Err(e) => filter_meaning(input@) == Err::<Bounds, Seq<char>>(e@),
            },
    {
        let chars = chars_of(input);
        match parse_filter_chars(chars.as_slice()) {
            Ok(f) => Ok(f),
            Err(e) => Err(string_of(e.as_slice())),
        }
    }
}

impl Default for DateFilter {
    fn default() -> (r: DateFilter)
        ensures
            r.after is None && r.before is None,
    {
        DateFilter { after: None, before: None }
    }
}

/// The UTF-8 byte length of `s`, or 11 where it is longer than 10.
fn short_byte_len(s: &[char]) -> (r: usize)
    ensures
        r == if utf8_len(s@) <= 10 {
            utf8_len(s@)
        } else {
            11
        },
{
    let mut n: usize = 0;
    let mut i: usize = 0;
    while i < s.len()
        invariant
            0 <= i <= s@.len(),
            n as nat == utf8_len(s@.take(i as int)),
            n <= 10,
        decreases s@.len() - i,
    {
        let u = s[i] as u32;
        let w: usize = if u < 0x80 {
            1
        } else if u < 0x800 {
            2
        } else if u < 0x10000 {
            3
        } else {
            4
        };
        proof {
            assert(s@.take(i + 1).drop_last() =~= s@.take(i as int));
        }
        if n + w > 10 {
            proof {
                lemma_utf8_len_prefix(s@, i + 1);
            }
            return 11;
        }
        n = n + w;
        i = i + 1;
    }
    assert(s@.take(s@.len() as int) =~= s@);
    n
}

proof fn lemma_utf8_len_prefix(s: Seq<char>, k: int)
    requires
        0 <= k <= s.len(),
    ensures
        utf8_len(s.take(k)) <= utf8_len(s),
    decreases s.len(),
{
    if k < s.len() {
        assert(s.drop_last().take(k) =~= s.take(k));
        lemma_utf8_len_prefix(s.drop_last(), k);
    } else {
        assert(s.take(k) =~= s);
    }
}

fn message2(a: &str, s: &[char], b: &str) -> (r: Vec<char>)
    ensures
        r@ == a@ + s@ + b@,
{
    let mut r: Vec<char> = Vec::new();
    push_str(&mut r, a);
    push_all(&mut r, s);
    push_str(&mut r, b);
    assert(r@ =~= a@ + s@ + b@);
    r
}

/// Reads a partial date.
fn partial_date_exec(s: &[char]) -> (r: Result<Date, Vec<char>>)
    ensures
        match r {
            Ok(d) => partial_date(s@) == Ok::<(int, int, int), Seq<char>>(d.ymd()) && d.valid(),
            Err(e) => partial_date(s@) == Err::<(int, int, int), Seq<char>>(e@),
        },
{
    let n = short_byte_len(s);
    if n != 4 && n != 7 && n != 10 {
        return Err(message2("invalid date format '", s, "': use YYYY, YYYY-MM, or YYYY-MM-DD"));
    }
    let mut full = copy_chars(s);
    if n == 4 {
        push_str(&mut full, "-01-01");
    } else if n == 7 {
        push_str(&mut full, "-01");
    }
    let full_text = string_of(full.as_slice());
    match parse_ymd(full_text.as_str()) {
        Ok(d) => Ok(d),
        Err(e) => {
            let mut m = message2("invalid date '", s, "': ");
            let et = chars_of(e.as_str());
            push_all(&mut m, et.as_slice());
            Err(m)
        },
    }
}

/// The last day of the period named by `raw` starting on `start`.
fn period_end_exec(raw: &[char], start: &Date) -> (r: Result<Date, Vec<char>>)
    requires
        start.valid(),
    ensures
        match r {
            Ok(d) => period_end(raw@, start.ymd()) == Ok::<(int, int, int), Seq<char>>(d.ymd())
                && d.valid(),
            Err(e) => period_end(raw@, start.ymd()) == Err::<(int, int, int), Seq<char>>(e@),
        },
{
    let n = short_byte_len(raw);
    if n == 4 {
        match date_from_ymd(start.year, 12, 31) {
            Some(d) => Ok(d),
            None => Err(message2("invalid year end for '", raw, "'")),
        }
    } else if n == 7 {
        let next = if start.month == 12 {
            date_from_ymd(start.year + 1, 1, 1)
        } else {
            date_from_ymd(start.year, start.month + 1, 1)
        };
        let last = match next {
            Some(d) => date_pred(&d),
            None => None,
        };
        match last {
            Some(d) => Ok(d),
            None => Err(message2("invalid month end for '", raw, "'")),
        }
    } else if n == 10 {
        Ok(*start)
    } else {
        Err(message2("invalid date format '", raw, "'"))
    }
}

/// The first day after the period named by `raw` starting on `start`.
fn after_period_exec(raw: &[char], start: &Date) -> (r: Result<Date, Vec<char>>)
    requires
        start.valid(),
    ensures
        match r {
            Ok(d) => after_period(raw@, start.ymd()) == Ok::<(int, int, int), Seq<char>>(d.ymd())
                && d.valid(),
            Err(e) => after_period(raw@, start.ymd()) == Err::<(int, int, int), Seq<char>>(e@),
        },
{
    match period_end_exec(raw, start) {
        Err(e) => Err(e),
        Ok(end) => match date_succ(&end) {
            Some(d) => Ok(d),
            None => {
                let m = text("date overflow");
                Err(m)
            },
        },
    }
}

/// Splits the operator off a term.
fn split_op_exec(tok: &[char]) -> (r: Option<(FilterOp, Vec<char>)>)
    ensures
        match r {
            Some((op, rest)) => split_op(tok@) == Some((op, rest@)),
            None => split_op(tok@) is None,
        },
{
    let ge = text(">=");
    let le = text("<=");
    let gt = text(">");
    let lt = text("<");
    proof {
        reveal_strlit(">=");
        reveal_strlit("<=");
        reveal_strlit(">");
        reveal_strlit("<");
        assert(ge@ =~= seq!['>', '=']);
        assert(le@ =~= seq!['<', '=']);
        assert(gt@ =~= seq!['>']);
        assert(lt@ =~= seq!['<']);
    }
    if starts_with(tok, ge.as_slice()) {
        Some((FilterOp::AtLeast, tail_from(tok, 2)))
    } else if starts_with(tok, le.as_slice()) {
        Some((FilterOp::AtMost, tail_from(tok, 2)))
    } else if starts_with(tok, gt.as_slice()) {
        Some((FilterOp::After, tail_from(tok, 1)))
    } else if starts_with(tok, lt.as_slice()) {
        Some((FilterOp::Before, tail_from(tok, 1)))
    } else {
        None
    }
}

/// Reads one term into the filter.
fn apply_term_exec(tok: &[char], f: &DateFilter) -> (r: Result<DateFilter, Vec<char>>)
    requires
        f.valid(),
    ensures
        match r {
            Ok(nf) => apply_term(tok@, f.bounds()) == Ok::<Bounds, Seq<char>>(nf.bounds())
                && nf.valid(),
            Err(e) => apply_term(tok@, f.bounds()) == Err::<Bounds, Seq<char>>(e@),
        },
{
    let (op, rest) = match split_op_exec(tok) {
        None => {
            let mut m = text("expected '>', '>=', '<', or '<=' prefix, got: ");
            push_all(&mut m, tok);
            return Err(m);
        },
        Some(p) => p,
    };
    let date = match partial_date_exec(rest.as_slice()) {
        Err(e) => return Err(e),
        Ok(d) => d,
    };
    match op {
        FilterOp::AtLeast | FilterOp::After => {
            if f.after.is_some() {
                Err(text("duplicate lower bound"))
            } else {
                Ok(DateFilter { after: Some(date), before: f.before })
            }
        },
        FilterOp::Before => {
            if f.before.is_some() {
                Err(text("duplicate upper bound"))
            } else {
                Ok(DateFilter { after: f.after, before: Some(date) })
            }
        },
        FilterOp::AtMost => {
            if f.before.is_some() {
                Err(text("duplicate upper bound"))
            } else {
                match after_period_exec(rest.as_slice(), &date) {
                    Err(e) => Err(e),
                    Ok(a) => Ok(DateFilter { after: f.after, before: Some(a) }),
                }
            }
        },
    }
}

proof fn lemma_apply_terms_step(toks: Seq<Seq<char>>, i: int, b: Bounds, nb: Bounds)
    requires
        0 <= i < toks.len(),
        apply_term(toks[i], b) == Ok::<Bounds, Seq<char>>(nb),
    ensures
        apply_terms(toks, i, b) == apply_terms(toks, i + 1, nb),
{
}

/// Parses a filter given as characters.
pub fn parse_filter_chars(input: &[char]) -> (r: Result<DateFilter, Vec<char>>)
    ensures
        match r {
            Ok(f) => filter_meaning(input@) == Ok::<Bounds, Seq<char>>(f.bounds()) && f.valid(),
            Err(e) => filter_meaning(input@) == Err::<Bounds, Seq<char>>(e@),
        },
{
    let toks = split_words(input);
    let ghost ts = views(toks@);
    let mut f = DateFilter { after: None, before: None };
    let mut i: usize = 0;
    while i < toks.len()
        invariant
            0 <= i <= toks@.len(),
            ts == views(toks@),
            ts == words(input@),
            f.valid(),
            apply_terms(ts, 0, (None, None)) == apply_terms(ts, i as int, f.bounds()),
        decreases toks@.len() - i,
    {
        let tok = &toks[i];
        assert(ts[i as int] == tok@);
        match apply_term_exec(tok.as_slice(), &f) {
            Err(e) => {
                return Err(e);
            },
            Ok(nf) => {
                proof {
                    lemma_apply_terms_step(ts, i as int, f.bounds(), nf.bounds());
                }
                f = nf;
            },
        }
        i = i + 1;
    }
    assert(apply_terms(ts, i as int, f.bounds()) == Ok::<Bounds, Seq<char>>(f.bounds()));
    match (f.after, f.before) {
        (None, None) => Err(text("empty date filter")),
        (Some(a), Some(b)) => {
            if !a.is_before(&b) {
                let mut m = text("lower bound ");
                let at = date_text(&a);
                let av = chars_of(at.as_str());
                push_all(&mut m, av.as_slice());
                push_str(&mut m, " is not before upper bound ");
                let bt = date_text(&b);
                let bv = chars_of(bt.as_str());
                push_all(&mut m, bv.as_slice());
                Err(m)
            } else {
                Ok(f)
            }
        },
        _ => Ok(f),
    }
}

} // verus!

verus! {

proof fn lemma_single_term(tok: Seq<char>)
    requires
        tok.len() > 0,
        forall|j: int| 0 <= j < tok.len() ==> !crate::text::is_space(#[trigger] tok[j]),
    ensures
        filter_meaning(tok) == match apply_term(tok, (None, None)) {
            Err(e) => Err::<Bounds, Seq<char>>(e),
            Ok(b) => if b.0 is None && b.1 is None {
                Err("empty date filter"@)
            } else if b.0 is Some && b.1 is Some && !before_triple(b.0->0, b.1->0) {
                Err(
                    "lower bound "@ + date_text_of(b.0->0) + " is not before upper bound "@
                        + date_text_of(b.1->0),
                )
            } else {
                Ok(b)
            },
        },
{
    crate::text::lemma_single_word(tok);
    let ts = words(tok);
    assert(ts.len() == 1);
    match apply_term(tok, (None, None)) {
        Err(e) => {},
        Ok(b) => {
            assert(apply_terms(ts, 1, b) == Ok::<Bounds, Seq<char>>(b));
        },
    }
}

/// `>X` reads the same as `>=X`: both start the filter on the first day of the period `X`
/// and fail alike; `X` is a date without whitespace that does not start with `=`.
pub proof fn lemma_after_reads_as_at_least(x: Seq<char>)
    requires
        x.len() > 0,
        x[0] != '=',
        forall|j: int| 0 <= j < x.len() ==> !crate::text::is_space(#[trigger] x[j]),
    ensures
        filter_meaning(seq!['>'] + x) == filter_meaning(seq!['>', '='] + x),
{
    let t1 = seq!['>'] + x;
    let t2 = seq!['>', '='] + x;
    assert forall|j: int| 0 <= j < t1.len() implies !crate::text::is_space(#[trigger] t1[j]) by {
        if j > 0 {
            assert(t1[j] == x[j - 1]);
        }
    }
    assert forall|j: int| 0 <= j < t2.len() implies !crate::text::is_space(#[trigger] t2[j]) by {
        if j > 1 {
            assert(t2[j] == x[j - 2]);
        }
    }
    lemma_single_term(t1);
    lemma_single_term(t2);
    assert(!seq!['>', '='].is_prefix_of(t1)) by {
        assert(t1[1] == x[0]);
    }
    assert(!seq!['<', '='].is_prefix_of(t1));
    assert(seq!['>'].is_prefix_of(t1));
    assert(t1.subrange(1, t1.len() as int) =~= x);
    assert(split_op(t1) == Some((FilterOp::After, x)));
    assert(seq!['>', '='].is_prefix_of(t2));
    assert(t2.subrange(2, t2.len() as int) =~= x);
    assert(split_op(t2) == Some((FilterOp::AtLeast, x)));
}

/// `>=X` (from the start of the period `X`) sets as lower bound the same day that `<X`
/// (before the period `X`) sets as upper bound, and the two fail alike; `X` is a date
/// without whitespace that does not start with `=`.
pub proof fn lemma_at_least_matches_before(x: Seq<char>)
    requires
        x.len() > 0,
        x[0] != '=',
        forall|j: int| 0 <= j < x.len() ==> !crate::text::is_space(#[trigger] x[j]),
    ensures
        match (filter_meaning(seq!['>', '='] + x), filter_meaning(seq!['<'] + x)) {
            (Ok(a), Ok(b)) => a.0 == b.1 && a.1 is None && b.0 is None,
            (Err(e1), Err(e2)) => e1 == e2,
            _ => false,
        },
{
    let t1 = seq!['>', '='] + x;
    let t2 = seq!['<'] + x;
    assert forall|j: int| 0 <= j < t1.len() implies !crate::text::is_space(#[trigger] t1[j]) by {
        if j > 1 {
            assert(t1[j] == x[j - 2]);
        }
    }
    assert forall|j: int| 0 <= j < t2.len() implies !crate::text::is_space(#[trigger] t2[j]) by {
        if j > 0 {
            assert(t2[j] == x[j - 1]);
        }
    }
    lemma_single_term(t1);
    lemma_single_term(t2);
    assert(seq!['>', '='].is_prefix_of(t1));
    assert(t1.subrange(2, t1.len() as int) =~= x);
    assert(split_op(t1) == Some((FilterOp::AtLeast, x)));
    assert(!seq!['>', '='].is_prefix_of(t2));
    assert(!seq!['<', '='].is_prefix_of(t2)) by {
        assert(t2[1] == x[0]);
    }
    assert(!seq!['>'].is_prefix_of(t2)) by {
        assert(t2[0] == '<');
        assert(t2.subrange(0, 1)[0] == '<');
        assert(seq!['>'][0] == '>');
    }
    assert(seq!['<'].is_prefix_of(t2));
    assert(t2.subrange(1, t2.len() as int) =~= x);
    assert(split_op(t2) == Some((FilterOp::Before, x)));
}

/// The first day after the period that starts on `s` and is written with `n` bytes: the next
/// year's first day after a year (`YYYY`), the next month's first day after a month
/// (`YYYY-MM`), the next day after a day (`YYYY-MM-DD`).
pub open spec fn day_after_period(n: nat, s: (int, int, int)) -> (int, int, int) {
    if n == 4 {
        (s.0 + 1, 1, 1)
    } else if n == 7 {
        if s.1 == 12 {
            (s.0 + 1, 1, 1)
        } else {
            (s.0, s.1 + 1, 1)
        }
    } else {
        next_day(s.0, s.1, s.2)
    }
}

/// `<=X` ends the filter on the first day after the period `X`, where `<X` ends it on the
/// period's first day: `<=2024` excludes from 2025-01-01 on, `<=2024-02` from 2024-03-01 on,
/// `<=2024-02-28` from 2024-02-29 on. `X` is a date without whitespace that does not start
/// with `=`, and the days involved are in the calendar's range.
pub proof fn lemma_at_most_ends_after_period(x: Seq<char>, s: (int, int, int))
    requires
        x.len() > 0,
        x[0] != '=',
        forall|j: int| 0 <= j < x.len() ==> !crate::text::is_space(#[trigger] x[j]),
        filter_meaning(seq!['<'] + x) == Ok::<Bounds, Seq<char>>((None, Some(s))),
        valid_triple(s),
        valid_triple(day_after_period(utf8_len(x), s)),
    ensures
        filter_meaning(seq!['<', '='] + x) == Ok::<Bounds, Seq<char>>(
            (None, Some(day_after_period(utf8_len(x), s))),
        ),
{
    let t1 = seq!['<'] + x;
    let t2 = seq!['<', '='] + x;
    assert forall|j: int| 0 <= j < t1.len() implies !crate::text::is_space(#[trigger] t1[j]) by {
        if j > 0 {
            assert(t1[j] == x[j - 1]);
        }
    }
    assert forall|j: int| 0 <= j < t2.len() implies !crate::text::is_space(#[trigger] t2[j]) by {
        if j > 1 {
            assert(t2[j] == x[j - 2]);
        }
    }
    lemma_single_term(t1);
    lemma_single_term(t2);
    assert(!seq!['>', '='].is_prefix_of(t1));
    assert(!seq!['<', '='].is_prefix_of(t1)) by {
        assert(t1[1] == x[0]);
    }
    assert(!seq!['>'].is_prefix_of(t1)) by {
        assert(t1[0] == '<');
        assert(seq!['>'][0] == '>');
    }
    assert(seq!['<'].is_prefix_of(t1));
    assert(t1.subrange(1, t1.len() as int) =~= x);
    assert(split_op(t1) == Some((FilterOp::Before, x)));
    assert(partial_date(x) == Ok::<(int, int, int), Seq<char>>(s));
    assert(!seq!['>', '='].is_prefix_of(t2));
    assert(seq!['<', '='].is_prefix_of(t2));
    assert(t2.subrange(2, t2.len() as int) =~= x);
    assert(split_op(t2) == Some((FilterOp::AtMost, x)));
    let n = utf8_len(x);
    let e = day_after_period(n, s);
    if n == 4 {
        assert(period_end(x, s) == Ok::<(int, int, int), Seq<char>>((s.0, 12, 31)));
        assert(next_day(s.0, 12, 31) == e);
    } else if n == 7 {
        let next = if s.1 == 12 {
            (s.0 + 1, 1int, 1int)
        } else {
            (s.0, s.1 + 1, 1int)
        };
        assert(next == e);
        let last = prev_day(next.0, next.1, next.2);
        assert(valid_triple(last));
        assert(period_end(x, s) == Ok::<(int, int, int), Seq<char>>(last));
        assert(next_day(last.0, last.1, last.2) == next);
    } else {
        assert(period_end(x, s) == Ok::<(int, int, int), Seq<char>>(s));
    }
    assert(after_period(x, s) == Ok::<(int, int, int), Seq<char>>(e));
}

/// A filter that parses has at least one bound, and when it has both, the lower bound
/// comes strictly before the upper bound.
pub proof fn lemma_filter_bounds_ordered(input: Seq<char>)
    ensures
        filter_meaning(input) matches Ok(b) ==> (b.0 is Some || b.1 is Some) && (b.0 is Some
            && b.1 is Some ==> before_triple(b.0->0, b.1->0)),
{
}

} // verus!
