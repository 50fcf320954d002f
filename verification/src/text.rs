//! Text primitives over character sequences: whitespace splitting, prefixes,
//! joining, decimal numbers and UTF-8 byte lengths.
use vstd::prelude::*;

verus! {

/// The characters of a string slice, in order.
/// Trusted: `str::chars` collected into a vector yields exactly the characters of the slice.
#[verifier::external_body]
pub(crate) fn chars_of(s: &str) -> (v: Vec<char>)
    ensures
        v@ == s@,
{
    s.chars().collect()
}

/// A string holding exactly the given characters.
/// Trusted: collecting characters into a `String` keeps them in order.
#[verifier::external_body]
pub(crate) fn string_of(v: &[char]) -> (s: String)
    ensures
        s@ == v@,
{
    v.iter().collect()
}

/// A string holding the characters of a literal or slice.
pub fn text(s: &str) -> (r: Vec<char>)
    ensures
        r@ == s@,
{
    chars_of(s)
}

/// Whether `c` has the Unicode `White_Space` property, which is what `char::is_whitespace` tests.
pub open spec fn is_space(c: char) -> bool {
    let u = c as u32;
    ||| 0x9 <= u <= 0xd
    ||| u == 0x20
    ||| u == 0x85
    ||| u == 0xa0
    ||| u == 0x1680
    ||| 0x2000 <= u <= 0x200a
    ||| u == 0x2028
    ||| u == 0x2029
    ||| u == 0x202f
    ||| u == 0x205f
    ||| u == 0x3000
}

pub fn is_space_char(c: char) -> (r: bool)
    ensures
        r == is_space(c),
{
    let u = c as u32;
    (0x9 <= u && u <= 0xd) || u == 0x20 || u == 0x85 || u == 0xa0 || u == 0x1680 || (0x2000 <= u
        && u <= 0x200a) || u == 0x2028 || u == 0x2029 || u == 0x202f || u == 0x205f || u == 0x3000
}

/// The word `cur`, as a list of at most one word: empty words are dropped.
pub open spec fn flush(cur: Seq<char>) -> Seq<Seq<char>> {
    if cur.len() > 0 {
        seq![cur]
    } else {
        seq![]
    }
}

/// The maximal runs of non-whitespace characters of `s` from index `i` on, where `cur`
/// is the part of the current run already read.
pub open spec fn words_from(s: Seq<char>, i: int, cur: Seq<char>) -> Seq<Seq<char>>
    decreases s.len() - i,
{
    if i >= s.len() || i < 0 {
        flush(cur)
    } else if is_space(s[i]) {
        flush(cur) + words_from(s, i + 1, seq![])
    } else {
        words_from(s, i + 1, cur.push(s[i]))
    }
}

/// The whitespace-separated words of `s`, in order (what `str::split_whitespace` yields).
pub open spec fn words(s: Seq<char>) -> Seq<Seq<char>> {
    words_from(s, 0, seq![])
}

/// The characters of each vector.
pub open spec fn views(v: Seq<Vec<char>>) -> Seq<Seq<char>> {
    v.map_values(|w: Vec<char>| w@)
}

/// Splits `s` into its whitespace-separated words.
pub fn split_words(s: &[char]) -> (r: Vec<Vec<char>>)
    ensures
        views(r@) == words(s@),
{
    let mut out: Vec<Vec<char>> = Vec::new();
    let mut cur: Vec<char> = Vec::new();
    let mut i: usize = 0;
    while i < s.len()
        invariant
            0 <= i <= s@.len(),
            views(out@) + words_from(s@, i as int, cur@) == words(s@),
        decreases s@.len() - i,
    {
        let c = s[i];
        if is_space_char(c) {
            if cur.len() > 0 {
                let ghost old_out = out@;
                let ghost old_cur = cur@;
                out.push(cur);
                assert(views(out@) == views(old_out) + seq![old_cur]);
                cur = Vec::new();
            }
            proof {
                assert(views(out@) + words_from(s@, i + 1, cur@) == words(s@)) by {
                    assert(cur@ =~= seq![]);
                }
            }
        } else {
            cur.push(c);
        }
        i = i + 1;
    }
    if cur.len() > 0 {
        let ghost old_out = out@;
        let ghost old_cur = cur@;
        out.push(cur);
        assert(views(out@) == views(old_out) + seq![old_cur]);
    }
    proof {
        assert(views(out@) + seq![] =~= views(out@));
    }
    out
}

/// Copies a character slice into a new vector.
pub fn copy_chars(s: &[char]) -> (r: Vec<char>)
    ensures
        r@ == s@,
{
    let mut r: Vec<char> = Vec::new();
    let mut i: usize = 0;
    while i < s.len()
        invariant
            0 <= i <= s@.len(),
            r@ == s@.subrange(0, i as int),
        decreases s@.len() - i,
    {
        r.push(s[i]);
        i = i + 1;
        assert(r@ =~= s@.subrange(0, i as int));
    }
    assert(r@ =~= s@);
    r
}

/// Appends the characters of `s` to `v`.
pub fn push_all(v: &mut Vec<char>, s: &[char])
    ensures
        final(v)@ == old(v)@ + s@,
{
    let mut i: usize = 0;
    let ghost start = v@;
    while i < s.len()
        invariant
            0 <= i <= s@.len(),
            v@ == start + s@.subrange(0, i as int),
        decreases s@.len() - i,
    {
        v.push(s[i]);
        i = i + 1;
        assert(v@ =~= start + s@.subrange(0, i as int));
    }
    assert(s@.subrange(0, s@.len() as int) =~= s@);
}

/// Appends the characters of a string slice to `v`.
pub fn push_str(v: &mut Vec<char>, s: &str)
    ensures
        final(v)@ == old(v)@ + s@,
{
    let t = chars_of(s);
    push_all(v, t.as_slice());
}

/// Whether `s` begins with `p`, comparing the two exactly.
pub fn starts_with(s: &[char], p: &[char]) -> (r: bool)
    ensures
        r == p@.is_prefix_of(s@),
{
    if p.len() > s.len() {
        return false;
    }
    let mut i: usize = 0;
    while i < p.len()
        invariant
            p@.len() <= s@.len(),
            0 <= i <= p@.len(),
            forall|j: int| 0 <= j < i ==> p@[j] == s@[j],
        decreases p@.len() - i,
    {
        if p[i] != s[i] {
            return false;
        }
        i = i + 1;
    }
    true
}

/// The part of `s` after `p`, if `s` begins with `p` (what `str::strip_prefix` returns).
pub open spec fn strip(s: Seq<char>, p: Seq<char>) -> Option<Seq<char>> {
    if p.is_prefix_of(s) {
        Some(s.subrange(p.len() as int, s.len() as int))
    } else {
        None
    }
}

/// `s` without its prefix `p` where it has one, else `s` unchanged.
pub open spec fn strip_or_keep(s: Seq<char>, p: Seq<char>) -> Seq<char> {
    match strip(s, p) {
        Some(r) => r,
        None => s,
    }
}

/// The characters of `s` from index `from` on.
pub fn tail_from(s: &[char], from: usize) -> (r: Vec<char>)
    requires
        from <= s@.len(),
    ensures
        r@ == s@.subrange(from as int, s@.len() as int),
{
    let mut r: Vec<char> = Vec::new();
    let mut i: usize = from;
    while i < s.len()
        invariant
            from <= i <= s@.len(),
            r@ == s@.subrange(from as int, i as int),
        decreases s@.len() - i,
    {
        r.push(s[i]);
        i = i + 1;
        assert(r@ =~= s@.subrange(from as int, i as int));
    }
    r
}

/// Strips the prefix `p` from `s`.
pub fn strip_prefix(s: &[char], p: &[char]) -> (r: Option<Vec<char>>)
    ensures
        match r {
            Some(v) => strip(s@, p@) == Some(v@),
            None => strip(s@, p@) is None,
        },
{
    if starts_with(s, p) {
        Some(tail_from(s, p.len()))
    } else {
        None
    }
}

/// Strips the prefix `p` from `s` if it is there; otherwise returns `s`.
pub fn strip_prefix_or_keep(s: &[char], p: &[char]) -> (r: Vec<char>)
    ensures
        r@ == strip_or_keep(s@, p@),
{
    match strip_prefix(s, p) {
        Some(v) => v,
        None => copy_chars(s),
    }
}

/// `parts` joined with `sep` between consecutive parts (what `join` on a slice of strings gives).
pub open spec fn join_with(parts: Seq<Seq<char>>, sep: Seq<char>) -> Seq<char>
    decreases parts.len(),
{
    if parts.len() == 0 {
        seq![]
    } else if parts.len() == 1 {
        parts[0]
    } else {
        join_with(parts.drop_last(), sep) + sep + parts.last()
    }
}

/// Joins the parts with `sep` between them.
pub fn join(parts: &Vec<Vec<char>>, sep: &[char]) -> (r: Vec<char>)
    ensures
        r@ == join_with(views(parts@), sep@),
{
    let mut r: Vec<char> = Vec::new();
    let mut i: usize = 0;
    while i < parts.len()
        invariant
            0 <= i <= parts@.len(),
            r@ == join_with(views(parts@).take(i as int), sep@),
        decreases parts@.len() - i,
    {
        let ghost before = r@;
        if i > 0 {
            push_all(&mut r, sep);
        }
        push_all(&mut r, parts[i].as_slice());
        proof {
            let t = views(parts@).take(i + 1);
            assert(t.drop_last() =~= views(parts@).take(i as int));
            if i == 0 {
                assert(r@ =~= t[0]);
            } else {
                assert(r@ =~= before + sep@ + t.last());
            }
        }
        i = i + 1;
    }
    assert(views(parts@).take(parts@.len() as int) =~= views(parts@));
    r
}

/// The decimal digit character for `d < 10`.
pub open spec fn digit_char(d: int) -> char {
    (d + 48) as char
}

/// The decimal representation of `n`, without leading zeros (what `to_string` gives for an
/// unsigned integer).
pub open spec fn decimal(n: nat) -> Seq<char>
    decreases n,
{
    if n < 10 {
        seq![digit_char(n as int)]
    } else {
        decimal(n / 10).push(digit_char((n % 10) as int))
    }
}

/// `decimal(n)` left-padded with zeros to at least `width` characters.
pub open spec fn zero_padded(n: nat, width: nat) -> Seq<char> {
    let d = decimal(n);
    if d.len() >= width {
        d
    } else {
        Seq::new((width - d.len()) as nat, |i: int| '0') + d
    }
}

/// The decimal text of `n`.
pub fn decimal_text(n: u64) -> (r: Vec<char>)
    ensures
        r@ == decimal(n as nat),
    decreases n,
{
    if n < 10 {
        let mut r: Vec<char> = Vec::new();
        r.push(((n as u8) + 48u8) as char);
        proof {
            assert(r@ =~= seq![digit_char(n as int)]);
        }
        r
    } else {
        let mut r = decimal_text(n / 10);
        r.push((((n % 10) as u8) + 48u8) as char);
        r
    }
}

/// `decimal_text` padded with zeros to at least `width` characters.
pub fn padded_text(n: u64, width: usize) -> (r: Vec<char>)
    ensures
        r@ == zero_padded(n as nat, width as nat),
{
    let d = decimal_text(n);
    if d.len() >= width {
        d
    } else {
        let mut r: Vec<char> = Vec::new();
        let k = width - d.len();
        let mut i: usize = 0;
        while i < k
            invariant
                0 <= i <= k,
                k == width - d@.len(),
                r@ == Seq::new(i as nat, |j: int| '0'),
            decreases k - i,
        {
            r.push('0');
            i = i + 1;
            assert(r@ =~= Seq::new(i as nat, |j: int| '0'));
        }
        push_all(&mut r, d.as_slice());
        r
    }
}

/// Whether `c` is an ASCII decimal digit.
pub open spec fn is_digit(c: char) -> bool {
    '0' <= c <= '9'
}

/// The number written by the decimal digits `s` (most significant first).
pub open spec fn digits_value(s: Seq<char>) -> nat
    decreases s.len(),
{
    if s.len() == 0 {
        0
    } else {
        digits_value(s.drop_last()) * 10 + ((s.last() as int - 48) as nat)
    }
}

/// The digits that `str::parse` reads for an unsigned integer: an optional leading `+`
/// followed by the rest.
pub open spec fn unsigned_digits(s: Seq<char>) -> Seq<char> {
    if s.len() > 0 && s[0] == '+' {
        s.drop_first()
    } else {
        s
    }
}

/// What `str::parse::<usize>` (or any unsigned type with maximum `max`) returns for `s`:
/// the value when `s` is an optional `+` and at least one ASCII digit, and the value is at
/// most `max`; otherwise nothing.
pub open spec fn parse_unsigned(s: Seq<char>, max: nat) -> Option<nat> {
    let d = unsigned_digits(s);
    if d.len() > 0 && (forall|i: int| 0 <= i < d.len() ==> is_digit(#[trigger] d[i]))
        && digits_value(d) <= max {
        Some(digits_value(d))
    } else {
        None
    }
}

proof fn lemma_non_digit_rejected(s: Seq<char>, max: nat, j: int)
    requires
        0 <= j < unsigned_digits(s).len(),
        !is_digit(unsigned_digits(s)[j]),
    ensures
        parse_unsigned(s, max) is None,
{
    let d = unsigned_digits(s);
    assert(!(forall|i: int| 0 <= i < d.len() ==> is_digit(#[trigger] d[i])));
}

proof fn lemma_digits_value_monotone(s: Seq<char>, k: int)
    requires
        0 <= k <= s.len(),
        forall|i: int| 0 <= i < s.len() ==> is_digit(#[trigger] s[i]),
    ensures
        digits_value(s.take(k)) <= digits_value(s),
    decreases s.len(),
{
    if k < s.len() {
        let t = s.drop_last();
        assert(t.take(k) =~= s.take(k));
        assert forall|i: int| 0 <= i < t.len() implies is_digit(#[trigger] t[i]) by {
            assert(t[i] == s[i]);
        }
        lemma_digits_value_monotone(t, k);
        assert(s.take(s.len() as int) =~= s);
    } else {
        assert(s.take(k) =~= s);
    }
}

/// Parses an unsigned decimal number of at most `max`, as `str::parse` does.
pub fn parse_unsigned_text(s: &[char], max: u64) -> (r: Option<u64>)
    ensures
        match r {
            Some(v) => parse_unsigned(s@, max as nat) == Some(v as nat),
            None => parse_unsigned(s@, max as nat) is None,
        },
{
    let start: usize = if s.len() > 0 && s[0] == '+' {
        1
    } else {
        0
    };
    let ghost d = unsigned_digits(s@);
    assert(d =~= s@.subrange(start as int, s@.len() as int));
    if start >= s.len() {
        return None;
    }
    let mut acc: u64 = 0;
    let mut i: usize = start;
    while i < s.len()
        invariant
            start <= i <= s@.len(),
            d == unsigned_digits(s@),
            d == s@.subrange(start as int, s@.len() as int),
            forall|j: int| 0 <= j < i - start ==> is_digit(#[trigger] d[j]),
            acc as nat == digits_value(d.take(i - start)),
            acc <= max,
        decreases s@.len() - i,
    {
        let c = s[i];
        assert(d[i - start] == c);
        if !('0' <= c && c <= '9') {
            assert(!is_digit(d[i - start]));
            assert(!(forall|j: int| 0 <= j < d.len() ==> is_digit(#[trigger] d[j])));
            proof {
                lemma_non_digit_rejected(s@, max as nat, i - start);
            }
            return None;
        }
        let dv = (c as u64) - 48;
        proof {
            assert(d.take(i - start + 1).drop_last() =~= d.take(i - start));
            assert(d.take(i - start + 1).last() == c);
            assert(digits_value(d.take(i - start + 1)) == acc * 10 + dv);
        }
        if dv > max || acc > (max - dv) / 10 {
            proof {
                if dv <= max {
                    assert(acc * 10 + dv > max) by (nonlinear_arith)
                        requires
                            acc > (max - dv) / 10,
                            dv <= max,
                    ;
                }
                assert forall|j: int| 0 <= j < i - start + 1 implies is_digit(
                    #[trigger] d.take(i - start + 1)[j],
                ) by {}
                if (forall|j: int| 0 <= j < d.len() ==> is_digit(#[trigger] d[j])) {
                    lemma_digits_value_monotone(d, i - start + 1);
                }
            }
            return None;
        }
        proof {
            assert(acc * 10 + dv <= max) by (nonlinear_arith)
                requires
                    acc <= (max - dv) / 10,
                    dv <= max,
            ;
        }
        acc = acc * 10 + dv;
        i = i + 1;
    }
    assert(d.take(i - start) =~= d);
    Some(acc)
}

/// The number of bytes that the UTF-8 encoding of `c` takes.
pub open spec fn utf8_width(c: char) -> nat {
    let u = c as u32;
    if u < 0x80 {
        1
    } else if u < 0x800 {
        2
    } else if u < 0x10000 {
        3
    } else {
        4
    }
}

/// The number of bytes of the UTF-8 encoding of `s` (what `str::len` returns).
pub open spec fn utf8_len(s: Seq<char>) -> nat
    decreases s.len(),
{
    if s.len() == 0 {
        0
    } else {
        utf8_len(s.drop_last()) + utf8_width(s.last())
    }
}

/// The UTF-8 byte length of `s`.
pub fn utf8_length(s: &[char]) -> (r: usize)
    requires
        s@.len() <= usize::MAX / 4,
    ensures
        r as nat == utf8_len(s@),
{
    let mut n: usize = 0;
    let mut i: usize = 0;
    while i < s.len()
        invariant
            0 <= i <= s@.len(),
            s@.len() <= usize::MAX / 4,
            n as nat == utf8_len(s@.take(i as int)),
            n <= 4 * i,
        decreases s@.len() - i,
    {
        let u = s[i] as u32;
        let w: usize = if u < 0x80 {
            1
        } else if u < 0x800 {
            2
        } else if u < 0x10000 {
            3
        } else {
            4
        };
        proof {
            assert(s@.take(i + 1).drop_last() =~= s@.take(i as int));
        }
        n = n + w;
        i = i + 1;
    }
    assert(s@.take(s@.len() as int) =~= s@);
    n
}

/// The lowercase form of a string as `str::to_lowercase` computes it (Unicode case mapping).
pub uninterp spec fn lowercase_of(s: Seq<char>) -> Seq<char>;

/// Whether a character is ASCII.
pub open spec fn is_ascii_char(c: char) -> bool {
    (c as u32) < 0x80
}

/// The ASCII lowercase of `c` (`A`-`Z` mapped to `a`-`z`, everything else unchanged).
pub open spec fn ascii_lower(c: char) -> char {
    if 'A' <= c <= 'Z' {
        ((c as u32) + 32) as char
    } else {
        c
    }
}

/// The lowercase of a string.
/// Trusted: calls `str::to_lowercase`; its result is named `lowercase_of`, and on ASCII text
/// it maps `A`-`Z` to `a`-`z` character by character and keeps every other character.
#[verifier::external_body]
pub(crate) fn to_lowercase(s: &str) -> (r: String)
    ensures
        r@ == lowercase_of(s@),
        (forall|i: int| 0 <= i < s@.len() ==> is_ascii_char(#[trigger] s@[i])) ==> r@ == s@.map_values(
            |c: char| ascii_lower(c),
        ),
{
    s.to_lowercase()
}

/// Whether `char::is_alphanumeric` holds of `c` (Unicode `Alphabetic` or `Numeric`).
pub uninterp spec fn alphanumeric(c: char) -> bool;

/// Trusted: calls `char::is_alphanumeric`; its result is named `alphanumeric`, and on ASCII
/// characters it holds exactly of the digits and the letters.
#[verifier::external_body]
pub(crate) fn is_alphanumeric_char(c: char) -> (r: bool)
    ensures
        r == alphanumeric(c),
        is_ascii_char(c) ==> (r <==> ('0' <= c <= '9' || 'a' <= c <= 'z' || 'A' <= c <= 'Z')),
{
    c.is_alphanumeric()
}

} // verus!

verus! {

/// `base` joined with the path `rel` as `Path::join` does on Unix: `rel` alone when it is
/// absolute or `base` is empty, else `base`, a `/` unless `base` already ends with one, and
/// `rel`.
pub open spec fn path_join(base: Seq<char>, rel: Seq<char>) -> Seq<char> {
    if rel.len() > 0 && rel[0] == '/' {
        rel
    } else if base.len() == 0 {
        rel
    } else if base.last() == '/' {
        base + rel
    } else {
        base + seq!['/'] + rel
    }
}

/// Joins a relative path onto a base path.
pub fn join_path(base: &str, rel: &str) -> (r: String)
    ensures
        r@ == path_join(base@, rel@),
{
    let rv = chars_of(rel);
    if rv.len() > 0 && rv[0] == '/' {
        return string_of(rv.as_slice());
    }
    let b = chars_of(base);
    let mut out = copy_chars(b.as_slice());
    if b.len() > 0 && b[b.len() - 1] != '/' {
        out.push('/');
    }
    push_str(&mut out, rel);
    string_of(out.as_slice())
}

} // verus!

verus! {

/// Filtering a sequence extended by one element.
pub proof fn lemma_filter_push<A>(s: Seq<A>, x: A, p: spec_fn(A) -> bool)
    ensures
        s.push(x).filter(p) == if p(x) {
            s.filter(p).push(x)
        } else {
            s.filter(p)
        },
{
    reveal(Seq::filter);
    assert(s.push(x).drop_last() =~= s);
}

/// Whether two character sequences are equal.
pub fn same_chars(a: &[char], b: &[char]) -> (r: bool)
    ensures
        r == (a@ == b@),
{
    if a.len() != b.len() {
        return false;
    }
    let mut i: usize = 0;
    while i < a.len()
        invariant
            a@.len() == b@.len(),
            0 <= i <= a@.len(),
            forall|j: int| 0 <= j < i ==> a@[j] == b@[j],
        decreases a@.len() - i,
    {
        if a[i] != b[i] {
            return false;
        }
        i = i + 1;
    }
    assert(a@ =~= b@);
    true
}

} // verus!

verus! {

/// Filtering keeps nothing when no element satisfies the predicate.
pub proof fn lemma_filter_none<A>(s: Seq<A>, p: spec_fn(A) -> bool)
    requires
        forall|i: int| 0 <= i < s.len() ==> !p(#[trigger] s[i]),
    ensures
        s.filter(p) == Seq::<A>::empty(),
    decreases s.len(),
{
    reveal(Seq::filter);
    if s.len() > 0 {
        let t = s.drop_last();
        assert forall|i: int| 0 <= i < t.len() implies !p(#[trigger] t[i]) by {
            assert(t[i] == s[i]);
        }
        lemma_filter_none(t, p);
        assert(!p(s[s.len() - 1]));
    }
    assert(s.filter(p) =~= Seq::<A>::empty());
}

} // verus!

verus! {

proof fn lemma_words_from_no_space(s: Seq<char>, i: int, cur: Seq<char>)
    requires
        0 <= i <= s.len(),
        forall|j: int| i <= j < s.len() ==> !is_space(#[trigger] s[j]),
    ensures
        words_from(s, i, cur) == flush(cur + s.subrange(i, s.len() as int)),
    decreases s.len() - i,
{
    if i < s.len() {
        lemma_words_from_no_space(s, i + 1, cur.push(s[i]));
        assert(cur.push(s[i]) + s.subrange(i + 1, s.len() as int) =~= cur + s.subrange(
            i,
            s.len() as int,
        ));
    } else {
        assert(cur + s.subrange(i, s.len() as int) =~= cur);
    }
}

/// A non-empty text without whitespace is a single word.
pub proof fn lemma_single_word(s: Seq<char>)
    requires
        s.len() > 0,
        forall|j: int| 0 <= j < s.len() ==> !is_space(#[trigger] s[j]),
    ensures
        words(s) == seq![s],
{
    lemma_words_from_no_space(s, 0, seq![]);
    assert(Seq::<char>::empty() + s.subrange(0, s.len() as int) =~= s);
}

} // verus!

verus! {

/// Whether every character of `w` satisfies `p` and none is whitespace.
pub open spec fn solid_word(w: Seq<char>, p: spec_fn(char) -> bool) -> bool {
    &&& w.len() > 0
    &&& forall|m: int| 0 <= m < w.len() ==> p(#[trigger] w[m]) && !is_space(w[m])
}

proof fn lemma_words_from_solid(s: Seq<char>, i: int, cur: Seq<char>, p: spec_fn(char) -> bool)
    requires
        0 <= i <= s.len(),
        forall|j: int| i <= j < s.len() && !is_space(#[trigger] s[j]) ==> p(s[j]),
        forall|m: int| 0 <= m < cur.len() ==> p(#[trigger] cur[m]) && !is_space(cur[m]),
    ensures
        forall|k: int|
            0 <= k < words_from(s, i, cur).len() ==> solid_word(#[trigger] words_from(s, i, cur)[k], p),
    decreases s.len() - i,
{
    if i >= s.len() {
        if cur.len() > 0 {
            assert(words_from(s, i, cur) == seq![cur]);
            assert(solid_word(cur, p));
        }
    } else if is_space(s[i]) {
        lemma_words_from_solid(s, i + 1, seq![], p);
        assert(words_from(s, i, cur) == flush(cur) + words_from(s, i + 1, seq![]));
        if cur.len() > 0 {
            assert(solid_word(cur, p));
        }
        let f = flush(cur);
        let rest = words_from(s, i + 1, seq![]);
        assert forall|k: int| 0 <= k < (f + rest).len() implies solid_word(#[trigger] (f + rest)[k], p) by {
            if k < f.len() {
                assert((f + rest)[k] == cur);
            } else {
                assert((f + rest)[k] == rest[k - f.len()]);
            }
        }
        assert(words_from(s, i, cur) == f + rest);
    } else {
        let c2 = cur.push(s[i]);
        assert forall|m: int| 0 <= m < c2.len() implies p(#[trigger] c2[m]) && !is_space(c2[m]) by {
            if m < cur.len() {
                assert(c2[m] == cur[m]);
            }
        }
        lemma_words_from_solid(s, i + 1, c2, p);
        assert(words_from(s, i, cur) == words_from(s, i + 1, c2));
    }
}

/// The whitespace-separated words of a text are non-empty, hold no whitespace, and hold
/// only characters that satisfy `p`, when every non-whitespace character of the text does.
pub proof fn lemma_words_solid(s: Seq<char>, p: spec_fn(char) -> bool)
    requires
        forall|j: int| 0 <= j < s.len() && !is_space(#[trigger] s[j]) ==> p(s[j]),
    ensures
        forall|k: int| 0 <= k < words(s).len() ==> solid_word(#[trigger] words(s)[k], p),
{
    lemma_words_from_solid(s, 0, seq![], p);
}

/// Whether every space of `r` has a character other than a space on both sides, and every
/// other character satisfies `p`.
pub open spec fn single_spaced(r: Seq<char>, p: spec_fn(char) -> bool) -> bool {
    forall|i: int|
        0 <= i < r.len() ==> if #[trigger] r[i] == ' ' {
            0 < i && i + 1 < r.len() && r[i - 1] != ' ' && r[i + 1] != ' '
        } else {
            p(r[i])
        }
}

/// Non-empty words without whitespace, joined by single spaces, give a text whose spaces
/// all stand alone between two words.
pub proof fn lemma_join_single_spaced(parts: Seq<Seq<char>>, p: spec_fn(char) -> bool)
    requires
        forall|k: int| 0 <= k < parts.len() ==> solid_word(#[trigger] parts[k], p),
    ensures
        parts.len() > 0 ==> join_with(parts, seq![' ']).len() > 0,
        single_spaced(join_with(parts, seq![' ']), p),
    decreases parts.len(),
{
    let r = join_with(parts, seq![' ']);
    assert(is_space(' '));
    if parts.len() == 0 {
    } else if parts.len() == 1 {
        let w = parts[0];
        assert(solid_word(w, p));
        assert forall|i: int| 0 <= i < r.len() implies (if #[trigger] r[i] == ' ' {
            0 < i && i + 1 < r.len() && r[i - 1] != ' ' && r[i + 1] != ' '
        } else {
            p(r[i])
        }) by {
            assert(p(w[i]) && !is_space(w[i]));
        }
    } else {
        let a = join_with(parts.drop_last(), seq![' ']);
        let w = parts.last();
        assert forall|k: int| 0 <= k < parts.drop_last().len() implies solid_word(
            #[trigger] parts.drop_last()[k],
            p,
        ) by {
            assert(parts.drop_last()[k] == parts[k]);
        }
        lemma_join_single_spaced(parts.drop_last(), p);
        assert(solid_word(w, p)) by {
            assert(w == parts[parts.len() - 1]);
        }
        assert(r == a + seq![' '] + w);
        let n = a.len();
        assert(a[n - 1] != ' ') by {
            if a[n - 1] == ' ' {
                assert(single_spaced(a, p));
            }
        }
        assert forall|i: int| 0 <= i < r.len() implies (if #[trigger] r[i] == ' ' {
            0 < i && i + 1 < r.len() && r[i - 1] != ' ' && r[i + 1] != ' '
        } else {
            p(r[i])
        }) by {
            if i < n {
                assert(r[i] == a[i]);
                if a[i] == ' ' {
                    assert(r[i - 1] == a[i - 1]);
                    assert(r[i + 1] == a[i + 1]);
                }
            } else if i == n {
                assert(r[i - 1] == a[n - 1]);
                assert(r[i + 1] == w[0]);
                assert(!is_space(w[0]));
            } else {
                assert(r[i] == w[i - n - 1]);
                assert(p(w[i - n - 1]) && !is_space(w[i - n - 1]));
            }
        }
    }
}

} // verus!
