//! Scanning text: white space, tokens, lines and separated fields, all as
//! spans into the scanned text.

use vstd::prelude::*;
use crate::text::{is_ws, char_is_ws, slice_is, to_chars};

verus! {

/// A half-open range `start..end` of positions in a text.
#[derive(Clone, Copy, Debug, PartialEq, Eq, Structural)]
pub struct Span {
    pub start: usize,
    pub end: usize,
}

impl Span {
    /// Whether the span lies inside a text of `len` characters.
    pub open spec fn fits(self, len: nat) -> bool {
        self.start <= self.end <= len
    }

    /// The part of `s` that the span covers.
    pub open spec fn of(self, s: Seq<char>) -> Seq<char> {
        s.subrange(self.start as int, self.end as int)
    }
}

/// The span `a..b`.
pub open spec fn span(a: int, b: int) -> Span {
    Span { start: a as usize, end: b as usize }
}

/// The texts that `spans` cover in `s`.
pub open spec fn texts(s: Seq<char>, spans: Seq<Span>) -> Seq<Seq<char>> {
    Seq::new(spans.len(), |k: int| spans[k].of(s))
}

/// Whether every span lies inside a text of `len` characters.
pub open spec fn all_fit(spans: Seq<Span>, len: nat) -> bool {
    forall|k: int| 0 <= k < spans.len() ==> (#[trigger] spans[k]).fits(len)
}

/// The first position at or after `i` that holds no white space, or the
/// length of `s`.
pub open spec fn skip_ws(s: Seq<char>, i: int) -> int
    decreases s.len() - i,
{
    if 0 <= i < s.len() && is_ws(s[i]) {
        skip_ws(s, i + 1)
    } else {
        i
    }
}

/// The first position at or after `i` that holds white space, or the length
/// of `s`.
pub open spec fn skip_non_ws(s: Seq<char>, i: int) -> int
    decreases s.len() - i,
{
    if 0 <= i < s.len() && !is_ws(s[i]) {
        skip_non_ws(s, i + 1)
    } else {
        i
    }
}

/// The first position at or after `i` that holds `c`, or the length of `s`.
pub open spec fn find_char(s: Seq<char>, i: int, c: char) -> int
    decreases s.len() - i,
{
    if 0 <= i < s.len() && s[i] != c {
        find_char(s, i + 1, c)
    } else {
        i
    }
}

/// Skipping white space stops inside the text, at a character that is no
/// white space, and passes over white space only.
pub proof fn lemma_skip_ws_bounds(s: Seq<char>, i: int)
    requires
        0 <= i <= s.len(),
    ensures
        i <= skip_ws(s, i) <= s.len(),
        skip_ws(s, i) < s.len() ==> !is_ws(s[skip_ws(s, i)]),
        forall|k: int| i <= k < skip_ws(s, i) ==> is_ws(#[trigger] s[k]),
    decreases s.len() - i,
{
    if i < s.len() && is_ws(s[i]) {
        lemma_skip_ws_bounds(s, i + 1);
    }
}

/// Skipping a token stops inside the text, at white space, passes over no
/// white space, and moves where it starts on a token.
pub proof fn lemma_skip_non_ws_bounds(s: Seq<char>, i: int)
    requires
        0 <= i <= s.len(),
    ensures
        i <= skip_non_ws(s, i) <= s.len(),
        skip_non_ws(s, i) < s.len() ==> is_ws(s[skip_non_ws(s, i)]),
        forall|k: int| i <= k < skip_non_ws(s, i) ==> !is_ws(#[trigger] s[k]),
        i < s.len() && !is_ws(s[i]) ==> i < skip_non_ws(s, i),
    decreases s.len() - i,
{
    if i < s.len() && !is_ws(s[i]) {
        lemma_skip_non_ws_bounds(s, i + 1);
    }
}

/// Looking for a character stops inside the text, at the character, and
/// passes over none of its kind.
pub proof fn lemma_find_char_bounds(s: Seq<char>, i: int, c: char)
    requires
        0 <= i <= s.len(),
    ensures
        i <= find_char(s, i, c) <= s.len(),
        find_char(s, i, c) < s.len() ==> s[find_char(s, i, c)] == c,
        forall|k: int| i <= k < find_char(s, i, c) ==> #[trigger] s[k] != c,
    decreases s.len() - i,
{
    if i < s.len() && s[i] != c {
        lemma_find_char_bounds(s, i + 1, c);
    }
}

/// Skips white space from `i` on.
pub fn scan_ws(v: &Vec<char>, i: usize) -> (j: usize)
    requires
        i <= v.len(),
    ensures
        j == skip_ws(v@, i as int),
        i <= j <= v.len(),
{
    let mut j: usize = i;
    while j < v.len() && char_is_ws(v[j])
        invariant
            i <= j <= v.len(),
            skip_ws(v@, j as int) == skip_ws(v@, i as int),
        decreases v.len() - j,
    {
        j += 1;
    }
    j
}

/// Skips everything but white space from `i` on.
pub fn scan_non_ws(v: &Vec<char>, i: usize) -> (j: usize)
    requires
        i <= v.len(),
    ensures
        j == skip_non_ws(v@, i as int),
        i <= j <= v.len(),
{
    let mut j: usize = i;
    while j < v.len() && !char_is_ws(v[j])
        invariant
            i <= j <= v.len(),
            skip_non_ws(v@, j as int) == skip_non_ws(v@, i as int),
        decreases v.len() - j,
    {
        j += 1;
    }
    j
}

/// Finds the first `c` from `i` on.
pub fn scan_char(v: &Vec<char>, i: usize, c: char) -> (j: usize)
    requires
        i <= v.len(),
    ensures
        j == find_char(v@, i as int, c),
        i <= j <= v.len(),
{
    let mut j: usize = i;
    while j < v.len() && v[j] != c
        invariant
            i <= j <= v.len(),
            find_char(v@, j as int, c) == find_char(v@, i as int, c),
        decreases v.len() - j,
    {
        j += 1;
    }
    j
}

/// The white-space separated tokens of `s` from position `i` on.
pub open spec fn token_spans_from(s: Seq<char>, i: int) -> Seq<Span>
    decreases s.len() - i,
{
    let a = skip_ws(s, i);
    if 0 <= i && a < s.len() {
        let b = skip_non_ws(s, a);
        if i <= a < b <= s.len() {
            seq![span(a, b)] + token_spans_from(s, b)
        } else {
            seq![]
        }
    } else {
        seq![]
    }
}

/// The white-space separated tokens of `s`: the maximal runs of characters
/// that are not white space, in order.
pub open spec fn token_spans(s: Seq<char>) -> Seq<Span> {
    token_spans_from(s, 0)
}

/// The tokens of `s` as texts.
pub open spec fn tokens(s: Seq<char>) -> Seq<Seq<char>> {
    texts(s, token_spans(s))
}

/// Tokens lie inside the text, and none is empty.
pub proof fn lemma_token_spans_fit(s: Seq<char>, i: int)
    requires
        0 <= i <= s.len() <= usize::MAX,
    ensures
        all_fit(token_spans_from(s, i), s.len()),
        forall|k: int|
            0 <= k < token_spans_from(s, i).len() ==> i <= (#[trigger] token_spans_from(
                s,
                i,
            )[k]).start < token_spans_from(s, i)[k].end,
    decreases s.len() - i,
{
    lemma_skip_ws_bounds(s, i);
    let a = skip_ws(s, i);
    if a < s.len() {
        lemma_skip_non_ws_bounds(s, a);
        let b = skip_non_ws(s, a);
        if a < b {
            lemma_token_spans_fit(s, b);
        }
    }
}

/// The tokens of `v`.
pub fn split_tokens(v: &Vec<char>) -> (r: Vec<Span>)
    ensures
        r@ == token_spans(v@),
        all_fit(r@, v@.len()),
{
    let mut r: Vec<Span> = Vec::new();
    let mut i: usize = 0;
    loop
        invariant
            i <= v.len(),
            r@ + token_spans_from(v@, i as int) == token_spans(v@),
        ensures
            r@ == token_spans(v@),
        decreases v.len() - i,
    {
        let a = scan_ws(v, i);
        if a >= v.len() {
            assert(token_spans_from(v@, i as int) == Seq::<Span>::empty());
            assert(r@ + Seq::<Span>::empty() == r@);
            break;
        }
        let b = scan_non_ws(v, a);
        proof {
            lemma_skip_ws_bounds(v@, i as int);
            lemma_skip_non_ws_bounds(v@, a as int);
            let ghost old_r = r@;
            assert(token_spans_from(v@, i as int) == seq![span(a as int, b as int)]
                + token_spans_from(v@, b as int));
            assert(old_r.push(Span { start: a, end: b }) + token_spans_from(v@, b as int) == old_r
                + token_spans_from(v@, i as int));
        }
        r.push(Span { start: a, end: b });
        i = b;
    }
    proof {
        lemma_token_spans_fit(v@, 0);
    }
    r
}

/// The lines of `s` from position `i` on.
pub open spec fn line_spans_from(s: Seq<char>, i: int) -> Seq<Span>
    decreases s.len() - i,
{
    if 0 <= i < s.len() {
        let j = find_char(s, i, '\n');
        if j < s.len() {
            let e = if i < j && s[j - 1] == '\r' {
                j - 1
            } else {
                j
            };
            if i <= j {
                seq![span(i, e)] + line_spans_from(s, j + 1)
            } else {
                seq![]
            }
        } else {
            seq![span(i, s.len() as int)]
        }
    } else {
        seq![]
    }
}

/// The lines of `s`. A line ends at a line feed, or at a carriage return
/// directly before one; the ending is not part of the line. The last line
/// needs no ending, and an ending at the very end opens no further line.
pub open spec fn line_spans(s: Seq<char>) -> Seq<Span> {
    line_spans_from(s, 0)
}

/// The lines of `s` as texts.
pub open spec fn lines(s: Seq<char>) -> Seq<Seq<char>> {
    texts(s, line_spans(s))
}

/// Lines lie inside the text.
pub proof fn lemma_line_spans_fit(s: Seq<char>, i: int)
    requires
        0 <= i <= s.len() <= usize::MAX,
    ensures
        all_fit(line_spans_from(s, i), s.len()),
    decreases s.len() - i,
{
    if i < s.len() {
        lemma_find_char_bounds(s, i, '\n');
        let j = find_char(s, i, '\n');
        if j < s.len() {
            lemma_line_spans_fit(s, j + 1);
        }
    }
}

/// The lines of `v`.
pub fn split_lines(v: &Vec<char>) -> (r: Vec<Span>)
    ensures
        r@ == line_spans(v@),
        all_fit(r@, v@.len()),
{
    let mut r: Vec<Span> = Vec::new();
    let mut i: usize = 0;
    while i < v.len()
        invariant
            i <= v.len(),
            r@ + line_spans_from(v@, i as int) == line_spans(v@),
        decreases v.len() - i,
    {
        let j = scan_char(v, i, '\n');
        let ghost old_r = r@;
        if j >= v.len() {
            r.push(Span { start: i, end: v.len() });
            assert(line_spans_from(v@, i as int) == seq![span(i as int, v@.len() as int)]);
            assert(line_spans_from(v@, v@.len() as int) == Seq::<Span>::empty());
            assert(r@ + Seq::<Span>::empty() == old_r + line_spans_from(v@, i as int));
            i = v.len();
        } else {
            let e = if i < j && v[j - 1] == '\r' {
                j - 1
            } else {
                j
            };
            r.push(Span { start: i, end: e });
            proof {
                assert(line_spans_from(v@, i as int) == seq![span(i as int, e as int)]
                    + line_spans_from(v@, j + 1));
                assert(r@ + line_spans_from(v@, j + 1) == old_r + line_spans_from(v@, i as int));
            }
            i = j + 1;
        }
    }
    proof {
        assert(line_spans_from(v@, i as int) == Seq::<Span>::empty());
        assert(r@ + Seq::<Span>::empty() == r@);
        lemma_line_spans_fit(v@, 0);
    }
    r
}

/// The fields of `s[i..end]` that `sep` separates.
pub open spec fn field_spans_from(s: Seq<char>, i: int, end: int, sep: char) -> Seq<Span>
    decreases end - i,
{
    if 0 <= i <= end <= s.len() {
        let j = find_char(s.take(end), i, sep);
        if i <= j < end {
            seq![span(i, j)] + field_spans_from(s, j + 1, end, sep)
        } else {
            seq![span(i, end)]
        }
    } else {
        seq![]
    }
}

/// The fields of the part `within` of `s`: the runs between occurrences of
/// `sep`, empty ones included, so that there is one field more than there are
/// separators.
pub open spec fn field_spans(s: Seq<char>, within: Span, sep: char) -> Seq<Span> {
    field_spans_from(s, within.start as int, within.end as int, sep)
}

/// Fields lie inside the part that was split, and there is at least one.
pub proof fn lemma_field_spans_fit(s: Seq<char>, i: int, end: int, sep: char)
    requires
        0 <= i <= end <= s.len() <= usize::MAX,
    ensures
        all_fit(field_spans_from(s, i, end, sep), s.len()),
        field_spans_from(s, i, end, sep).len() >= 1,
        forall|k: int|
            0 <= k < field_spans_from(s, i, end, sep).len() ==> i <= (#[trigger] field_spans_from(
                s,
                i,
                end,
                sep,
            )[k]).start && field_spans_from(s, i, end, sep)[k].end <= end,
    decreases end - i,
{
    lemma_find_char_bounds(s.take(end), i, sep);
    let j = find_char(s.take(end), i, sep);
    if i <= j < end {
        lemma_field_spans_fit(s, j + 1, end, sep);
    }
}

/// Finds the first `c` in `v[i..end]`, or `end`.
pub fn scan_char_within(v: &Vec<char>, i: usize, end: usize, c: char) -> (j: usize)
    requires
        i <= end <= v.len(),
    ensures
        j == find_char(v@.take(end as int), i as int, c),
        i <= j <= end,
{
    let mut j: usize = i;
    while j < end && v[j] != c
        invariant
            i <= j <= end <= v.len(),
            find_char(v@.take(end as int), j as int, c) == find_char(
                v@.take(end as int),
                i as int,
                c,
            ),
        decreases end - j,
    {
        j += 1;
    }
    j
}

/// The fields of `v[within]` that `sep` separates.
pub fn split_fields(v: &Vec<char>, within: Span, sep: char) -> (r: Vec<Span>)
    requires
        within.fits(v@.len()),
    ensures
        r@ == field_spans(v@, within, sep),
        all_fit(r@, v@.len()),
        r@.len() >= 1,
{
    let mut r: Vec<Span> = Vec::new();
    let mut i: usize = within.start;
    let end = within.end;
    loop
        invariant_except_break
            r@ + field_spans_from(v@, i as int, end as int, sep) == field_spans(v@, within, sep),
        invariant
            i <= end <= v.len(),
            end == within.end,
        ensures
            r@ == field_spans(v@, within, sep),
        decreases end - i,
    {
        let j = scan_char_within(v, i, end, sep);
        let ghost old_r = r@;
        if j < end {
            r.push(Span { start: i, end: j });
            proof {
                assert(field_spans_from(v@, i as int, end as int, sep) == seq![
                    span(i as int, j as int),
                ] + field_spans_from(v@, j + 1, end as int, sep));
                assert(r@ + field_spans_from(v@, j + 1, end as int, sep) == old_r
                    + field_spans_from(v@, i as int, end as int, sep));
            }
            i = j + 1;
        } else {
            r.push(Span { start: i, end });
            proof {
                assert(field_spans_from(v@, i as int, end as int, sep) == seq![
                    span(i as int, end as int),
                ]);
                assert(r@ == old_r + field_spans_from(v@, i as int, end as int, sep));
            }
            break;
        }
    }
    proof {
        lemma_field_spans_fit(v@, within.start as int, within.end as int, sep);
    }
    r
}

/// The least position `k` with `i <= k <= j` such that `s[k..j]` is all
/// white space.
pub open spec fn skip_ws_back(s: Seq<char>, i: int, j: int) -> int
    decreases j,
{
    if 0 <= i < j <= s.len() && is_ws(s[j - 1]) {
        skip_ws_back(s, i, j - 1)
    } else {
        j
    }
}

/// The least position `k` with `i <= k <= j` such that `s[k..j]` holds
/// nothing but `c`.
pub open spec fn skip_char_back(s: Seq<char>, i: int, j: int, c: char) -> int
    decreases j,
{
    if 0 <= i < j <= s.len() && s[j - 1] == c {
        skip_char_back(s, i, j - 1, c)
    } else {
        j
    }
}

/// The part `within` of `s` without the white space at its two ends.
pub open spec fn trim_span(s: Seq<char>, within: Span) -> Span {
    let a = skip_ws(s.take(within.end as int), within.start as int);
    span(a, skip_ws_back(s, a, within.end as int))
}

/// `s` without the white space at its two ends.
pub open spec fn trimmed(s: Seq<char>) -> Seq<char> {
    trim_span(s, span(0, s.len() as int)).of(s)
}

/// The part `within` of `s` without the run of `c` at its end.
pub open spec fn strip_end_span(s: Seq<char>, within: Span, c: char) -> Span {
    span(within.start as int, skip_char_back(s, within.start as int, within.end as int, c))
}

/// Skips white space in `v[i..end]` from `i` on.
pub fn scan_ws_within(v: &Vec<char>, i: usize, end: usize) -> (j: usize)
    requires
        i <= end <= v.len(),
    ensures
        j == skip_ws(v@.take(end as int), i as int),
        i <= j <= end,
{
    let mut j: usize = i;
    while j < end && char_is_ws(v[j])
        invariant
            i <= j <= end <= v.len(),
            skip_ws(v@.take(end as int), j as int) == skip_ws(v@.take(end as int), i as int),
        decreases end - j,
    {
        j += 1;
    }
    j
}

/// The part `within` of `v` without the white space at its two ends.
pub fn trim(v: &Vec<char>, within: Span) -> (r: Span)
    requires
        within.fits(v@.len()),
    ensures
        r == trim_span(v@, within),
        r.fits(v@.len()),
        within.start <= r.start,
        r.end <= within.end,
{
    let a = scan_ws_within(v, within.start, within.end);
    let mut j: usize = within.end;
    while a < j && char_is_ws(v[j - 1])
        invariant
            a <= j <= within.end <= v.len(),
            skip_ws_back(v@, a as int, j as int) == skip_ws_back(v@, a as int, within.end as int),
        decreases j,
    {
        j -= 1;
    }
    Span { start: a, end: j }
}

/// The part `within` of `v` without the run of `c` at its end.
pub fn strip_end(v: &Vec<char>, within: Span, c: char) -> (r: Span)
    requires
        within.fits(v@.len()),
    ensures
        r == strip_end_span(v@, within, c),
        r.fits(v@.len()),
        r.start == within.start,
        r.end <= within.end,
{
    let mut j: usize = within.end;
    while within.start < j && v[j - 1] == c
        invariant
            within.start <= j <= within.end <= v.len(),
            skip_char_back(v@, within.start as int, j as int, c) == skip_char_back(
                v@,
                within.start as int,
                within.end as int,
                c,
            ),
        decreases j,
    {
        j -= 1;
    }
    Span { start: within.start, end: j }
}

/// Whether `pat` stands in `s` at position `k`.
pub open spec fn matches_at(s: Seq<char>, k: int, pat: Seq<char>) -> bool {
    0 <= k && k + pat.len() <= s.len() && s.subrange(k, k + pat.len()) == pat
}

/// The first position at or after `i` at which `pat` stands in `s`, if there
/// is one.
pub open spec fn find_sub(s: Seq<char>, i: int, pat: Seq<char>) -> Option<int>
    decreases s.len() - i + 1,
{
    if 0 <= i && i + pat.len() <= s.len() {
        if matches_at(s, i, pat) {
            Some(i)
        } else {
            find_sub(s, i + 1, pat)
        }
    } else {
        None
    }
}

/// Whether `pat` occurs in `s`.
pub open spec fn contains_sub(s: Seq<char>, pat: Seq<char>) -> bool {
    find_sub(s, 0, pat) is Some
}

/// What is found is the first occurrence at or after the start, and
/// nothing is found only where there is none.
pub proof fn law_find_is_first(s: Seq<char>, i: int, pat: Seq<char>)
    requires
        0 <= i,
    ensures
        match find_sub(s, i, pat) {
            Some(k) => i <= k && matches_at(s, k, pat) && forall|j: int|
                i <= j < k ==> !matches_at(s, j, pat),
            None => forall|j: int| i <= j ==> !matches_at(s, j, pat),
        },
    decreases s.len() - i + 1,
{
    if i + pat.len() <= s.len() {
        if !matches_at(s, i, pat) {
            law_find_is_first(s, i + 1, pat);
        }
    }
}

/// Whether `pat` stands in `v` at position `k`.
pub fn match_at(v: &Vec<char>, k: usize, pat: &Vec<char>) -> (r: bool)
    ensures
        r == matches_at(v@, k as int, pat@),
{
    if pat.len() > v.len() || k > v.len() - pat.len() {
        return false;
    }
    let mut i: usize = 0;
    while i < pat.len()
        invariant
            k + pat.len() <= v.len(),
            i <= pat.len(),
            v@.subrange(k as int, k + i) == pat@.take(i as int),
        decreases pat.len() - i,
    {
        if v[k + i] != pat[i] {
            assert(v@.subrange(k as int, k + pat.len())[i as int] != pat@[i as int]);
            return false;
        }
        assert(v@.subrange(k as int, k + i + 1) == v@.subrange(k as int, k + i).push(v@[k + i]));
        assert(pat@.take(i + 1) == pat@.take(i as int).push(pat@[i as int]));
        i += 1;
    }
    assert(pat@.take(pat.len() as int) == pat@);
    true
}

/// The first position at or after `i` at which `pat` stands in `v`.
pub fn find(v: &Vec<char>, i: usize, pat: &Vec<char>) -> (r: Option<usize>)
    ensures
        match r {
            Some(k) => find_sub(v@, i as int, pat@) == Some(k as int),
            None => find_sub(v@, i as int, pat@) is None,
        },
        r is Some ==> i <= r->0 && r->0 + pat@.len() <= v@.len() <= usize::MAX,
{
    if pat.len() > v.len() {
        return None;
    }
    let last = v.len() - pat.len();
    let mut k: usize = i;
    while k <= last
        invariant
            last == v.len() - pat.len(),
            i <= k,
            find_sub(v@, k as int, pat@) == find_sub(v@, i as int, pat@),
        decreases last + 1 - k,
    {
        if match_at(v, k, pat) {
            return Some(k);
        }
        if k == last {
            assert(find_sub(v@, k + 1, pat@) is None);
            return None;
        }
        k += 1;
    }
    None
}

/// Whether `v[within]` begins with the text `lit`.
pub fn starts_with(v: &Vec<char>, within: Span, lit: &str) -> (r: bool)
    requires
        within.fits(v@.len()),
    ensures
        r == lit@.is_prefix_of(within.of(v@)),
{
    let l = to_chars(lit);
    if l.len() > within.end - within.start {
        return false;
    }
    let r = slice_is(v, within.start, within.start + l.len(), lit);
    assert(within.of(v@).subrange(0, l@.len() as int) == v@.subrange(
        within.start as int,
        within.start + l@.len(),
    ));
    r
}

/// Whether `v[within]` is the text `lit`.
pub fn span_is(v: &Vec<char>, within: Span, lit: &str) -> (r: bool)
    requires
        within.fits(v@.len()),
    ensures
        r == (within.of(v@) == lit@),
{
    slice_is(v, within.start, within.end, lit)
}

/// The texts `texts`, each but the last followed by one space.
pub open spec fn joined(texts: Seq<Seq<char>>) -> Seq<char>
    decreases texts.len(),
{
    if texts.len() == 0 {
        Seq::empty()
    } else if texts.len() == 1 {
        texts[0]
    } else {
        joined(texts.drop_last()) + seq![' '] + texts.last()
    }
}

/// The texts of `spans[from..]` in `v`, joined by single spaces.
pub fn join_from(v: &Vec<char>, spans: &Vec<Span>, from: usize) -> (r: String)
    requires
        all_fit(spans@, v@.len()),
        from <= spans@.len(),
    ensures
        r@ == joined(texts(v@, spans@).skip(from as int)),
{
    let ghost all = texts(v@, spans@).skip(from as int);
    let mut out: Vec<char> = Vec::new();
    let mut k: usize = from;
    while k < spans.len()
        invariant
            from <= k <= spans@.len(),
            all_fit(spans@, v@.len()),
            all == texts(v@, spans@).skip(from as int),
            out@ == joined(all.take(k - from)),
        decreases spans@.len() - k,
    {
        let sp = spans[k];
        assert(sp.fits(v@.len()));
        if k > from {
            out.push(' ');
        }
        let mut i: usize = sp.start;
        let ghost base = out@;
        while i < sp.end
            invariant
                sp.start <= i <= sp.end <= v@.len(),
                out@ == base + v@.subrange(sp.start as int, i as int),
            decreases sp.end - i,
        {
            out.push(v[i]);
            assert(v@.subrange(sp.start as int, i + 1) == v@.subrange(
                sp.start as int,
                i as int,
            ).push(v@[i as int]));
            i += 1;
        }
        proof {
            let next = all.take(k - from + 1);
            assert(next.drop_last() == all.take(k - from));
            assert(next.last() == sp.of(v@));
            if k == from {
                assert(joined(all.take(0)) == Seq::<char>::empty());
                assert(out@ == sp.of(v@));
            }
        }
        k += 1;
    }
    assert(all.take(spans@.len() - from) == all);
    crate::text::chars_to_string(&out)
}

/// The whole of `v`.
pub fn whole(v: &Vec<char>) -> (r: Span)
    ensures
        r == span(0, v@.len() as int),
        r.fits(v@.len()),
        r.of(v@) == v@,
{
    let r = Span { start: 0, end: v.len() };
    assert(r.of(v@) == v@);
    r
}

/// `v` without the white space at its two ends.
pub fn trimmed_copy(v: &Vec<char>) -> (r: Vec<char>)
    ensures
        r@ == trimmed(v@),
{
    let w = whole(v);
    let t = trim(v, w);
    copy_span(v, t)
}

/// `s` without the run of `c` at its end.
pub open spec fn without_trailing(s: Seq<char>, c: char) -> Seq<char> {
    strip_end_span(s, span(0, s.len() as int), c).of(s)
}

/// The fields of `line` that `sep` separates.
pub open spec fn fields(line: Seq<char>, sep: char) -> Seq<Seq<char>> {
    texts(line, field_spans(line, span(0, line.len() as int), sep))
}

/// The characters that `span` covers in `v`.
pub fn copy_span(v: &Vec<char>, span: Span) -> (r: Vec<char>)
    requires
        span.fits(v@.len()),
    ensures
        r@ == span.of(v@),
{
    let mut r: Vec<char> = Vec::new();
    let mut i: usize = span.start;
    while i < span.end
        invariant
            span.start <= i <= span.end <= v@.len(),
            r@ == v@.subrange(span.start as int, i as int),
        decreases span.end - i,
    {
        r.push(v[i]);
        assert(v@.subrange(span.start as int, i + 1) == v@.subrange(
            span.start as int,
            i as int,
        ).push(v@[i as int]));
        i += 1;
    }
    r
}

/// The texts of a sequence of values.
pub open spec fn views<T: View>(s: Seq<T>) -> Seq<T::V> {
    Seq::new(s.len(), |i: int| s[i]@)
}

/// The text that `span` covers in `v`, as a string.
pub fn span_string(v: &Vec<char>, span: Span) -> (r: String)
    requires
        span.fits(v@.len()),
    ensures
        r@ == span.of(v@),
{
    crate::text::slice_to_string(v, span.start, span.end)
}

} // verus!
