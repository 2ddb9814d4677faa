//! Text helpers shared by the brain and the speech pipeline: stripping bracketed
//! stage directions from captions, and splitting a reply into short,
//! sentence-aligned chunks that synthesize and play back as a pipeline.
use vstd::prelude::*;

use crate::chars::{
    chars_of, is_whitespace, is_ws, lemma_trim, lemma_trim_ends, lemma_trim_len, lemma_trim_start, string_from, string_of, trim,
    trim_range, trim_start,
};

verus! {

/// Keep chunks short for snappy, gapless playback.
pub const TTS_MAX_CHARS: usize = 190;

/// The views of a sequence of strings.
pub open spec fn views(v: Seq<String>) -> Seq<Seq<char>> {
    v.map_values(|s: String| s@)
}

/* ------------------------------------------------------------------ */
/* whitespace collapsing                                              */
/* ------------------------------------------------------------------ */

/// The whitespace-separated words of `s` joined by single spaces (what
/// `s.split_whitespace().collect::<Vec<_>>().join(" ")` yields).
pub open spec fn collapse_ws_spec(s: Seq<char>) -> Seq<char>
    decreases s.len(),
{
    if s.len() == 0 {
        seq![]
    } else {
        let p = collapse_ws_spec(s.drop_last());
        let c = s.last();
        if is_ws(c) {
            p
        } else if s.len() >= 2 && !is_ws(s[s.len() - 2]) {
            p.push(c)
        } else if p.len() == 0 {
            seq![c]
        } else {
            p.push(' ').push(c)
        }
    }
}

/// Collapse all runs of whitespace to single spaces and trim.
pub fn collapse_ws(s: &Vec<char>) -> (r: Vec<char>)
    ensures
        r@ == collapse_ws_spec(s@),
{
    let mut out: Vec<char> = Vec::new();
    let mut i: usize = 0;
    while i < s.len()
        invariant
            i <= s.len(),
            out@ == collapse_ws_spec(s@.take(i as int)),
        decreases s.len() - i,
    {
        let c = s[i];
        let ghost pre = s@.take(i as int);
        assert(s@.take(i + 1).drop_last() == pre);
        if is_whitespace(c) {
        } else if i >= 1 && !is_whitespace(s[i - 1]) {
            out.push(c);
        } else if out.len() == 0 {
            out.push(c);
        } else {
            out.push(' ');
            out.push(c);
        }
        i = i + 1;
    }
    assert(s@.take(s.len() as int) == s@);
    out
}

/* ------------------------------------------------------------------ */
/* directive stripping                                                */
/* ------------------------------------------------------------------ */

/// `c[open..=close]` is a stage direction: `[`, then 1 to 40 characters none of
/// which is a bracket, then `]`.
pub open spec fn is_directive(c: Seq<char>, open: int, close: int) -> bool {
    &&& 0 <= open
    &&& open + 2 <= close <= open + 41
    &&& close < c.len()
    &&& c[open] == '['
    &&& c[close] == ']'
    &&& forall|k: int| open < k < close ==> c[k] != '[' && c[k] != ']'
}

/// The characters of `c[i..]` with every stage direction removed, scanning left
/// to right.
pub open spec fn strip_from(c: Seq<char>, i: int) -> Seq<char>
    decreases c.len() - i,
{
    if i < 0 || i >= c.len() {
        seq![]
    } else if exists|j: int| is_directive(c, i, j) {
        let j = choose|j: int| is_directive(c, i, j);
        strip_from(c, j + 1)
    } else {
        seq![c[i]] + strip_from(c, i + 1)
    }
}

/// Remove `[direction]` tags, then collapse runs of whitespace.
pub open spec fn strip_directives_spec(s: Seq<char>) -> Seq<char> {
    collapse_ws_spec(strip_from(s, 0))
}

/// The closing `]` of a stage direction opened at `open`, if there is one.
fn find_directive_close(chars: &Vec<char>, open: usize) -> (r: Option<usize>)
    requires
        open < chars.len(),
        chars@[open as int] == '[',
    ensures
        r matches Some(j) ==> is_directive(chars@, open as int, j as int),
        r is None ==> !exists|j: int| is_directive(chars@, open as int, j),
{
    let mut j = open + 1;
    let mut inner: usize = 0;
    while j < chars.len() && inner <= 40
        invariant
            open < j <= chars.len(),
            chars@[open as int] == '[',
            inner == j - open - 1,
            inner <= 41,
            forall|k: int| open < k < j ==> chars@[k] != '[' && chars@[k] != ']',
        decreases chars.len() - j,
    {
        let c = chars[j];
        if c == ']' {
            if inner >= 1 {
                return Some(j);
            } else {
                assert forall|jj: int| !is_directive(chars@, open as int, jj) by {
                    if is_directive(chars@, open as int, jj) {
                        assert(chars@[j as int] == ']');
                    }
                }
                return None;
            }
        } else if c == '[' {
            assert forall|jj: int| !is_directive(chars@, open as int, jj) by {
                if is_directive(chars@, open as int, jj) && jj > j {
                    assert(chars@[j as int] == '[');
                }
            }
            return None;
        }
        inner = inner + 1;
        j = j + 1;
    }
    None
}

/// Remove `[direction]` tags (1 to 40 characters between brackets) so on-screen
/// captions read clean, then collapse runs of whitespace.
pub fn strip_directives(text: &str) -> (r: String)
    ensures
        r@ == strip_directives_spec(text@),
        is_collapsed(r@),
{
    proof { lemma_strip_directives_collapsed(text@); }
    let chars = chars_of(text);
    let mut out: Vec<char> = Vec::new();
    let mut i: usize = 0;
    while i < chars.len()
        invariant
            i <= chars.len(),
            chars@ == text@,
            out@ + strip_from(chars@, i as int) == strip_from(chars@, 0),
        decreases chars.len() - i,
    {
        if chars[i] == '[' {
            if let Some(close) = find_directive_close(&chars, i) {
                proof {
                    let j = choose|j: int| is_directive(chars@, i as int, j);
                    if j != close {
                        if j < close {
                            assert(chars@[j] == ']');
                        } else {
                            assert(chars@[close as int] == ']');
                        }
                    }
                }
                i = close + 1;
                continue;
            }
        }
        out.push(chars[i]);
        proof {
            assert(!exists|j: int| is_directive(chars@, i as int, j));
        }
        assert(out@ + strip_from(chars@, i + 1) =~= out@.drop_last() + (seq![chars@[i as int]] + strip_from(chars@, i + 1)));
        i = i + 1;
    }
    assert(out@ == strip_from(chars@, 0));
    string_of(&collapse_ws(&out))
}

/* ------------------------------------------------------------------ */
/* sentence splitting                                                 */
/* ------------------------------------------------------------------ */

/// Terminal punctuation.
pub open spec fn is_term(c: char) -> bool {
    c == '.' || c == '!' || c == '?'
}

/// Closing quotes/brackets that stay attached to the sentence they end.
pub open spec fn is_closer(c: char) -> bool {
    c == '"' || c == '\'' || c == ')' || c == ']'
}

/// An ASCII digit.
pub open spec fn is_digit(c: char) -> bool {
    '0' <= c && c <= '9'
}

/// Clause punctuation preferred as a cut point inside an over-long sentence.
pub open spec fn is_clause(c: char) -> bool {
    c == ',' || c == ';' || c == ':' || c == '\u{2014}' || c == '-'
}

/// A `.` between two digits is a decimal point, not a sentence end.
pub open spec fn is_decimal_point(t: Seq<char>, i: int) -> bool {
    &&& t[i] == '.'
    &&& i > 0
    &&& i + 1 < t.len()
    &&& is_digit(t[i - 1])
    &&& is_digit(t[i + 1])
}

/// The first index at or after `i` that does not hold terminal punctuation.
pub open spec fn skip_terms(t: Seq<char>, i: int) -> int
    decreases t.len() - i,
{
    if 0 <= i < t.len() && is_term(t[i]) {
        skip_terms(t, i + 1)
    } else {
        i
    }
}

/// The first index at or after `i` that does not hold a closer.
pub open spec fn skip_closers(t: Seq<char>, i: int) -> int
    decreases t.len() - i,
{
    if 0 <= i < t.len() && is_closer(t[i]) {
        skip_closers(t, i + 1)
    } else {
        i
    }
}

proof fn lemma_skip_terms(t: Seq<char>, i: int)
    requires
        0 <= i <= t.len(),
    ensures
        i <= skip_terms(t, i) <= t.len(),
    decreases t.len() - i,
{
    if 0 <= i < t.len() && is_term(t[i]) {
        lemma_skip_terms(t, i + 1);
    }
}

proof fn lemma_skip_closers(t: Seq<char>, i: int)
    requires
        0 <= i <= t.len(),
    ensures
        i <= skip_closers(t, i) <= t.len(),
    decreases t.len() - i,
{
    if 0 <= i < t.len() && is_closer(t[i]) {
        lemma_skip_closers(t, i + 1);
    }
}

/// The end of the sentence whose terminal punctuation starts at `i`: the whole
/// run of terminal punctuation, then any closers.
pub open spec fn sentence_end(t: Seq<char>, i: int) -> int {
    skip_closers(t, skip_terms(t, i))
}

/// `t[a..b]` holds a non-whitespace character.
pub open spec fn non_blank(t: Seq<char>, a: int, b: int) -> bool {
    trim(t.subrange(a, b)).len() > 0
}

/// The sentence ranges of `t` found scanning from `i`, the current sentence
/// having started at `start`: a run up to and including terminal punctuation
/// (plus trailing closers), or a final unterminated fragment; blank ranges are
/// dropped.
pub open spec fn sentences_from(t: Seq<char>, start: int, i: int) -> Seq<(int, int)>
    recommends
        0 <= start <= i <= t.len(),
    decreases t.len() - i,
{
    if i < 0 || i >= t.len() {
        if 0 <= start < t.len() && non_blank(t, start, t.len() as int) {
            seq![(start, t.len() as int)]
        } else {
            seq![]
        }
    } else if is_term(t[i]) && !is_decimal_point(t, i) {
        let j = sentence_end(t, i);
        if j <= i || j > t.len() {
            seq![]
        } else {
            let rest = sentences_from(t, j, j);
            if non_blank(t, start, j) {
                seq![(start, j)] + rest
            } else {
                rest
            }
        }
    } else {
        sentences_from(t, start, i + 1)
    }
}

/// The sentence ranges of `t`; the whole text when no sentence was found.
pub open spec fn split_sentences_spec(t: Seq<char>) -> Seq<(int, int)> {
    let r = sentences_from(t, 0, 0);
    if r.len() == 0 {
        seq![(0, t.len() as int)]
    } else {
        r
    }
}

/// Integer pairs of a sequence of index ranges.
pub open spec fn ranges_view(v: Seq<(usize, usize)>) -> Seq<(int, int)> {
    v.map_values(|p: (usize, usize)| (p.0 as int, p.1 as int))
}

fn is_term_char(c: char) -> (r: bool)
    ensures
        r == is_term(c),
{
    c == '.' || c == '!' || c == '?'
}

fn is_closer_char(c: char) -> (r: bool)
    ensures
        r == is_closer(c),
{
    c == '"' || c == '\'' || c == ')' || c == ']'
}

fn is_digit_char(c: char) -> (r: bool)
    ensures
        r == is_digit(c),
{
    '0' <= c && c <= '9'
}

/// Split `t` into sentence ranges, mirroring the regex
/// `[^.!?]+[.!?]+(?:["')\]]+)?|\S[^.!?]*$`, except that a `.` between two digits
/// (a decimal point) does not end a sentence.
fn split_sentences(t: &Vec<char>) -> (r: Vec<(usize, usize)>)
    ensures
        ranges_view(r@) == split_sentences_spec(t@),
        forall|k: int| 0 <= k < r@.len() ==> (#[trigger] r@[k]).0 <= r@[k].1 <= t@.len(),
{
    let n = t.len();
    let mut out: Vec<(usize, usize)> = Vec::new();
    let mut start: usize = 0;
    let mut i: usize = 0;
    while i < n
        invariant
            n == t@.len(),
            start <= i <= n,
            ranges_view(out@) + sentences_from(t@, start as int, i as int) == sentences_from(t@, 0, 0),
            forall|k: int| 0 <= k < out@.len() ==> (#[trigger] out@[k]).0 <= out@[k].1 <= n,
        decreases n - i, n - start,
    {
        if is_term_char(t[i]) {
            if t[i] == '.' && i > 0 && i + 1 < n && is_digit_char(t[i - 1]) && is_digit_char(t[i + 1]) {
                i = i + 1;
                continue;
            }
            let ghost i0 = i as int;
            while i < n && is_term_char(t[i])
                invariant
                    n == t@.len(),
                    i0 <= i <= n,
                    skip_terms(t@, i0) == skip_terms(t@, i as int),
                decreases n - i,
            {
                i = i + 1;
            }
            let ghost i1 = i as int;
            while i < n && is_closer_char(t[i])
                invariant
                    n == t@.len(),
                    i1 <= i <= n,
                    skip_closers(t@, i1) == skip_closers(t@, i as int),
                decreases n - i,
            {
                i = i + 1;
            }
            assert(i == sentence_end(t@, i0));
            let (a, b) = trim_range(t, start, i);
            let ghost old_out = ranges_view(out@);
            if a < b {
                out.push((start, i));
                assert(ranges_view(out@) == old_out.push((start as int, i as int)));
            }
            start = i;
        } else {
            i = i + 1;
        }
    }
    if start < n {
        let (a, b) = trim_range(t, start, n);
        if a < b {
            let ghost old_out = ranges_view(out@);
            out.push((start, n));
            assert(ranges_view(out@) == old_out.push((start as int, n as int)));
        }
    }
    assert(ranges_view(out@) == sentences_from(t@, 0, 0));
    if out.len() == 0 {
        out.push((0, n));
        assert(ranges_view(out@) == seq![(0int, n as int)]);
    }
    out
}

/* ------------------------------------------------------------------ */
/* hard splitting                                                     */
/* ------------------------------------------------------------------ */

/// Scanning positions `0..m` of `w`: one past the last clause punctuation that
/// is followed by whitespace (its index plus two), or 0.
pub open spec fn last_clause_end(w: Seq<char>, m: int) -> int
    decreases m,
{
    if m <= 0 || m >= w.len() {
        0
    } else if is_clause(w[m - 1]) && is_ws(w[m]) {
        m + 1
    } else {
        last_clause_end(w, m - 1)
    }
}

/// Scanning positions `0..m` of `w`: one past the last whitespace, or 0.
pub open spec fn last_ws_end(w: Seq<char>, m: int) -> int
    decreases m,
{
    if m <= 0 || m > w.len() {
        0
    } else if is_ws(w[m - 1]) {
        m
    } else {
        last_ws_end(w, m - 1)
    }
}

/// The cut point inside the first `limit` characters of `s`: just after the last
/// clause-punctuation-plus-whitespace, else just after the last whitespace, as
/// long as that lies past the halfway point; 0 when there is none.
pub open spec fn last_boundary_before_spec(s: Seq<char>, limit: int) -> int {
    let w = s.take(if limit < s.len() { limit } else { s.len() as int });
    let c = last_clause_end(w, w.len() - 1);
    if 2 * c > limit {
        c
    } else {
        let b = last_ws_end(w, w.len() as int);
        if 2 * b > limit {
            b
        } else {
            0
        }
    }
}

proof fn lemma_last_clause_end(w: Seq<char>, m: int)
    ensures
        0 <= last_clause_end(w, m) <= w.len(),
    decreases m,
{
    if !(m <= 0 || m >= w.len()) && !(is_clause(w[m - 1]) && is_ws(w[m])) {
        lemma_last_clause_end(w, m - 1);
    }
}

proof fn lemma_last_ws_end(w: Seq<char>, m: int)
    ensures
        0 <= last_ws_end(w, m) <= w.len(),
    decreases m,
{
    if !(m <= 0 || m > w.len()) && !is_ws(w[m - 1]) {
        lemma_last_ws_end(w, m - 1);
    }
}

/// The cut point never lies past the window.
pub proof fn lemma_last_boundary_bound(s: Seq<char>, limit: int)
    requires
        0 <= limit,
    ensures
        0 <= last_boundary_before_spec(s, limit) <= limit,
        last_boundary_before_spec(s, limit) <= s.len(),
{
    let w = s.take(if limit < s.len() { limit } else { s.len() as int });
    lemma_last_clause_end(w, w.len() - 1);
    lemma_last_ws_end(w, w.len() as int);
}

/// Pieces of an over-long fragment `s` no longer than `max`, cut on clause,
/// then word, then character boundaries, each trimmed.
pub open spec fn hard_split_spec(s: Seq<char>, max: int) -> Seq<Seq<char>>
    decreases s.len(),
{
    if max >= 1 && s.len() > max {
        let b = last_boundary_before_spec(s, max);
        let cut = if b <= 0 || b > max { max } else { b };
        let rest = trim_start(s.skip(cut));
        if rest.len() < s.len() {
            seq![trim(s.take(cut))] + hard_split_spec(rest, max)
        } else {
            seq![]
        }
    } else if trim(s).len() > 0 {
        seq![trim(s)]
    } else {
        seq![]
    }
}

/// Index just after the last clause/whitespace boundary within the first
/// `limit` characters of `t[lo..]`, or 0 when none lies past the halfway point.
fn last_boundary_before(t: &Vec<char>, lo: usize, hi: usize, limit: usize) -> (r: usize)
    requires
        lo <= hi <= t.len(),
        limit < hi - lo,
    ensures
        r == last_boundary_before_spec(t@.subrange(lo as int, hi as int), limit as int),
{
    let ghost s = t@.subrange(lo as int, hi as int);
    let ghost w = s.take(limit as int);
    assert(forall|k: int| 0 <= k < limit ==> #[trigger] w[k] == t@[lo + k]);
    let mut idx: usize = 0;
    let mut k: usize = 0;
    let len_m1: usize = if limit >= 1 { limit - 1 } else { 0 };
    while k < len_m1
        invariant
            len_m1 == if limit >= 1 { limit - 1 } else { 0 },
            w.len() == limit,
            lo + limit < hi <= t.len(),
            forall|k: int| 0 <= k < limit ==> #[trigger] w[k] == t@[lo + k],
            k <= len_m1,
            idx == last_clause_end(w, k as int),
        decreases len_m1 - k,
    {
        let c = t[lo + k];
        if (c == ',' || c == ';' || c == ':' || c == '\u{2014}' || c == '-') && is_whitespace(t[lo + k + 1]) {
            assert(w[k as int] == c && w[k + 1] == t@[lo + k + 1]);
            idx = k + 2;
        } else {
            assert(w[k as int] == c && w[k + 1] == t@[lo + k + 1]);
        }
        k = k + 1;
    }
    if idx > limit / 2 {
        return idx;
    }
    let mut idx2: usize = 0;
    let mut k2: usize = 0;
    while k2 < limit
        invariant
            w.len() == limit,
            lo + limit < hi <= t.len(),
            forall|k: int| 0 <= k < limit ==> #[trigger] w[k] == t@[lo + k],
            k2 <= limit,
            idx2 == last_ws_end(w, k2 as int),
        decreases limit - k2,
    {
        if is_whitespace(t[lo + k2]) {
            assert(w[k2 as int] == t@[lo + k2]);
            idx2 = k2 + 1;
        } else {
            assert(w[k2 as int] == t@[lo + k2]);
        }
        k2 = k2 + 1;
    }
    if idx2 > limit / 2 {
        return idx2;
    }
    0
}

/// Split the over-long fragment `t[lo..hi]` on clause/word/char boundaries,
/// appending the pieces to `out`.
fn hard_split(t: &Vec<char>, lo: usize, hi: usize, max_chars: usize, out: &mut Vec<String>)
    requires
        lo <= hi <= t.len(),
        max_chars >= 1,
    ensures
        views(final(out)@) == views(old(out)@) + hard_split_spec(t@.subrange(lo as int, hi as int), max_chars as int),
{
    let ghost s0 = t@.subrange(lo as int, hi as int);
    let mut p = lo;
    while hi - p > max_chars
        invariant
            lo <= p <= hi <= t.len(),
            max_chars >= 1,
            views(out@) + hard_split_spec(t@.subrange(p as int, hi as int), max_chars as int)
                == views(old(out)@) + hard_split_spec(s0, max_chars as int),
        decreases hi - p,
    {
        let ghost s = t@.subrange(p as int, hi as int);
        proof { lemma_last_boundary_bound(s, max_chars as int); }
        let b = last_boundary_before(t, p, hi, max_chars);
        let cut = if b == 0 { max_chars } else { b };
        let (a, e) = trim_range(t, p, p + cut);
        assert(s.take(cut as int) == t@.subrange(p as int, p + cut));
        let ghost old_views = views(out@);
        out.push(string_from(t, a, e));
        assert(views(out@) == old_views.push(trim(s.take(cut as int))));
        let mut q = p + cut;
        assert(s.skip(cut as int) == t@.subrange(q as int, hi as int));
        while q < hi && is_whitespace(t[q])
            invariant
                p + cut <= q <= hi <= t.len(),
                trim_start(s.skip(cut as int)) == trim_start(t@.subrange(q as int, hi as int)),
            decreases hi - q,
        {
            assert(t@.subrange(q as int, hi as int).drop_first() == t@.subrange(q + 1, hi as int));
            q = q + 1;
        }
        assert(trim_start(t@.subrange(q as int, hi as int)) == t@.subrange(q as int, hi as int));
        assert(hard_split_spec(s, max_chars as int) == seq![trim(s.take(cut as int))] + hard_split_spec(t@.subrange(q as int, hi as int), max_chars as int));
        assert(views(out@) + hard_split_spec(t@.subrange(q as int, hi as int), max_chars as int)
            == old_views + hard_split_spec(s, max_chars as int));
        p = q;
    }
    let (a, e) = trim_range(t, p, hi);
    if a < e {
        let ghost old_views = views(out@);
        out.push(string_from(t, a, e));
        assert(views(out@) == old_views.push(trim(t@.subrange(p as int, hi as int))));
    }
}

/* ------------------------------------------------------------------ */
/* chunking                                                           */
/* ------------------------------------------------------------------ */

/// The chunk a buffer contributes when flushed: its trimmed text, if any.
pub open spec fn flush_spec(buf: Seq<char>) -> Seq<Seq<char>> {
    if trim(buf).len() > 0 {
        seq![trim(buf)]
    } else {
        seq![]
    }
}

/// Greedily pack the (trimmed) sentences `sents` of `t` into chunks of at most
/// `max` characters, `buf` holding the chunk being filled; a sentence longer
/// than `max` is flushed on its own through [`hard_split_spec`].
pub open spec fn pack_spec(t: Seq<char>, sents: Seq<(int, int)>, max: int, buf: Seq<char>) -> Seq<Seq<char>>
    decreases sents.len(),
{
    if sents.len() == 0 {
        flush_spec(buf)
    } else {
        let s = trim(t.subrange(sents[0].0, sents[0].1));
        let rest = sents.drop_first();
        if s.len() == 0 {
            pack_spec(t, rest, max, buf)
        } else if s.len() > max {
            flush_spec(buf) + hard_split_spec(s, max) + pack_spec(t, rest, max, seq![])
        } else {
            let cand = if buf.len() == 0 { s } else { buf + seq![' '] + s };
            if trim(cand).len() > max {
                flush_spec(buf) + pack_spec(t, rest, max, s)
            } else {
                pack_spec(t, rest, max, cand)
            }
        }
    }
}

/// The chunks of `input` for a budget of `max` characters: the whitespace is
/// collapsed, the text split into sentences, and the sentences packed greedily.
pub open spec fn chunk_for_tts_spec(input: Seq<char>, max: int) -> Seq<Seq<char>> {
    let t = collapse_ws_spec(input);
    if t.len() == 0 {
        seq![]
    } else {
        pack_spec(t, split_sentences_spec(t), max, seq![])
    }
}

/// Push the trimmed buffer (if non-blank) as a chunk and clear the buffer.
fn flush(buf: &mut Vec<char>, out: &mut Vec<String>)
    ensures
        views(final(out)@) == views(old(out)@) + flush_spec(old(buf)@),
        final(buf)@ == Seq::<char>::empty(),
{
    let (a, b) = trim_range(buf, 0, buf.len());
    assert(buf@.subrange(0, buf@.len() as int) == buf@);
    if a < b {
        let ghost old_views = views(out@);
        out.push(string_from(buf, a, b));
        assert(views(out@) == old_views.push(trim(buf@)));
    } else {
        assert(views(out@) == views(out@) + Seq::<Seq<char>>::empty());
    }
    buf.clear();
}

/// Split a reply into chunks of at most `max_chars` characters, preferring
/// sentence boundaries, then clause boundaries, then word boundaries, then a
/// hard cut as a last resort. Bracketed directions stay inline.
pub fn chunk_for_tts(input: &str, max_chars: usize) -> (r: Vec<String>)
    requires
        max_chars >= 1,
    ensures
        views(r@) == chunk_for_tts_spec(input@, max_chars as int),
        all_fit(views(r@), max_chars as int),
        forall|i: int| 0 <= i < views(r@).len() ==> is_collapsed(#[trigger] views(r@)[i]),
        visible(concat_all(views(r@))) == visible(input@),
        r@.len() == 0 <==> trim(input@).len() == 0,
{
    proof {
        lemma_chunks_fit_budget(input@, max_chars as int);
        lemma_chunks_single_spaced(input@, max_chars as int);
        lemma_chunks_keep_visible_text(input@, max_chars as int);
    }
    let src = chars_of(input);
    let text = collapse_ws(&src);
    if text.len() == 0 {
        let r: Vec<String> = Vec::new();
        assert(views(r@) == Seq::<Seq<char>>::empty());
        return r;
    }
    let sentences = split_sentences(&text);
    let ghost sents = ranges_view(sentences@);
    let mut chunks: Vec<String> = Vec::new();
    let mut buf: Vec<char> = Vec::new();
    let mut k: usize = 0;
    assert(sents.skip(0) == sents);
    while k < sentences.len()
        invariant
            max_chars >= 1,
            sents == ranges_view(sentences@),
            sents == split_sentences_spec(text@),
            forall|j: int| 0 <= j < sentences@.len() ==> (#[trigger] sentences@[j]).0 <= sentences@[j].1 <= text@.len(),
            k <= sentences.len(),
            views(chunks@) + pack_spec(text@, sents.skip(k as int), max_chars as int, buf@)
                == pack_spec(text@, sents, max_chars as int, seq![]),
        decreases sentences.len() - k,
    {
        let (a0, b0) = sentences[k];
        let (a, b) = trim_range(&text, a0, b0);
        let ghost rest = sents.skip(k as int);
        assert(rest[0] == (a0 as int, b0 as int));
        assert(rest.drop_first() == sents.skip(k + 1));
        let ghost s = text@.subrange(a as int, b as int);
        if a == b {
            k = k + 1;
            continue;
        }
        if b - a > max_chars {
            let ghost c0 = views(chunks@);
            let ghost bf = buf@;
            flush(&mut buf, &mut chunks);
            hard_split(&text, a, b, max_chars, &mut chunks);
            assert(views(chunks@) + pack_spec(text@, sents.skip(k + 1), max_chars as int, buf@)
                == c0 + pack_spec(text@, rest, max_chars as int, bf));
            k = k + 1;
            continue;
        }
        let mut cand: Vec<char> = Vec::new();
        if buf.len() > 0 {
            cand = buf.clone();
            cand.push(' ');
        }
        let mut q = a;
        while q < b
            invariant
                a <= q <= b <= text@.len(),
                cand@ == (if buf@.len() == 0 { seq![] } else { buf@ + seq![' '] }) + text@.subrange(a as int, q as int),
            decreases b - q,
        {
            cand.push(text[q]);
            assert(text@.subrange(a as int, q + 1) == text@.subrange(a as int, q as int).push(text@[q as int]));
            q = q + 1;
        }
        assert(cand@ == if buf@.len() == 0 { s } else { buf@ + seq![' '] + s });
        let (ca, cb) = trim_range(&cand, 0, cand.len());
        assert(cand@.subrange(0, cand@.len() as int) == cand@);
        if cb - ca > max_chars {
            let ghost c0 = views(chunks@);
            let ghost bf = buf@;
            flush(&mut buf, &mut chunks);
            let mut q2 = a;
            while q2 < b
                invariant
                    a <= q2 <= b <= text@.len(),
                    buf@ == text@.subrange(a as int, q2 as int),
                decreases b - q2,
            {
                buf.push(text[q2]);
                assert(text@.subrange(a as int, q2 + 1) == text@.subrange(a as int, q2 as int).push(text@[q2 as int]));
                q2 = q2 + 1;
            }
            assert(views(chunks@) + pack_spec(text@, sents.skip(k + 1), max_chars as int, buf@)
                == c0 + pack_spec(text@, rest, max_chars as int, bf));
        } else {
            buf = cand;
        }
        k = k + 1;
    }
    let ghost c0 = views(chunks@);
    let ghost bf = buf@;
    assert(sents.skip(k as int).len() == 0);
    flush(&mut buf, &mut chunks);
    assert(views(chunks@) == c0 + pack_spec(text@, sents.skip(k as int), max_chars as int, bf));
    chunks
}

/// [`chunk_for_tts`] with the default budget of [`TTS_MAX_CHARS`].
pub fn chunk_for_tts_default(input: &str) -> (r: Vec<String>)
    ensures
        views(r@) == chunk_for_tts_spec(input@, TTS_MAX_CHARS as int),
        all_fit(views(r@), TTS_MAX_CHARS as int),
{
    chunk_for_tts(input, TTS_MAX_CHARS)
}

/* ------------------------------------------------------------------ */
/* laws                                                               */
/* ------------------------------------------------------------------ */

/// A speakable chunk: non-empty, within the budget, and with no whitespace at
/// either end.
pub open spec fn fits(c: Seq<char>, max: int) -> bool {
    &&& 0 < c.len() <= max
    &&& !is_ws(c[0])
    &&& !is_ws(c.last())
}

/// Every element of `cs` fits the budget `max`.
pub open spec fn all_fit(cs: Seq<Seq<char>>, max: int) -> bool {
    forall|i: int| 0 <= i < cs.len() ==> fits(#[trigger] cs[i], max)
}

proof fn lemma_all_fit_concat(a: Seq<Seq<char>>, b: Seq<Seq<char>>, max: int)
    requires
        all_fit(a, max),
        all_fit(b, max),
    ensures
        all_fit(a + b, max),
{
    assert forall|i: int| 0 <= i < (a + b).len() implies fits(#[trigger] (a + b)[i], max) by {
        if i < a.len() {
            assert((a + b)[i] == a[i]);
        } else {
            assert((a + b)[i] == b[i - a.len()]);
        }
    }
}

proof fn lemma_flush_fits(buf: Seq<char>, max: int)
    requires
        trim(buf).len() <= max,
    ensures
        all_fit(flush_spec(buf), max),
{
    lemma_trim_ends(buf);
}

proof fn lemma_hard_split_fits(s: Seq<char>, max: int)
    requires
        max >= 1,
        s.len() == 0 || !is_ws(s[0]),
    ensures
        all_fit(hard_split_spec(s, max), max),
    decreases s.len(),
{
    if max >= 1 && s.len() > max {
        lemma_last_boundary_bound(s, max);
        let b = last_boundary_before_spec(s, max);
        let cut = if b <= 0 || b > max { max } else { b };
        let head = s.take(cut);
        let rest = trim_start(s.skip(cut));
        lemma_trim_ends(head);
        lemma_trim_len(head);
        assert(head[0] == s[0]);
        assert(!(forall|i: int| 0 <= i < head.len() ==> is_ws(#[trigger] head[i])));
        if rest.len() < s.len() {
            let k = lemma_trim_start(s.skip(cut));
            lemma_hard_split_fits(rest, max);
            assert(all_fit(seq![trim(head)], max));
            lemma_all_fit_concat(seq![trim(head)], hard_split_spec(rest, max), max);
        }
    } else {
        lemma_trim_ends(s);
        lemma_trim_len(s);
    }
}

proof fn lemma_pack_fits(t: Seq<char>, sents: Seq<(int, int)>, max: int, buf: Seq<char>)
    requires
        max >= 1,
        trim(buf).len() <= max,
    ensures
        all_fit(pack_spec(t, sents, max, buf), max),
    decreases sents.len(),
{
    if sents.len() == 0 {
        lemma_flush_fits(buf, max);
    } else {
        let s = trim(t.subrange(sents[0].0, sents[0].1));
        let rest = sents.drop_first();
        lemma_trim_ends(t.subrange(sents[0].0, sents[0].1));
        if s.len() == 0 {
            lemma_pack_fits(t, rest, max, buf);
        } else if s.len() > max {
            lemma_flush_fits(buf, max);
            lemma_hard_split_fits(s, max);
            lemma_trim_len(Seq::<char>::empty());
            lemma_pack_fits(t, rest, max, seq![]);
            lemma_all_fit_concat(flush_spec(buf), hard_split_spec(s, max), max);
            lemma_all_fit_concat(flush_spec(buf) + hard_split_spec(s, max), pack_spec(t, rest, max, seq![]), max);
        } else {
            let cand = if buf.len() == 0 { s } else { buf + seq![' '] + s };
            if trim(cand).len() > max {
                lemma_flush_fits(buf, max);
                lemma_trim_len(s);
                lemma_pack_fits(t, rest, max, s);
                lemma_all_fit_concat(flush_spec(buf), pack_spec(t, rest, max, s), max);
            } else {
                lemma_pack_fits(t, rest, max, cand);
            }
        }
    }
}

/// Every chunk produced for a budget of `max >= 1` characters is non-empty, at
/// most `max` characters long, and has no whitespace at either end.
pub proof fn lemma_chunks_fit_budget(input: Seq<char>, max: int)
    requires
        max >= 1,
    ensures
        all_fit(chunk_for_tts_spec(input, max), max),
{
    let t = collapse_ws_spec(input);
    if t.len() > 0 {
        lemma_trim_len(Seq::<char>::empty());
        lemma_pack_fits(t, split_sentences_spec(t), max, seq![]);
    }
}

/// `r` is whitespace-collapsed: its only whitespace is single spaces between
/// non-whitespace characters.
pub open spec fn is_collapsed(r: Seq<char>) -> bool {
    forall|i: int|
        0 <= i < r.len() && is_ws(#[trigger] r[i]) ==> r[i] == ' ' && 0 < i < r.len() - 1 && !is_ws(r[i - 1])
            && !is_ws(r[i + 1])
}

/// Collapsing whitespace leaves single spaces between words and none at either
/// end.
pub proof fn lemma_collapse_ws_collapsed(s: Seq<char>)
    ensures
        is_collapsed(collapse_ws_spec(s)),
        collapse_ws_spec(s).len() > 0 ==> !is_ws(collapse_ws_spec(s).last()),
    decreases s.len(),
{
    if s.len() > 0 {
        let p = collapse_ws_spec(s.drop_last());
        lemma_collapse_ws_collapsed(s.drop_last());
        let r = collapse_ws_spec(s);
        assert forall|i: int| 0 <= i < r.len() && is_ws(#[trigger] r[i]) implies r[i] == ' ' && 0 < i < r.len() - 1
            && !is_ws(r[i - 1]) && !is_ws(r[i + 1]) by {
            if i < p.len() {
                assert(r[i] == p[i]);
                assert(r[i - 1] == p[i - 1]);
                if i + 1 < p.len() {
                    assert(r[i + 1] == p[i + 1]);
                }
            }
        }
    }
}

/// Stripped captions are whitespace-collapsed.
pub proof fn lemma_strip_directives_collapsed(s: Seq<char>)
    ensures
        is_collapsed(strip_directives_spec(s)),
{
    lemma_collapse_ws_collapsed(strip_from(s, 0));
}

/* ------------------------------------------------------------------ */
/* what chunking keeps                                                */
/* ------------------------------------------------------------------ */

/// The visible (non-whitespace) characters of `s`, in order.
pub open spec fn visible(s: Seq<char>) -> Seq<char>
    decreases s.len(),
{
    if s.len() == 0 {
        seq![]
    } else if is_ws(s.last()) {
        visible(s.drop_last())
    } else {
        visible(s.drop_last()).push(s.last())
    }
}

/// The elements of `cs` laid end to end.
pub open spec fn concat_all(cs: Seq<Seq<char>>) -> Seq<char>
    decreases cs.len(),
{
    if cs.len() == 0 {
        seq![]
    } else {
        concat_all(cs.drop_last()) + cs.last()
    }
}

/// The visible characters of the ranges `rs` of `t`, one range after another.
pub open spec fn ranges_visible(t: Seq<char>, rs: Seq<(int, int)>) -> Seq<char>
    decreases rs.len(),
{
    if rs.len() == 0 {
        seq![]
    } else {
        visible(t.subrange(rs[0].0, rs[0].1)) + ranges_visible(t, rs.drop_first())
    }
}

proof fn lemma_visible_concat(a: Seq<char>, b: Seq<char>)
    ensures
        visible(a + b) == visible(a) + visible(b),
    decreases b.len(),
{
    if b.len() == 0 {
        assert(a + b =~= a);
        assert(visible(a) + visible(b) =~= visible(a));
    } else {
        lemma_visible_concat(a, b.drop_last());
        assert((a + b).drop_last() =~= a + b.drop_last());
        assert((a + b).last() == b.last());
        assert((visible(a) + visible(b.drop_last())).push(b.last()) =~= visible(a) + visible(b.drop_last()).push(b.last()));
    }
}

proof fn lemma_visible_blank(s: Seq<char>)
    ensures
        visible(s).len() == 0 <==> forall|i: int| 0 <= i < s.len() ==> is_ws(#[trigger] s[i]),
    decreases s.len(),
{
    if s.len() > 0 {
        let p = s.drop_last();
        lemma_visible_blank(p);
        if is_ws(s.last()) {
            if forall|i: int| 0 <= i < p.len() ==> is_ws(#[trigger] p[i]) {
                assert forall|i: int| 0 <= i < s.len() implies is_ws(#[trigger] s[i]) by {
                    if i < p.len() {
                        assert(s[i] == p[i]);
                    }
                }
            }
            if forall|i: int| 0 <= i < s.len() ==> is_ws(#[trigger] s[i]) {
                assert forall|i: int| 0 <= i < p.len() implies is_ws(#[trigger] p[i]) by {
                    assert(s[i] == p[i]);
                }
            }
        } else {
            assert(!is_ws(s[s.len() - 1]));
        }
    }
}

proof fn lemma_visible_trim(s: Seq<char>)
    ensures
        visible(trim(s)) == visible(s),
        visible(trim_start(s)) == visible(s),
{
    let (a, b) = lemma_trim(s);
    let x = s.subrange(0, a);
    let y = s.subrange(a, b);
    let z = s.subrange(b, s.len() as int);
    assert(s =~= x + y + z);
    lemma_visible_concat(x + y, z);
    lemma_visible_concat(x, y);
    assert forall|i: int| 0 <= i < x.len() implies is_ws(#[trigger] x[i]) by {
        assert(x[i] == s[i]);
    }
    assert forall|i: int| 0 <= i < z.len() implies is_ws(#[trigger] z[i]) by {
        assert(z[i] == s[b + i]);
    }
    lemma_visible_blank(x);
    lemma_visible_blank(z);
    assert(visible(x) =~= Seq::<char>::empty());
    assert(visible(z) =~= Seq::<char>::empty());
    assert(visible(s) =~= visible(y));
    let k = lemma_trim_start(s);
    let u = s.take(k);
    let v = s.skip(k);
    assert(s =~= u + v);
    lemma_visible_concat(u, v);
    assert forall|i: int| 0 <= i < u.len() implies is_ws(#[trigger] u[i]) by {
        assert(u[i] == s[i]);
    }
    lemma_visible_blank(u);
    assert(visible(u) =~= Seq::<char>::empty());
    assert(visible(s) =~= visible(v));
}

proof fn lemma_collapse_visible(s: Seq<char>)
    ensures
        visible(collapse_ws_spec(s)) == visible(s),
    decreases s.len(),
{
    if s.len() > 0 {
        let p = collapse_ws_spec(s.drop_last());
        lemma_collapse_visible(s.drop_last());
        let c = s.last();
        if is_ws(c) {
            assert(visible(s) == visible(s.drop_last()));
        } else {
            assert(visible(s) == visible(s.drop_last()).push(c));
            lemma_visible_push(p, c);
            if s.len() >= 2 && !is_ws(s[s.len() - 2]) {
                assert(collapse_ws_spec(s) == p.push(c));
            } else if p.len() == 0 {
                assert(collapse_ws_spec(s) == seq![c]);
                assert(seq![c] =~= p.push(c));
            } else {
                assert(collapse_ws_spec(s) == p.push(' ').push(c));
                lemma_visible_push(p.push(' '), c);
                lemma_visible_push(p, ' ');
                assert(is_ws(' '));
            }
        }
    }
}

proof fn lemma_visible_push(p: Seq<char>, c: char)
    ensures
        visible(p.push(c)) == if is_ws(c) { visible(p) } else { visible(p).push(c) },
{
    assert(p.push(c).drop_last() =~= p);
    assert(p.push(c).last() == c);
}

proof fn lemma_concat_all_add(a: Seq<Seq<char>>, b: Seq<Seq<char>>)
    ensures
        concat_all(a + b) == concat_all(a) + concat_all(b),
    decreases b.len(),
{
    if b.len() == 0 {
        assert(a + b =~= a);
        assert(concat_all(a) + concat_all(b) =~= concat_all(a));
    } else {
        lemma_concat_all_add(a, b.drop_last());
        assert((a + b).drop_last() =~= a + b.drop_last());
        assert((a + b).last() == b.last());
        assert(concat_all(a) + concat_all(b.drop_last()) + b.last() =~= concat_all(a) + (concat_all(b.drop_last()) + b.last()));
    }
}

proof fn lemma_concat_all_one(x: Seq<char>)
    ensures
        concat_all(seq![x]) == x,
{
    assert(seq![x].drop_last() =~= Seq::<Seq<char>>::empty());
    assert(seq![x].last() == x);
    assert(concat_all(Seq::<Seq<char>>::empty()) == Seq::<char>::empty());
    assert(Seq::<char>::empty() + x =~= x);
}

/// Flushing a buffer keeps its visible characters.
proof fn lemma_flush_visible(buf: Seq<char>)
    ensures
        visible(concat_all(flush_spec(buf))) == visible(buf),
{
    lemma_visible_trim(buf);
    lemma_trim_ends(buf);
    if trim(buf).len() > 0 {
        lemma_concat_all_one(trim(buf));
    } else {
        lemma_visible_blank(buf);
        assert(visible(buf) =~= Seq::<char>::empty());
    }
}

proof fn lemma_hard_split_visible(s: Seq<char>, max: int)
    requires
        max >= 1,
    ensures
        visible(concat_all(hard_split_spec(s, max))) == visible(s),
    decreases s.len(),
{
    if s.len() > max {
        lemma_last_boundary_bound(s, max);
        let b = last_boundary_before_spec(s, max);
        let cut = if b <= 0 || b > max { max } else { b };
        let head = s.take(cut);
        let rest = trim_start(s.skip(cut));
        lemma_trim_len(s.skip(cut));
        assert(rest.len() < s.len());
        lemma_hard_split_visible(rest, max);
        lemma_concat_all_add(seq![trim(head)], hard_split_spec(rest, max));
        lemma_concat_all_one(trim(head));
        lemma_visible_concat(trim(head), concat_all(hard_split_spec(rest, max)));
        lemma_visible_trim(head);
        lemma_visible_trim(s.skip(cut));
        assert(s =~= head + s.skip(cut));
        lemma_visible_concat(head, s.skip(cut));
    } else {
        lemma_flush_visible(s);
    }
}

proof fn lemma_sentences_visible(t: Seq<char>, start: int, i: int)
    requires
        0 <= start <= i <= t.len(),
    ensures
        ranges_visible(t, sentences_from(t, start, i)) == visible(t.subrange(start, t.len() as int)),
    decreases t.len() - i,
{
    let len = t.len() as int;
    if i >= len {
        if 0 <= start < len && non_blank(t, start, len) {
            let x = (start, len);
            assert(sentences_from(t, start, i) == seq![x]);
            assert(seq![x].drop_first() =~= Seq::<(int, int)>::empty());
            assert(ranges_visible(t, Seq::<(int, int)>::empty()) == Seq::<char>::empty());
            assert(ranges_visible(t, seq![x]) == visible(t.subrange(start, len)) + ranges_visible(t, seq![x].drop_first()));
            assert(visible(t.subrange(start, len)) + Seq::<char>::empty() =~= visible(t.subrange(start, len)));
        } else {
            assert(sentences_from(t, start, i) == Seq::<(int, int)>::empty());
            lemma_trim_ends(t.subrange(start, len));
            lemma_visible_blank(t.subrange(start, len));
            assert(visible(t.subrange(start, len)) =~= Seq::<char>::empty());
        }
    } else if is_term(t[i]) && !is_decimal_point(t, i) {
        lemma_skip_terms(t, i + 1);
        assert(skip_terms(t, i) == skip_terms(t, i + 1));
        lemma_skip_closers(t, skip_terms(t, i));
        let j = sentence_end(t, i);
        assert(i < j <= len);
        lemma_sentences_visible(t, j, j);
        let rest = sentences_from(t, j, j);
        assert(t.subrange(start, len) =~= t.subrange(start, j) + t.subrange(j, len));
        lemma_visible_concat(t.subrange(start, j), t.subrange(j, len));
        if non_blank(t, start, j) {
            let rs = seq![(start, j)] + rest;
            assert(sentences_from(t, start, i) == rs);
            assert(rs[0] == (start, j));
            assert(rs.drop_first() =~= rest);
            assert(ranges_visible(t, rs) == visible(t.subrange(start, j)) + ranges_visible(t, rest));
        } else {
            assert(sentences_from(t, start, i) == rest);
            lemma_trim_ends(t.subrange(start, j));
            lemma_visible_blank(t.subrange(start, j));
            assert(visible(t.subrange(start, j)) =~= Seq::<char>::empty());
            assert(visible(t.subrange(start, len)) =~= visible(t.subrange(j, len)));
        }
    } else {
        lemma_sentences_visible(t, start, i + 1);
    }
}

proof fn lemma_split_visible(t: Seq<char>)
    ensures
        ranges_visible(t, split_sentences_spec(t)) == visible(t),
{
    lemma_sentences_visible(t, 0, 0);
    assert(t.subrange(0, t.len() as int) =~= t);
    if sentences_from(t, 0, 0).len() == 0 {
        let rs = seq![(0, t.len() as int)];
        assert(split_sentences_spec(t) == rs);
        assert(rs.drop_first() =~= Seq::<(int, int)>::empty());
        assert(ranges_visible(t, Seq::<(int, int)>::empty()) == Seq::<char>::empty());
        assert(ranges_visible(t, rs) == visible(t.subrange(0, t.len() as int)) + ranges_visible(t, rs.drop_first()));
        assert(visible(t) + Seq::<char>::empty() =~= visible(t));
    }
}

proof fn lemma_pack_visible(t: Seq<char>, sents: Seq<(int, int)>, max: int, buf: Seq<char>)
    requires
        max >= 1,
    ensures
        visible(concat_all(pack_spec(t, sents, max, buf))) == visible(buf) + ranges_visible(t, sents),
    decreases sents.len(),
{
    if sents.len() == 0 {
        lemma_flush_visible(buf);
        assert(visible(buf) + Seq::<char>::empty() =~= visible(buf));
    } else {
        let raw = t.subrange(sents[0].0, sents[0].1);
        let s = trim(raw);
        let rest = sents.drop_first();
        let rv = ranges_visible(t, rest);
        lemma_visible_trim(raw);
        if s.len() == 0 {
            lemma_pack_visible(t, rest, max, buf);
            lemma_trim_ends(raw);
            lemma_visible_blank(raw);
            assert(visible(raw) =~= Seq::<char>::empty());
            assert(visible(buf) + (visible(raw) + rv) =~= visible(buf) + rv);
        } else if s.len() > max {
            let f = flush_spec(buf);
            let h = hard_split_spec(s, max);
            let q = pack_spec(t, rest, max, seq![]);
            lemma_flush_visible(buf);
            lemma_hard_split_visible(s, max);
            lemma_pack_visible(t, rest, max, seq![]);
            lemma_concat_all_add(f + h, q);
            lemma_concat_all_add(f, h);
            lemma_visible_concat(concat_all(f) + concat_all(h), concat_all(q));
            lemma_visible_concat(concat_all(f), concat_all(h));
            assert(visible(Seq::<char>::empty()) =~= Seq::<char>::empty());
            assert(visible(buf) + visible(s) + (Seq::<char>::empty() + rv) =~= visible(buf) + (visible(raw) + rv));
        } else {
            let cand = if buf.len() == 0 { s } else { buf + seq![' '] + s };
            assert(visible(cand) == visible(buf) + visible(s)) by {
                if buf.len() == 0 {
                    assert(visible(buf) =~= Seq::<char>::empty());
                    assert(Seq::<char>::empty() + visible(s) =~= visible(s));
                } else {
                    lemma_visible_concat(buf + seq![' '], s);
                    lemma_visible_concat(buf, seq![' ']);
                    assert(is_ws(' '));
                    lemma_visible_push(Seq::<char>::empty(), ' ');
                    assert(Seq::<char>::empty().push(' ') =~= seq![' ']);
                    assert(visible(Seq::<char>::empty()) == Seq::<char>::empty());
                    assert(visible(seq![' ']) =~= Seq::<char>::empty());
                    assert(visible(buf) + Seq::<char>::empty() =~= visible(buf));
                }
            }
            if trim(cand).len() > max {
                let f = flush_spec(buf);
                let q = pack_spec(t, rest, max, s);
                lemma_flush_visible(buf);
                lemma_pack_visible(t, rest, max, s);
                lemma_concat_all_add(f, q);
                lemma_visible_concat(concat_all(f), concat_all(q));
                assert(visible(buf) + (visible(s) + rv) =~= visible(buf) + (visible(raw) + rv));
            } else {
                lemma_pack_visible(t, rest, max, cand);
                assert(visible(buf) + visible(s) + rv =~= visible(buf) + (visible(raw) + rv));
            }
        }
    }
}

/// Chunking loses, adds and reorders no visible character: laid end to end,
/// the chunks hold exactly the input's non-whitespace characters, in order. So
/// there are no chunks exactly when the input is blank.
pub proof fn lemma_chunks_keep_visible_text(input: Seq<char>, max: int)
    requires
        max >= 1,
    ensures
        visible(concat_all(chunk_for_tts_spec(input, max))) == visible(input),
        chunk_for_tts_spec(input, max).len() == 0 <==> trim(input).len() == 0,
{
    let t = collapse_ws_spec(input);
    lemma_collapse_visible(input);
    lemma_collapse_ws_collapsed(input);
    if t.len() > 0 {
        lemma_pack_visible(t, split_sentences_spec(t), max, seq![]);
        lemma_split_visible(t);
        assert(visible(Seq::<char>::empty()) =~= Seq::<char>::empty());
        assert(Seq::<char>::empty() + visible(t) =~= visible(t));
    }
    lemma_trim_ends(input);
    lemma_visible_blank(input);
    lemma_visible_blank(t);
    if chunk_for_tts_spec(input, max).len() == 0 {
        assert(visible(concat_all(chunk_for_tts_spec(input, max))) =~= Seq::<char>::empty());
    }
    if trim(input).len() == 0 && t.len() > 0 {
        assert(!is_ws(t[0]));
    }
}

/* ------------------------------------------------------------------ */
/* chunk spacing                                                      */
/* ------------------------------------------------------------------ */

/// Every whitespace character of `r` is a space not followed by more
/// whitespace.
pub open spec fn single_spaced(r: Seq<char>) -> bool {
    forall|i: int|
        0 <= i < r.len() && is_ws(#[trigger] r[i]) ==> r[i] == ' ' && (i + 1 < r.len() ==> !is_ws(r[i + 1]))
}

/// Each element of `cs` is single-spaced.
pub open spec fn all_single_spaced(cs: Seq<Seq<char>>) -> bool {
    forall|i: int| 0 <= i < cs.len() ==> single_spaced(#[trigger] cs[i])
}

proof fn lemma_single_spaced_subrange(r: Seq<char>, a: int, b: int)
    requires
        single_spaced(r),
        0 <= a <= b <= r.len(),
    ensures
        single_spaced(r.subrange(a, b)),
{
    let x = r.subrange(a, b);
    assert forall|i: int| 0 <= i < x.len() && is_ws(#[trigger] x[i]) implies x[i] == ' ' && (i + 1 < x.len() ==> !is_ws(x[i + 1])) by {
        assert(x[i] == r[a + i]);
        if i + 1 < x.len() {
            assert(x[i + 1] == r[a + i + 1]);
        }
    }
}

proof fn lemma_single_spaced_trim(r: Seq<char>)
    requires
        single_spaced(r),
    ensures
        single_spaced(trim(r)),
        single_spaced(trim_start(r)),
{
    let (a, b) = lemma_trim(r);
    lemma_single_spaced_subrange(r, a, b);
    let k = lemma_trim_start(r);
    lemma_single_spaced_subrange(r, k, r.len() as int);
    assert(r.skip(k) =~= r.subrange(k, r.len() as int));
}

proof fn lemma_all_single_spaced_add(a: Seq<Seq<char>>, b: Seq<Seq<char>>)
    requires
        all_single_spaced(a),
        all_single_spaced(b),
    ensures
        all_single_spaced(a + b),
{
    assert forall|i: int| 0 <= i < (a + b).len() implies single_spaced(#[trigger] (a + b)[i]) by {
        if i < a.len() {
            assert((a + b)[i] == a[i]);
        } else {
            assert((a + b)[i] == b[i - a.len()]);
        }
    }
}

proof fn lemma_flush_single_spaced(buf: Seq<char>)
    requires
        single_spaced(buf),
    ensures
        all_single_spaced(flush_spec(buf)),
{
    lemma_single_spaced_trim(buf);
}

proof fn lemma_hard_split_single_spaced(s: Seq<char>, max: int)
    requires
        max >= 1,
        single_spaced(s),
    ensures
        all_single_spaced(hard_split_spec(s, max)),
    decreases s.len(),
{
    if s.len() > max {
        lemma_last_boundary_bound(s, max);
        let b = last_boundary_before_spec(s, max);
        let cut = if b <= 0 || b > max { max } else { b };
        let head = s.take(cut);
        lemma_single_spaced_subrange(s, 0, cut);
        assert(head =~= s.subrange(0, cut));
        lemma_single_spaced_trim(head);
        lemma_single_spaced_subrange(s, cut, s.len() as int);
        assert(s.skip(cut) =~= s.subrange(cut, s.len() as int));
        lemma_single_spaced_trim(s.skip(cut));
        let rest = trim_start(s.skip(cut));
        lemma_trim_len(s.skip(cut));
        lemma_hard_split_single_spaced(rest, max);
        lemma_all_single_spaced_add(seq![trim(head)], hard_split_spec(rest, max));
    } else {
        lemma_flush_single_spaced(s);
    }
}

/// The ranges of `rs` lie within `t`, each starting at or after `start`.
pub open spec fn ranges_within(rs: Seq<(int, int)>, start: int, len: int) -> bool {
    forall|k: int| 0 <= k < rs.len() ==> start <= (#[trigger] rs[k]).0 <= rs[k].1 <= len
}

proof fn lemma_sentences_within(t: Seq<char>, start: int, i: int)
    requires
        0 <= start <= i <= t.len(),
    ensures
        ranges_within(sentences_from(t, start, i), start, t.len() as int),
    decreases t.len() - i,
{
    let len = t.len() as int;
    if i >= len {
    } else if is_term(t[i]) && !is_decimal_point(t, i) {
        lemma_skip_terms(t, i + 1);
        assert(skip_terms(t, i) == skip_terms(t, i + 1));
        lemma_skip_closers(t, skip_terms(t, i));
        let j = sentence_end(t, i);
        lemma_sentences_within(t, j, j);
        let rest = sentences_from(t, j, j);
        if non_blank(t, start, j) {
            let rs = seq![(start, j)] + rest;
            assert forall|k: int| 0 <= k < rs.len() implies start <= (#[trigger] rs[k]).0 <= rs[k].1 <= len by {
                if k > 0 {
                    assert(rs[k] == rest[k - 1]);
                }
            }
        }
    } else {
        lemma_sentences_within(t, start, i + 1);
    }
}

/// A pending chunk buffer: single-spaced, and either empty or free of
/// whitespace at both ends.
pub open spec fn buf_ok(buf: Seq<char>) -> bool {
    &&& single_spaced(buf)
    &&& buf.len() > 0 ==> !is_ws(buf[0]) && !is_ws(buf.last())
}

proof fn lemma_pack_single_spaced(t: Seq<char>, sents: Seq<(int, int)>, max: int, buf: Seq<char>)
    requires
        max >= 1,
        single_spaced(t),
        ranges_within(sents, 0, t.len() as int),
        buf_ok(buf),
    ensures
        all_single_spaced(pack_spec(t, sents, max, buf)),
    decreases sents.len(),
{
    if sents.len() == 0 {
        lemma_flush_single_spaced(buf);
    } else {
        let raw = t.subrange(sents[0].0, sents[0].1);
        let s = trim(raw);
        let rest = sents.drop_first();
        assert(ranges_within(rest, 0, t.len() as int)) by {
            assert forall|k: int| 0 <= k < rest.len() implies 0 <= (#[trigger] rest[k]).0 <= rest[k].1 <= t.len() by {
                assert(rest[k] == sents[k + 1]);
            }
        }
        assert(0 <= sents[0].0 <= sents[0].1 <= t.len());
        lemma_single_spaced_subrange(t, sents[0].0, sents[0].1);
        lemma_single_spaced_trim(raw);
        lemma_trim_ends(raw);
        lemma_flush_single_spaced(buf);
        if s.len() == 0 {
            lemma_pack_single_spaced(t, rest, max, buf);
        } else if s.len() > max {
            lemma_hard_split_single_spaced(s, max);
            lemma_pack_single_spaced(t, rest, max, seq![]);
            lemma_all_single_spaced_add(flush_spec(buf), hard_split_spec(s, max));
            lemma_all_single_spaced_add(flush_spec(buf) + hard_split_spec(s, max), pack_spec(t, rest, max, seq![]));
        } else {
            let cand = if buf.len() == 0 { s } else { buf + seq![' '] + s };
            assert(buf_ok(cand)) by {
                if buf.len() > 0 {
                    let n = buf.len() as int;
                    assert forall|i: int| 0 <= i < cand.len() && is_ws(#[trigger] cand[i]) implies cand[i] == ' ' && (i + 1
                        < cand.len() ==> !is_ws(cand[i + 1])) by {
                        if i < n {
                            assert(cand[i] == buf[i]);
                            if i + 1 < n {
                                assert(cand[i + 1] == buf[i + 1]);
                            } else {
                                assert(i == n - 1);
                                assert(buf[n - 1] == buf.last());
                            }
                        } else if i == n {
                            assert(cand[i + 1] == s[0]);
                        } else {
                            assert(cand[i] == s[i - n - 1]);
                            if i + 1 < cand.len() {
                                assert(cand[i + 1] == s[i - n]);
                            }
                        }
                    }
                    assert(cand[0] == buf[0]);
                    assert(cand.last() == s.last());
                }
            }
            if trim(cand).len() > max {
                lemma_pack_single_spaced(t, rest, max, s);
                lemma_all_single_spaced_add(flush_spec(buf), pack_spec(t, rest, max, s));
            } else {
                lemma_pack_single_spaced(t, rest, max, cand);
            }
        }
    }
}

/// Inside a chunk the only whitespace is single spaces between visible
/// characters: each chunk is whitespace-collapsed.
pub proof fn lemma_chunks_single_spaced(input: Seq<char>, max: int)
    requires
        max >= 1,
    ensures
        forall|i: int|
            0 <= i < chunk_for_tts_spec(input, max).len() ==> is_collapsed(#[trigger] chunk_for_tts_spec(input, max)[i]),
{
    let t = collapse_ws_spec(input);
    let r = chunk_for_tts_spec(input, max);
    lemma_chunks_fit_budget(input, max);
    if t.len() > 0 {
        lemma_collapse_ws_collapsed(input);
        lemma_sentences_within(t, 0, 0);
        let sents = split_sentences_spec(t);
        assert(ranges_within(sents, 0, t.len() as int)) by {
            if sentences_from(t, 0, 0).len() == 0 {
                assert(sents == seq![(0int, t.len() as int)]);
                assert(sents[0] == (0int, t.len() as int));
            }
        }
        lemma_pack_single_spaced(t, sents, max, seq![]);
        assert forall|i: int| 0 <= i < r.len() implies is_collapsed(#[trigger] r[i]) by {
            let c = r[i];
            assert(single_spaced(c));
            assert(fits(c, max));
            assert forall|k: int| 0 <= k < c.len() && is_ws(#[trigger] c[k]) implies c[k] == ' ' && 0 < k < c.len() - 1
                && !is_ws(c[k - 1]) && !is_ws(c[k + 1]) by {
                if k == c.len() - 1 {
                    assert(c[k] == c.last());
                }
                if k > 0 && is_ws(c[k - 1]) {
                    assert(!is_ws(c[k - 1 + 1]));
                }
            }
        }
    }
}

/* ------------------------------------------------------------------ */
/* where an over-long fragment is cut                                 */
/* ------------------------------------------------------------------ */

/// Clause punctuation at `m - 1` followed by whitespace at `m`.
pub open spec fn clause_break_at(w: Seq<char>, m: int) -> bool {
    1 <= m < w.len() && is_clause(w[m - 1]) && is_ws(w[m])
}

proof fn lemma_last_ws_end_is_last(w: Seq<char>, m: int)
    requires
        0 <= m <= w.len(),
    ensures
        last_ws_end(w, m) <= m,
        last_ws_end(w, m) > 0 ==> is_ws(w[last_ws_end(w, m) - 1]),
        forall|j: int| last_ws_end(w, m) <= j < m ==> !is_ws(#[trigger] w[j]),
    decreases m,
{
    if m > 0 && !is_ws(w[m - 1]) {
        lemma_last_ws_end_is_last(w, m - 1);
    }
}

proof fn lemma_last_clause_end_is_last(w: Seq<char>, m: int)
    requires
        0 <= m < w.len(),
    ensures
        last_clause_end(w, m) <= m + 1,
        last_clause_end(w, m) > 0 ==> clause_break_at(w, last_clause_end(w, m) - 1),
        forall|j: int| last_clause_end(w, m) - 1 < j <= m ==> !#[trigger] clause_break_at(w, j),
        last_clause_end(w, m) == 0 ==> forall|j: int| j <= m ==> !#[trigger] clause_break_at(w, j),
    decreases m,
{
    if m > 0 && !(is_clause(w[m - 1]) && is_ws(w[m])) {
        lemma_last_clause_end_is_last(w, m - 1);
    }
}

/// An over-long fragment whose first `max` characters hold whitespace past the
/// halfway point is cut on a word boundary: its first piece is the trimmed text
/// before a cut that lies just after a whitespace character, past the halfway
/// point and within the budget, so no word is split. When no clause punctuation
/// followed by whitespace lies past the halfway point, the cut is just after
/// the last whitespace within the budget.
pub proof fn lemma_hard_split_cuts_between_words(s: Seq<char>, max: int)
    requires
        max >= 1,
        s.len() > max,
        exists|j: int| 0 <= j < max && 2 * (j + 1) > max && is_ws(#[trigger] s[j]),
    ensures
        hard_split_spec(s, max).len() >= 1,
        exists|b: int|
            {
                &&& 0 < b <= max
                &&& 2 * b > max
                &&& is_ws(s[b - 1])
                &&& hard_split_spec(s, max)[0] == trim(s.take(b))
                &&& (forall|m: int| 2 * (m + 1) > max ==> !#[trigger] clause_break_at(s.take(max), m)) ==> forall|j: int|
                    b <= j < max ==> !is_ws(#[trigger] s[j])
            },
{
    let w = s.take(max);
    let j0 = choose|j: int| 0 <= j < max && 2 * (j + 1) > max && is_ws(#[trigger] s[j]);
    assert(w[j0] == s[j0]);
    lemma_last_ws_end_is_last(w, w.len() as int);
    lemma_last_clause_end_is_last(w, w.len() - 1);
    let c = last_clause_end(w, w.len() - 1);
    let lw = last_ws_end(w, w.len() as int);
    assert(lw >= j0 + 1);
    let b = last_boundary_before_spec(s, max);
    assert(b == c || b == lw);
    if b == c {
        assert(2 * c > max);
        assert(clause_break_at(w, c - 1));
        assert(w[c - 1] == s[c - 1]);
    } else {
        assert(w[lw - 1] == s[lw - 1]);
    }
    let rest = trim_start(s.skip(b));
    lemma_trim_len(s.skip(b));
    assert(hard_split_spec(s, max) == seq![trim(s.take(b))] + hard_split_spec(rest, max));
    if forall|m: int| 2 * (m + 1) > max ==> !#[trigger] clause_break_at(s.take(max), m) {
        if c > 0 {
            assert(clause_break_at(w, c - 1));
        }
        assert(b == lw);
        assert forall|j: int| b <= j < max implies !is_ws(#[trigger] s[j]) by {
            assert(w[j] == s[j]);
        }
    }
}

/// When clause punctuation followed by whitespace lies past the halfway point
/// of the first `max` characters of an over-long fragment, the fragment is cut
/// just after the last such clause break in that window: the first piece is
/// the clause-ended text before it.
pub proof fn lemma_hard_split_prefers_clauses(s: Seq<char>, max: int)
    requires
        max >= 1,
        s.len() > max,
        exists|m: int| 2 * (m + 1) > max && #[trigger] clause_break_at(s.take(max), m),
    ensures
        hard_split_spec(s, max).len() >= 1,
        exists|b: int|
            {
                &&& 0 < b <= max
                &&& 2 * b > max
                &&& clause_break_at(s.take(max), b - 1)
                &&& forall|m: int| b - 1 < m ==> !#[trigger] clause_break_at(s.take(max), m)
                &&& hard_split_spec(s, max)[0] == trim(s.take(b))
            },
{
    let w = s.take(max);
    let m0 = choose|m: int| 2 * (m + 1) > max && #[trigger] clause_break_at(s.take(max), m);
    lemma_last_clause_end_is_last(w, w.len() - 1);
    let c = last_clause_end(w, w.len() - 1);
    assert(c - 1 >= m0);
    let b = last_boundary_before_spec(s, max);
    assert(b == c);
    assert forall|m: int| b - 1 < m implies !#[trigger] clause_break_at(s.take(max), m) by {
        if m <= w.len() - 1 {
        }
    }
    let rest = trim_start(s.skip(b));
    lemma_trim_len(s.skip(b));
    assert(hard_split_spec(s, max) == seq![trim(s.take(b))] + hard_split_spec(rest, max));
}

} // verus!
