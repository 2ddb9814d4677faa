//! The filesystem tools' decisions and wording: when a read is refused, how a
//! directory listing is rendered, which entries a search visits and matches,
//! and what each tool answers. The paths come out of the sandbox; touching the
//! filesystem is the caller's.
use vstd::prelude::*;

use crate::chars::{chars_of, contains, contains_str, decimal, lowercase, push_decimal, to_lowercase, trim, trimmed};
use crate::sandbox::{MAX_LIST, MAX_MATCHES, MAX_READ_BYTES, MAX_SEARCH_DEPTH};

verus! {

/// The largest file size, in bytes, whose size in KB is worded exactly (2^53).
pub const MAX_EXACT_BYTES: u64 = 9007199254740992;

/// The refusal for a file that looks binary.
pub const BINARY_REFUSAL: &'static str = "That looks like a binary file, so I won't read it as text.";

/// The refusal for a search without a query.
pub const NO_QUERY: &'static str = "No search query was given.";

/// `n` bytes in KB, rounded to the nearest (halves up).
pub open spec fn kb_rounded(n: nat) -> nat {
    (n + 512) / 1024
}

/// Why a file may not be read: it is a directory, or larger than
/// [`MAX_READ_BYTES`].
pub open spec fn read_refusal_spec(abs: Seq<char>, is_dir: bool, len: nat) -> Option<Seq<char>> {
    if is_dir {
        Some(abs + " is a directory \u{2014} use list_dir."@)
    } else if len > MAX_READ_BYTES {
        Some("That file is "@ + decimal(kb_rounded(len)) + " KB; I only read up to "@ + decimal(
            (MAX_READ_BYTES / 1024) as nat,
        ) + " KB."@)
    } else {
        None
    }
}

/// Check a file before reading it: `abs` is its path, `is_dir` and `len` what
/// its metadata says. Returns the refusal, if any.
pub fn read_refusal(abs: &str, is_dir: bool, len: u64) -> (r: Option<String>)
    requires
        len <= MAX_EXACT_BYTES,
    ensures
        match r {
            Some(m) => read_refusal_spec(abs@, is_dir, len as nat) == Some(m@),
            None => read_refusal_spec(abs@, is_dir, len as nat) is None,
        },
{
    if is_dir {
        let mut m = String::from_str(abs);
        m.append(" is a directory \u{2014} use list_dir.");
        return Some(m);
    }
    if len > MAX_READ_BYTES {
        let mut m = String::from_str("That file is ");
        push_decimal(&mut m, (len + 512) / 1024);
        m.append(" KB; I only read up to ");
        push_decimal(&mut m, MAX_READ_BYTES / 1024);
        m.append(" KB.");
        return Some(m);
    }
    None
}

/// The directory a listing or a search starts from: the given path, or `~`
/// when it is blank.
pub fn start_dir(path: &str) -> (r: String)
    ensures
        r@ == (if trim(path@).len() == 0 {
            "~"@
        } else {
            path@
        }),
{
    let t = trimmed(path);
    if t.as_str().is_empty() {
        String::from_str("~")
    } else {
        String::from_str(path)
    }
}

/// `a` sorts before or equal to `b`, character by character (which for UTF-8
/// text is the byte order `String` sorts by).
pub open spec fn lex_le(a: Seq<char>, b: Seq<char>) -> bool
    decreases a.len(),
{
    if a.len() == 0 {
        true
    } else if b.len() == 0 {
        false
    } else if a[0] != b[0] {
        a[0] < b[0]
    } else {
        lex_le(a.skip(1), b.skip(1))
    }
}

proof fn lemma_lex_refl(a: Seq<char>)
    ensures
        lex_le(a, a),
    decreases a.len(),
{
    if a.len() > 0 {
        lemma_lex_refl(a.skip(1));
    }
}

proof fn lemma_lex_total(a: Seq<char>, b: Seq<char>)
    ensures
        lex_le(a, b) || lex_le(b, a),
    decreases a.len(),
{
    if a.len() > 0 && b.len() > 0 && a[0] == b[0] {
        lemma_lex_total(a.skip(1), b.skip(1));
    }
}

proof fn lemma_lex_trans(a: Seq<char>, b: Seq<char>, c: Seq<char>)
    requires
        lex_le(a, b),
        lex_le(b, c),
    ensures
        lex_le(a, c),
    decreases a.len(),
{
    if a.len() > 0 && b.len() > 0 && c.len() > 0 && a[0] == b[0] && b[0] == c[0] {
        lemma_lex_trans(a.skip(1), b.skip(1), c.skip(1));
    }
}

proof fn lemma_lex_antisym(a: Seq<char>, b: Seq<char>)
    requires
        lex_le(a, b),
        lex_le(b, a),
    ensures
        a == b,
    decreases a.len(),
{
    if a.len() > 0 && b.len() > 0 {
        lemma_lex_antisym(a.skip(1), b.skip(1));
        assert(a == seq![a[0]] + a.skip(1));
        assert(b == seq![b[0]] + b.skip(1));
    }
}

/// `lex_le(a, b)` on strings.
fn lex_le_str(a: &str, b: &str) -> (r: bool)
    ensures
        r == lex_le(a@, b@),
{
    let va = chars_of(a);
    let vb = chars_of(b);
    let mut i: usize = 0;
    assert(a@.skip(0) == a@);
    assert(b@.skip(0) == b@);
    while i < va.len() && i < vb.len() && va[i] == vb[i]
        invariant
            i <= va@.len(),
            i <= vb@.len(),
            va@ == a@,
            vb@ == b@,
            lex_le(a@, b@) == lex_le(a@.skip(i as int), b@.skip(i as int)),
        decreases va@.len() - i,
    {
        proof {
            let sa = a@.skip(i as int);
            let sb = b@.skip(i as int);
            assert(sa[0] == sb[0]);
            assert(sa.skip(1) == a@.skip(i + 1));
            assert(sb.skip(1) == b@.skip(i + 1));
        }
        i = i + 1;
    }
    if i == va.len() {
        true
    } else if i == vb.len() {
        false
    } else {
        assert(a@.skip(i as int)[0] == va@[i as int]);
        assert(b@.skip(i as int)[0] == vb@[i as int]);
        va[i] < vb[i]
    }
}

/// `s` is sorted.
pub open spec fn sorted(s: Seq<Seq<char>>) -> bool {
    forall|i: int, j: int| 0 <= i < j < s.len() ==> lex_le(#[trigger] s[i], #[trigger] s[j])
}

/// The views of a list of strings.
pub open spec fn views(v: Seq<String>) -> Seq<Seq<char>> {
    v.map_values(|s: String| s@)
}

proof fn lemma_insert_multiset(s: Seq<Seq<char>>, k: int, x: Seq<char>)
    requires
        0 <= k <= s.len(),
    ensures
        s.insert(k, x).to_multiset() == s.to_multiset().insert(x),
{
    broadcast use vstd::seq_lib::group_to_multiset_ensures;
    let a = s.take(k);
    let b = s.skip(k);
    assert(s == a + b);
    assert(s.insert(k, x) == a.push(x) + b);
    vstd::seq_lib::lemma_multiset_commutative(a, b);
    vstd::seq_lib::lemma_multiset_commutative(a.push(x), b);
}

/// Sort lines into order (a stable insertion sort).
pub fn sort_lines(lines: Vec<String>) -> (r: Vec<String>)
    ensures
        sorted(views(r@)),
        views(r@).to_multiset() == views(lines@).to_multiset(),
{
    broadcast use vstd::seq_lib::group_to_multiset_ensures;
    let mut out: Vec<String> = Vec::new();
    let mut i: usize = 0;
    while i < lines.len()
        invariant
            i <= lines@.len(),
            sorted(views(out@)),
            views(out@).to_multiset() == views(lines@).take(i as int).to_multiset(),
        decreases lines@.len() - i,
    {
        let x = lines[i].clone();
        assert(x@ == views(lines@)[i as int]);
        let mut k: usize = 0;
        while k < out.len() && lex_le_str(out[k].as_str(), x.as_str())
            invariant
                k <= out@.len(),
                forall|j: int| 0 <= j < k ==> lex_le(#[trigger] views(out@)[j], x@),
            decreases out@.len() - k,
        {
            k = k + 1;
        }
        let ghost before = views(out@);
        proof {
            if k < out.len() {
                lemma_lex_total(before[k as int], x@);
            }
        }
        out.insert(k, x);
        proof {
            let now = views(out@);
            assert(now == before.insert(k as int, x@));
            assert forall|p: int, q: int| 0 <= p < q < now.len() implies lex_le(#[trigger] now[p], #[trigger] now[q]) by {
                if q < k {
                } else if q == k {
                } else if p < k {
                    lemma_lex_trans(now[p], x@, before[k as int]);
                    if q - 1 > k {
                        lemma_lex_trans(now[p], before[k as int], before[q - 1]);
                    }
                } else if p == k {
                    if q - 1 > k {
                        lemma_lex_trans(x@, before[k as int], before[q - 1]);
                    }
                } else {
                }
            }
            lemma_insert_multiset(before, k as int, x@);
            assert(views(lines@).take(i + 1) == views(lines@).take(i as int).push(views(lines@)[i as int]));
            views(lines@).take(i as int).to_multiset_ensures();
            assert(views(lines@).take(i as int).push(views(lines@)[i as int]).to_multiset()
                =~= views(lines@).take(i as int).to_multiset().insert(views(lines@)[i as int]));
            assert(views(out@).to_multiset() == views(lines@).take(i + 1).to_multiset());
        }
        i = i + 1;
    }
    assert(views(lines@).take(lines@.len() as int) == views(lines@));
    out
}

/// `parts` joined with `sep` between them.
pub open spec fn join_with(parts: Seq<Seq<char>>, sep: Seq<char>) -> Seq<char>
    decreases parts.len(),
{
    if parts.len() == 0 {
        Seq::empty()
    } else if parts.len() == 1 {
        parts[0]
    } else {
        join_with(parts.drop_last(), sep) + sep + parts.last()
    }
}

/// Join `parts` with `sep`.
pub fn join_lines(parts: &Vec<String>, sep: &str) -> (r: String)
    ensures
        r@ == join_with(views(parts@), sep@),
{
    let mut out = String::new();
    let mut i: usize = 0;
    while i < parts.len()
        invariant
            i <= parts@.len(),
            out@ == join_with(views(parts@).take(i as int), sep@),
        decreases parts@.len() - i,
    {
        let ghost pre = views(parts@).take(i as int);
        assert(views(parts@).take(i + 1).drop_last() == pre);
        if i > 0 {
            out.append(sep);
        } else {
            assert(pre.len() == 0);
        }
        out.append(parts[i].as_str());
        i = i + 1;
    }
    assert(views(parts@).take(parts@.len() as int) == views(parts@));
    out
}

/// One listing line: `d name` for a directory, `- name` for anything else.
pub open spec fn entry_line(is_dir: bool, name: Seq<char>) -> Seq<char> {
    (if is_dir {
        "d "@
    } else {
        "- "@
    }) + name
}

/// The listing lines of the first [`MAX_LIST`] entries, before sorting.
pub open spec fn listed_lines(entries: Seq<(bool, String)>) -> Seq<Seq<char>> {
    let shown = if entries.len() > MAX_LIST {
        entries.take(MAX_LIST as int)
    } else {
        entries
    };
    shown.map_values(|e: (bool, String)| entry_line(e.0, e.1@))
}

/// The note after a cut listing: `\n… and N more` when entries were left out.
pub open spec fn more_note(total: nat) -> Seq<char> {
    if total > MAX_LIST {
        "\n\u{2026} and "@ + decimal((total - MAX_LIST) as nat) + " more"@
    } else {
        Seq::empty()
    }
}

/// Render a directory listing of `abs`: a header, then the first
/// [`MAX_LIST`] entries (in the order given) rendered as lines and sorted,
/// then a note of how many more there were.
pub fn render_listing(abs: &str, entries: &Vec<(bool, String)>) -> (r: String)
    ensures
        exists|lines: Seq<Seq<char>>|
            sorted(lines) && lines.to_multiset() == listed_lines(entries@).to_multiset() && r@ == abs@ + ":\n"@
                + join_with(lines, "\n"@) + more_note(entries@.len() as nat),
{
    let total = entries.len();
    let n = if total > MAX_LIST { MAX_LIST } else { total };
    let mut lines: Vec<String> = Vec::new();
    let mut i: usize = 0;
    let ghost shown = if entries@.len() > MAX_LIST { entries@.take(MAX_LIST as int) } else { entries@ };
    while i < n
        invariant
            i <= n,
            n == shown.len(),
            n <= entries@.len(),
            shown == (if entries@.len() > MAX_LIST { entries@.take(MAX_LIST as int) } else { entries@ }),
            views(lines@) == shown.take(i as int).map_values(|e: (bool, String)| entry_line(e.0, e.1@)),
        decreases n - i,
    {
        let (is_dir, name) = &entries[i];
        let mut line = if *is_dir {
            String::from_str("d ")
        } else {
            String::from_str("- ")
        };
        line.append(name.as_str());
        let ghost before = views(lines@);
        assert(shown[i as int] == entries@[i as int]);
        assert(line@ == entry_line(shown[i as int].0, shown[i as int].1@));
        lines.push(line);
        assert(views(lines@) == before.push(entry_line(shown[i as int].0, shown[i as int].1@)));
        assert(shown.take(i + 1) == shown.take(i as int).push(shown[i as int]));
        i = i + 1;
    }
    assert(shown.take(n as int) == shown);
    let sorted_lines = sort_lines(lines);
    let mut out = String::from_str(abs);
    out.append(":\n");
    let body = join_lines(&sorted_lines, "\n");
    out.append(body.as_str());
    if total > MAX_LIST {
        out.append("\n\u{2026} and ");
        push_decimal(&mut out, (total - MAX_LIST) as u64);
        out.append(" more");
    }
    proof {
        reveal_strlit("");
    }
    assert(views(sorted_lines@).to_multiset() == listed_lines(entries@).to_multiset());
    out
}

/// The needle a search matches names against: the trimmed query, lowercased;
/// absent when the query is blank.
pub fn search_needle(query: &str) -> (r: Option<String>)
    ensures
        match r {
            Some(n) => n@ == lowercase(trim(query@)) && n@.len() > 0,
            None => lowercase(trim(query@)).len() == 0,
        },
{
    let t = trimmed(query);
    let n = to_lowercase(t.as_str());
    if n.as_str().is_empty() {
        None
    } else {
        Some(n)
    }
}

/// Whether a search descends into a directory at `depth`, having found
/// `found` matches so far.
pub fn search_continues(found: usize, depth: usize) -> (r: bool)
    ensures
        r == (found < MAX_MATCHES && depth <= MAX_SEARCH_DEPTH),
{
    found < MAX_MATCHES && depth <= MAX_SEARCH_DEPTH
}

/// Whether a search skips an entry named `name`: dotfiles and `node_modules`.
pub fn search_skips(name: &str) -> (r: bool)
    ensures
        r == ((name@.len() > 0 && name@[0] == '.') || name@ == "node_modules"@),
{
    let v = chars_of(name);
    (v.len() > 0 && v[0] == '.') || crate::chars::str_eq(name, "node_modules")
}

/// Whether an entry named `name` matches the search `needle`: its lowercase
/// name contains the needle.
pub fn search_hit(name: &str, needle: &str) -> (r: bool)
    ensures
        r == contains(lowercase(name@), needle@),
{
    let lower = to_lowercase(name);
    contains_str(lower.as_str(), needle)
}

/// What a search answers: the matches, one per line, with a truncation note
/// when the cap was reached, or a note that nothing matched.
pub open spec fn search_report_spec(query: Seq<char>, base: Seq<char>, matches: Seq<Seq<char>>) -> Seq<char> {
    if matches.len() == 0 {
        "No files matching \""@ + query + "\" under "@ + base + "."@
    } else if matches.len() >= MAX_MATCHES {
        join_with(matches, "\n"@) + "\n\u{2026} (truncated)"@
    } else {
        join_with(matches, "\n"@)
    }
}

/// Phrase the result of a search for `query` under `base`.
pub fn search_report(query: &str, base: &str, matches: &Vec<String>) -> (r: String)
    ensures
        r@ == search_report_spec(query@, base@, views(matches@)),
{
    if matches.len() == 0 {
        let mut m = String::from_str("No files matching \"");
        m.append(query);
        m.append("\" under ");
        m.append(base);
        m.append(".");
        return m;
    }
    let mut out = join_lines(matches, "\n");
    if matches.len() >= MAX_MATCHES {
        out.append("\n\u{2026} (truncated)");
    }
    out
}

/// The refusal to overwrite an existing file without `overwrite`.
pub fn exists_refusal(abs: &str) -> (r: String)
    ensures
        r@ == abs@ + " already exists. Pass overwrite to replace it."@,
{
    let mut m = String::from_str(abs);
    m.append(" already exists. Pass overwrite to replace it.");
    m
}

/// The answer after writing `bytes` bytes to `abs`.
pub fn wrote_message(bytes: u64, abs: &str) -> (r: String)
    ensures
        r@ == "Wrote "@ + decimal(bytes as nat) + " bytes to "@ + abs@ + "."@,
{
    let mut m = String::from_str("Wrote ");
    push_decimal(&mut m, bytes);
    m.append(" bytes to ");
    m.append(abs);
    m.append(".");
    m
}

/// The answer after moving `src` to `dst`.
pub fn moved_message(src: &str, dst: &str) -> (r: String)
    ensures
        r@ == "Moved "@ + src@ + " to "@ + dst@ + "."@,
{
    let mut m = String::from_str("Moved ");
    m.append(src);
    m.append(" to ");
    m.append(dst);
    m.append(".");
    m
}

/// The refusal to copy a directory.
pub fn copy_dir_refusal(src: &str) -> (r: String)
    ensures
        r@ == src@ + " is a directory; I only copy files."@,
{
    let mut m = String::from_str(src);
    m.append(" is a directory; I only copy files.");
    m
}

/// The answer after copying `bytes` bytes from `src` to `dst`.
pub fn copied_message(src: &str, dst: &str, bytes: u64) -> (r: String)
    ensures
        r@ == "Copied "@ + src@ + " to "@ + dst@ + " ("@ + decimal(bytes as nat) + " bytes)."@,
{
    let mut m = String::from_str("Copied ");
    m.append(src);
    m.append(" to ");
    m.append(dst);
    m.append(" (");
    push_decimal(&mut m, bytes);
    m.append(" bytes).");
    m
}

/// The answer after deleting `abs`.
pub fn deleted_message(abs: &str) -> (r: String)
    ensures
        r@ == "Deleted "@ + abs@ + "."@,
{
    let mut m = String::from_str("Deleted ");
    m.append(abs);
    m.append(".");
    m
}

/// The answer after opening `abs` in its default handler.
pub fn opened_message(abs: &str) -> (r: String)
    ensures
        r@ == "Opened "@ + abs@ + "."@,
{
    let mut m = String::from_str("Opened ");
    m.append(abs);
    m.append(".");
    m
}

/// A sorted list holds each of its entries once per occurrence, in order: two
/// sorted arrangements of the same lines are the same list.
pub proof fn lemma_sorted_is_unique(a: Seq<Seq<char>>, b: Seq<Seq<char>>)
    requires
        sorted(a),
        sorted(b),
        a.to_multiset() == b.to_multiset(),
    ensures
        a == b,
    decreases a.len(),
{
    broadcast use vstd::seq_lib::group_to_multiset_ensures;
    assert(a.to_multiset().len() == a.len());
    assert(b.to_multiset().len() == b.len());
    if a.len() == 0 {
        assert(b.len() == 0);
    } else {
        assert(b.len() == a.len());
        let x = a.last();
        let y = b.last();
        assert(a.to_multiset().count(x) > 0);
        assert(b.to_multiset().count(x) > 0);
        let ix = choose|i: int| 0 <= i < b.len() && b[i] == x;
        assert(a.to_multiset().count(y) > 0);
        let iy = choose|i: int| 0 <= i < a.len() && a[i] == y;
        if ix < b.len() - 1 {
            assert(lex_le(b[ix], b[b.len() - 1]));
        } else {
            lemma_lex_refl(x);
        }
        if iy < a.len() - 1 {
            assert(lex_le(a[iy], a[a.len() - 1]));
        } else {
            lemma_lex_refl(y);
        }
        lemma_lex_antisym(x, y);
        assert(a.drop_last().to_multiset() == a.to_multiset().remove(x)) by {
            assert(a == a.drop_last().push(x));
        }
        assert(b.drop_last().to_multiset() == b.to_multiset().remove(y)) by {
            assert(b == b.drop_last().push(y));
        }
        lemma_sorted_is_unique(a.drop_last(), b.drop_last());
        assert(a == a.drop_last().push(x));
        assert(b == b.drop_last().push(y));
    }
}

} // verus!
