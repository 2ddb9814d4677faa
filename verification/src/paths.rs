//! Filesystem path model (POSIX paths held as strings) and the application
//! directories: user config (settings, history, audit log) and the cache for
//! downloaded engine binaries and model weights. The platform's directories
//! are handed over as strings: a directory whose path is not valid Unicode
//! comes back with each invalid sequence replaced by U+FFFD.
use vstd::prelude::*;

use crate::chars::chars_of;

verus! {

/// The views of a sequence of character vectors.
pub open spec fn vviews(v: Seq<Vec<char>>) -> Seq<Seq<char>> {
    v.map_values(|x: Vec<char>| x@)
}

/// `s` split at every `/` (always at least one, possibly empty, segment).
pub open spec fn split_slash(s: Seq<char>) -> Seq<Seq<char>>
    decreases s.len(),
{
    if s.len() == 0 {
        seq![seq![]]
    } else {
        let p = split_slash(s.drop_last());
        if s.last() == '/' {
            p.push(seq![])
        } else {
            p.update(p.len() - 1, p.last().push(s.last()))
        }
    }
}

/// The segment `.`.
pub open spec fn is_dot(seg: Seq<char>) -> bool {
    seg.len() == 1 && seg[0] == '.'
}

/// A segment that names something (not empty, not `.`).
pub open spec fn is_name(seg: Seq<char>) -> bool {
    seg.len() > 0 && !is_dot(seg)
}

/// The naming segments of `parts`, in order.
pub open spec fn names_of(parts: Seq<Seq<char>>) -> Seq<Seq<char>>
    decreases parts.len(),
{
    if parts.len() == 0 {
        seq![]
    } else if is_name(parts.last()) {
        names_of(parts.drop_last()).push(parts.last())
    } else {
        names_of(parts.drop_last())
    }
}

/// The root component.
pub open spec fn root_comp() -> Seq<char> {
    seq!['/']
}

/// The components of a path, as `Path::components` yields them on POSIX: a
/// leading `/` (root) or leading `.` (current dir), then every non-empty segment
/// other than `.`; repeated separators and interior `.` are normalized away.
pub open spec fn components(s: Seq<char>) -> Seq<Seq<char>> {
    let parts = split_slash(s);
    let head: Seq<Seq<char>> = if s.len() > 0 && s[0] == '/' {
        seq![root_comp()]
    } else if is_dot(parts[0]) {
        seq![seq!['.']]
    } else {
        seq![]
    };
    head + names_of(parts)
}

/// `base`'s components are a prefix of `path`'s (`Path::starts_with`; equal
/// paths included).
pub open spec fn path_starts_with(path: Seq<char>, base: Seq<char>) -> bool {
    let p = components(path);
    let b = components(base);
    b.len() <= p.len() && p.subrange(0, b.len() as int) == b
}

/// `PathBuf::join` on POSIX: an absolute `rest` replaces `base`; otherwise a
/// separator is inserted unless `base` is empty or already ends with one.
pub open spec fn path_join(base: Seq<char>, rest: Seq<char>) -> Seq<char> {
    if rest.len() > 0 && rest[0] == '/' {
        rest
    } else if base.len() > 0 && base.last() != '/' {
        base + seq!['/'] + rest
    } else {
        base + rest
    }
}

proof fn lemma_split_slash_len(s: Seq<char>)
    ensures
        split_slash(s).len() >= 1,
    decreases s.len(),
{
    if s.len() > 0 {
        lemma_split_slash_len(s.drop_last());
    }
}

/// No segment of `split_slash(s)` holds a `/`.
pub proof fn lemma_split_slash_no_sep(s: Seq<char>)
    ensures
        forall|i: int| 0 <= i < split_slash(s).len() ==> !(#[trigger] split_slash(s)[i]).contains('/'),
    decreases s.len(),
{
    if s.len() > 0 {
        let p = split_slash(s.drop_last());
        lemma_split_slash_no_sep(s.drop_last());
        lemma_split_slash_len(s.drop_last());
        let r = split_slash(s);
        if s.last() != '/' {
            assert forall|i: int| 0 <= i < r.len() implies !(#[trigger] r[i]).contains('/') by {
                if i == p.len() - 1 {
                    let x = p.last().push(s.last());
                    assert(r[i] == x);
                    assert forall|k: int| 0 <= k < x.len() implies x[k] != '/' by {
                        if k < p.last().len() {
                            assert(x[k] == p.last()[k]);
                            assert(!p[p.len() - 1].contains('/'));
                        }
                    }
                } else {
                    assert(r[i] == p[i]);
                }
            }
        } else {
            assert forall|i: int| 0 <= i < r.len() implies !(#[trigger] r[i]).contains('/') by {
                if i < p.len() {
                    assert(r[i] == p[i]);
                }
            }
        }
    }
}

/// A sequence with no `/` is a single segment.
pub proof fn lemma_split_slash_plain(s: Seq<char>)
    requires
        !s.contains('/'),
    ensures
        split_slash(s) == seq![s],
    decreases s.len(),
{
    if s.len() > 0 {
        assert(!s.drop_last().contains('/')) by {
            if s.drop_last().contains('/') {
                let k = choose|k: int| 0 <= k < s.drop_last().len() && s.drop_last()[k] == '/';
                assert(s[k] == '/');
            }
        }
        lemma_split_slash_plain(s.drop_last());
        assert(s[s.len() - 1] != '/');
        assert(s.drop_last().push(s.last()) =~= s);
        assert(seq![s.drop_last()].update(0, s) =~= seq![s]);
    } else {
        assert(s =~= Seq::<char>::empty());
    }
}

/// Splitting `a/b` gives the segments of `a`, then those of `b`.
pub proof fn lemma_split_slash_concat(a: Seq<char>, b: Seq<char>)
    ensures
        split_slash(a + seq!['/'] + b) == split_slash(a) + split_slash(b),
    decreases b.len(),
{
    let ab = a + seq!['/'] + b;
    if b.len() == 0 {
        assert(ab.drop_last() =~= a);
        assert(split_slash(a).push(seq![]) =~= split_slash(a) + seq![seq![]]);
    } else {
        lemma_split_slash_concat(a, b.drop_last());
        assert(ab.drop_last() =~= a + seq!['/'] + b.drop_last());
        lemma_split_slash_len(b.drop_last());
        let pa = split_slash(a);
        let pb = split_slash(b.drop_last());
        if b.last() == '/' {
            assert((pa + pb).push(seq![]) =~= pa + pb.push(seq![]));
        } else {
            assert((pa + pb).update(pa.len() + pb.len() - 1, (pa + pb).last().push(b.last()))
                =~= pa + pb.update(pb.len() - 1, pb.last().push(b.last())));
        }
    }
}

/// The naming segments of slash-free parts are names without a `/`.
pub proof fn lemma_names_of_plain(parts: Seq<Seq<char>>)
    requires
        forall|i: int| 0 <= i < parts.len() ==> !(#[trigger] parts[i]).contains('/'),
    ensures
        forall|j: int|
            0 <= j < names_of(parts).len() ==> is_name(#[trigger] names_of(parts)[j]) && !names_of(parts)[j].contains('/'),
    decreases parts.len(),
{
    if parts.len() > 0 {
        let q = parts.drop_last();
        assert forall|i: int| 0 <= i < q.len() implies !(#[trigger] q[i]).contains('/') by {
            assert(q[i] == parts[i]);
        }
        lemma_names_of_plain(q);
        let n = names_of(q);
        if is_name(parts.last()) {
            assert(!parts[parts.len() - 1].contains('/'));
            assert forall|j: int| 0 <= j < names_of(parts).len() implies is_name(#[trigger] names_of(parts)[j])
                && !names_of(parts)[j].contains('/') by {
                if j < n.len() {
                    assert(names_of(parts)[j] == n[j]);
                }
            }
        }
    }
}

/// Append `src[lo..hi]` to `out`.
pub fn extend_from(out: &mut Vec<char>, src: &Vec<char>, lo: usize, hi: usize)
    requires
        lo <= hi <= src.len(),
    ensures
        final(out)@ == old(out)@ + src@.subrange(lo as int, hi as int),
{
    let mut i = lo;
    while i < hi
        invariant
            lo <= i <= hi <= src.len(),
            out@ == old(out)@ + src@.subrange(lo as int, i as int),
        decreases hi - i,
    {
        out.push(src[i]);
        assert(src@.subrange(lo as int, i + 1) == src@.subrange(lo as int, i as int).push(src@[i as int]));
        i = i + 1;
    }
}

/// The components of the path `s` (see [`components`]).
pub fn path_components(s: &Vec<char>) -> (r: Vec<Vec<char>>)
    ensures
        vviews(r@) == components(s@),
{
    let mut names: Vec<Vec<char>> = Vec::new();
    let mut cur: Vec<char> = Vec::new();
    let ghost mut done: Seq<Seq<char>> = seq![];
    let mut first_dot = false;
    let mut seen_slash = false;
    let mut i: usize = 0;
    assert(s@.take(0) == Seq::<char>::empty());
    while i < s.len()
        invariant
            i <= s.len(),
            split_slash(s@.take(i as int)) == done.push(cur@),
            vviews(names@) == names_of(done),
            done.len() > 0 ==> first_dot == is_dot(done[0]),
            seen_slash == (done.len() > 0),
        decreases s.len() - i,
    {
        let c = s[i];
        assert(s@.take(i + 1).drop_last() == s@.take(i as int));
        if c == '/' {
            if !seen_slash {
                first_dot = cur.len() == 1 && cur[0] == '.';
            }
            let ghost old_names = vviews(names@);
            if cur.len() > 0 && !(cur.len() == 1 && cur[0] == '.') {
                assert(is_name(cur@));
                names.push(cur);
                assert(vviews(names@) == old_names.push(done.push(cur@).last()));
            } else {
                assert(!is_name(cur@));
            }
            proof {
                assert(done.push(cur@).drop_last() == done);
                done = done.push(cur@);
            }
            cur = Vec::new();
            seen_slash = true;
        } else {
            let ghost old_cur = cur@;
            cur.push(c);
            assert(done.push(old_cur).update(done.len() as int, old_cur.push(c)) == done.push(cur@));
        }
        i = i + 1;
    }
    assert(s@.take(s.len() as int) == s@);
    let ghost parts = done.push(cur@);
    if !seen_slash {
        first_dot = cur.len() == 1 && cur[0] == '.';
    }
    assert(first_dot == is_dot(parts[0]));
    let ghost old_names = vviews(names@);
    assert(parts.drop_last() == done);
    if cur.len() > 0 && !(cur.len() == 1 && cur[0] == '.') {
        names.push(cur);
        assert(vviews(names@) == old_names.push(parts.last()));
    }
    assert(vviews(names@) == names_of(parts));
    let mut r: Vec<Vec<char>> = Vec::new();
    if s.len() > 0 && s[0] == '/' {
        let v = vec!['/'];
        assert(v@ == root_comp());
        r.push(v);
        assert(vviews(r@) == seq![root_comp()]);
    } else if first_dot {
        let v = vec!['.'];
        assert(v@ == seq!['.']);
        r.push(v);
        assert(vviews(r@) == seq![seq!['.']]);
    } else {
        assert(vviews(r@) == Seq::<Seq<char>>::empty());
    }
    let ghost head = r@;
    let ghost nm = names@;
    r.append(&mut names);
    assert(vviews(r@) == vviews(head) + vviews(nm));
    r
}

/// The directory that holds the user's config, from the `directories` crate:
/// `ProjectDirs::from("com", "lo", "assistant")`'s config dir, or `None` when no
/// home directory can be resolved. Which directory depends on the environment;
/// claimed: a reported directory is never empty, since on every platform the
/// crate builds it by joining a non-empty project segment onto a base folder,
/// and a lossy conversion of a non-empty path is non-empty.
#[verifier::external_body]
fn project_config_dir() -> (r: Option<String>)
    ensures
        r matches Some(d) ==> d@.len() > 0,
{
    directories::ProjectDirs::from("com", "lo", "assistant").map(|d| d.config_dir().to_string_lossy().into_owned())
}

/// The directory for large downloaded artifacts, from the `directories` crate:
/// `ProjectDirs::from("com", "lo", "assistant")`'s cache dir, or `None` when no
/// home directory can be resolved. Which directory depends on the environment;
/// claimed: a reported directory is never empty, for the same reason as the
/// config dir (a non-empty project segment joined onto a base folder).
#[verifier::external_body]
fn project_cache_dir() -> (r: Option<String>)
    ensures
        r matches Some(d) ==> d@.len() > 0,
{
    directories::ProjectDirs::from("com", "lo", "assistant").map(|d| d.cache_dir().to_string_lossy().into_owned())
}

/// The user's home directory, from the `directories` crate (`BaseDirs::new()`'s
/// home dir), or `None` when it cannot be resolved. Which directory depends on
/// the environment, and nothing is claimed of it: the Unix lookup skips an
/// empty `$HOME`, but the Windows and Redox lookups make no such check.
#[verifier::external_body]
fn base_home_dir() -> (r: Option<String>) {
    directories::BaseDirs::new().map(|d| d.home_dir().to_string_lossy().into_owned())
}

/// A directory the platform reported, or `fallback` when it reported none.
pub fn dir_or(found: Option<String>, fallback: &str) -> (r: String)
    ensures
        r@ == (match found {
            Some(d) => d@,
            None => fallback@,
        }),
{
    match found {
        Some(d) => d,
        None => String::from_str(fallback),
    }
}

/// Directory for user config (settings.json, history.json, the audit log);
/// `.lo` when no home directory is resolvable. Which one it is depends on the
/// environment; either way it is a non-empty path.
pub fn config_dir() -> (r: String)
    ensures
        r@.len() > 0,
{
    proof {
        reveal_strlit(".lo");
    }
    dir_or(project_config_dir(), ".lo")
}

/// Directory for large downloaded artifacts; `.lo/cache` when no home directory
/// is resolvable. Which one it is depends on the environment; either way it is
/// a non-empty path.
pub fn cache_dir() -> (r: String)
    ensures
        r@.len() > 0,
{
    proof {
        reveal_strlit(".lo/cache");
    }
    dir_or(project_cache_dir(), ".lo/cache")
}

/// The user's home directory (the default filesystem sandbox root); `.` when it
/// cannot be resolved. Which one it is depends on the environment.
pub fn home_dir() -> (r: String) {
    dir_or(base_home_dir(), ".")
}

/// `PathBuf::join` on POSIX paths held as strings.
pub fn join_path(base: &str, rest: &str) -> (r: String)
    ensures
        r@ == path_join(base@, rest@),
{
    let b = chars_of(base);
    let t = chars_of(rest);
    let mut out: Vec<char> = Vec::new();
    if t.len() > 0 && t[0] == '/' {
        extend_from(&mut out, &t, 0, t.len());
    } else {
        extend_from(&mut out, &b, 0, b.len());
        if b.len() > 0 && b[b.len() - 1] != '/' {
            out.push('/');
        }
        extend_from(&mut out, &t, 0, t.len());
    }
    assert(b@.subrange(0, b@.len() as int) == b@);
    assert(t@.subrange(0, t@.len() as int) == t@);
    crate::chars::string_of(&out)
}

/// Path to the persisted settings file.
pub fn settings_file() -> (r: String)
    ensures
        exists|d: Seq<char>| d.len() > 0 && r@ == path_join(d, "settings.json"@),
{
    let d = config_dir();
    join_path(&d, "settings.json")
}

/// Path to the opt-in conversation history file.
pub fn history_file() -> (r: String)
    ensures
        exists|d: Seq<char>| d.len() > 0 && r@ == path_join(d, "history.json"@),
{
    let d = config_dir();
    join_path(&d, "history.json")
}

/// Path to the tool-invocation audit log.
pub fn audit_file() -> (r: String)
    ensures
        exists|d: Seq<char>| d.len() > 0 && r@ == path_join(d, "lo-audit.log"@),
{
    let d = config_dir();
    join_path(&d, "lo-audit.log")
}

} // verus!
