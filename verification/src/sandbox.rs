//! Filesystem sandbox. Every path the model supplies is expanded (`~`),
//! absolutized, lexically normalized, real-path resolved, and verified to live
//! inside an allowed root before any I/O happens, so a mistaken or adversarial
//! path (including one tunnelling through a symlink) cannot escape.
use vstd::prelude::*;

use crate::chars::{chars_of, string_of, trim, trim_range};
use crate::paths::{
    components, extend_from, is_dot, is_name, join_path, lemma_names_of_plain, lemma_split_slash_concat,
    lemma_split_slash_no_sep, lemma_split_slash_plain, names_of, path_components, path_join, path_starts_with,
    split_slash, vviews,
};
use crate::settings::LoSettings;

verus! {

/// Don't stuff a giant file into the model context.
pub const MAX_READ_BYTES: u64 = 262144;
/// Most directory entries listed.
pub const MAX_LIST: usize = 200;
/// Most search matches reported.
pub const MAX_MATCHES: usize = 100;
/// Deepest directory level searched.
pub const MAX_SEARCH_DEPTH: usize = 6;

/// Why a path was refused.
#[derive(Debug, Clone)]
pub enum SandboxError {
    /// No path was given.
    Empty,
    /// The path resolves outside every allowed root (`roots` lists them).
    OutsideRoots { roots: String },
}

/// The process context a path is resolved against.
#[derive(Debug, Clone)]
pub struct PathEnv {
    /// The user's home directory (what `~` expands to).
    pub home: String,
    /// The current working directory (what relative paths are joined to).
    pub cwd: String,
}

/// The user-facing message of a sandbox error.
pub open spec fn sandbox_message(e: SandboxError) -> Seq<char> {
    match e {
        SandboxError::Empty => "No path was given."@,
        SandboxError::OutsideRoots { roots } => "That path is outside the allowed folders ("@ + roots@
            + "). Adjust them in Settings."@,
    }
}

impl SandboxError {
    /// The user-facing message.
    pub fn message(&self) -> (r: String)
        ensures
            r@ == sandbox_message(*self),
    {
        match self {
            SandboxError::Empty => String::from_str("No path was given."),
            SandboxError::OutsideRoots { roots } => {
                let mut s = String::from_str("That path is outside the allowed folders (");
                s.append(roots.as_str());
                s.append("). Adjust them in Settings.");
                s
            },
        }
    }
}

/* ------------------------------------------------------------------ */
/* lexical normalization                                              */
/* ------------------------------------------------------------------ */

/// The root component `/`.
pub open spec fn is_root(c: Seq<char>) -> bool {
    c.len() == 1 && c[0] == '/'
}

/// The parent component `..`.
pub open spec fn is_dotdot(c: Seq<char>) -> bool {
    c.len() == 2 && c[0] == '.' && c[1] == '.'
}

/// A component that names a directory entry.
pub open spec fn is_normal(c: Seq<char>) -> bool {
    !is_root(c) && !is_dotdot(c) && !is_dot(c)
}

/// One step of lexical normalization: `..` pops the last named component (never
/// above the root), `.` is dropped, anything else is kept.
pub open spec fn norm_step(out: Seq<Seq<char>>, c: Seq<char>) -> Seq<Seq<char>> {
    if is_dotdot(c) {
        if out.len() > 0 && is_normal(out.last()) {
            out.drop_last()
        } else if out.len() == 0 {
            out.push(c)
        } else {
            out
        }
    } else if is_dot(c) {
        out
    } else {
        out.push(c)
    }
}

/// Lexical normalization of a component list.
pub open spec fn norm_fold(cs: Seq<Seq<char>>) -> Seq<Seq<char>>
    decreases cs.len(),
{
    if cs.len() == 0 {
        seq![]
    } else {
        norm_step(norm_fold(cs.drop_last()), cs.last())
    }
}

/// Components joined by `/`.
pub open spec fn join_slash(parts: Seq<Seq<char>>) -> Seq<char>
    decreases parts.len(),
{
    if parts.len() == 0 {
        seq![]
    } else if parts.len() == 1 {
        parts[0]
    } else {
        join_slash(parts.drop_last()) + seq!['/'] + parts.last()
    }
}

/// The path built by pushing `out`'s components; `/` when there are none.
pub open spec fn render(out: Seq<Seq<char>>) -> Seq<char> {
    if out.len() == 0 {
        seq!['/']
    } else if is_root(out[0]) {
        seq!['/'] + join_slash(out.skip(1))
    } else {
        join_slash(out)
    }
}

/// `p` with `.` and `..` resolved lexically.
pub open spec fn lexical_normalize_spec(p: Seq<char>) -> Seq<char> {
    render(norm_fold(components(p)))
}

fn is_dotdot_vec(c: &Vec<char>) -> (r: bool)
    ensures
        r == is_dotdot(c@),
{
    c.len() == 2 && c[0] == '.' && c[1] == '.'
}

fn is_normal_vec(c: &Vec<char>) -> (r: bool)
    ensures
        r == is_normal(c@),
{
    !(c.len() == 1 && c[0] == '/') && !is_dotdot_vec(c) && !(c.len() == 1 && c[0] == '.')
}

/// The components joined by `/` (see [`join_slash`]), starting at `from`.
fn join_slash_vec(parts: &Vec<Vec<char>>, from: usize) -> (r: Vec<char>)
    requires
        from <= parts.len(),
    ensures
        r@ == join_slash(vviews(parts@).skip(from as int)),
{
    let ghost ps = vviews(parts@).skip(from as int);
    let mut out: Vec<char> = Vec::new();
    let mut i = from;
    assert(ps.take(0) == Seq::<Seq<char>>::empty());
    while i < parts.len()
        invariant
            from <= i <= parts.len(),
            ps == vviews(parts@).skip(from as int),
            out@ == join_slash(ps.take(i - from)),
        decreases parts.len() - i,
    {
        let ghost prev = ps.take(i - from);
        if i > from {
            out.push('/');
        }
        let p = &parts[i];
        extend_from(&mut out, p, 0, p.len());
        assert(p@.subrange(0, p@.len() as int) == p@);
        assert(ps.take(i + 1 - from).drop_last() == prev);
        assert(ps.take(i + 1 - from).last() == p@);
        i = i + 1;
    }
    assert(ps.take(parts.len() - from) == ps);
    out
}

/// `p` with `.` and `..` resolved lexically, so a `..`-laden path cannot
/// lexically escape before the real-path step.
pub fn lexical_normalize(p: &str) -> (r: String)
    ensures
        r@ == lexical_normalize_spec(p@),
{
    let pv = chars_of(p);
    let cs = path_components(&pv);
    let ghost csv = vviews(cs@);
    let mut out: Vec<Vec<char>> = Vec::new();
    let mut i: usize = 0;
    assert(csv.take(0) == Seq::<Seq<char>>::empty());
    while i < cs.len()
        invariant
            i <= cs.len(),
            csv == vviews(cs@),
            vviews(out@) == norm_fold(csv.take(i as int)),
        decreases cs.len() - i,
    {
        let c = &cs[i];
        let ghost before = vviews(out@);
        assert(csv.take(i + 1).drop_last() == csv.take(i as int));
        assert(csv.take(i + 1).last() == c@);
        if is_dotdot_vec(c) {
            if out.len() > 0 && is_normal_vec(&out[out.len() - 1]) {
                out.pop();
                assert(vviews(out@) == before.drop_last());
            } else if out.len() == 0 {
                out.push(c.clone());
                assert(vviews(out@) == before.push(c@));
            }
        } else if c.len() == 1 && c[0] == '.' {
        } else {
            out.push(c.clone());
            assert(vviews(out@) == before.push(c@));
        }
        i = i + 1;
    }
    assert(csv.take(cs.len() as int) == csv);
    let mut r: Vec<char> = Vec::new();
    if out.len() == 0 {
        r.push('/');
        assert(r@ == seq!['/']);
    } else if out[0].len() == 1 && out[0][0] == '/' {
        r.push('/');
        let tail = join_slash_vec(&out, 1);
        extend_from(&mut r, &tail, 0, tail.len());
        assert(tail@.subrange(0, tail@.len() as int) == tail@);
    } else {
        r = join_slash_vec(&out, 0);
        assert(vviews(out@).skip(0) == vviews(out@));
    }
    string_of(&r)
}

/* ------------------------------------------------------------------ */
/* expansion and resolution                                           */
/* ------------------------------------------------------------------ */

/// `p` with a leading `~` (alone, or followed by a separator) replaced by
/// `home`.
pub open spec fn expand_home_spec(p: Seq<char>, home: Seq<char>) -> Seq<char> {
    if p == seq!['~'] {
        home
    } else if p.len() >= 2 && p[0] == '~' && (p[1] == '/' || p[1] == '\\') {
        path_join(home, p.skip(2))
    } else {
        p
    }
}

/// Expand a leading `~` to the home directory.
pub fn expand_home(p: &str, home: &str) -> (r: String)
    ensures
        r@ == expand_home_spec(p@, home@),
{
    let pv = chars_of(p);
    if pv.len() == 1 && pv[0] == '~' {
        assert(p@ == seq!['~']);
        return String::from_str(home);
    }
    if pv.len() >= 2 && pv[0] == '~' && (pv[1] == '/' || pv[1] == '\\') {
        let rest = string_of_range(&pv, 2, pv.len());
        assert(pv@.subrange(2, pv@.len() as int) == pv@.skip(2));
        return join_path(home, rest.as_str());
    }
    assert(p@ != seq!['~']);
    String::from_str(p)
}

fn string_of_range(v: &Vec<char>, lo: usize, hi: usize) -> (r: String)
    requires
        lo <= hi <= v.len(),
    ensures
        r@ == v@.subrange(lo as int, hi as int),
{
    crate::chars::string_from(v, lo, hi)
}

/// `p` made absolute against `cwd`, then lexically normalized.
pub open spec fn absolutize_spec(p: Seq<char>, cwd: Seq<char>) -> Seq<char> {
    let abs = if p.len() > 0 && p[0] == '/' { p } else { path_join(cwd, p) };
    lexical_normalize_spec(abs)
}

/// Absolutize (join the current dir if relative) and lexically normalize.
pub fn absolutize(p: &str, cwd: &str) -> (r: String)
    ensures
        r@ == absolutize_spec(p@, cwd@),
{
    let pv = chars_of(p);
    if pv.len() > 0 && pv[0] == '/' {
        lexical_normalize(p)
    } else {
        let j = join_path(cwd, p);
        lexical_normalize(j.as_str())
    }
}

/// The configured roots: the home directory when none are configured.
pub open spec fn configured_roots(settings: LoSettings, home: Seq<char>) -> Seq<Seq<char>> {
    if settings.allowed_fs_roots@.len() == 0 {
        seq![home]
    } else {
        settings.allowed_fs_roots@.map_values(|r: String| r@)
    }
}

/// The directories the filesystem tools may touch, expanded and absolutized.
pub open spec fn allowed_roots_spec(settings: LoSettings, env: PathEnv) -> Seq<Seq<char>> {
    configured_roots(settings, env.home@).map_values(
        |r: Seq<char>| absolutize_spec(expand_home_spec(r, env.home@), env.cwd@),
    )
}

/// The views of a vector of strings.
pub open spec fn strings(v: Seq<String>) -> Seq<Seq<char>> {
    v.map_values(|s: String| s@)
}

/// The directories the filesystem tools may touch. No configured root means the
/// home directory.
pub fn allowed_roots(settings: &LoSettings, env: &PathEnv) -> (r: Vec<String>)
    ensures
        strings(r@) == allowed_roots_spec(*settings, *env),
        r@.len() >= 1,
{
    let mut list: Vec<String> = Vec::new();
    if settings.allowed_fs_roots.len() == 0 {
        list.push(env.home.clone());
        assert(strings(list@) == seq![env.home@]);
    } else {
        list = settings.allowed_fs_roots.clone();
        assert(strings(list@) == settings.allowed_fs_roots@.map_values(|r: String| r@));
    }
    let ghost conf = configured_roots(*settings, env.home@);
    assert(strings(list@) == conf);
    let mut out: Vec<String> = Vec::new();
    let mut i: usize = 0;
    while i < list.len()
        invariant
            strings(list@) == conf,
            i <= list.len(),
            strings(out@) == conf.take(i as int).map_values(
                |r: Seq<char>| absolutize_spec(expand_home_spec(r, env.home@), env.cwd@),
            ),
        decreases list.len() - i,
    {
        let e = expand_home(list[i].as_str(), env.home.as_str());
        let a = absolutize(e.as_str(), env.cwd.as_str());
        let ghost prev = strings(out@);
        out.push(a);
        assert(conf[i as int] == list@[i as int]@);
        assert(strings(out@) == prev.push(a@));
        assert(conf.take(i + 1) == conf.take(i as int).push(conf[i as int]));
        i = i + 1;
    }
    assert(conf.take(list.len() as int) == conf);
    out
}

/// Elementwise equality of the first `n` components.
fn components_prefix(path: &Vec<Vec<char>>, base: &Vec<Vec<char>>) -> (r: bool)
    ensures
        r == (vviews(base@).len() <= vviews(path@).len() && vviews(path@).subrange(0, vviews(base@).len() as int)
            == vviews(base@)),
{
    if base.len() > path.len() {
        return false;
    }
    let mut i: usize = 0;
    while i < base.len()
        invariant
            base.len() <= path.len(),
            i <= base.len(),
            forall|k: int| 0 <= k < i ==> path@[k]@ == base@[k]@,
        decreases base.len() - i,
    {
        if !crate::chars::chars_eq(&path[i], &base[i]) {
            assert(vviews(path@).subrange(0, base.len() as int)[i as int] == path@[i as int]@);
            return false;
        }
        i = i + 1;
    }
    assert(vviews(path@).subrange(0, vviews(base@).len() as int) =~= vviews(base@));
    true
}

/// `path` lies inside `base` (component-wise `Path::starts_with`).
pub fn starts_with(path: &str, base: &str) -> (r: bool)
    ensures
        r == path_starts_with(path@, base@),
{
    let pc = path_components(&chars_of(path));
    let bc = path_components(&chars_of(base));
    components_prefix(&pc, &bc)
}

/// The roots joined by `", "` (for the refusal message).
pub open spec fn roots_listing(roots: Seq<Seq<char>>) -> Seq<char>
    decreases roots.len(),
{
    if roots.len() == 0 {
        seq![]
    } else if roots.len() == 1 {
        roots[0]
    } else {
        roots_listing(roots.drop_last()) + ", "@ + roots.last()
    }
}

/// What the sandbox decides for a resolved path `resolved` against the resolved
/// roots: the path itself when some root contains it, else the refusal.
pub open spec fn in_roots_spec(resolved: Seq<char>, roots: Seq<Seq<char>>) -> Result<Seq<char>, Seq<char>> {
    if exists|i: int| 0 <= i < roots.len() && path_starts_with(resolved, #[trigger] roots[i]) {
        Ok(resolved)
    } else {
        Err(roots_listing(roots))
    }
}

/// Decide a resolved path against the resolved roots.
pub fn check_in_roots(resolved: String, roots: &Vec<String>) -> (r: Result<String, SandboxError>)
    ensures
        match r {
            Ok(p) => in_roots_spec(resolved@, strings(roots@)) == Ok::<Seq<char>, Seq<char>>(p@),
            Err(SandboxError::OutsideRoots { roots: listing }) => in_roots_spec(resolved@, strings(roots@)) == Err::<
                Seq<char>,
                Seq<char>,
            >(listing@),
            Err(SandboxError::Empty) => false,
        },
{
    let ghost rs = strings(roots@);
    let mut i: usize = 0;
    while i < roots.len()
        invariant
            rs == strings(roots@),
            i <= roots.len(),
            forall|k: int| 0 <= k < i ==> !path_starts_with(resolved@, #[trigger] rs[k]),
        decreases roots.len() - i,
    {
        if starts_with(resolved.as_str(), roots[i].as_str()) {
            assert(path_starts_with(resolved@, rs[i as int]));
            return Ok(resolved);
        }
        i = i + 1;
    }
    let mut listing = String::new();
    let mut k: usize = 0;
    while k < roots.len()
        invariant
            rs == strings(roots@),
            k <= roots.len(),
            listing@ == roots_listing(rs.take(k as int)),
        decreases roots.len() - k,
    {
        if k > 0 {
            listing.append(", ");
        }
        listing.append(roots[k].as_str());
        assert(rs.take(k + 1).drop_last() == rs.take(k as int));
        k = k + 1;
    }
    assert(rs.take(roots.len() as int) == rs);
    Err(SandboxError::OutsideRoots { roots: listing })
}

/// A NUL byte in the first 4 KB means the buffer is binary (don't read as text).
pub fn looks_binary(buf: &[u8]) -> (r: bool)
    ensures
        r == exists|i: int| 0 <= i < buf@.len() && i < 4096 && buf@[i] == 0,
{
    let mut i: usize = 0;
    while i < buf.len() && i < 4096
        invariant
            i <= buf@.len(),
            i <= 4096,
            forall|k: int| 0 <= k < i ==> buf@[k] != 0,
        decreases buf@.len() - i,
    {
        if buf[i] == 0 {
            return true;
        }
        i = i + 1;
    }
    false
}

/// The path a user-supplied (trimmed) input names before symlinks are
/// resolved: `~` expanded, made absolute, lexically normalized.
pub open spec fn candidate_spec(input: Seq<char>, env: PathEnv) -> Seq<char> {
    absolutize_spec(expand_home_spec(trim(input), env.home@), env.cwd@)
}

/// One call of `realpath` on a path viewed as `a` returned a path viewed as `r`.
pub open spec fn realpath_gives<F: Fn(&str) -> String>(realpath: F, a: Seq<char>, r: Seq<char>) -> bool {
    exists|x: &str, y: String| x@ == a && y@ == r && call_ensures(realpath, (x,), y)
}

/// What resolving the user-supplied `input` may give, `realpath` being the
/// resolver: refused as empty exactly when `input` is blank; otherwise the
/// resolved candidate when a resolved root contains it, or the refusal listing
/// the resolved roots when none does.
pub open spec fn resolve_outcome<F: Fn(&str) -> String>(
    settings: LoSettings,
    input: Seq<char>,
    env: PathEnv,
    realpath: F,
    r: Result<String, SandboxError>,
) -> bool {
    &&& (r matches Err(SandboxError::Empty)) <==> trim(input).len() == 0
    &&& r matches Ok(p) ==> {
        &&& realpath_gives(realpath, candidate_spec(input, env), p@)
        &&& exists|i: int, q: Seq<char>|
            0 <= i < allowed_roots_spec(settings, env).len() && #[trigger] realpath_gives(
                realpath,
                allowed_roots_spec(settings, env)[i],
                q,
            ) && path_starts_with(p@, q)
    }
    &&& r matches Err(SandboxError::OutsideRoots { roots: listing }) ==> exists|res: Seq<char>, qs: Seq<Seq<char>>|
        {
            &&& realpath_gives(realpath, candidate_spec(input, env), res)
            &&& qs.len() == allowed_roots_spec(settings, env).len()
            &&& forall|i: int|
                0 <= i < qs.len() ==> realpath_gives(realpath, allowed_roots_spec(settings, env)[i], #[trigger] qs[i])
                    && !path_starts_with(res, qs[i])
            &&& listing@ == roots_listing(qs)
        }
}

/// Resolve a user-supplied path to an absolute, real path inside an allowed
/// root, or refuse it. `realpath` resolves symlinks (the longest existing
/// prefix, re-appending the not-yet-created tail); it is applied to the
/// candidate path and to every allowed root.
pub fn resolve_in_roots<F: Fn(&str) -> String>(settings: &LoSettings, input: &str, env: &PathEnv, realpath: &F) -> (r: Result<String, SandboxError>)
    requires
        forall|x: &str| realpath.requires((x,)),
    ensures
        resolve_outcome(*settings, input@, *env, *realpath, r),
{
    let iv = chars_of(input);
    let (a, b) = trim_range(&iv, 0, iv.len());
    assert(iv@.subrange(0, iv@.len() as int) == iv@);
    if a == b {
        return Err(SandboxError::Empty);
    }
    let p = string_of_range(&iv, a, b);
    let expanded = expand_home(p.as_str(), env.home.as_str());
    let abs = absolutize(expanded.as_str(), env.cwd.as_str());
    let abs_str = abs.as_str();
    let resolved = realpath(abs_str);
    assert(realpath_gives(*realpath, candidate_spec(input@, *env), resolved@));
    let roots = allowed_roots(settings, env);
    let ghost rs = allowed_roots_spec(*settings, *env);
    let mut rr: Vec<String> = Vec::new();
    let mut i: usize = 0;
    while i < roots.len()
        invariant
            forall|x: &str| realpath.requires((x,)),
            strings(roots@) == rs,
            i <= roots.len(),
            rr@.len() == i,
            forall|k: int| 0 <= k < i ==> realpath_gives(*realpath, rs[k], #[trigger] strings(rr@)[k]),
        decreases roots.len() - i,
    {
        let root_str = roots[i].as_str();
        let q = realpath(root_str);
        let ghost prev = strings(rr@);
        rr.push(q);
        assert(strings(rr@) == prev.push(q@));
        assert(rs[i as int] == roots@[i as int]@);
        assert(realpath_gives(*realpath, rs[i as int], q@));
        i = i + 1;
    }
    let ghost res = resolved@;
    let r = check_in_roots(resolved, &rr);
    proof {
        let qs = strings(rr@);
        match &r {
            Ok(pp) => {
                let k = choose|k: int| 0 <= k < qs.len() && path_starts_with(res, #[trigger] qs[k]);
                assert(realpath_gives(*realpath, rs[k], qs[k]));
            },
            Err(SandboxError::OutsideRoots { roots: listing }) => {
                assert forall|k: int| 0 <= k < qs.len() implies realpath_gives(*realpath, rs[k], #[trigger] qs[k])
                    && !path_starts_with(res, qs[k]) by {
                    if path_starts_with(res, qs[k]) {
                        assert(exists|i: int| 0 <= i < qs.len() && path_starts_with(res, #[trigger] qs[i]));
                    }
                }
            },
            Err(SandboxError::Empty) => {},
        }
    }
    r
}

/// A normalized absolute component list: the root, then named components that
/// hold no `/`.
pub open spec fn rooted_normal(out: Seq<Seq<char>>) -> bool {
    &&& out.len() >= 1
    &&& is_root(out[0])
    &&& forall|i: int| 1 <= i < out.len() ==> is_normal(#[trigger] out[i]) && !out[i].contains('/')
}

proof fn lemma_join_slash_split(parts: Seq<Seq<char>>)
    requires
        parts.len() >= 1,
        forall|i: int| 0 <= i < parts.len() ==> !(#[trigger] parts[i]).contains('/'),
    ensures
        split_slash(join_slash(parts)) == parts,
    decreases parts.len(),
{
    if parts.len() == 1 {
        assert(!parts[0].contains('/'));
        lemma_split_slash_plain(parts[0]);
        assert(parts =~= seq![parts[0]]);
    } else {
        let q = parts.drop_last();
        assert forall|i: int| 0 <= i < q.len() implies !(#[trigger] q[i]).contains('/') by {
            assert(q[i] == parts[i]);
        }
        lemma_join_slash_split(q);
        lemma_split_slash_concat(join_slash(q), parts.last());
        assert(!parts[parts.len() - 1].contains('/'));
        lemma_split_slash_plain(parts.last());
        assert(q + seq![parts.last()] =~= parts);
    }
}

proof fn lemma_norm_fold_rooted(cs: Seq<Seq<char>>)
    requires
        cs.len() >= 1,
        is_root(cs[0]),
        forall|i: int| 1 <= i < cs.len() ==> is_name(#[trigger] cs[i]) && !cs[i].contains('/'),
    ensures
        rooted_normal(norm_fold(cs)),
    decreases cs.len(),
{
    if cs.len() == 1 {
        assert(cs.drop_last().len() == 0);
        assert(norm_fold(cs.drop_last()) == Seq::<Seq<char>>::empty());
        assert(cs.last() == cs[0]);
        assert(!is_dotdot(cs[0]) && !is_dot(cs[0]));
    } else {
        let q = cs.drop_last();
        assert forall|i: int| 1 <= i < q.len() implies is_name(#[trigger] q[i]) && !q[i].contains('/') by {
            assert(q[i] == cs[i]);
        }
        lemma_norm_fold_rooted(q);
        let out = norm_fold(q);
        let c = cs.last();
        assert(is_name(cs[cs.len() - 1]) && !cs[cs.len() - 1].contains('/'));
        let r = norm_fold(cs);
        if is_dotdot(c) {
        } else {
            assert(c.len() == 1 ==> c[0] != '/');
            assert(r == out.push(c));
            assert forall|i: int| 1 <= i < r.len() implies is_normal(#[trigger] r[i]) && !r[i].contains('/') by {
                if i < out.len() {
                    assert(r[i] == out[i]);
                }
            }
        }
    }
}

proof fn lemma_render_rooted(out: Seq<Seq<char>>)
    requires
        rooted_normal(out),
    ensures
        render(out).len() > 0,
        render(out)[0] == '/',
        forall|i: int| 0 <= i < split_slash(render(out)).len()
            ==> !is_dot(#[trigger] split_slash(render(out))[i]) && !is_dotdot(split_slash(render(out))[i]),
{
    let ns = out.skip(1);
    let r = render(out);
    assert(r == seq!['/'] + join_slash(ns));
    if ns.len() == 0 {
        assert(r =~= Seq::<char>::empty() + seq!['/'] + Seq::<char>::empty());
        lemma_split_slash_concat(Seq::<char>::empty(), Seq::<char>::empty());
        assert(split_slash(r) =~= seq![Seq::<char>::empty(), Seq::<char>::empty()]);
    } else {
        assert forall|i: int| 0 <= i < ns.len() implies !(#[trigger] ns[i]).contains('/') by {
            assert(ns[i] == out[i + 1]);
        }
        lemma_join_slash_split(ns);
        assert(r =~= Seq::<char>::empty() + seq!['/'] + join_slash(ns));
        lemma_split_slash_concat(Seq::<char>::empty(), join_slash(ns));
        let sp = split_slash(r);
        assert(sp =~= seq![Seq::<char>::empty()] + ns);
        assert forall|i: int| 0 <= i < sp.len() implies !is_dot(#[trigger] sp[i]) && !is_dotdot(sp[i]) by {
            if i > 0 {
                assert(sp[i] == out[i]);
            }
        }
    }
}

/// An absolute path, lexically normalized, stays absolute and has no `.` or
/// `..` segment.
pub proof fn lemma_normalize_absolute(p: Seq<char>)
    requires
        p.len() > 0,
        p[0] == '/',
    ensures
        lexical_normalize_spec(p).len() > 0,
        lexical_normalize_spec(p)[0] == '/',
        forall|i: int| 0 <= i < split_slash(lexical_normalize_spec(p)).len()
            ==> !is_dot(#[trigger] split_slash(lexical_normalize_spec(p))[i])
                && !is_dotdot(split_slash(lexical_normalize_spec(p))[i]),
{
    let parts = split_slash(p);
    lemma_split_slash_no_sep(p);
    lemma_names_of_plain(parts);
    let cs = components(p);
    let ns = names_of(parts);
    assert(cs == seq![seq!['/']] + ns);
    assert forall|i: int| 1 <= i < cs.len() implies is_name(#[trigger] cs[i]) && !cs[i].contains('/') by {
        assert(cs[i] == ns[i - 1]);
    }
    lemma_norm_fold_rooted(cs);
    lemma_render_rooted(norm_fold(cs));
}

/// With an absolute working directory, every allowed root is an absolute path
/// with no `.` or `..` segment.
pub proof fn lemma_allowed_roots_normalized(settings: LoSettings, env: PathEnv)
    requires
        env.cwd@.len() > 0,
        env.cwd@[0] == '/',
    ensures
        forall|i: int| 0 <= i < allowed_roots_spec(settings, env).len() ==> {
            let r = #[trigger] allowed_roots_spec(settings, env)[i];
            &&& r.len() > 0
            &&& r[0] == '/'
            &&& forall|k: int| 0 <= k < split_slash(r).len() ==> !is_dot(#[trigger] split_slash(r)[k]) && !is_dotdot(split_slash(r)[k])
        },
{
    let conf = configured_roots(settings, env.home@);
    assert forall|i: int| 0 <= i < allowed_roots_spec(settings, env).len() implies {
        let r = #[trigger] allowed_roots_spec(settings, env)[i];
        &&& r.len() > 0
        &&& r[0] == '/'
        &&& forall|k: int| 0 <= k < split_slash(r).len() ==> !is_dot(#[trigger] split_slash(r)[k]) && !is_dotdot(split_slash(r)[k])
    } by {
        let e = expand_home_spec(conf[i], env.home@);
        let abs = if e.len() > 0 && e[0] == '/' { e } else { path_join(env.cwd@, e) };
        if !(e.len() > 0 && e[0] == '/') {
            if e.len() > 0 && e[0] == '/' {
            } else if env.cwd@.last() != '/' {
                assert(abs == env.cwd@ + seq!['/'] + e);
                assert(abs[0] == env.cwd@[0]);
            } else {
                assert(abs == env.cwd@ + e);
                assert(abs[0] == env.cwd@[0]);
            }
        }
        lemma_normalize_absolute(abs);
    }
}

/// `realpath` gives equal results for equal paths.
pub open spec fn deterministic<F: Fn(&str) -> String>(realpath: F) -> bool {
    forall|x1: &str, x2: &str, y1: String, y2: String|
        x1@ == x2@ && #[trigger] call_ensures(realpath, (x1,), y1) && #[trigger] call_ensures(realpath, (x2,), y2)
            ==> y1@ == y2@
}

proof fn lemma_realpath_unique<F: Fn(&str) -> String>(realpath: F, a: Seq<char>, r1: Seq<char>, r2: Seq<char>)
    requires
        deterministic(realpath),
        realpath_gives(realpath, a, r1),
        realpath_gives(realpath, a, r2),
    ensures
        r1 == r2,
{
    let (x1, y1) = choose|x: &str, y: String| x@ == a && y@ == r1 && call_ensures(realpath, (x,), y);
    let (x2, y2) = choose|x: &str, y: String| x@ == a && y@ == r2 && call_ensures(realpath, (x,), y);
    assert(call_ensures(realpath, (x1,), y1) && call_ensures(realpath, (x2,), y2));
}

/// With a resolver that gives equal results for equal paths, the sandbox's
/// answer for a non-blank input is decided by the resolved candidate `resolved` and
/// the resolved roots `qs`: it accepts, with `resolved` itself, exactly when some
/// resolved root contains `resolved`, and otherwise refuses listing the resolved
/// roots.
pub proof fn lemma_resolution_decided_by_roots<F: Fn(&str) -> String>(
    settings: LoSettings,
    input: Seq<char>,
    env: PathEnv,
    realpath: F,
    r: Result<String, SandboxError>,
    resolved: Seq<char>,
    qs: Seq<Seq<char>>,
)
    requires
        deterministic(realpath),
        resolve_outcome(settings, input, env, realpath, r),
        trim(input).len() > 0,
        realpath_gives(realpath, candidate_spec(input, env), resolved),
        qs.len() == allowed_roots_spec(settings, env).len(),
        forall|i: int| 0 <= i < qs.len() ==> #[trigger] realpath_gives(realpath, allowed_roots_spec(settings, env)[i], qs[i]),
    ensures
        (r is Ok) <==> exists|i: int| 0 <= i < qs.len() && path_starts_with(resolved, #[trigger] qs[i]),
        r matches Ok(p) ==> p@ == resolved,
        r matches Err(SandboxError::OutsideRoots { roots: listing }) ==> listing@ == roots_listing(qs),
{
    let rs = allowed_roots_spec(settings, env);
    match r {
        Ok(p) => {
            lemma_realpath_unique(realpath, candidate_spec(input, env), p@, resolved);
            let (i, q) = choose|i: int, q: Seq<char>|
                0 <= i < rs.len() && #[trigger] realpath_gives(realpath, rs[i], q) && path_starts_with(p@, q);
            assert(realpath_gives(realpath, rs[i], qs[i]));
            lemma_realpath_unique(realpath, rs[i], q, qs[i]);
            assert(path_starts_with(resolved, qs[i]));
        },
        Err(SandboxError::OutsideRoots { roots: listing }) => {
            let (res, qs2) = choose|res: Seq<char>, qs2: Seq<Seq<char>>|
                {
                    &&& realpath_gives(realpath, candidate_spec(input, env), res)
                    &&& qs2.len() == rs.len()
                    &&& forall|i: int|
                        0 <= i < qs2.len() ==> realpath_gives(realpath, rs[i], #[trigger] qs2[i]) && !path_starts_with(
                            res,
                            qs2[i],
                        )
                    &&& listing@ == roots_listing(qs2)
                };
            lemma_realpath_unique(realpath, candidate_spec(input, env), res, resolved);
            assert forall|i: int| 0 <= i < qs.len() implies qs2[i] == qs[i] by {
                assert(realpath_gives(realpath, rs[i], qs2[i]));
                assert(realpath_gives(realpath, rs[i], qs[i]));
                lemma_realpath_unique(realpath, rs[i], qs2[i], qs[i]);
            }
            assert(qs2 =~= qs);
            assert forall|i: int| 0 <= i < qs.len() implies !path_starts_with(resolved, #[trigger] qs[i]) by {
                assert(realpath_gives(realpath, rs[i], qs2[i]) && !path_starts_with(res, qs2[i]));
            }
        },
        Err(SandboxError::Empty) => {},
    }
}

/// With a resolver that gives equal results for equal paths, any two
/// resolutions of the same input agree: both accept the same path, or both
/// refuse with the same listing (or both find the input blank).
pub proof fn lemma_resolutions_agree<F: Fn(&str) -> String>(
    settings: LoSettings,
    input: Seq<char>,
    env: PathEnv,
    realpath: F,
    r1: Result<String, SandboxError>,
    r2: Result<String, SandboxError>,
)
    requires
        deterministic(realpath),
        resolve_outcome(settings, input, env, realpath, r1),
        resolve_outcome(settings, input, env, realpath, r2),
    ensures
        (r1 is Ok) <==> (r2 is Ok),
        (r1 matches Err(SandboxError::Empty)) <==> (r2 matches Err(SandboxError::Empty)),
        r1 matches Ok(p1) ==> (r2 matches Ok(p2) && p1@ == p2@),
        r1 matches Err(SandboxError::OutsideRoots { roots: l1 }) ==> (r2 matches Err(
            SandboxError::OutsideRoots { roots: l2 },
        ) && l1@ == l2@),
{
    if trim(input).len() > 0 {
        if let Err(SandboxError::OutsideRoots { roots: _ }) = r1 {
            let (res, qs) = refusal_witness(settings, input, env, realpath, r1);
            lemma_resolution_decided_by_roots(settings, input, env, realpath, r1, res, qs);
            lemma_resolution_decided_by_roots(settings, input, env, realpath, r2, res, qs);
        } else if let Err(SandboxError::OutsideRoots { roots: _ }) = r2 {
            let (res, qs) = refusal_witness(settings, input, env, realpath, r2);
            lemma_resolution_decided_by_roots(settings, input, env, realpath, r1, res, qs);
            lemma_resolution_decided_by_roots(settings, input, env, realpath, r2, res, qs);
        } else if let (Ok(p1), Ok(p2)) = (r1, r2) {
            lemma_realpath_unique(realpath, candidate_spec(input, env), p1@, p2@);
        }
    }
}

/// The resolved candidate and resolved roots behind a refusal.
proof fn refusal_witness<F: Fn(&str) -> String>(
    settings: LoSettings,
    input: Seq<char>,
    env: PathEnv,
    realpath: F,
    r: Result<String, SandboxError>,
) -> (w: (Seq<char>, Seq<Seq<char>>))
    requires
        resolve_outcome(settings, input, env, realpath, r),
        r is Err,
        !(r matches Err(SandboxError::Empty)),
    ensures
        realpath_gives(realpath, candidate_spec(input, env), w.0),
        w.1.len() == allowed_roots_spec(settings, env).len(),
        forall|i: int| 0 <= i < w.1.len() ==> #[trigger] realpath_gives(realpath, allowed_roots_spec(settings, env)[i], w.1[i]),
{
    let rs = allowed_roots_spec(settings, env);
    choose|res: Seq<char>, qs: Seq<Seq<char>>|
        {
            &&& realpath_gives(realpath, candidate_spec(input, env), res)
            &&& qs.len() == rs.len()
            &&& forall|i: int|
                0 <= i < qs.len() ==> realpath_gives(realpath, rs[i], #[trigger] qs[i]) && !path_starts_with(
                    res,
                    qs[i],
                )
            &&& r->Err_0->OutsideRoots_roots@ == roots_listing(qs)
        }
}

} // verus!
