//! The SSRF guard's classification: which IP literals and host names a page
//! fetch must never reach (private, loopback, link-local, unique-local, CGNAT,
//! multicast, unspecified; `localhost`; `*.local`). DNS resolution and the
//! re-validation of every redirect hop are the caller's.
use vstd::prelude::*;

use crate::backends::{all_digits, digits_value};
use crate::chars::{chars_of, ends_with, ends_with_str, lowercase, starts_with, str_eq, string_from, to_lowercase};

verus! {

/// `s` split at every `c` (always at least one, possibly empty, part).
pub open spec fn split_on(s: Seq<char>, c: char) -> Seq<Seq<char>>
    decreases s.len(),
{
    if s.len() == 0 {
        seq![seq![]]
    } else {
        let p = split_on(s.drop_last(), c);
        if s.last() == c {
            p.push(seq![])
        } else {
            p.update(p.len() - 1, p.last().push(s.last()))
        }
    }
}

proof fn lemma_split_on_len(s: Seq<char>, c: char)
    ensures
        split_on(s, c).len() >= 1,
    decreases s.len(),
{
    if s.len() > 0 {
        lemma_split_on_len(s.drop_last(), c);
    }
}

/// The first two octets of a dotted quad: exactly four non-empty all-digit
/// parts, the first two of which parse as `u32` (a value above 255 is kept, cut
/// to 16 bits, since only ranges are tested).
pub open spec fn v4_first_two(s: Seq<char>) -> Option<(u16, u16)> {
    let parts = split_on(s, '.');
    if parts.len() == 4 && (forall|i: int| 0 <= i < 4 ==> (#[trigger] parts[i]).len() > 0 && all_digits(parts[i]))
        && digits_value(parts[0]) <= 4294967295 && digits_value(parts[1]) <= 4294967295 {
        Some(((digits_value(parts[0]) % 65536) as u16, (digits_value(parts[1]) % 65536) as u16))
    } else {
        None
    }
}

/// A private IPv4 address by its first two octets.
pub open spec fn private_v4(a: u16, b: u16) -> bool {
    a == 10 || a == 127 || a == 0 || (a == 169 && b == 254) || (a == 172 && 16 <= b <= 31) || (a == 192 && b == 168)
        || (a == 100 && 64 <= b <= 127) || a >= 224
}

/// The code of `c`, lowered when it is an ASCII capital.
pub open spec fn ascii_fold(c: char) -> int {
    if 'A' <= c <= 'Z' {
        (c as int) + 32
    } else {
        c as int
    }
}

/// `s` starts with `pre`, ignoring ASCII case.
pub open spec fn starts_with_ci(s: Seq<char>, pre: Seq<char>) -> bool {
    pre.len() <= s.len() && forall|i: int| 0 <= i < pre.len() ==> ascii_fold(#[trigger] s[i]) == ascii_fold(pre[i])
}

/// The IPv4 part of an address: an IPv4-mapped IPv6 prefix (`::ffff:`, in any
/// case) is dropped.
pub open spec fn v4_part(ip: Seq<char>) -> Seq<char> {
    if starts_with_ci(ip, "::ffff:"@) {
        ip.skip(7)
    } else {
        ip
    }
}

/// An address that must never be fetched: a private IPv4 address (also when
/// IPv4-mapped), or the IPv6 loopback / unspecified / link-local / unique-local
/// / multicast ranges (matched on the lowercase form).
pub open spec fn is_private_spec(ip: Seq<char>) -> bool {
    match v4_first_two(v4_part(ip)) {
        Some(ab) => private_v4(ab.0, ab.1),
        None => {
            let lc = lowercase(ip);
            lc == "::1"@ || lc == "::"@ || starts_with(lc, "fe80"@) || starts_with(lc, "fc"@) || starts_with(lc, "fd"@)
                || starts_with(lc, "ff"@)
        },
    }
}

fn fold(c: char) -> (r: u32)
    ensures
        r == ascii_fold(c),
{
    if 'A' <= c && c <= 'Z' {
        (c as u32) + 32
    } else {
        c as u32
    }
}

/// Drop an IPv4-mapped prefix.
fn v4_of(ip: &str) -> (r: String)
    ensures
        r@ == v4_part(ip@),
{
    proof {
        reveal_strlit("::ffff:");
    }
    let v = chars_of(ip);
    let pre = chars_of("::ffff:");
    if v.len() < pre.len() {
        return String::from_str(ip);
    }
    let mut i: usize = 0;
    while i < pre.len()
        invariant
            i <= pre@.len(),
            pre@ == "::ffff:"@,
            v@ == ip@,
            pre@.len() <= v@.len(),
            forall|j: int| 0 <= j < i ==> ascii_fold(#[trigger] v@[j]) == ascii_fold(pre@[j]),
        decreases pre@.len() - i,
    {
        if fold(v[i]) != fold(pre[i]) {
            assert(!starts_with_ci(ip@, "::ffff:"@));
            return String::from_str(ip);
        }
        i = i + 1;
    }
    let r = string_from(&v, 7, v.len());
    assert(v@.subrange(7, v@.len() as int) == ip@.skip(7));
    r
}

/// Split `v` at every `c`.
fn split_chars(v: &Vec<char>, c: char) -> (r: Vec<Vec<char>>)
    ensures
        r@.map_values(|x: Vec<char>| x@) == split_on(v@, c),
{
    let mut parts: Vec<Vec<char>> = Vec::new();
    let mut cur: Vec<char> = Vec::new();
    let mut i: usize = 0;
    assert(v@.take(0) == Seq::<char>::empty());
    while i < v.len()
        invariant
            i <= v@.len(),
            split_on(v@.take(i as int), c) == parts@.map_values(|x: Vec<char>| x@).push(cur@),
        decreases v@.len() - i,
    {
        let x = v[i];
        assert(v@.take(i + 1).drop_last() == v@.take(i as int));
        let ghost done = parts@.map_values(|x: Vec<char>| x@);
        if x == c {
            parts.push(cur);
            cur = Vec::new();
            assert(parts@.map_values(|x: Vec<char>| x@) == done.push(split_on(v@.take(i as int), c).last()));
        } else {
            let ghost old_cur = cur@;
            cur.push(x);
            assert(done.push(old_cur).update(done.len() as int, old_cur.push(x)) == done.push(cur@));
        }
        i = i + 1;
    }
    assert(v@.take(v@.len() as int) == v@);
    let ghost done = parts@.map_values(|x: Vec<char>| x@);
    parts.push(cur);
    assert(parts@.map_values(|x: Vec<char>| x@) == done.push(split_on(v@, c).last()));
    parts
}

/// `all_digits` on a character vector.
fn digits_only(v: &Vec<char>) -> (r: bool)
    ensures
        r == all_digits(v@),
{
    let mut i: usize = 0;
    while i < v.len()
        invariant
            i <= v@.len(),
            forall|j: int| 0 <= j < i ==> '0' <= #[trigger] v@[j] && v@[j] <= '9',
        decreases v@.len() - i,
    {
        if !('0' <= v[i] && v[i] <= '9') {
            return false;
        }
        i = i + 1;
    }
    true
}

/// Parse the digits `v` as a `u32`, when they fit.
fn digits_u32(v: &Vec<char>) -> (r: Option<u32>)
    requires
        all_digits(v@),
    ensures
        match r {
            Some(n) => n == digits_value(v@),
            None => digits_value(v@) > 4294967295,
        },
{
    let mut acc: u64 = 0;
    let mut i: usize = 0;
    while i < v.len()
        invariant
            i <= v@.len(),
            all_digits(v@),
            acc as int == digits_value(v@.take(i as int)),
            acc <= 4294967295,
        decreases v@.len() - i,
    {
        assert(v@.take(i + 1).drop_last() == v@.take(i as int));
        let d = (v[i] as u64) - 48;
        assert(crate::backends::digit_value(v@[i as int]) == d);
        if acc * 10 + d > 4294967295 {
            proof {
                lemma_prefix_bound(v@, i + 1);
            }
            return None;
        }
        acc = acc * 10 + d;
        i = i + 1;
    }
    assert(v@.take(v@.len() as int) == v@);
    Some(acc as u32)
}

/// Once a prefix of digits is past the bound, the whole is too.
proof fn lemma_prefix_bound(d: Seq<char>, n: int)
    requires
        0 < n <= d.len(),
        all_digits(d),
        digits_value(d.take(n)) > 4294967295,
    ensures
        digits_value(d) > 4294967295,
    decreases d.len() - n,
{
    if n < d.len() {
        assert(d.take(n + 1).drop_last() == d.take(n));
        assert(all_digits(d.take(n)));
        crate::backends::lemma_digits_value_nonneg(d.take(n));
        lemma_prefix_bound(d, n + 1);
    } else {
        assert(d.take(n) == d);
    }
}

/// The first two octets of a dotted quad (see [`v4_first_two`]).
pub fn parse_v4_first_two(s: &str) -> (r: Option<(u16, u16)>)
    ensures
        r == v4_first_two(s@),
{
    let v = chars_of(s);
    let parts = split_chars(&v, '.');
    let ghost pv = parts@.map_values(|x: Vec<char>| x@);
    if parts.len() != 4 {
        return None;
    }
    let mut i: usize = 0;
    while i < 4
        invariant
            parts@.len() == 4,
            pv == parts@.map_values(|x: Vec<char>| x@),
            pv == split_on(s@, '.'),
            i <= 4,
            forall|j: int| 0 <= j < i ==> (#[trigger] pv[j]).len() > 0 && all_digits(pv[j]),
        decreases 4 - i,
    {
        if parts[i].len() == 0 || !digits_only(&parts[i]) {
            assert(!(pv[i as int].len() > 0 && all_digits(pv[i as int])));
            return None;
        }
        i = i + 1;
    }
    assert(pv[0] == parts@[0]@);
    assert(pv[1] == parts@[1]@);
    let a = match digits_u32(&parts[0]) {
        Some(n) => n,
        None => return None,
    };
    let b = match digits_u32(&parts[1]) {
        Some(n) => n,
        None => return None,
    };
    Some(((a % 65536) as u16, (b % 65536) as u16))
}

/// True if `ip` is an address that must never be fetched.
pub fn is_private_ip(ip: &str) -> (r: bool)
    ensures
        r == is_private_spec(ip@),
{
    let v4 = v4_of(ip);
    match parse_v4_first_two(v4.as_str()) {
        Some((a, b)) => {
            a == 10 || a == 127 || a == 0 || (a == 169 && b == 254) || (a == 172 && 16 <= b && b <= 31) || (a == 192
                && b == 168) || (a == 100 && 64 <= b && b <= 127) || a >= 224
        },
        None => {
            let lc = to_lowercase(ip);
            let l = lc.as_str();
            str_eq(l, "::1") || str_eq(l, "::") || crate::chars::starts_with_str(l, "fe80")
                || crate::chars::starts_with_str(l, "fc") || crate::chars::starts_with_str(l, "fd")
                || crate::chars::starts_with_str(l, "ff")
        },
    }
}

/// Why a host is rejected before any DNS lookup.
#[derive(Debug, Clone, Copy, PartialEq, Eq, Structural)]
pub enum HostReject {
    PrivateLiteral,
    Localhost,
    DotLocal,
}

/// `s` without any leading `[` and any trailing `]`.
pub open spec fn unbracket(s: Seq<char>) -> Seq<char> {
    let a = lead_count(s, '[');
    let rest = s.skip(a as int);
    rest.take(rest.len() - trail_count(rest, ']'))
}

/// How many leading characters of `s` are `c`.
pub open spec fn lead_count(s: Seq<char>, c: char) -> nat
    decreases s.len(),
{
    if s.len() > 0 && s[0] == c {
        1 + lead_count(s.skip(1), c)
    } else {
        0
    }
}

/// How many trailing characters of `s` are `c`.
pub open spec fn trail_count(s: Seq<char>, c: char) -> nat
    decreases s.len(),
{
    if s.len() > 0 && s.last() == c {
        1 + trail_count(s.drop_last(), c)
    } else {
        0
    }
}

proof fn lemma_lead_count(s: Seq<char>, c: char, i: int)
    requires
        0 <= i <= s.len(),
        forall|j: int| 0 <= j < i ==> s[j] == c,
        i == s.len() || s[i] != c,
    ensures
        lead_count(s, c) == i,
    decreases i,
{
    if i > 0 {
        let t = s.skip(1);
        assert forall|j: int| 0 <= j < i - 1 implies t[j] == c by {
            assert(t[j] == s[j + 1]);
        }
        if i < s.len() {
            assert(t[i - 1] == s[i]);
        }
        lemma_lead_count(t, c, i - 1);
    }
}

proof fn lemma_trail_count(s: Seq<char>, c: char, e: int)
    requires
        0 <= e <= s.len(),
        forall|j: int| e <= j < s.len() ==> s[j] == c,
        e == 0 || s[e - 1] != c,
    ensures
        trail_count(s, c) == s.len() - e,
    decreases s.len() - e,
{
    if e < s.len() {
        let t = s.drop_last();
        lemma_trail_count(t, c, e);
    }
}

/// Drop leading `[` and trailing `]`.
fn unbracketed(s: &str) -> (r: String)
    ensures
        r@ == unbracket(s@),
{
    let v = chars_of(s);
    let mut a: usize = 0;
    while a < v.len() && v[a] == '['
        invariant
            a <= v@.len(),
            forall|j: int| 0 <= j < a ==> v@[j] == '[',
        decreases v@.len() - a,
    {
        a = a + 1;
    }
    proof {
        lemma_lead_count(v@, '[', a as int);
    }
    let mut e: usize = v.len();
    while e > a && v[e - 1] == ']'
        invariant
            a <= e <= v@.len(),
            forall|j: int| e <= j < v@.len() ==> v@[j] == ']',
        decreases e,
    {
        e = e - 1;
    }
    proof {
        let rest = v@.skip(a as int);
        lemma_trail_count(rest, ']', e - a);
        assert(v@.subrange(a as int, e as int) == rest.take(rest.len() - trail_count(rest, ']')));
    }
    string_from(&v, a, e)
}

/// Why a host is rejected before any DNS lookup: a private IP literal
/// (brackets dropped), `localhost`, or a `*.local` name; `None` when it passes
/// (its resolved addresses are checked next).
pub open spec fn reject_spec(host: Seq<char>) -> Option<HostReject> {
    if is_private_spec(unbracket(host)) {
        Some(HostReject::PrivateLiteral)
    } else if host == "localhost"@ {
        Some(HostReject::Localhost)
    } else if ends_with(host, ".local"@) {
        Some(HostReject::DotLocal)
    } else {
        None
    }
}

/// The literal check made before any DNS lookup.
pub fn reject_literal_host(hostname: &str) -> (r: Option<HostReject>)
    ensures
        r == reject_spec(hostname@),
{
    let literal = unbracketed(hostname);
    if is_private_ip(literal.as_str()) {
        return Some(HostReject::PrivateLiteral);
    }
    if str_eq(hostname, "localhost") {
        return Some(HostReject::Localhost);
    }
    if ends_with_str(hostname, ".local") {
        return Some(HostReject::DotLocal);
    }
    None
}

/// An IPv4-mapped address is classified as the IPv4 address it maps, whatever
/// the case of its `::ffff:` prefix: wrapping a private IPv4 address in it
/// cannot smuggle the address past the guard.
pub proof fn lemma_mapped_v4_is_classified_as_v4(prefix: Seq<char>, v4: Seq<char>)
    requires
        prefix.len() == 7,
        starts_with_ci(prefix, "::ffff:"@),
        v4_first_two(v4) is Some,
    ensures
        is_private_spec(prefix + v4) == is_private_spec(v4),
{
    reveal_strlit("::ffff:");
    let ip = prefix + v4;
    assert(starts_with_ci(ip, "::ffff:"@)) by {
        assert forall|i: int| 0 <= i < 7 implies ascii_fold(#[trigger] ip[i]) == ascii_fold("::ffff:"@[i]) by {
            assert(ip[i] == prefix[i]);
        }
    }
    assert(ip.skip(7) == v4);
    assert(!starts_with_ci(v4, "::ffff:"@)) by {
        if v4.len() > 0 {
            lemma_digit_parts_have_no_colon(v4);
            assert("::ffff:"@[0] == ':');
        }
    }
}

/// A dotted quad holds only digits and dots.
proof fn lemma_digit_parts_have_no_colon(s: Seq<char>)
    requires
        v4_first_two(s) is Some,
        s.len() > 0,
    ensures
        s[0] != ':',
        ascii_fold(s[0]) != ascii_fold(':'),
{
    let parts = split_on(s, '.');
    assert(parts[0].len() > 0 && all_digits(parts[0]));
    if s[0] == '.' {
        lemma_split_on_len(s, '.');
        lemma_split_dot_first(s);
    } else {
        lemma_split_first(s, '.');
    }
    assert('0' <= parts[0][0] <= '9');
}

/// A string that starts with the separator has an empty first part.
proof fn lemma_split_dot_first(s: Seq<char>)
    requires
        s.len() > 0,
        s[0] == '.',
    ensures
        split_on(s, '.')[0].len() == 0,
    decreases s.len(),
{
    let t = s.drop_last();
    lemma_split_on_len(t, '.');
    if s.len() == 1 {
        assert(split_on(t, '.') == seq![Seq::<char>::empty()]);
    } else {
        lemma_split_dot_first(t);
        lemma_split_on_len(t, '.');
        let p = split_on(t, '.');
        if p.len() == 1 {
            lemma_split_single(t);
        }
    }
}

/// A string with a separator splits into at least two parts.
proof fn lemma_split_single(t: Seq<char>)
    requires
        t.len() > 0,
        t[0] == '.',
    ensures
        split_on(t, '.').len() >= 2,
    decreases t.len(),
{
    let u = t.drop_last();
    lemma_split_on_len(u, '.');
    if t.len() > 1 {
        lemma_split_single(u);
    } else {
        assert(split_on(u, '.') == seq![Seq::<char>::empty()]);
    }
}

/// The first character of `s`, when not the separator, starts the first part.
proof fn lemma_split_first(s: Seq<char>, c: char)
    requires
        s.len() > 0,
        s[0] != c,
    ensures
        split_on(s, c)[0].len() > 0,
        split_on(s, c)[0][0] == s[0],
    decreases s.len(),
{
    let t = s.drop_last();
    lemma_split_on_len(t, c);
    let p = split_on(t, c);
    if s.len() == 1 {
        assert(t.len() == 0);
        assert(p == seq![Seq::<char>::empty()]);
        assert(split_on(s, c) == p.update(0, p[0].push(s.last())));
    } else {
        lemma_split_first(t, c);
        assert(t[0] == s[0]);
        if s.last() == c {
            assert(split_on(s, c) == p.push(seq![]));
            assert(split_on(s, c)[0] == p[0]);
        } else {
            let q = p.update(p.len() - 1, p.last().push(s.last()));
            assert(split_on(s, c) == q);
            if p.len() == 1 {
                assert(q[0] == p[0].push(s.last()));
            } else {
                assert(q[0] == p[0]);
            }
        }
    }
}

} // verus!
