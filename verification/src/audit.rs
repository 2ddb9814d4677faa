//! The audit log of checked tool invocations: every confirm/danger call
//! (allowed, denied, or errored) is appended as one line for an after-the-fact
//! record. This module decides what a line records and when the log rolls over;
//! the caller serialises and appends it.
use vstd::prelude::*;

use crate::chars::{chars_of, string_from};

verus! {

/// Roll the audit log over once it grows to this many bytes (5 MB), keeping a
/// single `.1` backup.
pub const MAX_AUDIT_BYTES: u64 = 5242880;

/// Most characters of a result or error message kept in a line.
pub const MAX_DETAIL_CHARS: usize = 200;

/// The outcome of a checked tool invocation.
#[derive(Debug, Clone, Copy, PartialEq, Eq, Structural)]
pub enum Decision {
    Allowed,
    Denied,
    Error,
}

/// The lower-case name a decision is logged as.
pub open spec fn decision_name(d: Decision) -> Seq<char> {
    match d {
        Decision::Allowed => "allowed"@,
        Decision::Denied => "denied"@,
        Decision::Error => "error"@,
    }
}

impl Decision {
    /// The lower-case name the decision is logged as.
    pub fn as_str(self) -> (r: &'static str)
        ensures
            r@ == decision_name(self),
    {
        match self {
            Decision::Allowed => "allowed",
            Decision::Denied => "denied",
            Decision::Error => "error",
        }
    }
}

/// The detail a line records: the first [`MAX_DETAIL_CHARS`] characters.
pub open spec fn detail_spec(detail: Seq<char>) -> Seq<char> {
    if detail.len() > MAX_DETAIL_CHARS {
        detail.take(MAX_DETAIL_CHARS as int)
    } else {
        detail
    }
}

/// Cut a result or error message to what a line records.
pub fn audit_detail(detail: &str) -> (r: String)
    ensures
        r@ == detail_spec(detail@),
{
    let v = chars_of(detail);
    let n = if v.len() > MAX_DETAIL_CHARS { MAX_DETAIL_CHARS } else { v.len() };
    let r = string_from(&v, 0, n);
    assert(v@.subrange(0, n as int) == detail_spec(detail@));
    r
}

/// Most characters of the JSON text of a call's arguments kept in a line.
pub const MAX_ARGS_CHARS: usize = 500;

/// Cut the JSON text `s` of a call's arguments to what a line records: `None`
/// when it is short enough to log as it stands, else its first
/// [`MAX_ARGS_CHARS`] characters followed by an ellipsis (logged as a string).
pub fn truncated_args(s: &str) -> (r: Option<String>)
    ensures
        s@.len() <= MAX_ARGS_CHARS ==> r is None,
        s@.len() > MAX_ARGS_CHARS ==> (r matches Some(t) && t@ == s@.take(MAX_ARGS_CHARS as int) + "\u{2026}"@),
{
    let v = chars_of(s);
    if v.len() <= MAX_ARGS_CHARS {
        return None;
    }
    let mut t = string_from(&v, 0, MAX_ARGS_CHARS);
    t.append("\u{2026}");
    assert(v@.subrange(0, MAX_ARGS_CHARS as int) == s@.take(MAX_ARGS_CHARS as int));
    Some(t)
}

/// Whether the live log must roll over before the next line: when its size is
/// known and has reached [`MAX_AUDIT_BYTES`] (an unreadable size never rolls).
pub fn should_rotate(size: Option<u64>) -> (r: bool)
    ensures
        r == (match size {
            Some(n) => n >= MAX_AUDIT_BYTES,
            None => false,
        }),
{
    match size {
        Some(n) => n >= MAX_AUDIT_BYTES,
        None => false,
    }
}

/// The backup the live log rolls over to: its path with `.1` appended.
pub fn backup_path(path: &str) -> (r: String)
    ensures
        r@ == path@ + ".1"@,
{
    let mut r = String::from_str(path);
    r.append(".1");
    r
}

} // verus!
