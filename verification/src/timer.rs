//! Countdown timers: the wording of a timer's confirmation and of what is said
//! when it fires. Waiting, notifying and speaking are the caller's.
use vstd::prelude::*;

use crate::chars::{decimal, push_decimal, trim, trimmed};

verus! {

/// The largest duration, in seconds, whose minute count is worded exactly
/// (2^53 s, about 285 million years).
pub const MAX_EXACT_SECS: u64 = 9007199254740992;

/// `""` for one, `"s"` otherwise.
pub open spec fn plural_spec(n: nat) -> Seq<char> {
    if n == 1 {
        Seq::empty()
    } else {
        "s"@
    }
}

/// The plural suffix for a count of `n`.
pub fn plural(n: u64) -> (r: &'static str)
    ensures
        r@ == plural_spec(n as nat),
{
    if n == 1 {
        proof {
            reveal_strlit("");
        }
        ""
    } else {
        "s"
    }
}

/// A human-friendly duration: `45 seconds`, `3 minutes`, `2 minutes 5 seconds`.
pub open spec fn duration_spec(secs: nat) -> Seq<char> {
    if secs < 60 {
        decimal(secs) + " second"@ + plural_spec(secs)
    } else if secs % 60 == 0 {
        decimal(secs / 60) + " minute"@ + plural_spec(secs / 60)
    } else {
        decimal(secs / 60) + " minute"@ + plural_spec(secs / 60) + " "@ + decimal(secs % 60) + " second"@
            + plural_spec(secs % 60)
    }
}

/// Word a duration of `secs` seconds.
pub fn format_duration(secs: u64) -> (r: String)
    requires
        secs <= MAX_EXACT_SECS,
    ensures
        r@ == duration_spec(secs as nat),
{
    let mut out = String::new();
    if secs < 60 {
        push_decimal(&mut out, secs);
        out.append(" second");
        out.append(plural(secs));
        return out;
    }
    let m = secs / 60;
    push_decimal(&mut out, m);
    out.append(" minute");
    out.append(plural(m));
    if secs % 60 != 0 {
        out.append(" ");
        push_decimal(&mut out, secs % 60);
        out.append(" second");
        out.append(plural(secs % 60));
    }
    out
}

/// The timer's label: trimmed, and absent when blank.
pub open spec fn label_spec(label: Option<Seq<char>>) -> Option<Seq<char>> {
    match label {
        Some(l) => if trim(l).len() > 0 {
            Some(trim(l))
        } else {
            None
        },
        None => None,
    }
}

/// The view of an optional label.
pub open spec fn opt_str_view(label: Option<&str>) -> Option<Seq<char>> {
    match label {
        Some(l) => Some(l@),
        None => None,
    }
}

/// Trim a timer label, dropping it when blank.
pub fn timer_label(label: Option<&str>) -> (r: Option<String>)
    ensures
        match r {
            Some(s) => label_spec(opt_str_view(label)) == Some(s@),
            None => label_spec(opt_str_view(label)) is None,
        },
{
    match label {
        Some(l) => {
            let t = trimmed(l);
            if t.as_str().is_empty() {
                None
            } else {
                Some(t)
            }
        },
        None => None,
    }
}

/// The confirmation returned when a timer is set.
pub open spec fn confirmation_spec(secs: nat, label: Option<Seq<char>>) -> Seq<char> {
    match label_spec(label) {
        Some(w) => "Timer set for "@ + duration_spec(secs) + " ("@ + w + ")."@,
        None => "Timer set for "@ + duration_spec(secs) + "."@,
    }
}

/// What is said (and shown as a notification) when a timer fires.
pub open spec fn completion_spec(secs: nat, label: Option<Seq<char>>) -> Seq<char> {
    match label_spec(label) {
        Some(w) => "Your timer for "@ + w + " is complete."@,
        None => "Your "@ + duration_spec(secs) + " timer is complete."@,
    }
}

/// The confirmation for a timer of `secs` seconds with an optional label, e.g.
/// `Timer set for 2 minutes (tea).`
pub fn timer_confirmation(secs: u64, label: Option<&str>) -> (r: String)
    requires
        secs <= MAX_EXACT_SECS,
    ensures
        r@ == confirmation_spec(secs as nat, opt_str_view(label)),
{
    let human = format_duration(secs);
    let mut out = String::from_str("Timer set for ");
    out.append(human.as_str());
    match timer_label(label) {
        Some(w) => {
            out.append(" (");
            out.append(w.as_str());
            out.append(").");
        },
        None => {
            out.append(".");
        },
    }
    out
}

/// The completion message for a timer, e.g. `Your timer for tea is complete.`
pub fn timer_completion(secs: u64, label: Option<&str>) -> (r: String)
    requires
        secs <= MAX_EXACT_SECS,
    ensures
        r@ == completion_spec(secs as nat, opt_str_view(label)),
{
    match timer_label(label) {
        Some(w) => {
            let mut out = String::from_str("Your timer for ");
            out.append(w.as_str());
            out.append(" is complete.");
            out
        },
        None => {
            let mut out = String::from_str("Your ");
            let human = format_duration(secs);
            out.append(human.as_str());
            out.append(" timer is complete.");
            out
        },
    }
}

/// The line spoken when a timer fires: the completion message, said crisply.
pub fn timer_announcement(secs: u64, label: Option<&str>) -> (r: String)
    requires
        secs <= MAX_EXACT_SECS,
    ensures
        r@ == "[crisply] "@ + completion_spec(secs as nat, opt_str_view(label)),
{
    let mut out = String::from_str("[crisply] ");
    let msg = timer_completion(secs, label);
    out.append(msg.as_str());
    out
}

} // verus!
