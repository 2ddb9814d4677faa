//! Reading a streamed completion: the server-sent-events framing (raw bytes cut
//! into `\n`-terminated lines, `data:` payloads, the terminal `[DONE]`), and
//! the accumulation of prose deltas and of native tool calls, which arrive
//! delta-encoded by index and split across many chunks.
//!
//! The HTTP transport and the JSON parsing of each payload are the caller's;
//! so is the retry policy's waiting.
use vstd::prelude::*;

use crate::assembly::{calls_map, finished_call, increasing, merge_all, CallAssembly};
use crate::brain::{call_view, ToolCall};
use crate::chars::{chars_of, starts_with, starts_with_str, string_from, trim, trimmed};

verus! {

/// How much of a failed request's body is surfaced, in characters.
pub const ERROR_BODY_LIMIT: usize = 300;

/// Total attempts for the initial request (one retry).
pub const MAX_ATTEMPTS: usize = 2;

/* ------------------------------------------------------------------ */
/* framing                                                            */
/* ------------------------------------------------------------------ */

/// Cut the first complete line (through its `\n`) off the front of `buffer`;
/// a trailing partial line stays buffered.
pub fn take_line(buffer: &mut Vec<u8>) -> (r: Option<Vec<u8>>)
    ensures
        match r {
            Some(line) => {
                &&& line@.len() > 0
                &&& line@.last() == 10u8
                &&& forall|i: int| 0 <= i < line@.len() - 1 ==> line@[i] != 10u8
                &&& old(buffer)@ == line@ + final(buffer)@
            },
            None => {
                &&& forall|i: int| 0 <= i < old(buffer)@.len() ==> old(buffer)@[i] != 10u8
                &&& final(buffer)@ == old(buffer)@
            },
        },
{
    let mut nl: usize = 0;
    while nl < buffer.len() && buffer[nl] != 10u8
        invariant
            nl <= buffer@.len(),
            forall|i: int| 0 <= i < nl ==> buffer@[i] != 10u8,
        decreases buffer@.len() - nl,
    {
        nl = nl + 1;
    }
    if nl == buffer.len() {
        return None;
    }
    let mut line = buffer.split_off(nl + 1);
    std::mem::swap(&mut line, buffer);
    Some(line)
}

/// What `String::from_utf8_lossy` decodes `bytes` to (invalid sequences become
/// U+FFFD).
pub uninterp spec fn utf8_lossy(bytes: Seq<u8>) -> Seq<char>;

/// `String::from_utf8_lossy`. Its result is a function of the bytes alone,
/// named [`utf8_lossy`]; nothing more is claimed of it here.
#[verifier::external_body]
fn decode_lossy(bytes: &[u8]) -> (r: String)
    ensures
        r@ == utf8_lossy(bytes@),
{
    String::from_utf8_lossy(bytes).into_owned()
}

/// Decode a line of the stream.
pub fn decode_line(bytes: &[u8]) -> (r: String)
    ensures
        r@ == utf8_lossy(bytes@),
{
    decode_lossy(bytes)
}

/// The meaning of one line of the stream.
#[derive(Debug, Clone)]
pub enum SseLine {
    /// A `data:` line with this (trimmed) payload, to be parsed as an event.
    Data(String),
    /// The terminal `data: [DONE]`.
    Done,
    /// Not a `data:` line (a comment, a keep-alive, a blank line).
    Ignore,
}

/// How a line is read: trimmed; only `data:` lines matter; `[DONE]` ends the
/// stream.
pub open spec fn classify_spec(line: Seq<char>) -> Option<Option<Seq<char>>> {
    let t = trim(line);
    if starts_with(t, "data:"@) {
        let payload = trim(t.skip(5));
        if payload == "[DONE]"@ {
            Some(None)
        } else {
            Some(Some(payload))
        }
    } else {
        None
    }
}

/// Classify one line of the stream.
pub fn classify_line(line: &str) -> (r: SseLine)
    ensures
        match r {
            SseLine::Data(p) => classify_spec(line@) == Some(Some(p@)),
            SseLine::Done => classify_spec(line@) == Some(None::<Seq<char>>),
            SseLine::Ignore => classify_spec(line@) is None,
        },
{
    proof {
        reveal_strlit("data:");
    }
    let t = trimmed(line);
    if !starts_with_str(t.as_str(), "data:") {
        return SseLine::Ignore;
    }
    let v = chars_of(t.as_str());
    let rest = string_from(&v, 5, v.len());
    assert(v@.subrange(5, v@.len() as int) == t@.skip(5));
    let payload = trimmed(rest.as_str());
    if crate::chars::str_eq(payload.as_str(), "[DONE]") {
        SseLine::Done
    } else {
        SseLine::Data(payload)
    }
}

/* ------------------------------------------------------------------ */
/* accumulation                                                       */
/* ------------------------------------------------------------------ */

/// One tool-call fragment of a streamed chunk.
#[derive(Debug, Clone)]
pub struct DeltaCall {
    /// Which call the fragment belongs to.
    pub index: usize,
    pub id: Option<String>,
    pub name: Option<String>,
    /// A piece of the arguments text (an arguments object sent whole arrives
    /// as its JSON text).
    pub arguments: Option<String>,
}

/// The delta of a streamed chunk's first choice.
#[derive(Debug, Clone)]
pub struct StreamDelta {
    pub content: Option<String>,
    pub tool_calls: Vec<DeltaCall>,
}

/// The view of a fragment: `(index, id, name, arguments)`.
pub open spec fn delta_view(d: DeltaCall) -> (usize, Option<Seq<char>>, Option<Seq<char>>, Option<Seq<char>>) {
    (d.index, opt(d.id), opt(d.name), opt(d.arguments))
}

/// The view of an optional string.
pub open spec fn opt(o: Option<String>) -> Option<Seq<char>> {
    match o {
        Some(s) => Some(s@),
        None => None,
    }
}

/// Accumulates one streamed completion: the prose so far, and the tool calls
/// being assembled, by index.
#[derive(Debug)]
pub struct StreamAccumulator {
    pub text: String,
    pub calls: CallAssembly,
}

impl StreamAccumulator {
    /// Nothing received yet.
    pub fn new() -> (r: StreamAccumulator)
        ensures
            r.text@.len() == 0,
            r.calls.calls@.dom().len() == 0,
    {
        let r = StreamAccumulator { text: String::new(), calls: CallAssembly::new() };
        proof {
            assert(r.calls.calls@.dom() =~= Set::<usize>::empty());
        }
        r
    }

    /// Feed one chunk's delta (`None` when the chunk has no choice). A
    /// non-empty prose delta is appended and returned, for the caller to
    /// forward; tool-call fragments are merged by index.
    pub fn push_event(&mut self, delta: Option<StreamDelta>) -> (r: Option<String>)
        ensures
            match delta {
                None => r is None && final(self).text@ == old(self).text@ && calls_map(final(self).calls.calls@)
                    == calls_map(old(self).calls.calls@),
                Some(dl) => {
                    &&& match dl.content {
                        Some(c) if c@.len() > 0 => final(self).text@ == old(self).text@ + c@ && opt(r) == Some(c@),
                        _ => final(self).text@ == old(self).text@ && r is None,
                    }
                    &&& calls_map(final(self).calls.calls@) == merge_all(
                        calls_map(old(self).calls.calls@),
                        dl.tool_calls@.map_values(|d: DeltaCall| delta_view(d)),
                    )
                },
            },
    {
        match delta {
            None => None,
            Some(dl) => {
                let mut emitted: Option<String> = None;
                match &dl.content {
                    Some(c) => if !c.as_str().is_empty() {
                        self.text.append(c.as_str());
                        emitted = Some(c.clone());
                    },
                    None => {},
                }
                let ghost start = calls_map(self.calls.calls@);
                let ghost ds = dl.tool_calls@.map_values(|d: DeltaCall| delta_view(d));
                let ghost t0 = self.text@;
                assert(ds.skip(0) == ds);
                let mut i: usize = 0;
                while i < dl.tool_calls.len()
                    invariant
                        i <= dl.tool_calls@.len(),
                        ds == dl.tool_calls@.map_values(|d: DeltaCall| delta_view(d)),
                        self.text@ == t0,
                        merge_all(start, ds) == merge_all(calls_map(self.calls.calls@), ds.skip(i as int)),
                    decreases dl.tool_calls@.len() - i,
                {
                    self.calls.merge(&dl.tool_calls[i]);
                    proof {
                        let rest = ds.skip(i as int);
                        assert(rest[0] == delta_view(dl.tool_calls@[i as int]));
                        assert(rest.skip(1) == ds.skip(i + 1));
                    }
                    i = i + 1;
                }
                proof {
                    assert(ds.skip(dl.tool_calls@.len() as int).len() == 0);
                }
                emitted
            },
        }
    }

    /// The accumulated prose and the assembled tool calls, in increasing index
    /// order; a call that received no arguments gets `{}`.
    pub fn finish(&self) -> (r: (String, Vec<ToolCall>))
        ensures
            r.0@ == self.text@,
            exists|ks: Seq<usize>|
                {
                    &&& increasing(ks)
                    &&& ks.len() == r.1@.len()
                    &&& forall|k: usize| self.calls.calls@.contains_key(k) <==> ks.contains(k)
                    &&& forall|i: int|
                        0 <= i < r.1@.len() ==> #[trigger] call_view(r.1@[i]) == finished_call(
                            calls_map(self.calls.calls@)[ks[i]],
                        )
                },
    {
        (self.text.clone(), self.calls.finish())
    }
}

/* ------------------------------------------------------------------ */
/* transport decisions                                                */
/* ------------------------------------------------------------------ */

/// What the transport does after a failed attempt.
#[derive(Debug, Clone, Copy, PartialEq, Eq, Structural)]
pub enum RetryStep {
    /// Wait briefly and send again.
    Retry,
    /// Give up and report the failure.
    Fail,
}

/// After attempt number `attempt` failed (`status` is the HTTP status, `None`
/// when no response came): retry a connection error or a server error while
/// attempts remain; a client error is never retried.
pub fn after_failure(attempt: usize, status: Option<u16>) -> (r: RetryStep)
    ensures
        r == (if attempt < MAX_ATTEMPTS && (match status {
            Some(s) => 500 <= s < 600,
            None => true,
        }) {
            RetryStep::Retry
        } else {
            RetryStep::Fail
        }),
{
    let retryable = match status {
        Some(s) => 500 <= s && s < 600,
        None => true,
    };
    if attempt < MAX_ATTEMPTS && retryable {
        RetryStep::Retry
    } else {
        RetryStep::Fail
    }
}

/// The error for a non-2xx reply: its status and the first
/// [`ERROR_BODY_LIMIT`] characters of its body.
pub open spec fn failure_spec(status: u16, body: Seq<char>) -> Seq<char> {
    "Brain request failed ("@ + crate::chars::decimal(status as nat) + "): "@ + (if body.len() > ERROR_BODY_LIMIT {
        body.take(ERROR_BODY_LIMIT as int)
    } else {
        body
    })
}

/// Phrase a non-2xx reply.
pub fn failure_message(status: u16, body: &str) -> (r: String)
    ensures
        r@ == failure_spec(status, body@),
{
    let v = chars_of(body);
    let n = if v.len() > ERROR_BODY_LIMIT { ERROR_BODY_LIMIT } else { v.len() };
    let head = string_from(&v, 0, n);
    assert(v@.subrange(0, n as int) == (if body@.len() > ERROR_BODY_LIMIT {
        body@.take(ERROR_BODY_LIMIT as int)
    } else {
        body@
    }));
    let mut m = String::from_str("Brain request failed (");
    crate::chars::push_decimal(&mut m, status as u64);
    m.append("): ");
    m.append(head.as_str());
    m
}

} // verus!
