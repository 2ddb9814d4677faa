//! The decisions of `web_search`: the query it sends, and which field of the
//! DuckDuckGo Instant Answer reply it speaks. The HTTP request and reading the
//! reply's JSON are the caller's.
use vstd::prelude::*;

use crate::chars::{trim, trimmed};

verus! {

/// What `web_search` answers when nothing reliable came back.
pub const NOTHING_FOUND: &'static str = "I could not find anything reliable on that.";

/// The query to send: the trimmed text, refused when blank.
pub fn search_query(query: &str) -> (r: Result<String, String>)
    ensures
        match r {
            Ok(q) => trim(query@).len() > 0 && q@ == trim(query@),
            Err(m) => trim(query@).len() == 0 && m@ == "No query was provided."@,
        },
{
    let q = trimmed(query);
    if q.as_str().is_empty() {
        Err(String::from_str("No query was provided."))
    } else {
        Ok(q)
    }
}

/// A present, non-empty text.
pub open spec fn filled(o: Option<Seq<char>>) -> bool {
    o matches Some(t) && t.len() > 0
}

/// The view of an optional string slice.
pub open spec fn opt_text(o: Option<&str>) -> Option<Seq<char>> {
    match o {
        Some(t) => Some(t@),
        None => None,
    }
}

/// The view of optional strings.
pub open spec fn opt_texts(v: Seq<Option<String>>) -> Seq<Option<Seq<char>>> {
    v.map_values(|o: Option<String>| match o {
        Some(t) => Some(t@),
        None => None,
    })
}

/// The first filled text of `ts`, if any.
pub open spec fn first_filled(ts: Seq<Option<Seq<char>>>) -> Option<Seq<char>>
    decreases ts.len(),
{
    if ts.len() == 0 {
        None
    } else if filled(ts[0]) {
        ts[0]
    } else {
        first_filled(ts.skip(1))
    }
}

/// The spoken answer of an Instant Answer reply: its `Answer`; else its
/// `AbstractText`, followed by ` (source)` when `AbstractSource` is given; else
/// the first `Text` of its `RelatedTopics`; else nothing.
pub open spec fn instant_answer_spec(
    answer: Option<Seq<char>>,
    abstract_text: Option<Seq<char>>,
    source: Option<Seq<char>>,
    topics: Seq<Option<Seq<char>>>,
) -> Option<Seq<char>> {
    if filled(answer) {
        answer
    } else if filled(abstract_text) {
        if filled(source) {
            Some(abstract_text->0 + " ("@ + source->0 + ")"@)
        } else {
            abstract_text
        }
    } else {
        first_filled(topics)
    }
}

fn is_filled(o: Option<&str>) -> (r: bool)
    ensures
        r == filled(opt_text(o)),
{
    match o {
        Some(t) => !t.is_empty(),
        None => false,
    }
}

/// Pick the spoken answer of an Instant Answer reply from its `Answer`,
/// `AbstractText` and `AbstractSource` fields and the `Text` of each of its
/// `RelatedTopics`, each `None` when missing or not a string.
pub fn instant_answer(
    answer: Option<&str>,
    abstract_text: Option<&str>,
    source: Option<&str>,
    topics: &Vec<Option<String>>,
) -> (r: Option<String>)
    ensures
        opt_text_owned(r) == instant_answer_spec(opt_text(answer), opt_text(abstract_text), opt_text(source), opt_texts(topics@)),
{
    if is_filled(answer) {
        return Some(String::from_str(answer.unwrap()));
    }
    if is_filled(abstract_text) {
        let mut s = String::from_str(abstract_text.unwrap());
        if is_filled(source) {
            s.append(" (");
            s.append(source.unwrap());
            s.append(")");
        }
        return Some(s);
    }
    let ghost ts = opt_texts(topics@);
    let mut i: usize = 0;
    assert(ts.skip(0) == ts);
    while i < topics.len()
        invariant
            i <= topics@.len(),
            ts == opt_texts(topics@),
            !filled(opt_text(answer)),
            !filled(opt_text(abstract_text)),
            first_filled(ts) == first_filled(ts.skip(i as int)),
        decreases topics@.len() - i,
    {
        let ghost rest = ts.skip(i as int);
        assert(rest[0] == ts[i as int]);
        match &topics[i] {
            Some(t) => if !t.as_str().is_empty() {
                assert(ts[i as int] == Some(t@));
                assert(filled(rest[0]));
                assert(first_filled(rest) == rest[0]);
                let c = t.clone();
                assert(c@ == t@);
                return Some(c);
            },
            None => {},
        }
        assert(rest.skip(1) == ts.skip(i + 1));
        i = i + 1;
    }
    None
}

/// The view of an optional string.
pub open spec fn opt_text_owned(o: Option<String>) -> Option<Seq<char>> {
    match o {
        Some(t) => Some(t@),
        None => None,
    }
}

} // verus!
