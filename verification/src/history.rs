//! Opt-in conversation persistence. The rolling transcript is stored (as JSON,
//! by the caller) in the config dir so context survives a restart. When
//! persistence is off, load and save do nothing.
//!
//! This module decides what is kept: what a stored transcript loads as, and
//! what a save writes. Reading and writing the file is the caller's.
use vstd::prelude::*;

use crate::types::{copy_message, msg_pair, msgs_view, ChatMessage, ChatRole};

verus! {

/// Keep a bounded rolling window.
pub const MAX: usize = 24;

/// The last [`MAX`] messages of `h` (all of them when there are fewer).
pub open spec fn last_max(h: Seq<(ChatRole, Seq<char>)>) -> Seq<(ChatRole, Seq<char>)> {
    if h.len() > MAX {
        h.skip(h.len() - MAX)
    } else {
        h
    }
}

/// `h` without its system messages, in order.
pub open spec fn without_system(h: Seq<(ChatRole, Seq<char>)>) -> Seq<(ChatRole, Seq<char>)>
    decreases h.len(),
{
    if h.len() == 0 {
        h
    } else {
        let rest = without_system(h.drop_last());
        if h.last().0 == ChatRole::System {
            rest
        } else {
            rest.push(h.last())
        }
    }
}

/// What a load yields: nothing when persistence is off or the stored file was
/// unreadable (`None`); otherwise the stored transcript without its system
/// messages (the system prompt is injected fresh each turn, so a hand-edited
/// file cannot inject one), cut to its last [`MAX`] messages.
pub open spec fn load_spec(persist: bool, stored: Option<Seq<(ChatRole, Seq<char>)>>) -> Seq<(ChatRole, Seq<char>)> {
    if !persist {
        Seq::empty()
    } else {
        match stored {
            Some(h) => last_max(without_system(h)),
            None => Seq::empty(),
        }
    }
}

/// The view of an optional stored transcript.
pub open spec fn stored_view(stored: Option<Vec<ChatMessage>>) -> Option<Seq<(ChatRole, Seq<char>)>> {
    match stored {
        Some(v) => Some(msgs_view(v@)),
        None => None,
    }
}

/// Load the persisted transcript. `stored` is the parsed content of the
/// history file (`None` when it is missing, unreadable or not a transcript);
/// when `persist` is off the file is not consulted and the result is empty.
pub fn load(persist: bool, stored: Option<Vec<ChatMessage>>) -> (r: Vec<ChatMessage>)
    ensures
        msgs_view(r@) == load_spec(persist, stored_view(stored)),
{
    if !persist {
        return Vec::new();
    }
    match stored {
        None => Vec::new(),
        Some(msgs) => {
            let mut kept: Vec<ChatMessage> = Vec::new();
            let mut i: usize = 0;
            while i < msgs.len()
                invariant
                    i <= msgs@.len(),
                    msgs_view(kept@) == without_system(msgs_view(msgs@).take(i as int)),
                decreases msgs@.len() - i,
            {
                let ghost before = msgs_view(msgs@).take(i as int);
                assert(msgs_view(msgs@).take(i + 1).drop_last() == before);
                if msgs[i].role != ChatRole::System {
                    kept.push(copy_message(&msgs[i]));
                }
                i = i + 1;
            }
            assert(msgs_view(msgs@).take(msgs@.len() as int) == msgs_view(msgs@));
            if kept.len() > MAX {
                let ghost k = msgs_view(kept@);
                let tail = kept.split_off(kept.len() - MAX);
                assert(msgs_view(tail@) == k.skip(k.len() - MAX));
                tail
            } else {
                kept
            }
        },
    }
}

/// What a save writes: nothing when persistence is off, otherwise the last
/// [`MAX`] messages of the transcript.
pub open spec fn save_spec(persist: bool, messages: Seq<(ChatRole, Seq<char>)>) -> Option<Seq<(ChatRole, Seq<char>)>> {
    if persist {
        Some(last_max(messages))
    } else {
        None
    }
}

/// Decide what to persist: `None` when persistence is off (nothing is written),
/// otherwise the last [`MAX`] messages, which the caller serialises to the
/// history file.
pub fn save(persist: bool, messages: &[ChatMessage]) -> (r: Option<Vec<ChatMessage>>)
    ensures
        stored_view(r) == save_spec(persist, msgs_view(messages@)),
{
    if !persist {
        return None;
    }
    let start: usize = if messages.len() > MAX { messages.len() - MAX } else { 0 };
    let mut tail: Vec<ChatMessage> = Vec::new();
    let mut i: usize = start;
    let ghost all = msgs_view(messages@);
    while i < messages.len()
        invariant
            start <= i <= messages@.len(),
            all == msgs_view(messages@),
            msgs_view(tail@) == all.subrange(start as int, i as int),
        decreases messages@.len() - i,
    {
        tail.push(copy_message(&messages[i]));
        assert(all.subrange(start as int, i + 1) == all.subrange(start as int, i as int).push(msg_pair(messages@[i as int])));
        i = i + 1;
    }
    assert(all.subrange(start as int, all.len() as int) == last_max(all));
    Some(tail)
}

/// A loaded transcript never holds a system message.
proof fn lemma_without_system_has_none(h: Seq<(ChatRole, Seq<char>)>)
    ensures
        forall|i: int| 0 <= i < without_system(h).len() ==> (#[trigger] without_system(h)[i]).0 != ChatRole::System,
        without_system(h).len() <= h.len(),
    decreases h.len(),
{
    if h.len() > 0 {
        lemma_without_system_has_none(h.drop_last());
    }
}

/// A transcript without system messages passes the filter unchanged.
proof fn lemma_without_system_keeps_plain(h: Seq<(ChatRole, Seq<char>)>)
    requires
        forall|i: int| 0 <= i < h.len() ==> (#[trigger] h[i]).0 != ChatRole::System,
    ensures
        without_system(h) == h,
    decreases h.len(),
{
    if h.len() > 0 {
        lemma_without_system_keeps_plain(h.drop_last());
        assert(h.drop_last().push(h.last()) == h);
    }
}

/// Whatever the stored file holds, a load yields at most [`MAX`] messages and
/// none of them is a system message.
pub proof fn lemma_load_is_bounded_and_clean(persist: bool, stored: Option<Seq<(ChatRole, Seq<char>)>>)
    ensures
        load_spec(persist, stored).len() <= MAX,
        forall|i: int| 0 <= i < load_spec(persist, stored).len() ==> (#[trigger] load_spec(persist, stored)[i]).0 != ChatRole::System,
{
    if let Some(h) = stored {
        lemma_without_system_has_none(h);
    }
}

/// Round trip: with persistence on, loading what a save wrote gives back the
/// last [`MAX`] messages of the saved transcript, when that transcript holds no
/// system message (the only kind the session records).
pub proof fn lemma_save_then_load(messages: Seq<(ChatRole, Seq<char>)>)
    requires
        forall|i: int| 0 <= i < messages.len() ==> (#[trigger] messages[i]).0 != ChatRole::System,
    ensures
        load_spec(true, save_spec(true, messages)) == last_max(messages),
{
    let t = last_max(messages);
    assert forall|i: int| 0 <= i < t.len() implies (#[trigger] t[i]).0 != ChatRole::System by {
        if messages.len() > MAX {
            assert(t[i] == messages[i + messages.len() - MAX]);
        }
    }
    lemma_without_system_keeps_plain(t);
}

/// With persistence off, a save writes nothing and a load yields nothing.
pub proof fn lemma_off_is_a_noop(messages: Seq<(ChatRole, Seq<char>)>, stored: Option<Seq<(ChatRole, Seq<char>)>>)
    ensures
        save_spec(false, messages) is None,
        load_spec(false, stored).len() == 0,
{
}

} // verus!
