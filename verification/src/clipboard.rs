//! What the clipboard tools answer. Reading and writing the system clipboard
//! is the caller's.
use vstd::prelude::*;

use crate::chars::{chars_of, string_from};

verus! {

/// Most characters of clipboard text handed to the model (64 K).
pub const MAX_CLIP: usize = 65536;

/// The answer when the clipboard holds no text.
pub const CLIPBOARD_EMPTY: &'static str = "The clipboard is empty (or holds non-text content).";

/// The answer after a successful write.
pub const CLIPBOARD_COPIED: &'static str = "Copied to the clipboard.";

/// The answer to a clipboard read that found `text` (`None` when no clipboard
/// is available): a note when there is no text, the text itself, or its first
/// [`MAX_CLIP`] characters followed by a truncation marker.
pub open spec fn clipboard_reply_spec(text: Option<Seq<char>>) -> Seq<char> {
    match text {
        Some(t) => if t.len() == 0 {
            CLIPBOARD_EMPTY@
        } else if t.len() > MAX_CLIP {
            t.take(MAX_CLIP as int) + "\n\u{2026} (truncated)"@
        } else {
            t
        },
        None => CLIPBOARD_EMPTY@,
    }
}

/// Phrase the result of a clipboard read.
pub fn clipboard_reply(text: Option<&str>) -> (r: String)
    ensures
        r@ == clipboard_reply_spec(match text {
            Some(t) => Some(t@),
            None => None,
        }),
{
    match text {
        None => String::from_str(CLIPBOARD_EMPTY),
        Some(t) => {
            if t.is_empty() {
                return String::from_str(CLIPBOARD_EMPTY);
            }
            let v = chars_of(t);
            if v.len() > MAX_CLIP {
                let mut head = string_from(&v, 0, MAX_CLIP);
                assert(v@.subrange(0, MAX_CLIP as int) == t@.take(MAX_CLIP as int));
                head.append("\n\u{2026} (truncated)");
                head
            } else {
                String::from_str(t)
            }
        },
    }
}

} // verus!
