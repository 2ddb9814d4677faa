use lo::text::{chunk_for_tts, chunk_for_tts_default, strip_directives, TTS_MAX_CHARS};

#[test]
fn empty_input_yields_no_chunks() {
    assert!(chunk_for_tts_default("").is_empty());
    assert!(chunk_for_tts_default("   \n\t ").is_empty());
}

#[test]
fn short_reply_is_a_single_chunk() {
    let chunks = chunk_for_tts_default("It is 3pm.");
    assert_eq!(chunks, vec!["It is 3pm.".to_string()]);
}

#[test]
fn splits_on_sentence_boundaries_under_budget() {
    let s = "First sentence here. Second one follows! Third?";
    let chunks = chunk_for_tts(s, 30);
    for c in &chunks {
        assert!(c.chars().count() <= 30, "chunk too long: {c:?}");
    }
    assert_eq!(chunks.join(" "), s);
}

#[test]
fn over_long_sentence_is_hard_split_within_budget() {
    let long = "word ".repeat(80);
    let chunks = chunk_for_tts(long.trim(), 50);
    assert!(chunks.len() > 1);
    for c in &chunks {
        assert!(c.chars().count() <= 50, "chunk too long: {} ({c:?})", c.len());
    }
}

#[test]
fn strip_directives_removes_bracketed_spans() {
    assert_eq!(strip_directives("[dry] Hello [warmly] there"), "Hello there");
    assert_eq!(strip_directives("a [b"), "a [b");
    let long = format!("x [{}] y", "z".repeat(50));
    assert_eq!(strip_directives(&long), long.replace("  ", " "));
}

#[test]
fn decimal_points_do_not_split_sentences() {
    let chunks = chunk_for_tts("It costs 3.5 dollars total. Thanks for asking.", 30);
    assert_eq!(chunks.len(), 2, "{chunks:?}");
    assert!(chunks[0].contains("3.5 dollars"), "{chunks:?}");
    assert!(chunks[1].starts_with("Thanks"), "{chunks:?}");
}

#[test]
fn no_chunk_exceeds_default_budget() {
    let para = "Lo is a fast, local AI agent that runs entirely on your own machine, \
        with no cloud, no API keys, and no data leaving your computer at all, which is \
        rather the whole point of the thing if you stop and think about it for a moment.";
    for c in chunk_for_tts_default(para) {
        assert!(c.chars().count() <= TTS_MAX_CHARS, "too long: {c:?}");
    }
}

#[test]
fn chunks_are_trimmed_and_non_empty() {
    let text = "  One.   Two!  \n Three?  ";
    let chunks = chunk_for_tts(text, 8);
    assert!(!chunks.is_empty());
    for c in &chunks {
        assert!(!c.is_empty());
        assert_eq!(c.trim(), c.as_str());
        assert!(c.chars().count() <= 8);
    }
}

#[test]
fn whitespace_runs_collapse_after_stripping() {
    assert_eq!(strip_directives("  a \n\n b\t\tc  "), "a b c");
    assert_eq!(strip_directives("[only]"), "");
}

#[test]
fn chunks_keep_every_visible_char_and_single_spaces() {
    let input = "  Hello,\t\tworld!  This   is a   rather long sentence, with clauses; and more words to split.\n\nOk? ";
    let chunks = chunk_for_tts(input, 20);
    assert!(!chunks.is_empty());
    for c in &chunks {
        assert!(!c.contains("  "));
        assert!(c.chars().all(|ch| !ch.is_whitespace() || ch == ' '));
        assert_eq!(c.trim(), c);
    }
    let joined: String = chunks.concat().chars().filter(|c| !c.is_whitespace()).collect();
    let expected: String = input.chars().filter(|c| !c.is_whitespace()).collect();
    assert_eq!(joined, expected);
    assert!(chunk_for_tts(" \t\n ", 20).is_empty());
}
