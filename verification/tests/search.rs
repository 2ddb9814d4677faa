use lo::search::{instant_answer, search_query, NOTHING_FOUND};

#[test]
fn queries_are_trimmed_and_required() {
    assert_eq!(search_query("  rust  ").unwrap(), "rust");
    assert_eq!(search_query(" \t").unwrap_err(), "No query was provided.");
    assert_eq!(NOTHING_FOUND, "I could not find anything reliable on that.");
}

#[test]
fn instant_answer_prefers_answer_then_abstract_then_topics() {
    let topics = vec![None, Some(String::new()), Some("Topic text".to_string()), Some("Later".to_string())];
    assert_eq!(instant_answer(Some("42"), Some("abs"), Some("Wiki"), &topics).as_deref(), Some("42"));
    assert_eq!(instant_answer(Some(""), Some("abs"), Some("Wikipedia"), &topics).as_deref(), Some("abs (Wikipedia)"));
    assert_eq!(instant_answer(None, Some("abs"), Some(""), &topics).as_deref(), Some("abs"));
    assert_eq!(instant_answer(None, Some(""), None, &topics).as_deref(), Some("Topic text"));
    assert_eq!(instant_answer(None, None, None, &vec![None, Some(String::new())]), None);
}
