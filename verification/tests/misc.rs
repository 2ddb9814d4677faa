use lo::clock::datetime_sentence;
use lo::audit::truncated_args;
use lo::audit::{audit_detail, backup_path, should_rotate, Decision, MAX_AUDIT_BYTES};
use lo::clipboard::{clipboard_reply, CLIPBOARD_EMPTY, MAX_CLIP};
use lo::paths::{cache_dir, config_dir, dir_or, join_path};

#[test]
fn rotates_when_oversized() {
    assert!(should_rotate(Some(MAX_AUDIT_BYTES + 1)));
    assert!(should_rotate(Some(MAX_AUDIT_BYTES)));
    assert!(!should_rotate(Some(10)));
    assert!(!should_rotate(None));
    assert_eq!(backup_path("/c/lo-audit.log"), "/c/lo-audit.log.1");
}

#[test]
fn audit_lines_name_decisions_and_cap_details() {
    assert_eq!(Decision::Denied.as_str(), "denied");
    assert_eq!(Decision::Allowed.as_str(), "allowed");
    assert_eq!(Decision::Error.as_str(), "error");
    assert_eq!(audit_detail(&"é".repeat(250)).chars().count(), 200);
    assert_eq!(audit_detail("ok"), "ok");
}

#[test]
fn clipboard_replies() {
    assert_eq!(clipboard_reply(None), CLIPBOARD_EMPTY);
    assert_eq!(clipboard_reply(Some("")), CLIPBOARD_EMPTY);
    assert_eq!(clipboard_reply(Some("hi")), "hi");
    let big = "x".repeat(MAX_CLIP + 1);
    let out = clipboard_reply(Some(&big));
    assert!(out.ends_with("\n… (truncated)"));
    assert_eq!(out.chars().count(), MAX_CLIP + "\n… (truncated)".chars().count());
}

#[test]
fn paths_join_like_pathbuf() {
    assert_eq!(join_path("/a", "b"), "/a/b");
    assert_eq!(join_path("/a/", "b"), "/a/b");
    assert_eq!(join_path("/a", "/b"), "/b");
    assert_eq!(dir_or(None, ".lo"), ".lo");
    assert_eq!(dir_or(Some("/cfg".to_string()), ".lo"), "/cfg");
}

#[test]
fn app_dirs_are_never_empty() {
    assert!(!config_dir().is_empty());
    assert!(!cache_dir().is_empty());
}

#[test]
fn datetime_sentence_matches_doc_example() {
    assert_eq!(datetime_sentence(15, 5, 6, 6, 14, 2026), "It is 3:05 pm on Saturday, June 14, 2026.");
    assert_eq!(datetime_sentence(0, 30, 1, 1, 1, 2024), "It is 12:30 am on Monday, January 1, 2024.");
    assert_eq!(datetime_sentence(12, 0, 7, 12, 31, 1999), "It is 12:00 pm on Sunday, December 31, 1999.");
    assert_eq!(datetime_sentence(11, 59, 3, 3, 5, -44), "It is 11:59 am on Wednesday, March 5, -44.");
}

#[test]
fn audit_args_cut_at_500_chars() {
    assert_eq!(truncated_args("{\"a\":1}"), None);
    let exact = "x".repeat(500);
    assert_eq!(truncated_args(&exact), None);
    let long = "é".repeat(501);
    let t = truncated_args(&long).unwrap();
    assert_eq!(t, format!("{}…", "é".repeat(500)));
}
