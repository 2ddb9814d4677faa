use lo::files::{
    copied_message, copy_dir_refusal, deleted_message, exists_refusal, join_lines, moved_message, opened_message,
    read_refusal, render_listing, search_continues, search_hit, search_needle, search_report, search_skips, sort_lines,
    start_dir, wrote_message, BINARY_REFUSAL, NO_QUERY,
};
use lo::sandbox::{MAX_LIST, MAX_MATCHES};

#[test]
fn list_dir_marks_dirs_and_files() {
    let entries = vec![(false, "b.txt".to_string()), (true, "sub".to_string()), (false, "a.txt".to_string())];
    let out = render_listing("/root/dir", &entries);
    assert_eq!(out, "/root/dir:\n- a.txt\n- b.txt\nd sub");
}

#[test]
fn long_listings_are_cut_with_a_count() {
    let entries: Vec<(bool, String)> = (0..MAX_LIST + 5).map(|i| (false, format!("f{i:04}"))).collect();
    let out = render_listing("/d", &entries);
    assert!(out.ends_with("\n… and 5 more"), "{out}");
    assert_eq!(out.lines().count(), 1 + MAX_LIST + 1);
    assert!(!out.contains("f0200"));
}

#[test]
fn lines_sort_like_strings() {
    let v = vec!["d b".to_string(), "- z".to_string(), "- a".to_string(), "d a".to_string(), "- a".to_string()];
    let mut expect = v.clone();
    expect.sort();
    assert_eq!(sort_lines(v), expect);
    assert_eq!(join_lines(&vec!["x".to_string(), "y".to_string()], ", "), "x, y");
    assert_eq!(join_lines(&vec![], "\n"), "");
}

#[test]
fn read_refusals() {
    assert_eq!(read_refusal("/d", true, 0), Some("/d is a directory — use list_dir.".to_string()));
    assert_eq!(read_refusal("/f", false, 262144), None);
    assert_eq!(
        read_refusal("/f", false, 300 * 1024),
        Some("That file is 300 KB; I only read up to 256 KB.".to_string())
    );
    assert_eq!(read_refusal("/f", false, 262144 + 512), Some("That file is 257 KB; I only read up to 256 KB.".to_string()));
    assert_eq!(BINARY_REFUSAL, "That looks like a binary file, so I won't read it as text.");
}

#[test]
fn search_files_matches_by_name_and_skips_dotfiles() {
    let needle = search_needle("  NOTES ").unwrap();
    assert_eq!(needle, "notes");
    assert!(search_hit("My-Notes.txt", &needle));
    assert!(!search_hit("todo.txt", &needle));
    assert!(search_skips(".hidden"));
    assert!(search_skips("node_modules"));
    assert!(!search_skips("src"));
    assert!(search_needle("   ").is_none());
    assert_eq!(NO_QUERY, "No search query was given.");
    assert!(search_continues(0, 6));
    assert!(!search_continues(0, 7));
    assert!(!search_continues(MAX_MATCHES, 0));
}

#[test]
fn search_reports() {
    assert_eq!(search_report("q", "/base", &vec![]), "No files matching \"q\" under /base.");
    assert_eq!(search_report("q", "/b", &vec!["/b/q1".to_string(), "/b/q2".to_string()]), "/b/q1\n/b/q2");
    let full: Vec<String> = (0..MAX_MATCHES).map(|i| format!("/b/{i}")).collect();
    assert!(search_report("q", "/b", &full).ends_with("\n… (truncated)"));
}

#[test]
fn tool_answers() {
    assert_eq!(start_dir("  "), "~");
    assert_eq!(start_dir("/x"), "/x");
    assert_eq!(exists_refusal("/a"), "/a already exists. Pass overwrite to replace it.");
    assert_eq!(wrote_message(5, "/a"), "Wrote 5 bytes to /a.");
    assert_eq!(moved_message("/a", "/b"), "Moved /a to /b.");
    assert_eq!(copy_dir_refusal("/d"), "/d is a directory; I only copy files.");
    assert_eq!(copied_message("/a", "/b", 3), "Copied /a to /b (3 bytes).");
    assert_eq!(deleted_message("/a"), "Deleted /a.");
    assert_eq!(opened_message("/a"), "Opened /a.");
}
