use lo::sandbox::{
    absolutize, allowed_roots, expand_home, lexical_normalize, looks_binary, resolve_in_roots, PathEnv, SandboxError,
};
use lo::settings::LoSettings;
use lo::shell::{prepare, truncate_output, ShellError, MAX_OUTPUT};

fn env() -> PathEnv {
    PathEnv { home: "/home/u".to_string(), cwd: "/work".to_string() }
}

fn rooted(root: &str) -> LoSettings {
    LoSettings { allowed_fs_roots: vec![root.to_string()], ..Default::default() }
}

/// Real paths equal their lexical form (no symlinks).
fn plain(p: &str) -> String {
    p.to_string()
}

#[test]
fn empty_path_is_rejected() {
    let s = LoSettings::default();
    assert!(matches!(resolve_in_roots(&s, "   ", &env(), &plain), Err(SandboxError::Empty)));
}

#[test]
fn path_inside_root_is_accepted() {
    let s = rooted("/data/root");
    let resolved = resolve_in_roots(&s, "/data/root/notes.txt", &env(), &plain).unwrap();
    assert!(resolved.starts_with("/data/root"));
    assert_eq!(resolved, "/data/root/notes.txt");
}

#[test]
fn dotdot_escape_is_rejected() {
    let s = rooted("/data/root/project");
    let err = resolve_in_roots(&s, "/data/root/project/../../etc/passwd", &env(), &plain);
    assert!(matches!(err, Err(SandboxError::OutsideRoots { .. })), "got {err:?}");
}

#[test]
fn symlink_pointing_outside_root_is_rejected() {
    let s = rooted("/data/root");
    // `/data/root/escape` is a symlink to `/elsewhere`.
    let realpath = |p: &str| -> String {
        match p.strip_prefix("/data/root/escape") {
            Some(rest) => format!("/elsewhere{rest}"),
            None => p.to_string(),
        }
    };
    let err = resolve_in_roots(&s, "/data/root/escape/secret.txt", &env(), &realpath);
    assert!(matches!(err, Err(SandboxError::OutsideRoots { .. })), "symlink escape must be blocked: {err:?}");
}

#[test]
fn binary_sniff() {
    assert!(looks_binary(b"abc\0def"));
    assert!(!looks_binary(b"plain text"));
}

#[test]
fn expand_home_resolves_tilde() {
    let home = "/home/u";
    assert_eq!(expand_home("~", home), home);
    assert_eq!(expand_home("~/Documents", home), "/home/u/Documents");
    assert_eq!(expand_home("/abs/path", home), "/abs/path");
}

#[test]
fn relative_paths_resolve_against_cwd_and_tilde() {
    let s = rooted("/work");
    assert_eq!(resolve_in_roots(&s, "notes/./a.txt", &env(), &plain).unwrap(), "/work/notes/a.txt");
    let s = LoSettings::default();
    assert_eq!(resolve_in_roots(&s, "~/x", &env(), &plain).unwrap(), "/home/u/x");
}

#[test]
fn normalize_and_absolutize() {
    assert_eq!(lexical_normalize("/a/b/../c/./d"), "/a/c/d");
    assert_eq!(lexical_normalize("/../x"), "/x");
    assert_eq!(absolutize("rel", "/base"), "/base/rel");
    assert_eq!(absolutize("/abs", "/base"), "/abs");
}

#[test]
fn default_root_is_home_and_roots_are_expanded() {
    assert_eq!(allowed_roots(&LoSettings::default(), &env()), vec!["/home/u".to_string()]);
    let s = LoSettings { allowed_fs_roots: vec!["~/proj".to_string(), "/srv/../data".to_string()], ..Default::default() };
    assert_eq!(allowed_roots(&s, &env()), vec!["/home/u/proj".to_string(), "/data".to_string()]);
}

#[test]
fn outside_error_lists_the_roots() {
    let s = rooted("/data/root");
    match resolve_in_roots(&s, "/etc/hosts", &env(), &plain) {
        Err(e @ SandboxError::OutsideRoots { .. }) => assert!(e.message().contains("/data/root")),
        other => panic!("expected OutsideRoots, got {other:?}"),
    }
}

#[test]
fn empty_command_is_rejected() {
    let s = LoSettings::default();
    assert!(matches!(prepare(&s, "  ", &vec![], None, &env(), &plain), Err(ShellError::EmptyCommand)));
}

#[test]
fn cwd_defaults_to_first_root() {
    let s = rooted("/data/root");
    let plan = prepare(&s, "git", &vec!["status".to_string()], None, &env(), &plain).unwrap();
    assert_eq!(plan.program, "git");
    assert_eq!(plan.args, vec!["status".to_string()]);
    assert_eq!(plan.cwd, "/data/root");
}

#[test]
fn cwd_outside_roots_is_rejected() {
    let s = rooted("/data/root");
    let err = prepare(&s, "ls", &vec![], Some("/tmp/outside"), &env(), &plain);
    assert!(matches!(err, Err(ShellError::Sandbox(_))), "got {err:?}");
}

#[test]
fn argv_is_preserved_verbatim_no_shell_parsing() {
    let s = rooted("/data/root");
    let plan = prepare(&s, "echo", &vec!["; rm -rf /".to_string()], None, &env(), &plain).unwrap();
    assert_eq!(plan.args, vec!["; rm -rf /".to_string()]);
}

#[test]
fn output_is_truncated() {
    let big = "a".repeat(MAX_OUTPUT + 100);
    let out = truncate_output(&big);
    assert!(out.ends_with("… (truncated)"));
}

#[test]
fn short_output_is_kept() {
    assert_eq!(truncate_output("hello"), "hello");
    let exact = "b".repeat(MAX_OUTPUT);
    assert_eq!(truncate_output(&exact), exact);
    let big = "c".repeat(MAX_OUTPUT + 1);
    assert_eq!(truncate_output(&big), format!("{}\n… (truncated)", "c".repeat(MAX_OUTPUT)));
}

#[test]
fn allowed_roots_are_absolute_without_dot_segments() {
    let s = LoSettings {
        allowed_fs_roots: vec!["rel/./x/../y".to_string(), "~/a/..".to_string(), "/../..".to_string(), ".".to_string()],
        ..Default::default()
    };
    let roots = allowed_roots(&s, &env());
    assert_eq!(roots.len(), 4);
    for r in &roots {
        assert!(r.starts_with('/'), "{r}");
        assert!(r.split('/').all(|seg| seg != "." && seg != ".."), "{r}");
    }
}
