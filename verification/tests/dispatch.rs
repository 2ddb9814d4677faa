use lo::audit::Decision;
use lo::dispatch::{finish_call, parse_tool_args, prepare_call, prepare_parsed, route, ArgValue, NumArg, Prepared, ToolAction, ToolArgs};
use lo::tools::POWER_USER_REQUIRED;

fn args(entries: Vec<(&str, ArgValue)>) -> ToolArgs {
    ToolArgs { entries: entries.into_iter().map(|(k, v)| (k.to_string(), v)).collect() }
}

#[test]
fn malformed_json_args_are_reported() {
    match prepare_call("get_datetime", "{not json", false) {
        Prepared::Malformed { reply } => assert!(reply.contains("could not parse arguments"), "{reply}"),
        other => panic!("expected a parse error, got {other:?}"),
    }
}

#[test]
fn unknown_tool_is_reported() {
    match prepare_call("no_such_tool", "{}", false) {
        Prepared::Run { action: ToolAction::Unknown { reply }, audited } => {
            assert!(reply.contains("unknown tool"), "{reply}");
            assert_eq!(reply, "Error: unknown tool \"no_such_tool\".");
            assert!(!audited);
        }
        other => panic!("expected an unknown-tool reply, got {other:?}"),
    }
}

#[test]
fn danger_tool_denied_without_power_user() {
    let out = prepare_call("write_file", "{\"path\":\"x\",\"content\":\"y\"}", false);
    match out {
        Prepared::Denied { reply } => assert_eq!(reply, POWER_USER_REQUIRED),
        other => panic!("expected a denial, got {other:?}"),
    }
}

#[test]
fn allowed_calls_route_with_their_arguments() {
    match prepare_call("write_file", "{\"path\":\"x\",\"content\":\"y\",\"overwrite\":true}", true) {
        Prepared::Run { action: ToolAction::WriteFile { path, content, overwrite }, audited } => {
            assert_eq!(path, "x");
            assert_eq!(content, "y");
            assert!(overwrite);
            assert!(audited);
        }
        other => panic!("unexpected {other:?}"),
    }
    match prepare_call("read_file", "", false) {
        Prepared::Run { action: ToolAction::ReadFile { path }, audited } => {
            assert_eq!(path, "");
            assert!(!audited);
        }
        other => panic!("unexpected {other:?}"),
    }
    // A JSON value that is not an object carries no arguments.
    match prepare_call("system_info", "[1, 2]", false) {
        Prepared::Run { action: ToolAction::SystemInfo { kind }, .. } => assert_eq!(kind, "overview"),
        other => panic!("unexpected {other:?}"),
    }
}

#[test]
fn argument_defaults_and_coercions() {
    let a = args(vec![
        ("seconds", ArgValue::Number("90".to_string())),
        ("label", ArgValue::Str("".to_string())),
    ]);
    match route("set_timer", &a) {
        ToolAction::SetTimer { seconds: NumArg::Number(n), label } => {
            assert_eq!(n, "90");
            assert!(label.is_none());
        }
        other => panic!("unexpected {other:?}"),
    }
    let a = args(vec![("percent", ArgValue::Str(" 40 ".to_string()))]);
    assert!(matches!(route("set_volume", &a), ToolAction::SetVolume { percent: NumArg::Text(t) } if t == " 40 "));
    assert!(matches!(route("set_volume", &args(vec![])), ToolAction::SetVolume { percent: NumArg::Missing }));
    let a = args(vec![("action", ArgValue::Bool(true))]);
    assert!(matches!(route("media_control", &a), ToolAction::MediaControl { action } if action == "playpause"));
    let a = args(vec![
        ("command", ArgValue::Str("ls".to_string())),
        ("args", ArgValue::Array(vec!["-la".to_string(), "null".to_string()])),
        ("cwd", ArgValue::Str("/tmp".to_string())),
    ]);
    match route("run_command", &a) {
        ToolAction::RunCommand { command, args, cwd } => {
            assert_eq!(command, "ls");
            assert_eq!(args, vec!["-la".to_string(), "null".to_string()]);
            assert_eq!(cwd.as_deref(), Some("/tmp"));
        }
        other => panic!("unexpected {other:?}"),
    }
    // The first entry under a key wins.
    let a = args(vec![("query", ArgValue::Str("a".to_string())), ("query", ArgValue::Str("b".to_string()))]);
    assert!(matches!(route("web_search", &a), ToolAction::WebSearch { query } if query == "a"));
}

#[test]
fn outcomes_are_phrased_and_audited() {
    assert_eq!(finish_call("read_file", Ok("text".to_string()), false), ("text".to_string(), None));
    assert_eq!(
        finish_call("write_file", Ok("Wrote 1 bytes to /x.".to_string()), true),
        ("Wrote 1 bytes to /x.".to_string(), Some(Decision::Allowed))
    );
    assert_eq!(
        finish_call("read_file", Err("No path was given.".to_string()), false),
        ("Error running read_file: No path was given.".to_string(), None)
    );
    assert_eq!(
        finish_call("delete_path", Err("gone".to_string()), true),
        ("Error running delete_path: gone".to_string(), Some(Decision::Error))
    );
}

#[test]
fn arguments_text_is_parsed_into_entries() {
    let a = parse_tool_args("{\"b\": [\"x\", 2, null, {\"k\": 1}], \"a\": 1.5, \"c\": true, \"d\": null, \"e\": {}}").unwrap();
    let keys: Vec<&str> = a.entries.iter().map(|(k, _)| k.as_str()).collect();
    assert_eq!(keys, vec!["a", "b", "c", "d", "e"]);
    assert!(matches!(&a.entries[0].1, ArgValue::Number(t) if t == "1.5"));
    match &a.entries[1].1 {
        ArgValue::Array(items) => assert_eq!(items, &vec!["x".to_string(), "2".to_string(), "null".to_string(), "{\"k\":1}".to_string()]),
        other => panic!("unexpected {other:?}"),
    }
    assert!(matches!(a.entries[2].1, ArgValue::Bool(true)));
    assert!(matches!(a.entries[3].1, ArgValue::Null));
    assert!(matches!(a.entries[4].1, ArgValue::Object));
    assert!(parse_tool_args("[1]").unwrap().entries.is_empty());
    assert!(parse_tool_args("{oops").is_none());
}

#[test]
fn prepare_parsed_uses_the_given_parse() {
    let parsed = args(vec![("path", ArgValue::Str("/tmp/x".to_string()))]);
    match prepare_parsed("read_file", "ignored but non-empty", Some(parsed), false) {
        Prepared::Run { action: ToolAction::ReadFile { path }, .. } => assert_eq!(path, "/tmp/x"),
        other => panic!("unexpected {other:?}"),
    }
    match prepare_parsed("read_file", "x", None, false) {
        Prepared::Malformed { reply } => assert_eq!(reply, "Error: could not parse arguments for read_file."),
        other => panic!("unexpected {other:?}"),
    }
}
