use lo::download::{fetch, report, NO_ML_BUILD};
use lo::stream::{
    after_failure, classify_line, decode_line, failure_message, take_line, DeltaCall, RetryStep, SseLine,
    StreamAccumulator, StreamDelta,
};
use std::cell::RefCell;

fn frag(index: usize, id: Option<&str>, name: Option<&str>, args: Option<&str>) -> DeltaCall {
    DeltaCall {
        index,
        id: id.map(|s| s.to_string()),
        name: name.map(|s| s.to_string()),
        arguments: args.map(|s| s.to_string()),
    }
}

#[test]
fn lines_are_cut_at_newlines() {
    let mut buf = b"data: a\ndata: b\npartial".to_vec();
    assert_eq!(take_line(&mut buf), Some(b"data: a\n".to_vec()));
    assert_eq!(take_line(&mut buf), Some(b"data: b\n".to_vec()));
    assert_eq!(take_line(&mut buf), None);
    assert_eq!(buf, b"partial".to_vec());
}

#[test]
fn split_utf8_is_reassembled_before_decoding() {
    let mut buf = vec![b'h', 0xC3];
    assert_eq!(take_line(&mut buf), None);
    buf.extend_from_slice(&[0xA9, b'\n']);
    let line = take_line(&mut buf).unwrap();
    assert_eq!(decode_line(&line), "hé\n");
}

#[test]
fn lines_are_classified() {
    assert!(matches!(classify_line("data: {\"x\":1}\n"), SseLine::Data(p) if p == "{\"x\":1}"));
    assert!(matches!(classify_line("  data:[DONE]  "), SseLine::Done));
    assert!(matches!(classify_line(": keep-alive"), SseLine::Ignore));
    assert!(matches!(classify_line(""), SseLine::Ignore));
}

#[test]
fn prose_and_tool_calls_accumulate_by_index() {
    let mut acc = StreamAccumulator::new();
    let d = acc.push_event(Some(StreamDelta { content: Some("It is ".to_string()), tool_calls: vec![] }));
    assert_eq!(d.as_deref(), Some("It is "));
    assert_eq!(acc.push_event(Some(StreamDelta { content: Some(String::new()), tool_calls: vec![] })), None);
    acc.push_event(Some(StreamDelta {
        content: None,
        tool_calls: vec![frag(1, Some("call_b"), Some("web_search"), Some("{\"q\":"))],
    }));
    acc.push_event(Some(StreamDelta {
        content: None,
        tool_calls: vec![frag(0, Some("call_a"), Some("get_datetime"), None), frag(1, Some(""), None, Some("\"x\"}"))],
    }));
    assert_eq!(acc.push_event(None), None);
    let (text, calls) = acc.finish();
    assert_eq!(text, "It is ");
    assert_eq!(calls.len(), 2);
    assert_eq!(calls[0].id, "call_a");
    assert_eq!(calls[0].function.name, "get_datetime");
    assert_eq!(calls[0].function.arguments, "{}");
    assert_eq!(calls[1].id, "call_b");
    assert_eq!(calls[1].function.arguments, "{\"q\":\"x\"}");
}

#[test]
fn retry_policy_and_failure_message() {
    assert_eq!(after_failure(1, None), RetryStep::Retry);
    assert_eq!(after_failure(1, Some(503)), RetryStep::Retry);
    assert_eq!(after_failure(1, Some(404)), RetryStep::Fail);
    assert_eq!(after_failure(2, Some(503)), RetryStep::Fail);
    assert_eq!(failure_message(500, "oops"), "Brain request failed (500): oops");
    let long = "y".repeat(400);
    assert_eq!(failure_message(502, &long), format!("Brain request failed (502): {}", "y".repeat(300)));
}

#[test]
fn progress_is_reported_when_installed() {
    let seen = RefCell::new(Vec::new());
    let cb = |label: &str, pct: Option<u8>| seen.borrow_mut().push((label.to_string(), pct));
    report(Some(&cb), "WEIGHTS", Some(42));
    report::<fn(&str, Option<u8>)>(None, "WEIGHTS", None);
    assert_eq!(seen.into_inner(), vec![("WEIGHTS".to_string(), Some(42))]);
    let r = fetch::<fn(&str, Option<u8>)>("repo", "file", "HEARING", None);
    assert_eq!(r, Err(NO_ML_BUILD.to_string()));
}

#[test]
fn sparse_call_indices_come_out_in_order() {
    let mut acc = StreamAccumulator::new();
    acc.push_event(Some(StreamDelta {
        content: None,
        tool_calls: vec![frag(7, Some("c7"), Some("list_dir"), None), frag(2, Some("c2"), Some("read_file"), Some("{"))],
    }));
    acc.push_event(Some(StreamDelta { content: None, tool_calls: vec![frag(5, Some("c5"), None, None), frag(2, None, None, Some("}"))] }));
    let (_, calls) = acc.finish();
    let ids: Vec<&str> = calls.iter().map(|c| c.id.as_str()).collect();
    assert_eq!(ids, vec!["c2", "c5", "c7"]);
    assert_eq!(calls[0].function.arguments, "{}");
    assert_eq!(calls[1].function.name, "");
    assert_eq!(calls[2].function.arguments, "{}");
}
