use lo::brain::{
    append_tool_round, initial_convo, initial_convo_with_time, FunctionCall, ReqMessage, ReqRole, ToolCall, ToolCallKind,
    TurnLoop, EMPTY_REPLY_FALLBACK, MAX_ROUNDS,
};
use lo::persona::build_system_prompt;
use lo::settings::LoSettings;
use lo::types::{ChatMessage, ChatRole};

#[test]
fn initial_convo_starts_with_system_prompt() {
    let s = LoSettings::default();
    let history = vec![
        ChatMessage { role: ChatRole::User, content: "hi".into() },
        ChatMessage { role: ChatRole::Assistant, content: "hello".into() },
    ];
    let convo = initial_convo(&s, &history);
    assert_eq!(convo.len(), 3);
    assert_eq!(convo[0].role, ReqRole::System);
    assert_eq!(convo[1].role, ReqRole::User);
    assert_eq!(convo[2].role, ReqRole::Assistant);
}

#[test]
fn tool_round_appends_assistant_then_results() {
    let mut convo = vec![ReqMessage::user("what time is it")];
    let calls = vec![ToolCall {
        id: "call_0".into(),
        kind: ToolCallKind::Function,
        function: FunctionCall { name: "get_datetime".into(), arguments: "{}".into() },
    }];
    append_tool_round(&mut convo, "", calls, vec!["It is 3pm.".into()]);
    assert_eq!(convo.len(), 3);
    assert_eq!(convo[1].role, ReqRole::Assistant);
    assert!(convo[1].content.is_none());
    assert_eq!(convo[2].role, ReqRole::Tool);
    assert_eq!(convo[2].tool_call_id.as_deref(), Some("call_0"));
}

#[test]
fn time_grounding_line_is_added_when_given() {
    let s = LoSettings::default();
    let convo = initial_convo_with_time(&s, &[], Some("  Sunday, 14 June 2026, 19:46 "));
    assert_eq!(convo.len(), 2);
    assert_eq!(convo[1].role, ReqRole::System);
    assert_eq!(
        convo[1].content.as_deref(),
        Some("The current local date and time is Sunday, 14 June 2026, 19:46. Use this for relative references like \"today\" or \"tonight\"; for anything else time-sensitive, use a tool.")
    );
    let blank = initial_convo_with_time(&s, &[], Some("   "));
    assert_eq!(blank.len(), 1);
    assert_eq!(blank[0].content.as_deref(), Some(build_system_prompt(&s).as_str()));
}

#[test]
fn tool_round_pairs_results_with_calls_in_order() {
    let call = |id: &str, name: &str| ToolCall {
        id: id.into(),
        kind: ToolCallKind::Function,
        function: FunctionCall { name: name.into(), arguments: "{}".into() },
    };
    let mut convo = Vec::new();
    append_tool_round(
        &mut convo,
        "Checking.",
        vec![call("a", "get_datetime"), call("b", "web_search")],
        vec!["r1".into(), "r2".into(), "extra".into()],
    );
    assert_eq!(convo.len(), 3);
    assert_eq!(convo[0].content.as_deref(), Some("Checking."));
    assert_eq!(convo[0].tool_calls.as_ref().map(|c| c.len()), Some(2));
    assert_eq!(convo[1].tool_call_id.as_deref(), Some("a"));
    assert_eq!(convo[1].content.as_deref(), Some("r1"));
    assert_eq!(convo[2].tool_call_id.as_deref(), Some("b"));
    assert_eq!(convo[2].content.as_deref(), Some("r2"));
}

#[test]
fn turn_loop_answers_or_runs_tools_within_the_round_cap() {
    let mut t = TurnLoop::new();
    let mut asked = 0;
    while t.wants_completion() {
        asked += 1;
        // The model keeps calling tools.
        assert!(t.on_completion("thinking", 1));
        t.record_tool("web_search");
    }
    assert_eq!(asked, MAX_ROUNDS);
    assert!(t.used_web_search);
    assert_eq!(t.tools_invoked.len(), MAX_ROUNDS);
    assert_eq!(t.reply(), EMPTY_REPLY_FALLBACK);

    let mut t = TurnLoop::new();
    assert!(!t.on_completion("  It is 3pm.  ", 0));
    assert!(!t.wants_completion());
    assert_eq!(t.reply(), "It is 3pm.");
    assert!(!t.used_web_search);
}
