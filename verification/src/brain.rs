//! The agent loop's building blocks: the chat-message shapes of the
//! `/chat/completions` protocol, the opening conversation, and the bookkeeping
//! of one tool round.
use vstd::prelude::*;

use crate::chars::{trim, trimmed};
use crate::persona::{build_system_prompt, system_prompt_spec};
use crate::settings::LoSettings;
use crate::types::{ChatMessage, ChatRole};

verus! {

/// Native calls are reliable, so a few tool rounds are safe.
pub const MAX_ROUNDS: usize = 6;
/// Generous ceiling; the persona keeps the spoken reply short on its own.
pub const MAX_TOKENS: u32 = 1024;
/// The spoken fallback when the model produced no text after all rounds.
pub const EMPTY_REPLY_FALLBACK: &'static str = "My apologies, I wasn't able to formulate a response.";

/// The role of a request message.
#[derive(Debug, Clone, Copy, PartialEq, Eq, Structural)]
pub enum ReqRole {
    System,
    User,
    Assistant,
    Tool,
}

/// The kind of a native tool call (always a function).
#[derive(Debug, Clone, Copy, PartialEq, Eq, Structural)]
pub enum ToolCallKind {
    Function,
}

/// The function a tool call names, with its raw JSON arguments string.
#[derive(Debug, Clone)]
pub struct FunctionCall {
    pub name: String,
    /// Raw JSON arguments string (may be `{}` when the model sent none).
    pub arguments: String,
}

/// A native function call emitted by the model (and echoed back in the
/// assistant turn).
#[derive(Debug, Clone)]
pub struct ToolCall {
    pub id: String,
    pub kind: ToolCallKind,
    pub function: FunctionCall,
}

/// One message in the request `messages[]` array.
#[derive(Debug, Clone)]
pub struct ReqMessage {
    pub role: ReqRole,
    /// `None` is valid for an assistant turn that is only tool calls.
    pub content: Option<String>,
    pub tool_calls: Option<Vec<ToolCall>>,
    pub tool_call_id: Option<String>,
}

/// The view of a tool call: `(id, name, arguments)`.
pub open spec fn call_view(c: ToolCall) -> (Seq<char>, Seq<char>, Seq<char>) {
    (c.id@, c.function.name@, c.function.arguments@)
}

/// The view of an optional string.
pub open spec fn opt_view(o: Option<String>) -> Option<Seq<char>> {
    match o {
        Some(s) => Some(s@),
        None => None,
    }
}

/// The view of a message: `(role, content, tool calls, tool call id)`.
pub open spec fn msg_view(m: ReqMessage) -> (ReqRole, Option<Seq<char>>, Option<Seq<(Seq<char>, Seq<char>, Seq<char>)>>, Option<Seq<char>>) {
    (m.role, opt_view(m.content), match m.tool_calls {
        Some(cs) => Some(cs@.map_values(|c: ToolCall| call_view(c))),
        None => None,
    }, opt_view(m.tool_call_id))
}

/// The views of a conversation.
pub open spec fn convo_view(v: Seq<ReqMessage>) -> Seq<(ReqRole, Option<Seq<char>>, Option<Seq<(Seq<char>, Seq<char>, Seq<char>)>>, Option<Seq<char>>)> {
    v.map_values(|m: ReqMessage| msg_view(m))
}

/// A plain message of role `role` with text `content`.
pub open spec fn plain(role: ReqRole, content: Seq<char>) -> (ReqRole, Option<Seq<char>>, Option<Seq<(Seq<char>, Seq<char>, Seq<char>)>>, Option<Seq<char>>) {
    (role, Some(content), None, None)
}

impl ReqMessage {
    /// A system message.
    pub fn system(content: &str) -> (r: Self)
        ensures
            msg_view(r) == plain(ReqRole::System, content@),
    {
        ReqMessage { role: ReqRole::System, content: Some(String::from_str(content)), tool_calls: None, tool_call_id: None }
    }

    /// A user message.
    pub fn user(content: &str) -> (r: Self)
        ensures
            msg_view(r) == plain(ReqRole::User, content@),
    {
        ReqMessage { role: ReqRole::User, content: Some(String::from_str(content)), tool_calls: None, tool_call_id: None }
    }

    /// An assistant message.
    pub fn assistant(content: &str) -> (r: Self)
        ensures
            msg_view(r) == plain(ReqRole::Assistant, content@),
    {
        ReqMessage {
            role: ReqRole::Assistant,
            content: Some(String::from_str(content)),
            tool_calls: None,
            tool_call_id: None,
        }
    }

    /// The assistant turn that carries `tool_calls` (content may be `None`).
    pub fn assistant_tool_calls(content: Option<String>, calls: Vec<ToolCall>) -> (r: Self)
        ensures
            msg_view(r) == (ReqRole::Assistant, opt_view(content), Some(calls@.map_values(|c: ToolCall| call_view(c))), None::<Seq<char>>),
    {
        ReqMessage { role: ReqRole::Assistant, content, tool_calls: Some(calls), tool_call_id: None }
    }

    /// A `tool` result message referencing the originating call.
    pub fn tool_result(tool_call_id: &str, content: &str) -> (r: Self)
        ensures
            msg_view(r) == (ReqRole::Tool, Some(content@), None::<Seq<(Seq<char>, Seq<char>, Seq<char>)>>, Some(tool_call_id@)),
    {
        ReqMessage {
            role: ReqRole::Tool,
            content: Some(String::from_str(content)),
            tool_calls: None,
            tool_call_id: Some(String::from_str(tool_call_id)),
        }
    }
}

/// The request role of a UI-facing chat role.
pub open spec fn req_role(r: ChatRole) -> ReqRole {
    match r {
        ChatRole::System => ReqRole::System,
        ChatRole::User => ReqRole::User,
        ChatRole::Assistant => ReqRole::Assistant,
    }
}

/// The system line that grounds the model in the local time `now`.
pub open spec fn time_line(now: Seq<char>) -> Seq<char> {
    "The current local date and time is "@ + now
        + ". Use this for relative references like \"today\" or \"tonight\"; for anything else time-sensitive, use a tool."@
}

/// The opening conversation: the system prompt, an optional system line with
/// the (trimmed, non-blank) local time, then the history.
pub open spec fn initial_convo_spec(settings: LoSettings, history: Seq<ChatMessage>, now: Option<Seq<char>>) -> Seq<(ReqRole, Option<Seq<char>>, Option<Seq<(Seq<char>, Seq<char>, Seq<char>)>>, Option<Seq<char>>)> {
    let head = seq![plain(ReqRole::System, system_prompt_spec(settings))];
    let head = match now {
        Some(n) if trim(n).len() > 0 => head.push(plain(ReqRole::System, time_line(trim(n)))),
        _ => head,
    };
    head + history.map_values(|m: ChatMessage| plain(req_role(m.role), m.content@))
}

/// Build the opening conversation: the system prompt followed by the rolling
/// history (mapped to request messages).
pub fn initial_convo(settings: &LoSettings, history: &[ChatMessage]) -> (r: Vec<ReqMessage>)
    ensures
        convo_view(r@) == initial_convo_spec(*settings, history@, None),
{
    initial_convo_with_time(settings, history, None)
}

/// Like [`initial_convo`] but also grounds the model in the current local time
/// (a preformatted timestamp such as `"Sunday, 14 June 2026, 19:46"`), so it can
/// reason about "today" without a tool round.
pub fn initial_convo_with_time(settings: &LoSettings, history: &[ChatMessage], now: Option<&str>) -> (r: Vec<ReqMessage>)
    ensures
        convo_view(r@) == initial_convo_spec(*settings, history@, match now {
            Some(n) => Some(n@),
            None => None,
        }),
{
    let mut convo: Vec<ReqMessage> = Vec::new();
    let prompt = build_system_prompt(settings);
    convo.push(ReqMessage::system(prompt.as_str()));
    let ghost nv: Option<Seq<char>> = match now {
        Some(n) => Some(n@),
        None => None,
    };
    match now {
        Some(n) => {
            let t = trimmed(n);
            if !t.as_str().is_empty() {
                let mut line = String::from_str("The current local date and time is ");
                line.append(t.as_str());
                line.append(
                    ". Use this for relative references like \"today\" or \"tonight\"; for anything else time-sensitive, use a tool.",
                );
                let ghost before = convo_view(convo@);
                convo.push(ReqMessage::system(line.as_str()));
                assert(convo_view(convo@) == before.push(plain(ReqRole::System, time_line(trim(n@)))));
            }
        },
        None => {},
    }
    let ghost head = convo_view(convo@);
    let ghost hv = history@.map_values(|m: ChatMessage| plain(req_role(m.role), m.content@));
    assert(head == initial_convo_spec(*settings, Seq::<ChatMessage>::empty(), nv));
    let mut i: usize = 0;
    while i < history.len()
        invariant
            i <= history@.len(),
            hv == history@.map_values(|m: ChatMessage| plain(req_role(m.role), m.content@)),
            convo_view(convo@) == head + hv.take(i as int),
        decreases history@.len() - i,
    {
        let m = &history[i];
        let role = match m.role {
            ChatRole::System => ReqRole::System,
            ChatRole::User => ReqRole::User,
            ChatRole::Assistant => ReqRole::Assistant,
        };
        let ghost before = convo_view(convo@);
        convo.push(ReqMessage { role, content: Some(m.content.clone()), tool_calls: None, tool_call_id: None });
        assert(convo_view(convo@) == before.push(hv[i as int]));
        assert(hv.take(i + 1) == hv.take(i as int).push(hv[i as int]));
        i = i + 1;
    }
    assert(hv.take(history@.len() as int) == hv);
    convo
}

/// The messages one tool round appends: the assistant turn carrying the calls
/// (with its text, when non-empty), then one `tool` result per call, paired in
/// order (extra calls or results beyond the shorter list are dropped).
pub open spec fn tool_round_spec(assistant_text: Seq<char>, calls: Seq<(Seq<char>, Seq<char>, Seq<char>)>, results: Seq<Seq<char>>) -> Seq<(ReqRole, Option<Seq<char>>, Option<Seq<(Seq<char>, Seq<char>, Seq<char>)>>, Option<Seq<char>>)> {
    let n = if calls.len() < results.len() { calls.len() } else { results.len() };
    seq![(ReqRole::Assistant, if assistant_text.len() == 0 { None } else { Some(assistant_text) }, Some(calls), None::<Seq<char>>)]
        + Seq::new(n as nat, |i: int| (ReqRole::Tool, Some(results[i]), None::<Seq<(Seq<char>, Seq<char>, Seq<char>)>>, Some(calls[i].0)))
}

/// Append the assistant's tool-call turn followed by each tool result.
/// `results` is expected to be 1:1 with `calls`.
pub fn append_tool_round(convo: &mut Vec<ReqMessage>, assistant_text: &str, calls: Vec<ToolCall>, results: Vec<String>)
    ensures
        convo_view(final(convo)@) == convo_view(old(convo)@) + tool_round_spec(
            assistant_text@,
            calls@.map_values(|c: ToolCall| call_view(c)),
            results@.map_values(|s: String| s@),
        ),
{
    let ghost cv = calls@.map_values(|c: ToolCall| call_view(c));
    let ghost rv = results@.map_values(|s: String| s@);
    let content = if assistant_text.is_empty() {
        None
    } else {
        Some(String::from_str(assistant_text))
    };
    let mut ids: Vec<String> = Vec::new();
    let mut k: usize = 0;
    while k < calls.len()
        invariant
            k <= calls.len(),
            cv == calls@.map_values(|c: ToolCall| call_view(c)),
            ids@.len() == k,
            forall|j: int| 0 <= j < k ==> #[trigger] ids@[j]@ == cv[j].0,
        decreases calls.len() - k,
    {
        ids.push(calls[k].id.clone());
        k = k + 1;
    }
    let ghost base = convo_view(convo@);
    convo.push(ReqMessage::assistant_tool_calls(content, calls));
    let ghost head = convo_view(convo@);
    let n = if ids.len() < results.len() { ids.len() } else { results.len() };
    let ghost tail = Seq::new(n as nat, |i: int| (ReqRole::Tool, Some(rv[i]), None::<Seq<(Seq<char>, Seq<char>, Seq<char>)>>, Some(cv[i].0)));
    let mut i: usize = 0;
    while i < n
        invariant
            i <= n,
            n <= ids@.len(),
            n <= results@.len(),
            rv == results@.map_values(|s: String| s@),
            rv.len() == results@.len(),
            forall|j: int| 0 <= j < ids@.len() ==> #[trigger] ids@[j]@ == cv[j].0,
            tail.len() == n,
            forall|j: int| 0 <= j < n ==> #[trigger] tail[j] == (ReqRole::Tool, Some(rv[j]), None::<Seq<(Seq<char>, Seq<char>, Seq<char>)>>, Some(cv[j].0)),
            convo_view(convo@) == head + tail.take(i as int),
        decreases n - i,
    {
        let ghost before = convo_view(convo@);
        convo.push(ReqMessage::tool_result(ids[i].as_str(), results[i].as_str()));
        assert(convo_view(convo@) == before.push(tail[i as int]));
        assert(tail.take(i + 1) == tail.take(i as int).push(tail[i as int]));
        i = i + 1;
    }
    assert(tail.take(n as int) == tail);
    assert(head == base + seq![(ReqRole::Assistant, if assistant_text@.len() == 0 { None } else { Some(assistant_text@) }, Some(cv), None::<Seq<char>>)]);
}

/// The agent loop's progress through one turn: how many completions were
/// requested, the tools invoked so far, and the final text once the model
/// answered without calling a tool.
#[derive(Debug, Clone)]
pub struct TurnLoop {
    pub rounds: usize,
    pub final_text: Option<String>,
    pub tools_invoked: Vec<String>,
    pub used_web_search: bool,
}

impl TurnLoop {
    /// A turn that has not asked the model anything yet.
    pub fn new() -> (r: TurnLoop)
        ensures
            r.rounds == 0,
            r.final_text is None,
            r.tools_invoked@.len() == 0,
            !r.used_web_search,
    {
        TurnLoop { rounds: 0, final_text: None, tools_invoked: Vec::new(), used_web_search: false }
    }

    /// Whether another completion should be requested: the model has not
    /// answered yet and fewer than [`MAX_ROUNDS`] were requested.
    pub fn wants_completion(&self) -> (r: bool)
        ensures
            r == (self.final_text is None && self.rounds < MAX_ROUNDS),
    {
        self.final_text.is_none() && self.rounds < MAX_ROUNDS
    }

    /// Absorb one completion: `text` with `n_calls` tool calls. Without calls
    /// the turn is answered with the trimmed text; with calls a tool round
    /// follows (the result is `true`).
    pub fn on_completion(&mut self, text: &str, n_calls: usize) -> (tools: bool)
        requires
            old(self).rounds < MAX_ROUNDS,
        ensures
            final(self).rounds == old(self).rounds + 1,
            tools == (n_calls > 0),
            n_calls == 0 ==> (final(self).final_text matches Some(t) && t@ == trim(text@)),
            n_calls > 0 ==> opt_view(final(self).final_text) == opt_view(old(self).final_text),
            final(self).tools_invoked@ == old(self).tools_invoked@,
            final(self).used_web_search == old(self).used_web_search,
    {
        self.rounds = self.rounds + 1;
        if n_calls == 0 {
            self.final_text = Some(trimmed(text));
            false
        } else {
            true
        }
    }

    /// Record that the tool `name` was invoked.
    pub fn record_tool(&mut self, name: &str)
        ensures
            final(self).rounds == old(self).rounds,
            opt_view(final(self).final_text) == opt_view(old(self).final_text),
            final(self).tools_invoked@.len() == old(self).tools_invoked@.len() + 1,
            final(self).tools_invoked@.take(old(self).tools_invoked@.len() as int) == old(self).tools_invoked@,
            final(self).tools_invoked@.last()@ == name@,
            final(self).used_web_search == (old(self).used_web_search || name@ == "web_search"@),
    {
        self.tools_invoked.push(String::from_str(name));
        if crate::chars::str_eq(name, "web_search") {
            self.used_web_search = true;
        }
    }

    /// The reply the turn ends with: the model's final text, or the spoken
    /// fallback when it produced none (no answer within the rounds, or an
    /// empty one).
    pub fn reply(&self) -> (r: String)
        ensures
            r@ == (match self.final_text {
                Some(t) if t@.len() > 0 => t@,
                _ => EMPTY_REPLY_FALLBACK@,
            }),
    {
        match &self.final_text {
            Some(t) => if t.as_str().is_empty() {
                String::from_str(EMPTY_REPLY_FALLBACK)
            } else {
                t.clone()
            },
            None => String::from_str(EMPTY_REPLY_FALLBACK),
        }
    }
}


} // verus!
