//! Shared types: the data contract passed between the agent core, the engine
//! selector, and the UI.
use vstd::prelude::*;

verus! {

/// The UI state machine.
#[derive(Debug, Clone, Copy, PartialEq, Eq, Structural)]
pub enum LoState {
    Boot,
    Idle,
    Listening,
    Thinking,
    Speaking,
    Error,
}

/// How a turn is activated.
#[derive(Debug, Clone, Copy, PartialEq, Eq, Structural)]
pub enum ActivationMode {
    /// Wake word ("Hey Jarvis").
    Wake,
    /// Push-to-talk (hold Space).
    Ptt,
    /// Voice-activity detection (auto-segment).
    Vad,
}

/// A concrete LLM engine.
#[derive(Debug, Clone, Copy, PartialEq, Eq, Structural)]
pub enum BackendKind {
    Mlx,
    Llama,
    Ollama,
    Custom,
}

/// The lower-case name of an engine.
pub open spec fn backend_kind_name(k: BackendKind) -> Seq<char> {
    match k {
        BackendKind::Mlx => "mlx"@,
        BackendKind::Llama => "llama"@,
        BackendKind::Ollama => "ollama"@,
        BackendKind::Custom => "custom"@,
    }
}

impl BackendKind {
    /// The lower-case name of the engine (`mlx`, `llama`, `ollama`, `custom`).
    pub fn as_str(self) -> (r: &'static str)
        ensures
            r@ == backend_kind_name(self),
    {
        match self {
            BackendKind::Mlx => "mlx",
            BackendKind::Llama => "llama",
            BackendKind::Ollama => "ollama",
            BackendKind::Custom => "custom",
        }
    }
}

/// The user-selectable backend setting (`Auto` resolves by platform/hardware).
#[derive(Debug, Clone, Copy, PartialEq, Eq, Structural)]
pub enum BackendChoice {
    Auto,
    Mlx,
    Llama,
    Ollama,
    Custom,
}

/// The role of a UI-facing chat message.
#[derive(Debug, Clone, Copy, PartialEq, Eq, Structural)]
pub enum ChatRole {
    System,
    User,
    Assistant,
}

/// A chat message exchanged with the brain (the UI-facing shape: no tool calls).
#[derive(Debug, Clone)]
pub struct ChatMessage {
    pub role: ChatRole,
    pub content: String,
}

/// The view of a chat message: its role and its text.
pub open spec fn msg_pair(m: ChatMessage) -> (ChatRole, Seq<char>) {
    (m.role, m.content@)
}

/// The views of a transcript.
pub open spec fn msgs_view(h: Seq<ChatMessage>) -> Seq<(ChatRole, Seq<char>)> {
    h.map_values(|m: ChatMessage| msg_pair(m))
}

/// A copy of a chat message (same role, same text).
pub fn copy_message(m: &ChatMessage) -> (r: ChatMessage)
    ensures
        msg_pair(r) == msg_pair(*m),
{
    ChatMessage { role: m.role, content: m.content.clone() }
}

/// A copy of a transcript, message by message.
pub fn copy_messages(h: &[ChatMessage]) -> (r: Vec<ChatMessage>)
    ensures
        msgs_view(r@) == msgs_view(h@),
{
    let mut r: Vec<ChatMessage> = Vec::new();
    let mut i: usize = 0;
    while i < h.len()
        invariant
            i <= h@.len(),
            msgs_view(r@) == msgs_view(h@).take(i as int),
        decreases h@.len() - i,
    {
        r.push(copy_message(&h[i]));
        assert(msgs_view(h@).take(i + 1) == msgs_view(h@).take(i as int).push(msg_pair(h@[i as int])));
        i = i + 1;
    }
    assert(msgs_view(h@).take(h@.len() as int) == msgs_view(h@));
    r
}

/// The result of one full agent turn.
#[derive(Debug, Clone)]
pub struct ChatTurnResult {
    pub turn_id: String,
    pub reply: String,
    pub used_web_search: bool,
    pub tools_invoked: Vec<String>,
    pub error: Option<String>,
}

/// Health of the local engine, shown in the HUD.
#[derive(Debug, Clone)]
pub struct LocalStatus {
    /// The engine is running and the model is loaded + warmed.
    pub engine_up: bool,
    /// The model is still loading/warming (not an error).
    pub loading: bool,
    pub backend: Option<BackendKind>,
    pub model: String,
    pub detail: Option<String>,
}

/// First-run engine/model download progress.
#[derive(Debug, Clone)]
pub struct ModelDownloadEvent {
    /// `ENGINE` | `WEIGHTS` | ...
    pub label: String,
    /// `None` = indeterminate.
    pub pct: Option<u8>,
}

} // verus!
