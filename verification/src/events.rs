//! The in-process message contract between the two halves of the app: the UI
//! sends [`UiCommand`]s to the worker, and the worker (and the listen thread)
//! stream [`AppEvent`]s back. Barge-in is keyed by an `epoch`: a new listen bumps
//! it, and a `Cancel` tells the worker to abandon the in-flight turn.
use vstd::prelude::*;

use crate::types::{ChatMessage, ChatTurnResult, LocalStatus};

verus! {

/// UI to worker: requests issued by the UI thread.
#[derive(Debug, Clone)]
pub enum UiCommand {
    /// Run an agent turn for `history`; `epoch` lets a later `Cancel`
    /// invalidate this turn (barge-in).
    StartTurn { turn_id: String, history: Vec<ChatMessage>, epoch: u64 },
    /// Barge-in: abandon any in-flight turn.
    Cancel,
    /// The app is exiting: stop all child servers.
    Shutdown,
}

/// Progress of a single tool invocation.
#[derive(Debug, Clone, Copy, PartialEq, Eq, Structural)]
pub enum ToolStatus {
    Start,
    Done,
}

/// Worker (or listen thread) to UI: results streamed back to the UI thread.
#[derive(Debug, Clone)]
pub enum AppEvent {
    /// A streamed assistant prose delta.
    LlmDelta { turn_id: String, delta: String },
    /// A tool started or finished.
    LlmTool { turn_id: String, tool: String, status: ToolStatus, detail: Option<String> },
    /// The turn finished.
    LlmDone { turn_id: String, result: ChatTurnResult },
    /// A timer fired; speak this when idle.
    Announce(String),
    /// First-run engine/model download progress.
    ModelDownload { label: String, pct: Option<u8> },
    /// A finished transcript, ready to drive a turn.
    Transcribed { text: String },
    /// Engine health for the HUD status dot.
    ServerStatus(LocalStatus),
    /// A worker-level error to surface.
    Error(String),
}

} // verus!
