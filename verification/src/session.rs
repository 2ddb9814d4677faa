//! The conversation/turn state machine of the UI thread.
//!
//! The epoch counter is the barge-in mechanism: it is bumped on every new listen
//! and every interrupt, and every worker-driven tail is keyed by the active turn
//! id, so a superseded turn can never write into the live conversation.
use vstd::prelude::*;

use crate::chars::{decimal, digit_char, push_char, push_decimal, str_eq, trim, trimmed};
use crate::events::{AppEvent, UiCommand};
use crate::text::{strip_directives, strip_directives_spec};
use crate::types::{copy_messages, msgs_view, ChatMessage, ChatRole, ChatTurnResult, LoState};

verus! {

/// Shortest accepted push-to-talk clip (0.2 s at 16 kHz); anything briefer is a
/// misfire.
pub const MIN_PTT_SAMPLES: usize = 3200;
/// Rolling history cap fed to the brain.
pub const MAX_HISTORY: usize = 12;

/// UI-thread session state.
pub struct Session {
    pub state: LoState,
    /// Bumped on every new listen / barge-in.
    pub epoch: u64,
    /// The turn whose streamed deltas the UI currently accepts.
    pub active_turn_id: String,
    /// A turn is in flight (thinking/speaking).
    pub busy: bool,
    /// Space is held and a push-to-talk clip is being buffered.
    pub ptt_recording: bool,
    /// Rolling transcript shared with the brain.
    pub history: Vec<ChatMessage>,
    /// The user's last utterance (top caption line).
    pub you_text: String,
    /// Lo's streaming reply (bottom caption line).
    pub lo_text: String,
    /// The number of turns minted so far (public so that contracts can speak
    /// of it).
    pub turn_counter: u64,
}

/// What the UI does after the session absorbed an event.
pub struct Reaction {
    /// A command to send to the worker.
    pub command: Option<UiCommand>,
    /// The visual state may have changed: push it to the renderer.
    pub refresh: bool,
    /// Restart the caption fade timer.
    pub restart_fade: bool,
}

/// What a Space key edge asks of the UI.
#[derive(Debug, Clone, Copy, PartialEq, Eq, Structural)]
pub enum SpaceAction {
    /// Nothing to do (auto-repeat, or already recording, or a stray release).
    Ignore,
    /// A new listen began: publish `epoch`, stop playback, cancel the in-flight
    /// turn and start buffering the clip.
    StartListening { epoch: u64 },
    /// The key was released while recording: stop buffering the clip.
    StopRecording,
}

/// The id of the `n`-th turn minted in epoch `epoch`: `t{epoch}-{n}`.
pub open spec fn turn_id_spec(epoch: nat, n: nat) -> Seq<char> {
    seq!['t'] + decimal(epoch) + seq!['-'] + decimal(n)
}

/// Keep only the last [`MAX_HISTORY`] messages.
pub open spec fn capped(h: Seq<(ChatRole, Seq<char>)>) -> Seq<(ChatRole, Seq<char>)> {
    if h.len() > MAX_HISTORY {
        h.skip(h.len() - MAX_HISTORY)
    } else {
        h
    }
}

/// The transcript after the user asks `q`: a dangling trailing user message (a
/// turn that never got a reply) is dropped, the question is appended, and the
/// result is capped.
pub open spec fn after_question(h: Seq<(ChatRole, Seq<char>)>, q: Seq<char>) -> Seq<(ChatRole, Seq<char>)> {
    let kept = if h.len() > 0 && h.last().0 == ChatRole::User { h.drop_last() } else { h };
    capped(kept.push((ChatRole::User, q)))
}

/// The transcript after the assistant replies `reply` (an empty reply is not
/// recorded).
pub open spec fn after_reply(h: Seq<(ChatRole, Seq<char>)>, reply: Seq<char>) -> Seq<(ChatRole, Seq<char>)> {
    if reply.len() == 0 {
        h
    } else {
        capped(h.push((ChatRole::Assistant, reply)))
    }
}

/// The caption shown while a first-run download runs.
pub open spec fn download_caption(label: Seq<char>, pct: Option<u8>) -> Seq<char> {
    "Getting "@ + label + "\u{2026}"@ + match pct {
        Some(p) => " "@ + decimal(p as nat) + "%"@,
        None => Seq::<char>::empty(),
    }
}

/// The text a finished turn leaves on screen: the reply, or the error when the
/// reply is empty.
pub open spec fn done_reply(result: ChatTurnResult) -> Seq<char> {
    if result.reply@.len() == 0 {
        match result.error {
            Some(e) => e@,
            None => Seq::<char>::empty(),
        }
    } else {
        result.reply@
    }
}

impl Session {
    /// The session's invariant: the history never exceeds [`MAX_HISTORY`].
    pub open spec fn wf(&self) -> bool {
        self.history@.len() <= MAX_HISTORY
    }

    /// `t` equals `s` in everything but the caption lines and the visual state.
    pub open spec fn same_turn(s: Session, t: Session) -> bool {
        &&& t.epoch == s.epoch
        &&& t.active_turn_id@ == s.active_turn_id@
        &&& t.busy == s.busy
        &&& t.ptt_recording == s.ptt_recording
        &&& msgs_view(t.history@) == msgs_view(s.history@)
        &&& t.turn_counter == s.turn_counter
    }

    /// `t` is `s` after the question `q` started a turn.
    pub open spec fn begun(s: Session, t: Session, q: Seq<char>) -> bool {
        &&& t.state == LoState::Thinking
        &&& t.epoch == s.epoch
        &&& t.busy
        &&& !t.ptt_recording
        &&& t.you_text@ == q
        &&& t.lo_text@.len() == 0
        &&& msgs_view(t.history@) == after_question(msgs_view(s.history@), q)
        &&& t.turn_counter == s.turn_counter + 1
        &&& t.active_turn_id@ == turn_id_spec(s.epoch as nat, t.turn_counter as nat)
    }

    /// `t` is `s` after the delta `d` for turn `id` arrived: appended when `id`
    /// is the active turn, ignored otherwise.
    pub open spec fn delta_applied(s: Session, t: Session, id: Seq<char>, d: Seq<char>) -> bool {
        if id == s.active_turn_id@ {
            &&& Session::same_turn(s, t)
            &&& t.you_text@ == s.you_text@
            &&& t.lo_text@ == s.lo_text@ + d
            &&& t.state == LoState::Speaking
        } else {
            t == s
        }
    }

    /// `t` is `s` after turn `id` finished with `reply`: recorded when `id` is
    /// the active turn, ignored otherwise.
    pub open spec fn finished(s: Session, t: Session, id: Seq<char>, reply: Seq<char>) -> bool {
        if id == s.active_turn_id@ {
            &&& t.state == LoState::Idle
            &&& t.epoch == s.epoch
            &&& t.active_turn_id@.len() == 0
            &&& !t.busy
            &&& t.ptt_recording == s.ptt_recording
            &&& msgs_view(t.history@) == after_reply(msgs_view(s.history@), reply)
            &&& t.you_text@ == s.you_text@
            &&& t.lo_text@ == s.lo_text@
            &&& t.turn_counter == s.turn_counter
        } else {
            t == s
        }
    }

    /// A fresh session: booting, epoch 0, no turn, empty transcript.
    pub fn new() -> (s: Session)
        ensures
            s.wf(),
            s.state == LoState::Boot,
            s.epoch == 0,
            s.active_turn_id@.len() == 0,
            !s.busy,
            !s.ptt_recording,
            s.history@.len() == 0,
            s.you_text@.len() == 0,
            s.lo_text@.len() == 0,
            s.turn_counter == 0,
    {
        Session {
            state: LoState::Boot,
            epoch: 0,
            active_turn_id: String::new(),
            busy: false,
            ptt_recording: false,
            history: Vec::new(),
            you_text: String::new(),
            lo_text: String::new(),
            turn_counter: 0,
        }
    }

    /// Set the visual state directly (boot to idle once the window is live).
    pub fn set_state(&mut self, s: LoState)
        ensures
            final(self).state == s,
            Session::same_turn(*old(self), *final(self)),
            final(self).you_text@ == old(self).you_text@,
            final(self).lo_text@ == old(self).lo_text@,
    {
        self.state = s;
    }

    /// Barge-in / new listen: invalidate any in-flight turn. Returns the new
    /// epoch.
    pub fn interrupt(&mut self) -> (e: u64)
        requires
            old(self).epoch < u64::MAX,
        ensures
            e == final(self).epoch,
            final(self).epoch == old(self).epoch + 1,
            final(self).active_turn_id@.len() == 0,
            !final(self).busy,
            final(self).state == old(self).state,
            final(self).ptt_recording == old(self).ptt_recording,
            msgs_view(final(self).history@) == msgs_view(old(self).history@),
            final(self).history@.len() == old(self).history@.len(),
            final(self).you_text@ == old(self).you_text@,
            final(self).lo_text@ == old(self).lo_text@,
            final(self).turn_counter == old(self).turn_counter,
    {
        self.epoch = self.epoch + 1;
        self.active_turn_id = String::new();
        self.busy = false;
        self.epoch
    }

    /// Start listening (push-to-talk pressed). Bumps the epoch so a turn in
    /// progress is abandoned.
    pub fn begin_listen(&mut self) -> (e: u64)
        requires
            old(self).epoch < u64::MAX,
        ensures
            e == final(self).epoch,
            final(self).epoch == old(self).epoch + 1,
            final(self).active_turn_id@.len() == 0,
            !final(self).busy,
            final(self).ptt_recording,
            final(self).state == LoState::Listening,
            msgs_view(final(self).history@) == msgs_view(old(self).history@),
            final(self).history@.len() == old(self).history@.len(),
            final(self).you_text@.len() == 0,
            final(self).lo_text@.len() == 0,
            final(self).turn_counter == old(self).turn_counter,
    {
        let e = self.interrupt();
        self.ptt_recording = true;
        self.you_text = String::new();
        self.lo_text = String::new();
        self.state = LoState::Listening;
        e
    }

    /// Append `m` to the history, dropping the oldest message when the cap is
    /// exceeded.
    fn push_capped(&mut self, role: ChatRole, content: &str)
        requires
            old(self).wf(),
        ensures
            final(self).wf(),
            msgs_view(final(self).history@) == capped(msgs_view(old(self).history@).push((role, content@))),
            final(self).state == old(self).state,
            final(self).epoch == old(self).epoch,
            final(self).active_turn_id@ == old(self).active_turn_id@,
            final(self).busy == old(self).busy,
            final(self).ptt_recording == old(self).ptt_recording,
            final(self).you_text@ == old(self).you_text@,
            final(self).lo_text@ == old(self).lo_text@,
            final(self).turn_counter == old(self).turn_counter,
    {
        let ghost h0 = msgs_view(self.history@);
        self.history.push(ChatMessage { role, content: String::from_str(content) });
        assert(msgs_view(self.history@) == h0.push((role, content@)));
        if self.history.len() > MAX_HISTORY {
            let ghost h1 = msgs_view(self.history@);
            self.history.remove(0);
            assert(msgs_view(self.history@) == h1.skip(1));
        }
    }

    /// The user finished a clip that transcribed to `transcript`: shape the
    /// outgoing history (drop a dangling trailing user message, append the new
    /// question, cap) and mint a fresh turn id. Returns the turn id and a
    /// snapshot of the history for the worker.
    pub fn begin_turn(&mut self, transcript: &str) -> (r: (String, Vec<ChatMessage>))
        requires
            old(self).wf(),
            old(self).turn_counter < u64::MAX,
        ensures
            final(self).wf(),
            Session::begun(*old(self), *final(self), transcript@),
            r.0@ == final(self).active_turn_id@,
            msgs_view(r.1@) == msgs_view(final(self).history@),
    {
        self.ptt_recording = false;
        self.you_text = String::from_str(transcript);
        self.lo_text = String::new();
        self.busy = true;
        self.state = LoState::Thinking;

        let ghost h0 = msgs_view(self.history@);
        let n = self.history.len();
        if n > 0 && self.history[n - 1].role == ChatRole::User {
            self.history.pop();
            assert(msgs_view(self.history@) == h0.drop_last());
        }
        self.push_capped(ChatRole::User, transcript);

        self.turn_counter = self.turn_counter + 1;
        let mut id = String::new();
        push_char(&mut id, 't');
        push_decimal(&mut id, self.epoch);
        push_char(&mut id, '-');
        push_decimal(&mut id, self.turn_counter);
        proof {
            assert(id@ == turn_id_spec(self.epoch as nat, self.turn_counter as nat));
        }
        self.active_turn_id = id.clone();
        let snapshot = copy_messages(self.history.as_slice());
        (id, snapshot)
    }

    /// Append a streamed prose delta if it belongs to the active turn.
    pub fn push_delta(&mut self, turn_id: &str, delta: &str)
        ensures
            Session::delta_applied(*old(self), *final(self), turn_id@, delta@),
            final(self).history@.len() == old(self).history@.len(),
    {
        if str_eq(turn_id, self.active_turn_id.as_str()) {
            self.lo_text.append(delta);
            if self.state != LoState::Speaking {
                self.state = LoState::Speaking;
            }
        }
    }

    /// Finish the active turn: record the assistant reply in the history and
    /// return to idle. A superseded turn is ignored. Returns whether the turn
    /// was the active one (the caption fade then restarts).
    pub fn finish_turn(&mut self, turn_id: &str, reply: &str) -> (accepted: bool)
        requires
            old(self).wf(),
        ensures
            final(self).wf(),
            accepted == (turn_id@ == old(self).active_turn_id@),
            Session::finished(*old(self), *final(self), turn_id@, reply@),
    {
        if !str_eq(turn_id, self.active_turn_id.as_str()) {
            return false;
        }
        if !reply.is_empty() {
            self.push_capped(ChatRole::Assistant, reply);
        }
        self.active_turn_id = String::new();
        self.busy = false;
        self.state = LoState::Idle;
        true
    }

    /// React to a Space key edge (`pressed` or released; `repeat` marks an
    /// auto-repeated press). A fresh press barges in and starts listening; a
    /// release while recording stops the clip.
    pub fn on_space(&mut self, pressed: bool, repeat: bool) -> (a: SpaceAction)
        requires
            old(self).epoch < u64::MAX,
        ensures
            pressed && !repeat && !old(self).ptt_recording ==> {
                &&& a == SpaceAction::StartListening { epoch: final(self).epoch }
                &&& final(self).epoch == old(self).epoch + 1
                &&& final(self).active_turn_id@.len() == 0
                &&& !final(self).busy
                &&& final(self).ptt_recording
                &&& final(self).state == LoState::Listening
                &&& msgs_view(final(self).history@) == msgs_view(old(self).history@)
                &&& final(self).history@.len() == old(self).history@.len()
                &&& final(self).you_text@.len() == 0
                &&& final(self).lo_text@.len() == 0
                &&& final(self).turn_counter == old(self).turn_counter
            },
            pressed && (repeat || old(self).ptt_recording) ==> a == SpaceAction::Ignore && *final(self) == *old(self),
            !pressed ==> *final(self) == *old(self) && a == (if old(self).ptt_recording {
                SpaceAction::StopRecording
            } else {
                SpaceAction::Ignore
            }),
    {
        if pressed {
            if repeat || self.ptt_recording {
                return SpaceAction::Ignore;
            }
            let epoch = self.begin_listen();
            SpaceAction::StartListening { epoch }
        } else if self.ptt_recording {
            SpaceAction::StopRecording
        } else {
            SpaceAction::Ignore
        }
    }

    /// Absorb an event from the worker or the listen thread, and say what the UI
    /// must do next.
    ///
    /// - A transcript that trims to nothing is a misfire: back to idle. Any other
    ///   transcript starts a turn with the trimmed text and asks the worker to
    ///   run it.
    /// - Deltas and the end of a turn go through [`Session::push_delta`] and
    ///   [`Session::finish_turn`]; a finished turn shows its error when its reply
    ///   is empty.
    /// - An announcement is shown with its directives stripped; download
    ///   progress is shown as `Getting {label}… {pct}%`; an error is shown and
    ///   puts the orb in its error state.
    pub fn on_app_event(&mut self, ev: AppEvent) -> (r: Reaction)
        requires
            old(self).wf(),
            old(self).turn_counter < u64::MAX,
        ensures
            final(self).wf(),
            match ev {
                AppEvent::Transcribed { text } => {
                    let q = trim(text@);
                    &&& r.refresh
                    &&& !r.restart_fade
                    &&& if q.len() == 0 {
                        &&& r.command is None
                        &&& final(self).state == LoState::Idle
                        &&& !final(self).busy
                        &&& !final(self).ptt_recording
                        &&& final(self).epoch == old(self).epoch
                        &&& final(self).active_turn_id@ == old(self).active_turn_id@
                        &&& msgs_view(final(self).history@) == msgs_view(old(self).history@)
                        &&& final(self).you_text@ == old(self).you_text@
                        &&& final(self).lo_text@ == old(self).lo_text@
                        &&& final(self).turn_counter == old(self).turn_counter
                    } else {
                        &&& Session::begun(*old(self), *final(self), q)
                        &&& r.command matches Some(UiCommand::StartTurn { turn_id, history, epoch })
                        &&& turn_id@ == final(self).active_turn_id@
                        &&& msgs_view(history@) == msgs_view(final(self).history@)
                        &&& epoch == final(self).epoch
                    }
                },
                AppEvent::LlmDelta { turn_id, delta } => {
                    &&& Session::delta_applied(*old(self), *final(self), turn_id@, delta@)
                    &&& r.command is None
                    &&& r.refresh
                    &&& !r.restart_fade
                },
                AppEvent::LlmDone { turn_id, result } => {
                    &&& Session::finished(*old(self), *final(self), turn_id@, done_reply(result))
                    &&& r.command is None
                    &&& r.refresh
                    &&& r.restart_fade == (turn_id@ == old(self).active_turn_id@)
                },
                AppEvent::Announce(text) => {
                    &&& Session::same_turn(*old(self), *final(self))
                    &&& final(self).state == old(self).state
                    &&& final(self).you_text@ == old(self).you_text@
                    &&& final(self).lo_text@ == strip_directives_spec(text@)
                    &&& r.command is None
                    &&& !r.refresh
                    &&& r.restart_fade
                },
                AppEvent::ModelDownload { label, pct } => {
                    &&& Session::same_turn(*old(self), *final(self))
                    &&& final(self).state == old(self).state
                    &&& final(self).you_text@ == old(self).you_text@
                    &&& final(self).lo_text@ == download_caption(label@, pct)
                    &&& r.command is None
                    &&& !r.refresh
                    &&& !r.restart_fade
                },
                AppEvent::Error(e) => {
                    &&& final(self).state == LoState::Error
                    &&& !final(self).busy
                    &&& final(self).lo_text@ == e@
                    &&& final(self).epoch == old(self).epoch
                    &&& final(self).active_turn_id@ == old(self).active_turn_id@
                    &&& final(self).ptt_recording == old(self).ptt_recording
                    &&& msgs_view(final(self).history@) == msgs_view(old(self).history@)
                    &&& final(self).you_text@ == old(self).you_text@
                    &&& final(self).turn_counter == old(self).turn_counter
                    &&& r.command is None
                    &&& r.refresh
                    &&& !r.restart_fade
                },
                _ => {
                    &&& *final(self) == *old(self)
                    &&& r.command is None
                    &&& !r.refresh
                    &&& !r.restart_fade
                },
            },
    {
        match ev {
            AppEvent::Transcribed { text } => {
                let t = trimmed(text.as_str());
                if t.as_str().is_empty() {
                    self.ptt_recording = false;
                    self.busy = false;
                    self.state = LoState::Idle;
                    Reaction { command: None, refresh: true, restart_fade: false }
                } else {
                    let (turn_id, history) = self.begin_turn(t.as_str());
                    let epoch = self.epoch;
                    Reaction {
                        command: Some(UiCommand::StartTurn { turn_id, history, epoch }),
                        refresh: true,
                        restart_fade: false,
                    }
                }
            },
            AppEvent::LlmDelta { turn_id, delta } => {
                self.push_delta(turn_id.as_str(), delta.as_str());
                Reaction { command: None, refresh: true, restart_fade: false }
            },
            AppEvent::LlmTool { .. } => Reaction { command: None, refresh: false, restart_fade: false },
            AppEvent::LlmDone { turn_id, result } => {
                let reply = if result.reply.as_str().is_empty() {
                    match result.error {
                        Some(e) => e,
                        None => String::new(),
                    }
                } else {
                    result.reply
                };
                let accepted = self.finish_turn(turn_id.as_str(), reply.as_str());
                Reaction { command: None, refresh: true, restart_fade: accepted }
            },
            AppEvent::Announce(text) => {
                self.lo_text = strip_directives(text.as_str());
                Reaction { command: None, refresh: false, restart_fade: true }
            },
            AppEvent::ModelDownload { label, pct } => {
                let mut caption = String::from_str("Getting ");
                caption.append(label.as_str());
                caption.append("\u{2026}");
                match pct {
                    Some(p) => {
                        caption.append(" ");
                        push_decimal(&mut caption, p as u64);
                        caption.append("%");
                    },
                    None => {},
                }
                self.lo_text = caption;
                Reaction { command: None, refresh: false, restart_fade: false }
            },
            AppEvent::ServerStatus(_) => Reaction { command: None, refresh: false, restart_fade: false },
            AppEvent::Error(e) => {
                self.state = LoState::Error;
                self.busy = false;
                self.lo_text = e;
                Reaction { command: None, refresh: true, restart_fade: false }
            },
        }
    }
}

/// Every decimal digit string is non-empty and made of ASCII digits only.
proof fn lemma_decimal_digits(n: nat)
    ensures
        decimal(n).len() >= 1,
        forall|i: int| 0 <= i < decimal(n).len() ==> '0' <= #[trigger] decimal(n)[i] <= '9',
    decreases n,
{
    if n >= 10 {
        lemma_decimal_digits(n / 10);
    }
}

/// Distinct numbers have distinct decimal strings.
proof fn lemma_decimal_injective(a: nat, b: nat)
    requires
        decimal(a) == decimal(b),
    ensures
        a == b,
    decreases a,
{
    lemma_decimal_digits(a);
    lemma_decimal_digits(b);
    if a < 10 && b < 10 {
        assert(decimal(a)[0] == digit_char(a));
        assert(decimal(b)[0] == digit_char(b));
    } else if a < 10 {
        lemma_decimal_digits(b / 10);
        assert(decimal(b).len() == decimal(b / 10).len() + 1);
    } else if b < 10 {
        lemma_decimal_digits(a / 10);
        assert(decimal(a).len() == decimal(a / 10).len() + 1);
    } else {
        assert(decimal(a).last() == digit_char(a % 10));
        assert(decimal(b).last() == digit_char(b % 10));
        assert(decimal(a / 10) == decimal(a).drop_last());
        assert(decimal(b / 10) == decimal(b).drop_last());
        lemma_decimal_injective(a / 10, b / 10);
    }
}

/// Turn ids are unique: two turns minted with different epochs or different
/// turn numbers never share an id, so a superseded turn's stream can never be
/// taken for a later one.
pub proof fn lemma_turn_ids_unique(e1: nat, n1: nat, e2: nat, n2: nat)
    requires
        e1 != e2 || n1 != n2,
    ensures
        turn_id_spec(e1, n1) != turn_id_spec(e2, n2),
{
    lemma_decimal_digits(e1);
    lemma_decimal_digits(e2);
    lemma_decimal_digits(n1);
    lemma_decimal_digits(n2);
    let s1 = turn_id_spec(e1, n1);
    let s2 = turn_id_spec(e2, n2);
    let l1 = decimal(e1).len() as int;
    let l2 = decimal(e2).len() as int;
    if s1 == s2 {
        assert(s1[1 + l1] == '-');
        assert(s2[1 + l2] == '-');
        if l1 < l2 {
            assert(s2[1 + l1] == decimal(e2)[l1]);
            assert(false);
        } else if l2 < l1 {
            assert(s1[1 + l2] == decimal(e1)[l2]);
            assert(false);
        }
        assert(decimal(e1) == s1.subrange(1, 1 + l1));
        assert(decimal(e2) == s2.subrange(1, 1 + l2));
        assert(decimal(n1) == s1.subrange(2 + l1, s1.len() as int));
        assert(decimal(n2) == s2.subrange(2 + l2, s2.len() as int));
        lemma_decimal_injective(e1, e2);
        lemma_decimal_injective(n1, n2);
    }
}

/// A minted turn id is never empty, so once a session has been interrupted
/// (its active turn cleared) every stream delta of an earlier turn is ignored.
pub proof fn lemma_interrupted_session_ignores_turns(s: Session, t: Session, e: nat, n: nat, d: Seq<char>)
    requires
        s.active_turn_id@.len() == 0,
        Session::delta_applied(s, t, turn_id_spec(e, n), d),
    ensures
        t == s,
{
    assert(turn_id_spec(e, n).len() >= 2);
}

/// A finished stale turn changes nothing either: after an interrupt the
/// transcript only grows through a new turn.
pub proof fn lemma_interrupted_session_ignores_replies(s: Session, t: Session, e: nat, n: nat, reply: Seq<char>)
    requires
        s.active_turn_id@.len() == 0,
        Session::finished(s, t, turn_id_spec(e, n), reply),
    ensures
        t == s,
{
    assert(turn_id_spec(e, n).len() >= 2);
}

/// An unanswered question is replaced by the next one: asking `q1` and then,
/// with no reply in between, `q2` leaves the same transcript as asking `q2`
/// alone.
pub proof fn lemma_unanswered_question_is_replaced(h: Seq<(ChatRole, Seq<char>)>, q1: Seq<char>, q2: Seq<char>)
    ensures
        after_question(after_question(h, q1), q2) == after_question(h, q2),
{
    let kept = if h.len() > 0 && h.last().0 == ChatRole::User { h.drop_last() } else { h };
    let a = kept.push((ChatRole::User, q1));
    let b = kept.push((ChatRole::User, q2));
    let h1 = capped(a);
    assert(h1.len() > 0 && h1.last() == (ChatRole::User, q1));
    if a.len() > MAX_HISTORY {
        let k = a.len() - MAX_HISTORY;
        assert(h1.drop_last().push((ChatRole::User, q2)) =~= b.skip(k));
    } else {
        assert(h1.drop_last() =~= kept);
    }
}

/// The history cap holds whatever the stream of questions and replies.
pub proof fn lemma_history_stays_capped(h: Seq<(ChatRole, Seq<char>)>, q: Seq<char>, reply: Seq<char>)
    requires
        h.len() <= MAX_HISTORY,
    ensures
        after_question(h, q).len() <= MAX_HISTORY,
        after_reply(h, reply).len() <= MAX_HISTORY,
        after_question(h, q).last() == (ChatRole::User, q),
{
}

} // verus!
