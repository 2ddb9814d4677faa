use lo::events::{AppEvent, UiCommand};
use lo::session::{Session, SpaceAction, MAX_HISTORY};
use lo::types::{ChatMessage, ChatRole, ChatTurnResult, LoState};

fn done(turn_id: &str, reply: &str, error: Option<&str>) -> AppEvent {
    AppEvent::LlmDone {
        turn_id: turn_id.to_string(),
        result: ChatTurnResult {
            turn_id: turn_id.to_string(),
            reply: reply.to_string(),
            used_web_search: false,
            tools_invoked: Vec::new(),
            error: error.map(|e| e.to_string()),
        },
    }
}

#[test]
fn barge_in_bumps_epoch_and_clears_active_turn() {
    let mut s = Session::new();
    let (tid, _h) = s.begin_turn("hello");
    assert_eq!(s.active_turn_id, tid);
    assert!(s.busy);
    let e = s.interrupt();
    assert_eq!(e, s.epoch);
    assert!(s.active_turn_id.is_empty());
    assert!(!s.busy);
}

#[test]
fn dangling_user_turn_is_dropped_before_new_user_msg() {
    let mut s = Session::new();
    s.begin_turn("first question");
    s.begin_turn("second question");
    let users: Vec<&ChatMessage> = s.history.iter().filter(|m| m.role == ChatRole::User).collect();
    assert_eq!(users.len(), 1);
    assert_eq!(users[0].content, "second question");
}

#[test]
fn deltas_for_stale_turns_are_ignored() {
    let mut s = Session::new();
    let (tid, _) = s.begin_turn("q");
    s.push_delta(&tid, "Hello");
    assert_eq!(s.lo_text, "Hello");
    s.interrupt();
    s.push_delta(&tid, " world");
    assert_eq!(s.lo_text, "Hello");
}

#[test]
fn history_is_capped() {
    let mut s = Session::new();
    for i in 0..20 {
        let (tid, _) = s.begin_turn(&format!("q{i}"));
        s.finish_turn(&tid, &format!("a{i}"));
    }
    assert!(s.history.len() <= MAX_HISTORY);
}

#[test]
fn turn_ids_carry_epoch_and_counter() {
    let mut s = Session::new();
    let (a, _) = s.begin_turn("one");
    assert_eq!(a, "t0-1");
    s.begin_listen();
    let (b, hist) = s.begin_turn("two");
    assert_eq!(b, "t1-2");
    assert_eq!(hist.len(), 1);
    assert_eq!(hist[0].content, "two");
}

#[test]
fn finishing_records_the_reply_and_goes_idle() {
    let mut s = Session::new();
    let (tid, _) = s.begin_turn("q");
    assert!(!s.finish_turn("t9-9", "nope"));
    assert!(s.busy);
    assert!(s.finish_turn(&tid, "answer"));
    assert_eq!(s.state, LoState::Idle);
    assert!(!s.busy);
    assert_eq!(s.history.len(), 2);
    assert_eq!(s.history[1].role, ChatRole::Assistant);
    assert_eq!(s.history[1].content, "answer");
    // An empty reply is not recorded.
    let (tid, _) = s.begin_turn("again");
    s.finish_turn(&tid, "");
    assert_eq!(s.history.len(), 3);
    assert_eq!(s.history[2].role, ChatRole::User);
}

#[test]
fn capped_history_keeps_the_most_recent_messages() {
    let mut s = Session::new();
    for i in 0..10 {
        let (tid, _) = s.begin_turn(&format!("q{i}"));
        s.finish_turn(&tid, &format!("a{i}"));
    }
    assert_eq!(s.history.len(), MAX_HISTORY);
    assert_eq!(s.history[0].content, "q4");
    assert_eq!(s.history[MAX_HISTORY - 1].content, "a9");
}

#[test]
fn transcripts_drive_turns_and_misfires_go_idle() {
    let mut s = Session::new();
    s.begin_listen();
    let r = s.on_app_event(AppEvent::Transcribed { text: "   ".to_string() });
    assert!(r.command.is_none());
    assert_eq!(s.state, LoState::Idle);
    assert!(!s.ptt_recording);

    let r = s.on_app_event(AppEvent::Transcribed { text: "  what time is it? ".to_string() });
    match r.command {
        Some(UiCommand::StartTurn { turn_id, history, epoch }) => {
            assert_eq!(turn_id, s.active_turn_id);
            assert_eq!(epoch, s.epoch);
            assert_eq!(history.len(), 1);
            assert_eq!(history[0].content, "what time is it?");
        }
        _ => panic!("expected a turn to start"),
    }
    assert_eq!(s.you_text, "what time is it?");
    assert_eq!(s.state, LoState::Thinking);
}

#[test]
fn stream_events_update_captions() {
    let mut s = Session::new();
    let (tid, _) = s.begin_turn("q");
    s.on_app_event(AppEvent::LlmDelta { turn_id: tid.clone(), delta: "It is ".to_string() });
    s.on_app_event(AppEvent::LlmDelta { turn_id: "t5-5".to_string(), delta: "stale".to_string() });
    s.on_app_event(AppEvent::LlmDelta { turn_id: tid.clone(), delta: "3pm.".to_string() });
    assert_eq!(s.lo_text, "It is 3pm.");
    assert_eq!(s.state, LoState::Speaking);
    let r = s.on_app_event(done(&tid, "", Some("engine down")));
    assert!(r.restart_fade);
    assert_eq!(s.history.last().map(|m| m.content.as_str()), Some("engine down"));
    assert_eq!(s.state, LoState::Idle);
}

#[test]
fn announcements_downloads_and_errors_are_shown() {
    let mut s = Session::new();
    let r = s.on_app_event(AppEvent::Announce("[crisply] Your timer is complete.".to_string()));
    assert!(r.restart_fade);
    assert_eq!(s.lo_text, "Your timer is complete.");
    s.on_app_event(AppEvent::ModelDownload { label: "WEIGHTS".to_string(), pct: Some(42) });
    assert_eq!(s.lo_text, "Getting WEIGHTS… 42%");
    s.on_app_event(AppEvent::ModelDownload { label: "ENGINE".to_string(), pct: None });
    assert_eq!(s.lo_text, "Getting ENGINE…");
    s.on_app_event(AppEvent::Error("boom".to_string()));
    assert_eq!(s.state, LoState::Error);
    assert_eq!(s.lo_text, "boom");
}

#[test]
fn space_key_barges_in_and_stops_recording() {
    let mut s = Session::new();
    let (_tid, _) = s.begin_turn("q");
    let a = s.on_space(true, false);
    assert_eq!(a, SpaceAction::StartListening { epoch: 1 });
    assert!(s.ptt_recording);
    assert!(s.active_turn_id.is_empty());
    assert_eq!(s.on_space(true, true), SpaceAction::Ignore);
    assert_eq!(s.on_space(true, false), SpaceAction::Ignore);
    assert_eq!(s.on_space(false, false), SpaceAction::StopRecording);
}
