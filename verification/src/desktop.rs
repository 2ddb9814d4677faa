//! Desktop actions: the checks and the per-platform commands behind
//! `open_app`, `focus_app`, `quit_app`, `set_volume` and `media_control`, and
//! the sentences they answer with. Every command is an argument list, never a
//! shell string; names spliced into an AppleScript literal are escaped. The
//! caller picks the platform and runs the commands.
use vstd::prelude::*;

use crate::chars::{decimal, ends_with, lowercase, push_char, push_decimal, str_eq, to_lowercase, trim, trimmed};

verus! {

/// The message for a missing application name.
pub open spec fn no_app_message() -> Seq<char> {
    "No application name given."@
}

/// The application a request names: its trimmed name, refused when blank.
pub fn app_name(name: &str) -> (r: Result<String, String>)
    ensures
        match r {
            Ok(a) => trim(name@).len() > 0 && a@ == trim(name@),
            Err(m) => trim(name@).len() == 0 && m@ == no_app_message(),
        },
{
    let a = trimmed(name);
    if a.as_str().is_empty() {
        Err(String::from_str("No application name given."))
    } else {
        Ok(a)
    }
}

/// `s` escaped for an AppleScript string literal: each `\` and `"` gets a
/// backslash before it.
pub open spec fn applescript_escape_spec(s: Seq<char>) -> Seq<char>
    decreases s.len(),
{
    if s.len() == 0 {
        seq![]
    } else {
        let p = applescript_escape_spec(s.drop_last());
        if s.last() == '\\' || s.last() == '"' {
            p.push('\\').push(s.last())
        } else {
            p.push(s.last())
        }
    }
}

/// Escape `s` for an AppleScript string literal.
pub fn escape_applescript(s: &str) -> (r: String)
    ensures
        r@ == applescript_escape_spec(s@),
{
    let v = crate::chars::chars_of(s);
    let mut out = String::new();
    let mut i: usize = 0;
    while i < v.len()
        invariant
            i <= v@.len(),
            v@ == s@,
            out@ == applescript_escape_spec(v@.take(i as int)),
        decreases v@.len() - i,
    {
        assert(v@.take(i + 1).drop_last() == v@.take(i as int));
        let c = v[i];
        if c == '\\' || c == '"' {
            push_char(&mut out, '\\');
        }
        push_char(&mut out, c);
        i = i + 1;
    }
    assert(v@.take(v@.len() as int) == v@);
    out
}

/// The AppleScript that brings `app` to the front.
pub fn focus_script(app: &str) -> (r: String)
    ensures
        r@ == "tell application \""@ + applescript_escape_spec(app@) + "\" to activate"@,
{
    let mut s = String::from_str("tell application \"");
    s.append(escape_applescript(app).as_str());
    s.append("\" to activate");
    s
}

/// The AppleScript that quits `app`.
pub fn quit_script(app: &str) -> (r: String)
    ensures
        r@ == "tell application \""@ + applescript_escape_spec(app@) + "\" to quit"@,
{
    let mut s = String::from_str("tell application \"");
    s.append(escape_applescript(app).as_str());
    s.append("\" to quit");
    s
}

/// The Windows image name of `app`: as given when it already ends in `.exe`
/// (in any case), else with `.exe` appended.
pub fn windows_image(app: &str) -> (r: String)
    ensures
        ends_with(lowercase(app@), ".exe"@) ==> r@ == app@,
        !ends_with(lowercase(app@), ".exe"@) ==> r@ == app@ + ".exe"@,
{
    let low = to_lowercase(app);
    if crate::chars::ends_with_str(low.as_str(), ".exe") {
        String::from_str(app)
    } else {
        let mut s = String::from_str(app);
        s.append(".exe");
        s
    }
}

/// What `focus_app` answers.
pub fn focused_message(app: &str) -> (r: String)
    ensures
        r@ == "Brought "@ + app@ + " to the front."@,
{
    let mut s = String::from_str("Brought ");
    s.append(app);
    s.append(" to the front.");
    s
}

/// What `quit_app` answers.
pub fn closed_message(app: &str) -> (r: String)
    ensures
        r@ == "Closed "@ + app@ + "."@,
{
    let mut s = String::from_str("Closed ");
    s.append(app);
    s.append(".");
    s
}

/// What `open_app` answers.
pub fn opened_app_message(app: &str) -> (r: String)
    ensures
        r@ == "Opened "@ + app@ + "."@,
{
    let mut s = String::from_str("Opened ");
    s.append(app);
    s.append(".");
    s
}

/// How many volume-up key presses (about 2% each) reach `percent` from zero:
/// half of it, rounded half up.
pub fn volume_key_presses(percent: u8) -> (r: u8)
    ensures
        r == (percent as int + 1) / 2,
{
    (percent / 2) + (percent % 2)
}

/// What `set_volume` answers for the volume `percent`.
pub fn volume_message(percent: u8) -> (r: String)
    ensures
        r@ == "Volume set to "@ + decimal(percent as nat) + " percent."@,
{
    let mut s = String::from_str("Volume set to ");
    push_decimal(&mut s, percent as u64);
    s.append(" percent.");
    s
}

/// A media action with its aliases resolved: `prev` is `previous` and
/// `toggle` is `playpause`.
pub open spec fn media_action_spec(a: Seq<char>) -> Seq<char> {
    if a == "prev"@ {
        "previous"@
    } else if a == "toggle"@ {
        "playpause"@
    } else {
        a
    }
}

/// Resolve a media action's aliases.
pub fn normalize_media_action(a: &str) -> (r: String)
    ensures
        r@ == media_action_spec(a@),
{
    if str_eq(a, "prev") {
        String::from_str("previous")
    } else if str_eq(a, "toggle") {
        String::from_str("playpause")
    } else {
        String::from_str(a)
    }
}

/// The `playerctl` subcommand for a (resolved) media action; an unknown one
/// toggles playback.
pub open spec fn playerctl_spec(a: Seq<char>) -> Seq<char> {
    if a == "play"@ {
        "play"@
    } else if a == "pause"@ {
        "pause"@
    } else if a == "next"@ {
        "next"@
    } else if a == "previous"@ {
        "previous"@
    } else if a == "stop"@ {
        "stop"@
    } else {
        "play-pause"@
    }
}

/// The `playerctl` subcommand for a media action.
pub fn playerctl_command(a: &str) -> (r: &'static str)
    ensures
        r@ == playerctl_spec(a@),
{
    if str_eq(a, "play") {
        "play"
    } else if str_eq(a, "pause") {
        "pause"
    } else if str_eq(a, "next") {
        "next"
    } else if str_eq(a, "previous") {
        "previous"
    } else if str_eq(a, "stop") {
        "stop"
    } else {
        "play-pause"
    }
}

/// The AppleScript verb a music player takes for a media action; an unknown
/// one toggles playback.
pub open spec fn player_verb_spec(a: Seq<char>) -> Seq<char> {
    if a == "play"@ {
        "play"@
    } else if a == "pause"@ {
        "pause"@
    } else if a == "next"@ {
        "next track"@
    } else if a == "previous"@ {
        "previous track"@
    } else if a == "stop"@ {
        "stop"@
    } else {
        "playpause"@
    }
}

/// The AppleScript that sends a media action to Spotify or Music, whichever
/// is running.
pub fn player_script(a: &str) -> (r: String)
    ensures
        r@ == "if application \"Spotify\" is running then tell application \"Spotify\" to "@ + player_verb_spec(a@)
            + "\nelse if application \"Music\" is running then tell application \"Music\" to "@ + player_verb_spec(a@)
            + "\nelse error \"No media player is running.\" \nend if"@,
{
    let verb = if str_eq(a, "play") {
        "play"
    } else if str_eq(a, "pause") {
        "pause"
    } else if str_eq(a, "next") {
        "next track"
    } else if str_eq(a, "previous") {
        "previous track"
    } else if str_eq(a, "stop") {
        "stop"
    } else {
        "playpause"
    };
    let mut s = String::from_str("if application \"Spotify\" is running then tell application \"Spotify\" to ");
    s.append(verb);
    s.append("\nelse if application \"Music\" is running then tell application \"Music\" to ");
    s.append(verb);
    s.append("\nelse error \"No media player is running.\" \nend if");
    s
}

/// The Windows virtual key for a media action: next, previous and stop have
/// their own keys; everything else is play/pause.
pub open spec fn media_key_spec(a: Seq<char>) -> u8 {
    if a == "next"@ {
        0xB0
    } else if a == "previous"@ {
        0xB1
    } else if a == "stop"@ {
        0xB2
    } else {
        0xB3
    }
}

/// The Windows virtual key for a media action.
pub fn media_key(a: &str) -> (r: u8)
    ensures
        r == media_key_spec(a@),
{
    if str_eq(a, "next") {
        0xB0
    } else if str_eq(a, "previous") {
        0xB1
    } else if str_eq(a, "stop") {
        0xB2
    } else {
        0xB3
    }
}

/// What `media_control` answers for a (resolved) media action; an unknown one
/// toggled playback.
pub open spec fn media_message_spec(a: Seq<char>) -> Seq<char> {
    if a == "play"@ {
        "Playing."@
    } else if a == "pause"@ {
        "Paused."@
    } else if a == "next"@ {
        "Skipped ahead."@
    } else if a == "previous"@ {
        "Skipped back."@
    } else if a == "stop"@ {
        "Stopped."@
    } else {
        "Toggled playback."@
    }
}

/// What `media_control` answers.
pub fn media_message(a: &str) -> (r: &'static str)
    ensures
        r@ == media_message_spec(a@),
{
    if str_eq(a, "play") {
        "Playing."
    } else if str_eq(a, "pause") {
        "Paused."
    } else if str_eq(a, "next") {
        "Skipped ahead."
    } else if str_eq(a, "previous") {
        "Skipped back."
    } else if str_eq(a, "stop") {
        "Stopped."
    } else {
        "Toggled playback."
    }
}

/// The media actions every platform knows by name.
pub open spec fn named_media_action(a: Seq<char>) -> bool {
    a == "play"@ || a == "pause"@ || a == "next"@ || a == "previous"@ || a == "stop"@
}

/// Each named media action reaches `playerctl` as the subcommand of the same
/// name; only `playpause` and unknown actions become `play-pause`. The
/// platforms agree on what an action does: it skips ahead, skips back or
/// stops on Linux exactly when it does so through the macOS players, through
/// the Windows media keys, and in what Lo says it did.
pub proof fn lemma_media_actions_keep_their_meaning(a: Seq<char>)
    ensures
        named_media_action(a) ==> playerctl_spec(a) == a,
        !named_media_action(a) ==> playerctl_spec(a) == "play-pause"@,
        (playerctl_spec(a) == "next"@) == (player_verb_spec(a) == "next track"@),
        (playerctl_spec(a) == "next"@) == (media_key_spec(a) == 0xB0u8),
        (playerctl_spec(a) == "next"@) == (media_message_spec(a) == "Skipped ahead."@),
        (playerctl_spec(a) == "previous"@) == (player_verb_spec(a) == "previous track"@),
        (playerctl_spec(a) == "previous"@) == (media_key_spec(a) == 0xB1u8),
        (playerctl_spec(a) == "previous"@) == (media_message_spec(a) == "Skipped back."@),
        (playerctl_spec(a) == "stop"@) == (player_verb_spec(a) == "stop"@),
        (playerctl_spec(a) == "stop"@) == (media_key_spec(a) == 0xB2u8),
        (playerctl_spec(a) == "stop"@) == (media_message_spec(a) == "Stopped."@),
        (playerctl_spec(a) == "play"@) == (player_verb_spec(a) == "play"@),
        (playerctl_spec(a) == "play"@) == (media_message_spec(a) == "Playing."@),
        (playerctl_spec(a) == "pause"@) == (player_verb_spec(a) == "pause"@),
        (playerctl_spec(a) == "pause"@) == (media_message_spec(a) == "Paused."@),
{
    reveal_strlit("play");
    assert("play"@.len() == 4 && "play"@[0] == 'p');
    reveal_strlit("pause");
    assert("pause"@.len() == 5 && "pause"@[0] == 'p');
    reveal_strlit("next");
    assert("next"@.len() == 4 && "next"@[0] == 'n');
    reveal_strlit("previous");
    assert("previous"@.len() == 8 && "previous"@[0] == 'p');
    reveal_strlit("stop");
    assert("stop"@.len() == 4 && "stop"@[0] == 's');
    reveal_strlit("play-pause");
    assert("play-pause"@.len() == 10 && "play-pause"@[0] == 'p');
    reveal_strlit("playpause");
    assert("playpause"@.len() == 9 && "playpause"@[0] == 'p');
    reveal_strlit("next track");
    assert("next track"@.len() == 10 && "next track"@[0] == 'n');
    reveal_strlit("previous track");
    assert("previous track"@.len() == 14 && "previous track"@[0] == 'p');
    reveal_strlit("Playing.");
    assert("Playing."@.len() == 8 && "Playing."@[0] == 'P');
    reveal_strlit("Paused.");
    assert("Paused."@.len() == 7 && "Paused."@[0] == 'P');
    reveal_strlit("Skipped ahead.");
    assert("Skipped ahead."@.len() == 14 && "Skipped ahead."@[0] == 'S');
    reveal_strlit("Skipped back.");
    assert("Skipped back."@.len() == 13 && "Skipped back."@[0] == 'S');
    reveal_strlit("Stopped.");
    assert("Stopped."@.len() == 8 && "Stopped."@[0] == 'S');
    reveal_strlit("Toggled playback.");
    assert("Toggled playback."@.len() == 17 && "Toggled playback."@[0] == 'T');
}

} // verus!
