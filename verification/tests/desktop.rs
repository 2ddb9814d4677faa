use lo::desktop::{
    app_name, closed_message, escape_applescript, focus_script, focused_message, media_key, media_message,
    normalize_media_action, opened_app_message, player_script, playerctl_command, quit_script, volume_key_presses,
    volume_message, windows_image,
};

#[test]
fn app_names_are_trimmed_and_required() {
    assert_eq!(app_name("  Spotify ").unwrap(), "Spotify");
    assert_eq!(app_name("   ").unwrap_err(), "No application name given.");
    assert_eq!(opened_app_message("Safari"), "Opened Safari.");
    assert_eq!(focused_message("Safari"), "Brought Safari to the front.");
    assert_eq!(closed_message("Safari"), "Closed Safari.");
}

#[test]
fn applescript_names_are_escaped() {
    assert_eq!(escape_applescript(r#"My "App"\x"#), r#"My \"App\"\\x"#);
    assert_eq!(focus_script("Notes"), "tell application \"Notes\" to activate");
    assert_eq!(quit_script("a\"b"), "tell application \"a\\\"b\" to quit");
}

#[test]
fn windows_images_get_one_exe_suffix() {
    assert_eq!(windows_image("notepad"), "notepad.exe");
    assert_eq!(windows_image("NOTEPAD.EXE"), "NOTEPAD.EXE");
}

#[test]
fn volume_presses_and_message() {
    assert_eq!(volume_key_presses(0), 0);
    assert_eq!(volume_key_presses(1), 1);
    assert_eq!(volume_key_presses(50), 25);
    assert_eq!(volume_key_presses(99), 50);
    assert_eq!(volume_key_presses(100), 50);
    assert_eq!(volume_message(35), "Volume set to 35 percent.");
}

#[test]
fn media_actions_map_per_platform() {
    assert_eq!(normalize_media_action("prev"), "previous");
    assert_eq!(normalize_media_action("toggle"), "playpause");
    assert_eq!(normalize_media_action("next"), "next");
    assert_eq!(playerctl_command("playpause"), "play-pause");
    assert_eq!(playerctl_command("previous"), "previous");
    assert_eq!(playerctl_command("dance"), "play-pause");
    assert_eq!(media_key("next"), 0xB0);
    assert_eq!(media_key("pause"), 0xB3);
    assert!(player_script("next").contains("tell application \"Spotify\" to next track\n"));
    assert_eq!(media_message("previous"), "Skipped back.");
    assert_eq!(media_message("playpause"), "Toggled playback.");
}
