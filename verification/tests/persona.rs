use lo::persona::build_system_prompt;
use lo::settings::LoSettings;

#[test]
fn includes_user_name_and_tool_names() {
    let s = LoSettings { user_name: "Rani".to_string(), ..Default::default() };
    let prompt = build_system_prompt(&s);
    assert!(prompt.contains("Address the user as \"Rani\""));
    assert!(prompt.contains("web_search"));
    assert!(prompt.contains("run_command"));
}

#[test]
fn blank_name_falls_back_to_there() {
    let s = LoSettings { user_name: "   ".to_string(), ..Default::default() };
    assert!(build_system_prompt(&s).contains("Address the user as \"there\""));
}

#[test]
fn prompt_names_the_user_twice_and_lists_tools() {
    let s = LoSettings { user_name: "  Mo ".to_string(), ..Default::default() };
    let p = build_system_prompt(&s);
    assert!(p.contains("Address the user as \"Mo\""));
    assert!(p.contains("You're Mo's agent"));
    assert!(p.contains(&format!("Your tools: {}.", lo::tools::tool_names())));
    let other = LoSettings { user_name: "  Mo ".to_string(), ..Default::default() };
    assert_eq!(build_system_prompt(&other), p);
}
