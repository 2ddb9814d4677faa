use lo::tools::{tool_params, ParamKind};
use lo::tools::{gate, tier_for, tool_names, tool_registry, GateDecision, Tier};

#[test]
fn registry_has_all_22_tools() {
    assert_eq!(tool_registry().len(), 22);
}

#[test]
fn safety_tiers_are_correct() {
    assert_eq!(tier_for("web_search"), Tier::Safe);
    assert_eq!(tier_for("read_file"), Tier::Safe);
    assert_eq!(tier_for("quit_app"), Tier::Confirm);
    assert_eq!(tier_for("open_path"), Tier::Confirm);
    assert_eq!(tier_for("write_file"), Tier::Danger);
    assert_eq!(tier_for("move_path"), Tier::Danger);
    assert_eq!(tier_for("copy_file"), Tier::Danger);
    assert_eq!(tier_for("delete_path"), Tier::Danger);
    assert_eq!(tier_for("run_command"), Tier::Danger);
    assert_eq!(tier_for("nonexistent_tool"), Tier::Safe);
}

#[test]
fn gate_refuses_danger_without_power_user() {
    assert_eq!(gate("run_command", false), GateDecision::DenyNeedsPowerUser);
    assert_eq!(gate("delete_path", false), GateDecision::DenyNeedsPowerUser);
    assert_eq!(gate("quit_app", false), GateDecision::DenyNeedsPowerUser);
    assert_eq!(gate("web_search", false), GateDecision::Allow);
    assert_eq!(gate("read_file", false), GateDecision::Allow);
}

#[test]
fn gate_allows_everything_in_power_user_mode() {
    for t in tool_registry() {
        assert_eq!(gate(t.name, true), GateDecision::Allow, "{} should be allowed", t.name);
    }
}

#[test]
fn tool_names_lists_everything() {
    let names = tool_names();
    assert!(names.contains("web_search"));
    assert!(names.contains("run_command"));
    assert!(names.contains("copy_file"));
    assert_eq!(names.split(", ").count(), 22);
}

#[test]
fn registry_names_are_unique_and_described() {
    let reg = tool_registry();
    for (i, a) in reg.iter().enumerate() {
        assert!(!a.description.is_empty());
        for b in reg.iter().skip(i + 1) {
            assert_ne!(a.name, b.name);
        }
    }
    assert_eq!(reg[0].name, "web_search");
}

#[test]
fn tool_params_match_the_schemas() {
    let p = tool_params("write_file");
    let names: Vec<&str> = p.iter().map(|x| x.name).collect();
    assert_eq!(names, vec!["path", "content", "overwrite"]);
    let req: Vec<&str> = p.iter().filter(|x| x.required).map(|x| x.name).collect();
    assert_eq!(req, vec!["path", "content"]);
    assert_eq!(p[2].kind, ParamKind::Flag);
    assert_eq!(tool_params("quit_app")[0].name, "name");
    assert_eq!(tool_params("run_command")[1].kind, ParamKind::TextList);
    assert!(tool_params("get_datetime").is_empty());
    assert!(tool_params("nope").is_empty());
    assert!(tool_params("system_info").iter().all(|x| !x.required));
    for t in tool_registry() {
        for x in tool_params(t.name) {
            assert!(!x.name.is_empty() && !x.description.is_empty());
        }
    }
}
