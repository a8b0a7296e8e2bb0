use thunder_agent::tui::catalog::{mcp_server_item, model_item, picker_opening, skill_item, PickerOpening};
use thunder_agent::tui::picker::{PickerItem, PickerKind};

#[test]
fn skill_entries_use_first_line_and_first_tag() {
    let it = skill_item("refactor", "Safe refactors\nwith tests", &vec!["code".to_string(), "x".to_string()]);
    assert_eq!(it.id, "refactor");
    assert_eq!(it.title, "refactor");
    assert_eq!(it.description, "Safe refactors");
    assert_eq!(it.badge.as_deref(), Some("code"));
    let it = skill_item("plain", "", &Vec::new());
    assert_eq!(it.description, "");
    assert_eq!(it.badge.as_deref(), Some("skill"));
}

#[test]
fn mcp_entries_show_command_and_config() {
    let it = mcp_server_item(
        "fs",
        "npx",
        &vec!["-y".to_string(), "server-fs".to_string()],
        "/w/.mcp.json",
        false,
    );
    assert_eq!(it.description, "npx -y server-fs  (/w/.mcp.json)");
    assert_eq!(it.badge.as_deref(), Some("Active"));
    let it = mcp_server_item("off", "run", &Vec::new(), "cfg.json", true);
    assert_eq!(it.description, "run   (cfg.json)");
    assert_eq!(it.badge.as_deref(), Some("Disabled"));
}

#[test]
fn model_entries_describe_api_and_endpoint() {
    let it = model_item("openai/gpt-4o", "GPT-4o", "openai-completions", "https://api.openai.com/v1", "openai");
    assert_eq!(it.id, "openai/gpt-4o");
    assert_eq!(it.title, "GPT-4o");
    assert_eq!(it.description, "openai-completions · https://api.openai.com/v1");
    assert_eq!(it.badge.as_deref(), Some("openai"));
}

#[test]
fn empty_picker_leaves_a_note() {
    match picker_opening(PickerKind::SelectSkill, "t".to_string(), Vec::new(), Some("No skills.".to_string())) {
        PickerOpening::Note(n) => assert_eq!(n, "No skills."),
        _ => panic!("expected a note"),
    }
    match picker_opening(PickerKind::SelectMcp, "t".to_string(), Vec::new(), None) {
        PickerOpening::Note(n) => assert_eq!(n, "No items found."),
        _ => panic!("expected a note"),
    }
    let items = vec![PickerItem::new("a", "A", "")];
    match picker_opening(PickerKind::SelectModel, "Pick".to_string(), items, None) {
        PickerOpening::Open { kind, title, items } => {
            assert_eq!(kind, PickerKind::SelectModel);
            assert_eq!(title, "Pick");
            assert_eq!(items.len(), 1);
        }
        _ => panic!("expected the picker"),
    }
}
