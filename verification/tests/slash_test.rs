use thunder_agent::tui::app::ExecutionMode;
use thunder_agent::tui::picker::{PickerItem, PickerKind};
use thunder_agent::tui::slash::{
    apply_slash_action, compact_reply, named_action_of, parse_slash_command, picker_effect, SlashSettings, reply, resume_not_found, split_mode_prefix, PickerEffect,
    SlashAction,
};

fn s(t: &str) -> String {
    t.to_string()
}

#[test]
fn non_commands_are_prompts() {
    assert_eq!(parse_slash_command("hello"), None);
    assert_eq!(parse_slash_command("   "), None);
    assert_eq!(parse_slash_command("/"), None);
    assert_eq!(parse_slash_command("/unknowncmd arg"), None);
    assert_eq!(parse_slash_command("what about /help"), None);
}

#[test]
fn command_names_ignore_case_slashes_and_padding() {
    assert_eq!(parse_slash_command("  /HELP  "), Some(SlashAction::Help));
    assert_eq!(parse_slash_command("/?"), Some(SlashAction::Help));
    assert_eq!(parse_slash_command("//quit"), Some(SlashAction::Quit));
    assert_eq!(parse_slash_command("/Exit"), Some(SlashAction::Quit));
    assert_eq!(parse_slash_command("/q"), Some(SlashAction::Quit));
    assert_eq!(parse_slash_command("/new"), Some(SlashAction::Clear));
    assert_eq!(parse_slash_command("/compress"), Some(SlashAction::Compact));
    assert_eq!(parse_slash_command("/usage"), Some(SlashAction::Stats));
    assert_eq!(parse_slash_command("/doctor"), Some(SlashAction::Health));
}

#[test]
fn resume_model_workspace_and_export_take_an_optional_argument() {
    assert_eq!(parse_slash_command("/resume"), Some(SlashAction::ResumePicker));
    assert_eq!(parse_slash_command("/switch sess_test_1"), Some(SlashAction::Resume(s("sess_test_1"))));
    assert_eq!(parse_slash_command("/model"), Some(SlashAction::ModelPicker));
    assert_eq!(
        parse_slash_command("/model openai/Sonnet-3-7"),
        Some(SlashAction::Model(s("openai/Sonnet-3-7")))
    );
    assert_eq!(parse_slash_command("/cwd"), Some(SlashAction::Workspace(None)));
    assert_eq!(parse_slash_command("/workspace /tmp/x"), Some(SlashAction::Workspace(Some(s("/tmp/x")))));
    assert_eq!(
        parse_slash_command("/export exported_session.md"),
        Some(SlashAction::Export(Some(s("exported_session.md"))))
    );
    assert_eq!(parse_slash_command("/dump"), Some(SlashAction::Export(None)));
}

#[test]
fn mode_arguments() {
    assert_eq!(parse_slash_command("/mode"), Some(SlashAction::ModePicker));
    assert_eq!(parse_slash_command("/mode AUTO"), Some(SlashAction::ModeSet(ExecutionMode::AutoRouter)));
    assert_eq!(parse_slash_command("/topology router"), Some(SlashAction::ModeSet(ExecutionMode::AutoRouter)));
    assert_eq!(parse_slash_command("/mode single"), Some(SlashAction::ModeSet(ExecutionMode::SingleAgent)));
    assert_eq!(parse_slash_command("/mode Direct"), Some(SlashAction::ModeSet(ExecutionMode::SingleAgent)));
    assert_eq!(parse_slash_command("/mode pipeline"), Some(SlashAction::ModeUnknown(s("pipeline"))));
}

#[test]
fn skills_and_mcp_sub_commands() {
    assert_eq!(parse_slash_command("/skills"), Some(SlashAction::SkillsPicker));
    assert_eq!(parse_slash_command("/sk off"), Some(SlashAction::SkillsDetach));
    assert_eq!(parse_slash_command("/skill none"), Some(SlashAction::SkillsDetach));
    assert_eq!(parse_slash_command("/skills load code-review"), Some(SlashAction::SkillsLoad(s("code-review"))));
    assert_eq!(parse_slash_command("/skills load"), Some(SlashAction::SkillsPicker));
    assert_eq!(parse_slash_command("/skills view x"), Some(SlashAction::SkillsShow(s("x"))));
    assert_eq!(parse_slash_command("/skills show"), Some(SlashAction::SkillsPicker));
    assert_eq!(parse_slash_command("/skills scan"), Some(SlashAction::SkillsScan(None)));
    assert_eq!(parse_slash_command("/skills reload ./more"), Some(SlashAction::SkillsScan(Some(s("./more")))));
    assert_eq!(parse_slash_command("/skills list"), Some(SlashAction::SkillsList));
    assert_eq!(parse_slash_command("/skills LIST"), Some(SlashAction::SkillsPicker));
    assert_eq!(parse_slash_command("/mcp"), Some(SlashAction::McpPicker));
    assert_eq!(parse_slash_command("/tools servers"), Some(SlashAction::McpList));
    assert_eq!(parse_slash_command("/server reload"), Some(SlashAction::McpList));
    assert_eq!(parse_slash_command("/mcp other"), Some(SlashAction::McpPicker));
}

#[test]
fn config_keys_and_values() {
    assert_eq!(parse_slash_command("/config"), Some(SlashAction::ConfigShow));
    assert_eq!(parse_slash_command("/config temperature"), Some(SlashAction::ConfigShow));
    assert_eq!(
        parse_slash_command("/config temperature 0.8"),
        Some(SlashAction::ConfigTemperature(s("0.8")))
    );
    assert_eq!(parse_slash_command("/config max_turns 50"), Some(SlashAction::ConfigMaxTurns(Some(50))));
    assert_eq!(parse_slash_command("/cfg TURNS many"), Some(SlashAction::ConfigMaxTurns(None)));
    assert_eq!(parse_slash_command("/settings timeout_ms 1000"), Some(SlashAction::ConfigTimeout(Some(1000))));
    assert_eq!(
        parse_slash_command("/config timeout 99999999999999999999"),
        Some(SlashAction::ConfigTimeout(None))
    );
    assert_eq!(parse_slash_command("/config model gpt-4o"), Some(SlashAction::ConfigModel(s("gpt-4o"))));
    assert_eq!(parse_slash_command("/config Color red"), Some(SlashAction::ConfigUnknownKey(s("color"))));
}

#[test]
fn prompt_mode_prefixes() {
    assert_eq!(split_mode_prefix("  /single fix the bug "), (Some(ExecutionMode::SingleAgent), s("fix the bug")));
    assert_eq!(split_mode_prefix("/auto plan it"), (Some(ExecutionMode::AutoRouter), s("plan it")));
    assert_eq!(split_mode_prefix("  just ask  "), (None, s("  just ask  ")));
    assert_eq!(split_mode_prefix("/single"), (None, s("/single")));
}

#[test]
fn help_reference_lists_every_command() {
    let help = thunder_agent::tui::commands::help_reference();
    assert!(help.starts_with("### ⚡ Thunder TUI Slash Commands Reference\n\n| Command | Arguments | Description |\n|---|---|---|\n"));
    assert!(help.contains(
        "| `/resume` (`/load_session, /switch, /sessions`) | `[session_id | #]` | List all previous conversation sessions or resume by ID/index |\n"
    ));
    assert!(help.contains("| `/help` (`/?`) | `` | Show interactive slash commands and keyboard shortcuts reference |\n"));
    for c in thunder_agent::tui::commands::all_commands() {
        assert!(help.contains(&format!("| `/{}`", c.name)));
    }
    assert!(help.ends_with("- `Ctrl+B`: Toggle Sidebar | `Ctrl+M`: Toggle Monitor | `Ctrl+C / Esc`: Cancel\n"));
}

#[test]
fn replies_and_picker_effects() {
    let r = |line: &str| reply(&parse_slash_command(line).unwrap(), "openai/gpt-4o");
    assert_eq!(r("/model deepseek-chat"), Some("✔ Model switched from `openai/gpt-4o` to **`deepseek-chat`**.".to_string()));
    assert_eq!(r("/mode single"), Some("✔ Execution mode switched to **`Single`** (Single Agent Direct Run)\n".to_string()));
    assert_eq!(r("/mode pipeline"), Some("❌ Unknown mode `pipeline`. Available: `auto`, `single`".to_string()));
    assert_eq!(r("/config max_turns 50"), Some("✔ `max_turns` set to `50`".to_string()));
    assert_eq!(r("/config max_turns lots"), None);
    assert_eq!(r("/config timeout 1000"), Some("✔ `request_timeout_ms` set to `1000`".to_string()));
    assert_eq!(r("/config model x/y"), Some("✔ `model` set to `x/y`".to_string()));
    assert!(r("/config Foo 1").unwrap().starts_with("❌ Unknown config key `foo`."));
    assert_eq!(r("/clear"), Some("✨ Started a fresh conversation session. How can I help you today?".to_string()));
    assert_eq!(r("/stats"), None);
    assert_eq!(compact_reply(10, 4), "✔ Context compacted: compressed from 10 messages down to 4 messages.");
    assert_eq!(compact_reply(3, 3), "Context is already compact (3 messages). No pruning needed.");
    assert!(resume_not_found("abc").starts_with("❌ Could not find session `abc` to resume."));

    let item = PickerItem::new("single", "Single Agent", "Direct").with_badge("Direct");
    assert_eq!(
        picker_effect(PickerKind::SelectMode, &item, "m"),
        PickerEffect::SwitchMode {
            mode: ExecutionMode::SingleAgent,
            note: "/mode single".to_string(),
            reply: "✔ Execution mode switched to **`Single`** (Single Agent Direct Run)".to_string(),
        }
    );
    let model = PickerItem::new("anthropic/sonnet-3-7", "Sonnet 3.7", "");
    assert_eq!(
        picker_effect(PickerKind::SelectModel, &model, "openai/gpt-4o"),
        PickerEffect::SwitchModel {
            model: "anthropic/sonnet-3-7".to_string(),
            note: "/model anthropic/sonnet-3-7".to_string(),
            reply: "✔ Active LLM model switched from `openai/gpt-4o` to **`anthropic/sonnet-3-7`**.".to_string(),
        }
    );
    let mcp = PickerItem::new("fs", "filesystem", "npx server");
    assert_eq!(
        picker_effect(PickerKind::SelectMcp, &mcp, "m"),
        PickerEffect::ShowMcp {
            note: "/mcp show fs".to_string(),
            reply: "### 🔌 MCP Server Endpoint: `filesystem`\n\n- **Status**: Active\n- **Command**: npx server".to_string(),
        }
    );
    assert_eq!(picker_effect(PickerKind::SlashCommand, &PickerItem::new("help", "", ""), "m"), PickerEffect::FillPrompt("/help ".to_string()));
    assert_eq!(picker_effect(PickerKind::ResumeSession, &PickerItem::new("s1", "", ""), "m"), PickerEffect::LoadSession("s1".to_string()));
}

#[test]
fn slash_actions_update_settings_and_say_what_to_record() {
    let mut s = SlashSettings {
        model: "openai/gpt-4o".to_string(),
        mode: ExecutionMode::AutoRouter,
        max_turns: 30,
        request_timeout_ms: 120_000,
        active_skill: Some("refactor".to_string()),
        should_quit: false,
    };
    let a = parse_slash_command("/model deepseek/deepseek-chat").unwrap();
    let o = apply_slash_action(&mut s, &a);
    assert_eq!(s.model, "deepseek/deepseek-chat");
    assert!(o.record_command);
    assert!(!o.fresh_session);
    assert_eq!(
        o.reply.as_deref(),
        Some("✔ Model switched from `openai/gpt-4o` to **`deepseek/deepseek-chat`**.")
    );
    assert_eq!(o.status.as_deref(), Some("Switched model to deepseek/deepseek-chat"));

    let o = apply_slash_action(&mut s, &parse_slash_command("/config max_turns 50").unwrap());
    assert_eq!(s.max_turns, 50);
    assert_eq!(o.reply.as_deref(), Some("✔ `max_turns` set to `50`"));
    let o = apply_slash_action(&mut s, &parse_slash_command("/config max_turns many").unwrap());
    assert_eq!(s.max_turns, 50);
    assert!(o.record_command);
    assert!(o.reply.is_none());

    let o = apply_slash_action(&mut s, &parse_slash_command("/skills off").unwrap());
    assert_eq!(o.reply.as_deref(), Some("Detached skill handler **refactor**."));
    assert!(s.active_skill.is_none());
    let o = apply_slash_action(&mut s, &parse_slash_command("/skills off").unwrap());
    assert_eq!(o.reply.as_deref(), Some("No skill handler is currently attached."));

    let o = apply_slash_action(&mut s, &parse_slash_command("/clear").unwrap());
    assert!(o.fresh_session);
    assert!(!o.record_command);
    assert_eq!(o.status.as_deref(), Some("Created new session."));

    let o = apply_slash_action(&mut s, &parse_slash_command("/mode single").unwrap());
    assert_eq!(s.mode, ExecutionMode::SingleAgent);
    assert!(o.status.unwrap().starts_with("Mode: "));

    let o = apply_slash_action(&mut s, &parse_slash_command("/help").unwrap());
    assert!(o.reply.unwrap().contains("| `/parallel` | `<task>` |"));

    let o = apply_slash_action(&mut s, &parse_slash_command("/quit").unwrap());
    assert!(s.should_quit);
    assert!(!o.record_command);
    assert!(o.reply.is_none());
}

#[test]
fn named_actions_by_command_word() {
    let ws: Vec<Vec<char>> = vec!["/config".chars().collect(), "timeout".chars().collect(), "900".chars().collect()];
    assert_eq!(named_action_of("config", &ws), Some(SlashAction::ConfigTimeout(Some(900))));
    assert_eq!(named_action_of("pipeline", &ws), None);
}
