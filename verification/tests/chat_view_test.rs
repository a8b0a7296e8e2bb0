use thunder_agent::tui::ui::command_popup::{popup_rect, popup_text};
use thunder_agent::tui::app::{ActiveToolCall, AgentStatus, ExecutionMode};
use thunder_agent::tui::ui::panes::{header_line, prompt_line, session_entry, sidebar_title, status_hints, status_label};
use thunder_agent::tui::ui::chat::{chat_lines, chat_scroll, chat_title, display_width};
use thunder_agent::types::message::{ChatMessage, ToolCall};

#[test]
fn committed_messages_become_labelled_lines() {
    let msgs = vec![
        ChatMessage::system("be\nbrief"),
        ChatMessage::user("hello\nthere"),
        ChatMessage::assistant(
            Some("Hi!".to_string()),
            Some(vec![ToolCall::new_function("call_1", "read_file", "{\"path\":\"Cargo.toml\"}")]),
        ),
        ChatMessage::Tool {
            tool_call_id: "call_1".to_string(),
            content: "file contents".to_string(),
            name: None,
        },
    ];
    let lines = chat_lines(&msgs, "", "", &AgentStatus::Idle, &Vec::new());
    assert_eq!(
        lines,
        vec![
            "⚙ System: be brief",
            "",
            "👤 You",
            "  hello",
            "  there",
            "",
            "⚡ Thunder Assistant",
            "  Hi!",
            "  ⚙️ Tool Call: `read_file` args: {\"path\":\"Cargo.toml\"}",
            "",
            "  🔧 [tool] (id: call_1)",
            "  file contents",
            "",
        ]
    );
}

#[test]
fn long_tool_output_is_cut_after_eight_lines() {
    let content = (1..=12).map(|i| format!("line {i}")).collect::<Vec<_>>().join("\n");
    let msgs = vec![ChatMessage::Tool {
        tool_call_id: "c".to_string(),
        content,
        name: Some("bash".to_string()),
    }];
    let lines = chat_lines(&msgs, "", "", &AgentStatus::Idle, &Vec::new());
    assert_eq!(lines.len(), 11);
    assert_eq!(lines[0], "  🔧 [bash] (id: c)");
    assert_eq!(lines[8], "  line 8");
    assert_eq!(lines[9], "  ... (output truncated for display)");
    assert_eq!(lines[10], "");
}

#[test]
fn live_turn_shows_reasoning_stream_and_tools() {
    let thinking = chat_lines(&Vec::new(), "", "", &AgentStatus::Thinking, &Vec::new());
    assert_eq!(thinking, vec!["⚡ Thunder Assistant ◐ (reasoning & planning...)", ""]);

    let calls = vec![
        ActiveToolCall {
            id: "1".to_string(),
            name: "bash".to_string(),
            arguments: "{}".to_string(),
            result: None,
            is_error: false,
            duration_ms: 0,
        },
        ActiveToolCall {
            id: "2".to_string(),
            name: "read_file".to_string(),
            arguments: "{}".to_string(),
            result: Some("x".repeat(200)),
            is_error: true,
            duration_ms: 3,
        },
    ];
    let lines = chat_lines(&Vec::new(), "plan\nact", "Hello ", &AgentStatus::Streaming, &calls);
    assert_eq!(lines[0], "🧠 Thinking Process:");
    assert_eq!(lines[1], "  plan");
    assert_eq!(lines[2], "  act");
    assert_eq!(lines[3], "");
    assert_eq!(lines[4], "⚡ Thunder Assistant");
    assert_eq!(lines[5], "  Hello ");
    assert_eq!(lines[6], "");
    assert_eq!(lines[7], "  ⚙ Executing Tool `bash`: ⏳ Running...");
    assert_eq!(lines[8], "");
    assert_eq!(lines[9], "  ⚙ Executing Tool `read_file`: ✖ Failed");
    assert_eq!(lines[10], format!("    └─ {}...", "x".repeat(150)));
    assert_eq!(lines[11], "");
    assert_eq!(lines.len(), 12);

    let idle = chat_lines(&Vec::new(), "", "", &AgentStatus::Done, &Vec::new());
    assert!(idle.is_empty());
}

#[test]
fn scroll_bounds_follow_wrapped_rows() {
    assert_eq!(display_width("abc"), 3);
    assert_eq!(display_width("你好"), 4);
    assert_eq!(display_width(""), 0);
    // Width 12 leaves 10 cells inside the borders; height 5 shows 3 rows.
    let lines: Vec<String> = vec!["".into(), "0123456789".into(), "0123456789A".into(), "你好你好你好".into()];
    // rows: 1 + 1 + 2 + 2 = 6, so the pane scrolls by at most 3.
    assert_eq!(chat_scroll(&lines, 12, 5, true, 0), (3, 3));
    assert_eq!(chat_scroll(&lines, 12, 5, false, 1), (3, 1));
    assert_eq!(chat_scroll(&lines, 12, 5, false, 40), (3, 3));
    assert_eq!(chat_scroll(&lines, 12, 50, false, 40), (0, 0));
    // A pane too narrow for its borders wraps at one cell.
    assert_eq!(chat_scroll(&vec!["abc".to_string()], 1, 2, true, 0), (3, 3));
    assert_eq!(chat_title(true, 0, 0), " ⚡ Chat Stream (Auto-Scroll) ");
    assert_eq!(chat_title(false, 2, 10), " ⚡ Chat Stream [Scroll: 2/10 - Press End to snap bottom] ");
}

#[test]
fn header_prompt_hints_and_sidebar_texts() {
    assert_eq!(status_label(&AgentStatus::Idle), " ● IDLE ");
    assert_eq!(status_label(&AgentStatus::ExecutingTool { name: "bash".to_string(), duration_ms: 3 }), " [⚙ bash] ");
    assert_eq!(status_label(&AgentStatus::Error("x".to_string())), " ✖ ERROR ");
    assert_eq!(
        header_line("openai/gpt-4o", ExecutionMode::AutoRouter, Some("code-review"), &AgentStatus::Done, None, 1200, 3),
        "⚡ THUNDER [openai/gpt-4o] [⚡ Auto] [skill:code-review]  ✔ DONE    Session: Untitled   Tokens: ~1200 | Turns: 3"
    );
    assert_eq!(prompt_line(&AgentStatus::Idle, "", true), "❯ Type a message, or / for commands (e.g. /resume, /model, /skills)...█");
    assert_eq!(prompt_line(&AgentStatus::Thinking, "", false), "◐ Press Tab to focus input...");
    assert_eq!(prompt_line(&AgentStatus::Streaming, "hi", true), "▶ hi");
    assert_eq!(status_hints(None, 5, Some("Created new session.")), " ⚡ Created new session.");
    assert_eq!(
        status_hints(Some("sk"), 5, None),
        " ? /help | /resume | /model | /skills [sk] | /mcp | /compact | Tokens: ~5 | Ctrl+C / Esc Cancel"
    );
    assert_eq!(
        session_entry(None, "sess_1", true, false, 4, 300),
        ("❯ ○ sess_1".to_string(), "    msgs: 4 | ~300 tok".to_string())
    );
    assert_eq!(session_entry(Some("Title"), "s", false, true, 0, 0).0, "  ● Title");
    assert_eq!(sidebar_title(false), " 📁 Sessions ");
}

#[test]
fn command_popup_text_and_place() {
    assert!(popup_text("hello", 0).is_none());
    assert!(popup_text("/zzz", 0).is_none());
    let p = popup_text("/m", 1).unwrap();
    assert_eq!(p.title, " ⚡ Slash Commands(↑/↓ select, Tab/Enter) ");
    assert!(p.rows.len() >= 2);
    assert!(p.rows[0].starts_with("   /model [provider/model]  — View current LLM model"));
    assert!(p.rows[1].starts_with(" ▶ /mode [auto | single]  — Switch execution mode"));
    let all = popup_text("/", 9).unwrap();
    assert_eq!(all.rows.len(), 8);
    assert_eq!(all.title, " ⚡ Slash Commands [10/16] (↑/↓ select, Tab/Enter) ");
    assert!(all.rows[7].starts_with(" ▶ "));
    let help = popup_text("/he", 0).unwrap();
    assert_eq!(help.rows[0], " ▶ /help  — Show interactive slash commands and keyboard shortcuts reference");
    assert_eq!(help.rows[1], "   /health  — Run agent and environment health checks");
    assert_eq!(popup_rect(2, 30, 40, 100, 8), (2, 20, 50, 10));
    assert_eq!(popup_rect(2, 5, 90, 60, 3), (2, 0, 56, 5));
}
