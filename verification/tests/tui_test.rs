use thunder_agent::tui::app::{handle_mouse, next_focus, ChatScroll, ExecutionMode, FocusPane, MouseWheel};
use thunder_agent::stream::client::LLMStreamChunk;
use thunder_agent::tui::mock::TuiMockClient;
use thunder_agent::tui::runner::TuiRunner;
use thunder_agent::types::message::ChatMessage;
use thunder_agent::tui::commands::{all_commands, filter_commands, CommandCategory, SlashCommand};
use thunder_agent::tui::picker::{KeyCode, KeyPress, PickerItem, PickerKind, PickerResult, PickerState};
use thunder_agent::tui::ui::{command_popup, picker_modal};

#[test]
fn slash_popup_keeps_selection_visible() {
    assert_eq!(command_popup::scroll_offset(0, 16, 8), 0);
    assert_eq!(command_popup::scroll_offset(7, 16, 8), 0);
    assert_eq!(command_popup::scroll_offset(8, 16, 8), 1);
    assert_eq!(command_popup::scroll_offset(15, 16, 8), 8);
}

#[test]
fn selected_item_stays_in_window() {
    assert_eq!(picker_modal::scroll_offset(0, 30, 8), 0);
    assert_eq!(picker_modal::scroll_offset(7, 30, 8), 0);
    assert_eq!(picker_modal::scroll_offset(8, 30, 8), 1);
    assert_eq!(picker_modal::scroll_offset(20, 30, 8), 13);
    assert_eq!(picker_modal::scroll_offset(29, 30, 8), 22);
}

#[test]
fn window_edge_cases() {
    assert_eq!(picker_modal::scroll_offset(5, 0, 8), 0);
    assert_eq!(picker_modal::scroll_offset(5, 10, 0), 0);
    assert_eq!(command_popup::scroll_offset(9, 10, 20), 0);
}

#[test]
fn test_picker_state_navigation_and_filtering() {
    let mut picker = PickerState::new();

    let items = vec![
        PickerItem::new("gpt-4o", "GPT-4o", "OpenAI Flagship"),
        PickerItem::new("sonnet-3-7", "Sonnet 3.7", "Anthropic Hybrid"),
        PickerItem::new("deepseek-chat", "DeepSeek V3", "DeepSeek Chat"),
    ];

    picker.open(PickerKind::SelectModel, None, items);
    assert!(picker.is_open);
    assert_eq!(picker.filtered_items().len(), 3);
    assert_eq!(picker.selected_index, 0);

    // Test Down arrow
    picker.handle_key(KeyPress::new(KeyCode::Down, true));
    assert_eq!(picker.selected_index, 1);
    assert_eq!(picker.selected_item().unwrap().id, "sonnet-3-7");

    // Test Up arrow
    picker.handle_key(KeyPress::new(KeyCode::Up, true));
    assert_eq!(picker.selected_index, 0);

    // Test filtering by typing 'deep'
    picker.handle_key(KeyPress::new(KeyCode::Char('d'), true));
    picker.handle_key(KeyPress::new(KeyCode::Char('e'), true));
    picker.handle_key(KeyPress::new(KeyCode::Char('e'), true));
    picker.handle_key(KeyPress::new(KeyCode::Char('p'), true));

    assert_eq!(picker.filtered_items().len(), 1);
    assert_eq!(picker.selected_item().unwrap().id, "deepseek-chat");

    // Test Enter selection
    let res = picker.handle_key(KeyPress::new(KeyCode::Enter, true));
    match res {
        PickerResult::Selected(kind, item) => {
            assert_eq!(kind, PickerKind::SelectModel);
            assert_eq!(item.id, "deepseek-chat");
        }
        _ => panic!("Expected Selected result"),
    }
    assert!(!picker.is_open);
}

#[test]
fn picker_keys_wrap_page_and_jump() {
    let mut picker = PickerState::new();
    let items: Vec<PickerItem> = (0..7)
        .map(|i| PickerItem::new(&format!("id{i}"), &format!("Item {i}"), "d").with_badge(if i == 3 { "NEW" } else { "old" }))
        .collect();
    picker.open(PickerKind::SelectSkill, Some("Pick".to_string()), items);
    assert_eq!(picker.title, "Pick");
    picker.handle_key(KeyPress::new(KeyCode::Up, true));
    assert_eq!(picker.selected_index, 6);
    picker.handle_key(KeyPress::new(KeyCode::Char('j'), true));
    assert_eq!(picker.selected_index, 0);
    picker.handle_key(KeyPress::new(KeyCode::PageDown, true));
    assert_eq!(picker.selected_index, 5);
    picker.handle_key(KeyPress::new(KeyCode::PageDown, true));
    assert_eq!(picker.selected_index, 6);
    picker.handle_key(KeyPress::new(KeyCode::PageUp, true));
    assert_eq!(picker.selected_index, 1);
    picker.handle_key(KeyPress::new(KeyCode::End, true));
    assert_eq!(picker.selected_index, 6);
    picker.handle_key(KeyPress::new(KeyCode::Home, true));
    assert_eq!(picker.selected_index, 0);
    assert!(matches!(picker.handle_key(KeyPress::new(KeyCode::Tab, true)), PickerResult::Ignored));
    // 'k' with a modifier held types a character.
    assert!(matches!(picker.handle_key(KeyPress::new(KeyCode::Char('N'), false)), PickerResult::Filtering));
    assert_eq!(picker.filter_text, "N");
    picker.handle_key(KeyPress::new(KeyCode::Char('e'), true));
    picker.handle_key(KeyPress::new(KeyCode::Char('w'), true));
    // Matches the badge, compared lower-cased.
    assert_eq!(picker.selected_item().unwrap().id, "id3");
    picker.handle_key(KeyPress::new(KeyCode::Backspace, true));
    assert_eq!(picker.filter_text, "Ne");
    assert!(matches!(picker.handle_key(KeyPress::new(KeyCode::Esc, true)), PickerResult::Cancelled));
    assert!(!picker.is_open);
    assert!(picker.items.is_empty());
    assert!(matches!(picker.handle_key(KeyPress::new(KeyCode::Enter, true)), PickerResult::Cancelled));
}

#[test]
fn kinds_have_default_titles() {
    let mut picker = PickerState::new();
    picker.open(PickerKind::ResumeSession, None, vec![]);
    assert_eq!(picker.title, "📁 Resume Conversation Session");
    assert_eq!(PickerKind::SlashCommand.default_title(), "⚡ Slash Commands");
    assert!(picker.selected_item().is_none());
}

#[test]
fn test_slash_command_autocomplete_filtering() {
    // 1. Slash prefix returns all commands
    let all = filter_commands("/");
    assert_eq!(all.len(), 16);

    // 2. Filter by prefix
    let sk = filter_commands("/sk");
    assert!(!sk.is_empty());
    assert_eq!(sk[0].name, "skills");

    let res = filter_commands("/re");
    let res_names: Vec<_> = res.iter().map(|c| c.name).collect();
    assert!(res_names.contains(&"resume"));

    let m = filter_commands("/m");
    let names: Vec<_> = m.iter().map(|c| c.name).collect();
    assert!(names.contains(&"model"));
    assert!(names.contains(&"mode"));
    assert!(names.contains(&"mcp"));

    // 3. No slash returns empty
    let non = filter_commands("hello");
    assert!(non.is_empty());
}

#[test]
fn slash_command_filtering_details() {
    let all = filter_commands("/");
    assert_eq!(all[0].name, "resume");
    assert_eq!(all.len(), all_commands().len());
    let m = filter_commands("/M arg");
    let names: Vec<_> = m.iter().map(|c| c.name).collect();
    assert!(names.contains(&"model"));
    let p = filter_commands("/pa");
    let names: Vec<_> = p.iter().map(|c| c.name).collect();
    assert_eq!(names, vec!["parallel"]);
    assert!(filter_commands("/zzz").is_empty());
}

#[test]
fn slash_command_matching_ignores_case_and_slashes() {
    let cmd = SlashCommand::new("stats", vec!["cost", "tokens"], "", "Show stats", CommandCategory::Session);
    assert!(cmd.matches("/STATS"));
    assert!(cmd.matches("//Cost"));
    assert!(!cmd.matches("/stat"));
    assert_eq!(CommandCategory::SkillsAndMcp.label(), "Skills & MCP");
    assert_eq!(CommandCategory::Config.label(), "Configuration");
}

#[test]
fn tui_mock_streams_words_then_completion() {
    let items = TuiMockClient.stream_items(&vec![ChatMessage::user("do it")]);
    let text = TuiMockClient.reply(&vec![ChatMessage::user("do it")]);
    assert_eq!(text, "Received your request: \"do it\". Thunder Agent executed this successfully in Mock mode.");
    let mut joined = String::new();
    for item in &items[..items.len() - 1] {
        match item {
            LLMStreamChunk::Token(w) => joined.push_str(w),
            _ => panic!("expected token"),
        }
    }
    assert_eq!(joined, text);
    match items.last().unwrap() {
        LLMStreamChunk::Completed { content, prompt_tokens, completion_tokens, .. } => {
            assert_eq!(content.as_deref(), Some(text.as_str()));
            assert_eq!(*prompt_tokens, Some(15));
            assert_eq!(*completion_tokens, Some(25));
        }
        _ => panic!("expected completion"),
    }
    assert_eq!(TuiRunner::new(250).tick_rate_ms(), 250);
}

#[test]
fn view_state_modes_focus_and_scroll() {
    let m = ExecutionMode::default();
    assert_eq!(m.badge(), "⚡ Auto");
    assert_eq!(m.next(), ExecutionMode::SingleAgent);
    assert_eq!(m.next().next(), m);
    assert_eq!(ExecutionMode::SingleAgent.description(), "Single Agent Direct Run");
    assert_eq!(next_focus(FocusPane::Chat, true), FocusPane::Sidebar);
    assert_eq!(next_focus(FocusPane::Chat, false), FocusPane::Input);
    assert_eq!(next_focus(FocusPane::Monitor, true), FocusPane::Input);

    let mut s = ChatScroll { offset: 0, auto_scroll: true, last_max_scroll: 50 };
    s.handle_key(KeyPress::new(KeyCode::PageUp, true));
    assert_eq!((s.offset, s.auto_scroll), (40, false));
    s.handle_key(KeyPress::new(KeyCode::Char('j'), true));
    assert_eq!(s.offset, 41);
    s.handle_key(KeyPress::new(KeyCode::PageDown, true));
    assert_eq!((s.offset, s.auto_scroll), (50, true));
    s.handle_key(KeyPress::new(KeyCode::Home, true));
    assert_eq!((s.offset, s.auto_scroll), (0, false));
    s.handle_key(KeyPress::new(KeyCode::Up, true));
    assert_eq!(s.offset, 0);
    s.handle_key(KeyPress::new(KeyCode::Tab, true));
    assert_eq!(s.offset, 0);
    s.handle_key(KeyPress::new(KeyCode::End, true));
    assert_eq!((s.offset, s.auto_scroll), (50, true));
}

#[test]
fn mouse_wheel_moves_picker_or_scrolls_chat() {
    let mut picker = PickerState::new();
    let mut scroll = ChatScroll { offset: 0, auto_scroll: true, last_max_scroll: 20 };
    handle_mouse(&mut picker, &mut scroll, MouseWheel::ScrollUp);
    assert_eq!(scroll.offset, 17);
    assert!(!scroll.auto_scroll);
    handle_mouse(&mut picker, &mut scroll, MouseWheel::ScrollDown);
    assert_eq!(scroll.offset, 20);
    assert!(scroll.auto_scroll);
    handle_mouse(&mut picker, &mut scroll, MouseWheel::Other);
    assert_eq!(scroll.offset, 20);

    let items = vec![
        PickerItem::new("a", "A", ""),
        PickerItem::new("b", "B", ""),
        PickerItem::new("c", "C", ""),
    ];
    picker.open(PickerKind::SelectModel, None, items);
    handle_mouse(&mut picker, &mut scroll, MouseWheel::ScrollUp);
    assert_eq!(picker.selected_index, 2);
    assert_eq!(scroll.offset, 20);
    handle_mouse(&mut picker, &mut scroll, MouseWheel::ScrollDown);
    assert_eq!(picker.selected_index, 0);
    assert!(scroll.auto_scroll);
}
