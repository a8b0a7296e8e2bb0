use thunder_agent::tui::ui::help::{centered_rect, help_text, help_title};

#[test]
fn help_window_lists_shortcuts_then_commands() {
    let lines = help_text();
    assert_eq!(lines.len(), 31);
    assert_eq!(lines[0], "⚡ THUNDER TUI — INTERACTIVE COMMANDS & SHORTCUTS");
    assert_eq!(lines[3], "Enter          Send message / Execute prompt or slash command");
    assert_eq!(lines[14], "/help                     Show full command and shortcut reference");
    assert_eq!(lines[30], "Press Esc or Ctrl+H to close this window");
    assert_eq!(help_title(), " 📖 Help & Command Reference ");
}

#[test]
fn help_window_is_centred() {
    assert_eq!(centered_rect(75, 75, 100, 40), (12, 5, 75, 30));
    assert_eq!(centered_rect(75, 75, 0, 0), (0, 0, 0, 0));
    assert_eq!(centered_rect(50, 50, 81, 25), (20, 6, 40, 12));
}
