use thunder_agent::tui::app::{
    classify_key, sidebar_key, toggled_help, AppKey, FocusPane, KeyAction, SidebarAction, ViewMode,
};
use thunder_agent::tui::input::{EnterOutcome, InputMove, PromptInput};
use thunder_agent::tui::picker::KeyCode;

fn typed(s: &str) -> PromptInput {
    let mut p = PromptInput::new();
    for c in s.chars() {
        p.type_char(c);
    }
    p
}

#[test]
fn enter_completes_partial_commands_and_submits_whole_lines() {
    // An alias is a whole command.
    let mut p = typed("/sk");
    assert_eq!(p.enter(true), EnterOutcome::Submitted("/sk".to_string()));
    let mut p = typed("/ski");
    assert_eq!(p.enter(true), EnterOutcome::Completed);
    assert_eq!(p.text(), "/skills ");
    assert_eq!(p.enter(true), EnterOutcome::Submitted("/skills ".to_string()));
    assert_eq!(p.text(), "");

    let mut p = typed("/");
    assert_eq!(p.enter(true), EnterOutcome::Completed);
    assert_eq!(p.text(), "/resume ");

    // An exact command name submits.
    let mut p = typed("/help");
    assert_eq!(p.enter(true), EnterOutcome::Submitted("/help".to_string()));

    // Not ready: nothing happens.
    let mut p = typed("hello");
    assert_eq!(p.enter(false), EnterOutcome::Ignored);
    assert_eq!(p.text(), "hello");
    assert_eq!(p.enter(true), EnterOutcome::Submitted("hello".to_string()));

    let mut p = typed("   ");
    assert_eq!(p.enter(true), EnterOutcome::Ignored);
}

#[test]
fn tab_and_arrows_move_through_completions() {
    let mut p = typed("/re");
    assert!(p.tab());
    assert_eq!(p.text(), "/resume ");
    let mut p = typed("/m");
    assert_eq!(p.down(), InputMove::Handled);
    assert_eq!(p.popup_idx(), 1);
    assert_eq!(p.up(), InputMove::Handled);
    assert_eq!(p.popup_idx(), 0);
    assert_eq!(p.up(), InputMove::Handled);
    assert!(p.popup_idx() > 0);
    let mut q = typed("plain text");
    assert!(!q.tab());
    assert_eq!(q.text(), "plain text");
    assert!(!q.escape());
    let mut r = typed("/mod");
    assert!(r.escape());
    assert_eq!(r.text(), "");
    r.set_text("/help ".to_string());
    assert_eq!(r.text(), "/help ");
}

#[test]
fn history_is_browsed_newest_first() {
    let mut p = PromptInput::new();
    assert_eq!(p.up(), InputMove::ScrollUp);
    assert_eq!(p.down(), InputMove::ScrollDown);
    for prompt in ["first", "second", "third"] {
        for c in prompt.chars() {
            p.type_char(c);
        }
        assert!(matches!(p.enter(true), EnterOutcome::Submitted(_)));
    }
    assert_eq!(p.up(), InputMove::Handled);
    assert_eq!(p.text(), "third");
    p.up();
    p.up();
    assert_eq!(p.text(), "first");
    assert_eq!(p.up(), InputMove::Handled);
    assert_eq!(p.text(), "first");
    p.down();
    assert_eq!(p.text(), "second");
    p.down();
    p.down();
    assert_eq!(p.text(), "");
    p.type_char('x');
    p.backspace();
    p.backspace();
    assert_eq!(p.text(), "");
}

fn key(code: KeyCode, control: bool) -> AppKey {
    AppKey { code, control, shift_or_alt: false }
}

#[test]
fn interface_keys() {
    let input = FocusPane::Input;
    let chat = ViewMode::Chat;
    assert_eq!(classify_key(key(KeyCode::Char('c'), true), false, input, chat, true, false, true), KeyAction::CancelRun { by_escape: false });
    assert_eq!(classify_key(key(KeyCode::Char('c'), true), false, input, chat, true, false, false), KeyAction::Quit);
    assert_eq!(classify_key(key(KeyCode::Char('c'), false), false, input, chat, true, false, false), KeyAction::ToPane(FocusPane::Input));
    assert_eq!(classify_key(key(KeyCode::Char('p'), true), false, input, chat, true, false, false), KeyAction::CycleMode);
    assert_eq!(classify_key(key(KeyCode::Char('x'), true), true, input, chat, true, false, false), KeyAction::Picker);
    assert_eq!(classify_key(key(KeyCode::PageUp, false), false, FocusPane::Sidebar, chat, false, false, false), KeyAction::ScrollUp(10));
    assert_eq!(classify_key(key(KeyCode::Home, false), false, input, chat, false, false, false), KeyAction::ToPane(FocusPane::Input));
    assert_eq!(classify_key(key(KeyCode::Home, false), false, input, chat, true, false, false), KeyAction::ScrollToTop);
    assert_eq!(classify_key(AppKey { code: KeyCode::Up, control: false, shift_or_alt: true }, false, input, chat, false, false, false), KeyAction::ScrollUp(1));
    assert_eq!(classify_key(key(KeyCode::Tab, false), false, input, chat, false, true, false), KeyAction::CompleteOrCycleFocus);
    assert_eq!(classify_key(key(KeyCode::Tab, false), false, FocusPane::Chat, chat, false, true, false), KeyAction::CycleFocus);
    assert_eq!(classify_key(key(KeyCode::Esc, false), false, input, ViewMode::Help, true, false, true), KeyAction::CloseOverlay);
    assert_eq!(classify_key(key(KeyCode::Esc, false), false, input, chat, false, true, true), KeyAction::ClearCommandLine);
    assert_eq!(classify_key(key(KeyCode::Esc, false), false, input, chat, false, false, true), KeyAction::CancelRun { by_escape: true });
    assert_eq!(classify_key(key(KeyCode::Esc, false), false, input, chat, false, false, false), KeyAction::Nothing);
    assert_eq!(toggled_help(ViewMode::Help), ViewMode::Chat);
    assert_eq!(toggled_help(ViewMode::SessionList), ViewMode::Help);
}

#[test]
fn sidebar_keys_stay_in_the_list() {
    assert_eq!(sidebar_key(KeyCode::Up, 0, 3), SidebarAction::Select(0));
    assert_eq!(sidebar_key(KeyCode::Char('k'), 2, 3), SidebarAction::Select(1));
    assert_eq!(sidebar_key(KeyCode::Down, 2, 3), SidebarAction::Select(2));
    assert_eq!(sidebar_key(KeyCode::Char('j'), 0, 3), SidebarAction::Select(1));
    assert_eq!(sidebar_key(KeyCode::Down, 0, 0), SidebarAction::Select(0));
    assert_eq!(sidebar_key(KeyCode::Enter, 1, 3), SidebarAction::Open(1));
    assert_eq!(sidebar_key(KeyCode::Enter, 0, 0), SidebarAction::Nothing);
    assert_eq!(sidebar_key(KeyCode::Delete, 2, 3), SidebarAction::Delete(2));
    assert_eq!(sidebar_key(KeyCode::Char('d'), 2, 3), SidebarAction::Delete(2));
    assert_eq!(sidebar_key(KeyCode::Char('x'), 2, 3), SidebarAction::Nothing);
}
