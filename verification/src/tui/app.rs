//! The interface's view state: execution mode, focused pane, and the chat
//! scroll position.
use vstd::prelude::*;
use crate::tui::picker::{index_down, index_up, KeyCode, KeyPress, PickerState};

verus! {

/// How a prompt is run.
#[derive(Debug, Clone, Copy, PartialEq, Eq, Structural)]
pub enum ExecutionMode {
    AutoRouter,
    SingleAgent,
}

impl Default for ExecutionMode {
    fn default() -> (m: ExecutionMode)
        ensures
            m == ExecutionMode::AutoRouter,
    {
        ExecutionMode::AutoRouter
    }
}

impl ExecutionMode {
    pub fn badge(&self) -> (s: &'static str)
        ensures
            s@ == (match *self {
                ExecutionMode::AutoRouter => "⚡ Auto"@,
                ExecutionMode::SingleAgent => "Single"@,
            }),
    {
        match self {
            ExecutionMode::AutoRouter => "⚡ Auto",
            ExecutionMode::SingleAgent => "Single",
        }
    }

    pub fn description(&self) -> (s: &'static str)
        ensures
            s@ == (match *self {
                ExecutionMode::AutoRouter => "Plugin-Host Agent (Conversation + Skills + MCP)"@,
                ExecutionMode::SingleAgent => "Single Agent Direct Run"@,
            }),
    {
        match self {
            ExecutionMode::AutoRouter => "Plugin-Host Agent (Conversation + Skills + MCP)",
            ExecutionMode::SingleAgent => "Single Agent Direct Run",
        }
    }

    /// The other mode.
    pub fn next(&self) -> (m: ExecutionMode)
        ensures
            m == mode_after(*self),
    {
        match self {
            ExecutionMode::AutoRouter => ExecutionMode::SingleAgent,
            ExecutionMode::SingleAgent => ExecutionMode::AutoRouter,
        }
    }
}

pub open spec fn mode_after(m: ExecutionMode) -> ExecutionMode {
    match m {
        ExecutionMode::AutoRouter => ExecutionMode::SingleAgent,
        ExecutionMode::SingleAgent => ExecutionMode::AutoRouter,
    }
}

/// Cycling the mode changes it, and cycling twice returns to where it
/// started.
pub proof fn lemma_mode_cycle(m: ExecutionMode)
    ensures
        mode_after(m) != m,
        mode_after(mode_after(m)) == m,
{
}

/// What the agent is doing, as the interface shows it.
#[derive(Debug)]
pub enum AgentStatus {
    Idle,
    Thinking,
    Streaming,
    ExecutingTool { name: String, duration_ms: u64 },
    Done,
    Error(String),
}

/// A tool call of the turn in progress, with its result once it is in.
#[derive(Debug)]
pub struct ActiveToolCall {
    pub id: String,
    pub name: String,
    pub arguments: String,
    pub result: Option<String>,
    pub is_error: bool,
    pub duration_ms: u64,
}

#[derive(Debug, Clone, Copy, PartialEq, Eq, Structural)]
pub enum ViewMode {
    Chat,
    SessionList,
    Help,
}

#[derive(Debug, Clone, Copy, PartialEq, Eq, Structural)]
pub enum FocusPane {
    Input,
    Chat,
    Sidebar,
    Monitor,
}

pub open spec fn focus_after(focus: FocusPane, show_sidebar: bool) -> FocusPane {
    match focus {
        FocusPane::Input => FocusPane::Chat,
        FocusPane::Chat => if show_sidebar {
            FocusPane::Sidebar
        } else {
            FocusPane::Input
        },
        FocusPane::Sidebar => FocusPane::Input,
        FocusPane::Monitor => FocusPane::Input,
    }
}

/// The pane focused after Tab: input, chat, the sidebar when shown, then
/// back to input.
pub fn next_focus(focus: FocusPane, show_sidebar: bool) -> (f: FocusPane)
    ensures
        f == focus_after(focus, show_sidebar),
{
    match focus {
        FocusPane::Input => FocusPane::Chat,
        FocusPane::Chat => if show_sidebar {
            FocusPane::Sidebar
        } else {
            FocusPane::Input
        },
        FocusPane::Sidebar => FocusPane::Input,
        FocusPane::Monitor => FocusPane::Input,
    }
}

/// The chat scroll position: the first line shown, whether the view follows
/// new output, and the last position the content allows.
#[derive(Debug, Clone, Copy)]
pub struct ChatScroll {
    pub offset: usize,
    pub auto_scroll: bool,
    pub last_max_scroll: usize,
}

/// The scroll state after moving `lines` up from where the view is (the
/// end, when following), stopping at the top; following stops.
pub open spec fn scrolled_up(s: ChatScroll, lines: usize) -> ChatScroll {
    let from = if s.auto_scroll { s.last_max_scroll } else { s.offset };
    ChatScroll {
        offset: if from >= lines { (from - lines) as usize } else { 0 },
        auto_scroll: false,
        last_max_scroll: s.last_max_scroll,
    }
}

/// The scroll state after moving `lines` down: nothing while following;
/// reaching the end resumes following.
pub open spec fn scrolled_down(s: ChatScroll, lines: usize) -> ChatScroll {
    if s.auto_scroll {
        s
    } else if s.offset + lines >= s.last_max_scroll {
        ChatScroll { offset: s.last_max_scroll, auto_scroll: true, last_max_scroll: s.last_max_scroll }
    } else {
        ChatScroll { offset: (s.offset + lines) as usize, auto_scroll: false, last_max_scroll: s.last_max_scroll }
    }
}

impl ChatScroll {
    /// Moves `lines` up from where the view is (the end, when following),
    /// stopping at the top; following stops.
    pub fn scroll_up(&mut self, lines: usize)
        ensures
            *final(self) == scrolled_up(*old(self), lines),
    {
        let current = if self.auto_scroll {
            self.last_max_scroll
        } else {
            self.offset
        };
        self.offset = current.saturating_sub(lines);
        self.auto_scroll = false;
    }

    /// Moves `lines` down unless following; reaching the end resumes
    /// following.
    pub fn scroll_down(&mut self, lines: usize)
        requires
            !old(self).auto_scroll ==> old(self).offset + lines <= usize::MAX,
        ensures
            *final(self) == scrolled_down(*old(self), lines),
    {
        if !self.auto_scroll {
            self.offset = self.offset + lines;
            if self.offset >= self.last_max_scroll {
                self.auto_scroll = true;
                self.offset = self.last_max_scroll;
            }
        }
    }

    pub fn scroll_to_top(&mut self)
        ensures
            final(self).offset == 0,
            !final(self).auto_scroll,
            final(self).last_max_scroll == old(self).last_max_scroll,
    {
        self.offset = 0;
        self.auto_scroll = false;
    }

    pub fn scroll_to_bottom(&mut self)
        ensures
            final(self).offset == old(self).last_max_scroll,
            final(self).auto_scroll,
            final(self).last_max_scroll == old(self).last_max_scroll,
    {
        self.auto_scroll = true;
        self.offset = self.last_max_scroll;
    }

    /// Scroll keys of the chat pane: arrows and `k`/`j` by one line,
    /// PageUp/PageDown by ten, Home and End to either end; other keys do
    /// nothing.
    pub fn handle_key(&mut self, key: KeyPress)
        requires
            !old(self).auto_scroll ==> old(self).offset + 10 <= usize::MAX,
        ensures
            key.code == KeyCode::Up || key.code == KeyCode::Char('k') ==> *final(self) == scrolled_up(*old(self), 1),
            key.code == KeyCode::Down || key.code == KeyCode::Char('j') ==> *final(self) == scrolled_down(
                *old(self),
                1,
            ),
            key.code == KeyCode::PageUp ==> *final(self) == scrolled_up(*old(self), 10),
            key.code == KeyCode::PageDown ==> *final(self) == scrolled_down(*old(self), 10),
            key.code == KeyCode::Home ==> final(self).offset == 0 && !final(self).auto_scroll
                && final(self).last_max_scroll == old(self).last_max_scroll,
            key.code == KeyCode::End ==> final(self).offset == old(self).last_max_scroll && final(self).auto_scroll
                && final(self).last_max_scroll == old(self).last_max_scroll,
            !(key.code == KeyCode::Up || key.code == KeyCode::Char('k') || key.code == KeyCode::Down || key.code
                == KeyCode::Char('j') || key.code == KeyCode::PageUp || key.code == KeyCode::PageDown || key.code
                == KeyCode::End || key.code == KeyCode::Home) ==> *final(self) == *old(self),
    {
        match key.code {
            KeyCode::Up | KeyCode::Char('k') => self.scroll_up(1),
            KeyCode::Down | KeyCode::Char('j') => self.scroll_down(1),
            KeyCode::PageUp => self.scroll_up(10),
            KeyCode::PageDown => self.scroll_down(10),
            KeyCode::End => self.scroll_to_bottom(),
            KeyCode::Home => self.scroll_to_top(),
            _ => {},
        }
    }
}

/// Scrolling never leaves a position the content allows: from an offset at
/// or below the last position, moving up or down keeps it there.
pub proof fn lemma_scroll_stays_in_range(s: ChatScroll, lines: usize)
    requires
        s.offset <= s.last_max_scroll,
    ensures
        scrolled_up(s, lines).offset <= s.last_max_scroll,
        !s.auto_scroll ==> scrolled_down(s, lines).offset <= s.last_max_scroll,
{
}

/// A key with the modifiers the interface distinguishes.
#[derive(Debug, Clone, Copy, PartialEq, Eq, Structural)]
pub struct AppKey {
    pub code: KeyCode,
    pub control: bool,
    /// Shift or Alt held.
    pub shift_or_alt: bool,
}

/// What a key press asks of the interface before the focused pane sees it.
#[derive(Debug, Clone, Copy, PartialEq, Eq, Structural)]
pub enum KeyAction {
    /// The picker is open and takes every key.
    Picker,
    /// Stop the running agent (`by_escape` tells Esc from Ctrl+C).
    CancelRun { by_escape: bool },
    Quit,
    NewSession,
    CycleMode,
    ToggleSidebar,
    ToggleHelp,
    ScrollUp(usize),
    ScrollDown(usize),
    ScrollToTop,
    ScrollToBottom,
    /// Tab on the prompt: complete the command line, else move focus.
    CompleteOrCycleFocus,
    CycleFocus,
    /// Esc over the help or session list: back to the chat and the prompt.
    CloseOverlay,
    /// Esc on a command line: clear it.
    ClearCommandLine,
    /// Esc with nothing to close, clear or cancel.
    Nothing,
    /// The focused pane handles the key.
    ToPane(FocusPane),
}

/// The interface-wide meaning of a key, given whether the picker is open,
/// the focused pane, the view, whether the prompt is empty or a command
/// line, and whether an agent run can be cancelled.
pub open spec fn key_action(
    k: AppKey,
    picker_open: bool,
    focus: FocusPane,
    view: ViewMode,
    input_empty: bool,
    input_is_command: bool,
    running: bool,
) -> KeyAction {
    if picker_open {
        KeyAction::Picker
    } else {
        match k.code {
            KeyCode::Char(c) if k.control && c == 'c' => if running {
                KeyAction::CancelRun { by_escape: false }
            } else {
                KeyAction::Quit
            },
            KeyCode::Char(c) if k.control && c == 'q' => KeyAction::Quit,
            KeyCode::Char(c) if k.control && c == 'n' => KeyAction::NewSession,
            KeyCode::Char(c) if k.control && c == 'p' => KeyAction::CycleMode,
            KeyCode::Char(c) if k.control && c == 'b' => KeyAction::ToggleSidebar,
            KeyCode::Char(c) if k.control && c == 'h' => KeyAction::ToggleHelp,
            KeyCode::PageUp => KeyAction::ScrollUp(10),
            KeyCode::PageDown => KeyAction::ScrollDown(10),
            KeyCode::Home if k.control || input_empty => KeyAction::ScrollToTop,
            KeyCode::End if k.control || input_empty => KeyAction::ScrollToBottom,
            KeyCode::Up if k.shift_or_alt => KeyAction::ScrollUp(1),
            KeyCode::Down if k.shift_or_alt => KeyAction::ScrollDown(1),
            KeyCode::Tab => if focus == FocusPane::Input && input_is_command {
                KeyAction::CompleteOrCycleFocus
            } else {
                KeyAction::CycleFocus
            },
            KeyCode::Esc => match view {
                ViewMode::Help | ViewMode::SessionList => KeyAction::CloseOverlay,
                ViewMode::Chat => if input_is_command {
                    KeyAction::ClearCommandLine
                } else if running {
                    KeyAction::CancelRun { by_escape: true }
                } else {
                    KeyAction::Nothing
                },
            },
            _ => KeyAction::ToPane(focus),
        }
    }
}

pub fn classify_key(
    k: AppKey,
    picker_open: bool,
    focus: FocusPane,
    view: ViewMode,
    input_empty: bool,
    input_is_command: bool,
    running: bool,
) -> (a: KeyAction)
    ensures
        a == key_action(k, picker_open, focus, view, input_empty, input_is_command, running),
{
    if picker_open {
        return KeyAction::Picker;
    }
    match k.code {
        KeyCode::Char(c) if k.control && c == 'c' => if running {
            KeyAction::CancelRun { by_escape: false }
        } else {
            KeyAction::Quit
        },
        KeyCode::Char(c) if k.control && c == 'q' => KeyAction::Quit,
        KeyCode::Char(c) if k.control && c == 'n' => KeyAction::NewSession,
        KeyCode::Char(c) if k.control && c == 'p' => KeyAction::CycleMode,
        KeyCode::Char(c) if k.control && c == 'b' => KeyAction::ToggleSidebar,
        KeyCode::Char(c) if k.control && c == 'h' => KeyAction::ToggleHelp,
        KeyCode::PageUp => KeyAction::ScrollUp(10),
        KeyCode::PageDown => KeyAction::ScrollDown(10),
        KeyCode::Home if k.control || input_empty => KeyAction::ScrollToTop,
        KeyCode::End if k.control || input_empty => KeyAction::ScrollToBottom,
        KeyCode::Up if k.shift_or_alt => KeyAction::ScrollUp(1),
        KeyCode::Down if k.shift_or_alt => KeyAction::ScrollDown(1),
        KeyCode::Tab => if focus == FocusPane::Input && input_is_command {
            KeyAction::CompleteOrCycleFocus
        } else {
            KeyAction::CycleFocus
        },
        KeyCode::Esc => match view {
            ViewMode::Help | ViewMode::SessionList => KeyAction::CloseOverlay,
            ViewMode::Chat => if input_is_command {
                KeyAction::ClearCommandLine
            } else if running {
                KeyAction::CancelRun { by_escape: true }
            } else {
                KeyAction::Nothing
            },
        },
        _ => KeyAction::ToPane(focus),
    }
}

/// Ctrl+H: the help view, or back to the chat from it.
pub fn toggled_help(view: ViewMode) -> (v: ViewMode)
    ensures
        v == (if view == ViewMode::Help { ViewMode::Chat } else { ViewMode::Help }),
{
    match view {
        ViewMode::Help => ViewMode::Chat,
        _ => ViewMode::Help,
    }
}

/// Keys of the session sidebar: Up/`k` and Down/`j` move the selection
/// within the list; Enter opens the selected session and `d`/Delete
/// deletes it.
#[derive(Debug, Clone, Copy, PartialEq, Eq, Structural)]
pub enum SidebarAction {
    Select(usize),
    Open(usize),
    Delete(usize),
    Nothing,
}

pub open spec fn sidebar_action(code: KeyCode, selected: usize, sessions: nat) -> SidebarAction {
    match code {
        KeyCode::Up => SidebarAction::Select(if selected > 0 { (selected - 1) as usize } else { selected }),
        KeyCode::Char(c) if c == 'k' => SidebarAction::Select(if selected > 0 { (selected - 1) as usize } else { selected }),
        KeyCode::Down => SidebarAction::Select(if selected + 1 < sessions { (selected + 1) as usize } else { selected }),
        KeyCode::Char(c) if c == 'j' => SidebarAction::Select(if selected + 1 < sessions { (selected + 1) as usize } else { selected }),
        KeyCode::Enter => if selected < sessions { SidebarAction::Open(selected) } else { SidebarAction::Nothing },
        KeyCode::Char(c) if c == 'd' => if selected < sessions { SidebarAction::Delete(selected) } else { SidebarAction::Nothing },
        KeyCode::Delete => if selected < sessions { SidebarAction::Delete(selected) } else { SidebarAction::Nothing },
        _ => SidebarAction::Nothing,
    }
}

pub fn sidebar_key(code: KeyCode, selected: usize, sessions: usize) -> (a: SidebarAction)
    ensures
        a == sidebar_action(code, selected, sessions as nat),
{
    let up = if selected > 0 { selected - 1 } else { selected };
    let down = if sessions > 0 && selected < sessions - 1 { selected + 1 } else { selected };
    match code {
        KeyCode::Up => SidebarAction::Select(up),
        KeyCode::Char(c) if c == 'k' => SidebarAction::Select(up),
        KeyCode::Down => SidebarAction::Select(down),
        KeyCode::Char(c) if c == 'j' => SidebarAction::Select(down),
        KeyCode::Enter => if selected < sessions { SidebarAction::Open(selected) } else { SidebarAction::Nothing },
        KeyCode::Char(c) if c == 'd' => if selected < sessions { SidebarAction::Delete(selected) } else { SidebarAction::Nothing },
        KeyCode::Delete => if selected < sessions { SidebarAction::Delete(selected) } else { SidebarAction::Nothing },
        _ => SidebarAction::Nothing,
    }
}

/// A mouse event, as far as the interface reacts to it.
#[derive(Debug, Clone, Copy, PartialEq, Eq, Structural)]
pub enum MouseWheel {
    ScrollUp,
    ScrollDown,
    Other,
}

/// The mouse wheel moves the open picker's selection, or else scrolls the
/// chat three lines; other mouse events do nothing.
pub fn handle_mouse(picker: &mut PickerState, scroll: &mut ChatScroll, wheel: MouseWheel)
    requires
        wheel == MouseWheel::ScrollDown && old(picker).is_open && old(picker).shown().len() > 0
            ==> old(picker).selected_index < usize::MAX,
        wheel == MouseWheel::ScrollDown && !old(picker).is_open && !old(scroll).auto_scroll
            ==> old(scroll).offset + 3 <= usize::MAX,
    ensures
        final(picker).is_open == old(picker).is_open,
        final(picker).items == old(picker).items,
        final(picker).filter_text == old(picker).filter_text,
        final(picker).selected_index == match wheel {
            MouseWheel::ScrollUp => if old(picker).is_open {
                index_up(old(picker).selected_index, old(picker).shown().len())
            } else {
                old(picker).selected_index
            },
            MouseWheel::ScrollDown => if old(picker).is_open {
                index_down(old(picker).selected_index, old(picker).shown().len())
            } else {
                old(picker).selected_index
            },
            MouseWheel::Other => old(picker).selected_index,
        },
        *final(scroll) == match wheel {
            MouseWheel::ScrollUp => if old(picker).is_open {
                *old(scroll)
            } else {
                scrolled_up(*old(scroll), 3)
            },
            MouseWheel::ScrollDown => if old(picker).is_open {
                *old(scroll)
            } else {
                scrolled_down(*old(scroll), 3)
            },
            MouseWheel::Other => *old(scroll),
        },
{
    match wheel {
        MouseWheel::ScrollUp => {
            if picker.is_open {
                picker.move_up();
            } else {
                scroll.scroll_up(3);
            }
        },
        MouseWheel::ScrollDown => {
            if picker.is_open {
                picker.move_down();
            } else {
                scroll.scroll_down(3);
            }
        },
        MouseWheel::Other => {},
    }
}

} // verus!
