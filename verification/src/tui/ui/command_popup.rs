//! The slash-command popup over the prompt: where it sits, which slice of
//! the offered commands is on screen, and its text.
use vstd::prelude::*;
use crate::text::{decimal, push_decimal, push_str, string_of, views};
use crate::tui::commands::{command_views, completions, filter_commands, CommandView};

verus! {

/// First row shown so that the selected row stays on screen.
pub open spec fn window_start(selected_idx: int, total: int, visible_rows: int) -> int {
    if total == 0 || visible_rows == 0 || selected_idx < visible_rows {
        0
    } else {
        let max_start = if total > visible_rows { total - visible_rows } else { 0 };
        let lead = if selected_idx > visible_rows - 1 { selected_idx - (visible_rows - 1) } else { 0 };
        if lead < max_start { lead } else { max_start }
    }
}

/// The first of `total` rows to show in a window of `visible_rows` so that
/// row `selected_idx` is visible; the window is kept full where it can be.
pub fn scroll_offset(selected_idx: usize, total: usize, visible_rows: usize) -> (r: usize)
    ensures
        r == window_start(selected_idx as int, total as int, visible_rows as int),
        selected_idx < total && visible_rows > 0 ==> r <= selected_idx < r + visible_rows,
        r + visible_rows <= total || r == 0,
{
    if total == 0 || visible_rows == 0 || selected_idx < visible_rows {
        return 0;
    }
    let max_start = total.saturating_sub(visible_rows);
    let lead = selected_idx.saturating_sub(visible_rows.saturating_sub(1));
    if lead < max_start {
        lead
    } else {
        max_start
    }
}

/// Most commands the popup shows at once.
pub const MAX_VISIBLE_COMMANDS: usize = 8;

/// One row: the cursor on the highlighted command, `/name`, the argument
/// hint when there is one, and the description.
pub open spec fn popup_row(c: CommandView, selected: bool) -> Seq<char> {
    (if selected { " ▶ "@ } else { "   "@ }) + "/"@ + c.name + (if c.args_hint.len() > 0 {
        " "@ + c.args_hint
    } else {
        Seq::empty()
    }) + "  — "@ + c.description
}

pub open spec fn popup_rows(cs: Seq<CommandView>, start: int, end: int, selected: int) -> Seq<Seq<char>>
    decreases end - start,
{
    if end <= start {
        Seq::empty()
    } else {
        popup_rows(cs, start, end - 1, selected).push(popup_row(cs[end - 1], end - 1 == selected))
    }
}

/// The popup's title: the position among the offered commands when they do
/// not all fit.
pub open spec fn popup_title(selected: nat, total: nat, visible: nat) -> Seq<char> {
    " ⚡ Slash Commands"@ + (if total > visible {
        " ["@ + decimal(selected + 1) + "/"@ + decimal(total) + "] "@
    } else {
        Seq::empty()
    }) + "(↑/↓ select, Tab/Enter) "@
}

/// The text of the popup.
pub struct PopupText {
    pub title: String,
    pub rows: Vec<String>,
}

/// The popup for the prompt `input` with highlight `popup_idx`; `None`
/// when no command is offered.
pub fn popup_text(input: &str, popup_idx: usize) -> (r: Option<PopupText>)
    ensures
        ({
            let cs = completions(input@);
            if cs.len() == 0 {
                r is None
            } else {
                let visible: nat = if cs.len() < MAX_VISIBLE_COMMANDS { cs.len() } else { MAX_VISIBLE_COMMANDS as nat };
                let sel = (popup_idx as nat) % cs.len();
                let start = window_start(sel as int, cs.len() as int, visible as int);
                let end = if start + visible < cs.len() { start + visible } else { cs.len() as int };
                &&& r is Some
                &&& r.unwrap().title@ == popup_title(sel as nat, cs.len(), visible)
                &&& views(r.unwrap().rows@) == popup_rows(cs, start, end, sel as int)
            }
        }),
{
    let ms = filter_commands(input);
    let n = ms.len();
    if n == 0 {
        return None;
    }
    let ghost cs = command_views(ms@);
    let visible: usize = if n < MAX_VISIBLE_COMMANDS { n } else { MAX_VISIBLE_COMMANDS };
    let sel = popup_idx % n;
    let start = scroll_offset(sel, n, visible);
    let end: usize = if start < n && visible < n - start { start + visible } else { n };
    let mut rows: Vec<String> = Vec::new();
    let mut i = start;
    while i < end
        invariant
            start <= i <= end <= n,
            n == ms@.len(),
            cs == command_views(ms@),
            views(rows@) == popup_rows(cs, start as int, i as int, sel as int),
        decreases end - i,
    {
        let c = &ms[i];
        let mut row = if i == sel { string_of(" ▶ ") } else { string_of("   ") };
        push_str(&mut row, "/");
        push_str(&mut row, c.name);
        if !c.args_hint.is_empty() {
            push_str(&mut row, " ");
            push_str(&mut row, c.args_hint);
        }
        push_str(&mut row, "  — ");
        push_str(&mut row, c.description);
        let ghost before = views(rows@);
        proof {
            assert(cs[i as int] == ms@[i as int]@);
            assert(row@ =~= popup_row(ms@[i as int]@, i == sel));
        }
        rows.push(row);
        assert(views(rows@) =~= before.push(popup_row(cs[i as int], i == sel)));
        i += 1;
    }
    let mut title = string_of(" ⚡ Slash Commands");
    if n > visible {
        push_str(&mut title, " [");
        push_decimal(&mut title, sel as u64 + 1);
        push_str(&mut title, "/");
        push_decimal(&mut title, n as u64);
        push_str(&mut title, "] ");
    }
    push_str(&mut title, "(↑/↓ select, Tab/Enter) ");
    assert(title@ =~= popup_title(sel as nat, n as nat, visible as nat));
    Some(PopupText { title, rows })
}

/// Where the popup sits: at the prompt's left edge, just above it, as tall
/// as its rows plus borders, at least 50 wide but within the screen less 4.
pub fn popup_rect(input_x: u16, input_y: u16, input_width: u16, screen_width: u16, visible: u16) -> (r: (u16, u16, u16, u16))
    requires
        visible + 2 <= u16::MAX,
    ensures
        ({
            let h = visible + 2;
            let w0 = if input_width > 50 { input_width as int } else { 50 };
            let cap = if screen_width > 4 { screen_width - 4 } else { 0 };
            &&& r.0 == input_x
            &&& r.1 == (if input_y > h { input_y - h } else { 0 })
            &&& r.2 == (if w0 < cap { w0 } else { cap })
            &&& r.3 == h
        }),
{
    let h = visible + 2;
    let w0 = if input_width > 50 { input_width } else { 50 };
    let cap = screen_width.saturating_sub(4);
    let w = if w0 < cap { w0 } else { cap };
    (input_x, input_y.saturating_sub(h), w, h)
}

} // verus!
