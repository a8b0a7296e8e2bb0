//! The picker modal: where it sits, which slice of the list is on screen,
//! and the text of its title, search line, rows and footer.
use vstd::prelude::*;
use crate::text::{chars_of, decimal, first_line, first_line_of, push_char, push_decimal, push_str, string_of, views};
use crate::tui::picker::{item_views, ItemView, PickerItem, PickerState};

verus! {

/// First row shown so that the selected row stays on screen.
pub open spec fn window_start(selected_idx: int, total: int, visible_rows: int) -> int {
    if total == 0 || visible_rows == 0 || selected_idx < visible_rows {
        0
    } else {
        let max_start = if total > visible_rows { total - visible_rows } else { 0 };
        let lead = if selected_idx > visible_rows - 1 { selected_idx - (visible_rows - 1) } else { 0 };
        if lead < max_start { lead } else { max_start }
    }
}

/// The first of `total` rows to show in a window of `visible_rows` so that
/// row `selected_idx` is visible; the window is kept full where it can be.
pub fn scroll_offset(selected_idx: usize, total: usize, visible_rows: usize) -> (r: usize)
    ensures
        r == window_start(selected_idx as int, total as int, visible_rows as int),
        selected_idx < total && visible_rows > 0 ==> r <= selected_idx < r + visible_rows,
        r + visible_rows <= total || r == 0,
{
    if total == 0 || visible_rows == 0 || selected_idx < visible_rows {
        return 0;
    }
    let max_start = total.saturating_sub(visible_rows);
    let lead = selected_idx.saturating_sub(visible_rows.saturating_sub(1));
    if lead < max_start {
        lead
    } else {
        max_start
    }
}

/// The modal's frame inside an `area_w` by `area_h` screen: three quarters
/// of the width (at least 50, at most the width less 4) and 70% of the
/// height (at least 12, at most the height less 2), centred.
pub open spec fn modal_frame(area_w: nat, area_h: nat) -> (nat, nat, nat, nat) {
    let w0: nat = area_w * 75 / 100;
    let w1: nat = if w0 > 50 { w0 } else { 50 };
    let wcap: nat = if area_w > 4 { (area_w - 4) as nat } else { 0 };
    let w: nat = if w1 < wcap { w1 } else { wcap };
    let h0: nat = area_h * 70 / 100;
    let h1: nat = if h0 > 12 { h0 } else { 12 };
    let hcap: nat = if area_h > 2 { (area_h - 2) as nat } else { 0 };
    let h: nat = if h1 < hcap { h1 } else { hcap };
    ((area_w - w) as nat / 2, (area_h - h) as nat / 2, w, h)
}

/// `(x, y, width, height)` of the modal.
pub fn modal_rect(area_w: u16, area_h: u16) -> (r: (u16, u16, u16, u16))
    requires
        area_w * 75 <= u16::MAX,
        area_h * 70 <= u16::MAX,
    ensures
        (r.0 as nat, r.1 as nat, r.2 as nat, r.3 as nat) == modal_frame(area_w as nat, area_h as nat),
        r.0 + r.2 <= area_w,
        r.1 + r.3 <= area_h,
{
    let w0 = area_w * 75 / 100;
    let w1 = if w0 > 50 { w0 } else { 50 };
    let wcap = area_w.saturating_sub(4);
    let w = if w1 < wcap { w1 } else { wcap };
    let h0 = area_h * 70 / 100;
    let h1 = if h0 > 12 { h0 } else { 12 };
    let hcap = area_h.saturating_sub(2);
    let h = if h1 < hcap { h1 } else { hcap };
    ((area_w - w) / 2, (area_h - h) / 2, w, h)
}

/// Position of the selection among `n` shown items, clamped to the last.
pub open spec fn clamped_selection(selected: nat, n: nat) -> nat {
    if n == 0 {
        0
    } else if selected < n {
        selected
    } else {
        (n - 1) as nat
    }
}

pub open spec fn modal_title(title: Seq<char>, selected: nat, n: nat) -> Seq<char> {
    " "@ + title + " ["@ + decimal(if n == 0 { 0 } else { clamped_selection(selected, n) + 1 }) + "/"@
        + decimal(n) + "] "@
}

pub open spec fn search_line(filter: Seq<char>, n: nat) -> Seq<char> {
    " 🔍 Search: "@ + (if filter.len() == 0 {
        " (type to search...) "@
    } else {
        " \""@ + filter + "\" "@
    }) + " ["@ + decimal(n) + " result(s)]"@
}

pub open spec fn spaces(n: nat) -> Seq<char> {
    Seq::new(n, |i: int| ' ')
}

/// `text` left-aligned in a field of `width` characters (`{:<width}`).
pub open spec fn padded(text: Seq<char>, width: nat) -> Seq<char> {
    if text.len() < width {
        text + spaces((width - text.len()) as nat)
    } else {
        text
    }
}

pub open spec fn item_row(it: ItemView, selected: bool) -> Seq<char> {
    (if selected { " ▶ "@ } else { "   "@ }) + padded(it.title, 28) + (match it.badge {
        Some(b) => " ["@ + b + "] "@,
        None => " "@,
    }) + first_line(it.description)
}

/// Rows `start..end` of the shown items, the selected one marked.
pub open spec fn item_rows(items: Seq<ItemView>, start: int, end: int, selected: int) -> Seq<Seq<char>>
    decreases end - start,
{
    if end <= start {
        Seq::empty()
    } else {
        item_rows(items, start, end - 1, selected).push(item_row(items[end - 1], end - 1 == selected))
    }
}

pub open spec fn footer_line(start: nat, end: nat, n: nat) -> Seq<char> {
    (if start > 0 { " ↑"@ + decimal(start) + " more "@ } else { Seq::empty() })
        + " ↑/↓ move  Enter attach  Esc close "@ + (if end < n {
        " ↓"@ + decimal((n - end) as nat) + " more "@
    } else {
        Seq::empty()
    })
}

/// The text of an open picker modal.
pub struct ModalText {
    pub title: String,
    pub search: String,
    pub rows: Vec<String>,
    pub footer: String,
}

/// The list window of the modal: first and one-past-last shown row.
pub open spec fn modal_window(selected: nat, n: nat, visible_rows: nat) -> (nat, nat) {
    let rows: nat = if visible_rows > 0 { visible_rows } else { 1 };
    let start = window_start(clamped_selection(selected, n) as int, n as int, rows as int) as nat;
    let end: nat = if start + rows < n { start + rows } else { n };
    (start, end)
}

fn push_padded(s: &mut String, text: &str, width: usize)
    ensures
        final(s)@ == old(s)@ + padded(text@, width as nat),
{
    push_str(s, text);
    let n = chars_of(text).len();
    if n < width {
        let ghost base = s@;
        let mut k: usize = n;
        while k < width
            invariant
                n <= k <= width,
                n == text@.len(),
                s@ == base + spaces((k - n) as nat),
            decreases width - k,
        {
            push_char(s, ' ');
            assert(spaces((k + 1 - n) as nat) =~= spaces((k - n) as nat).push(' '));
            k += 1;
        }
        assert(s@ =~= old(s)@ + padded(text@, width as nat));
    }
}

fn item_row_text(it: &PickerItem, selected: bool) -> (r: String)
    ensures
        r@ == item_row(it@, selected),
{
    let mut r = if selected { string_of(" ▶ ") } else { string_of("   ") };
    push_padded(&mut r, it.title.as_str(), 28);
    match &it.badge {
        Some(b) => {
            push_str(&mut r, " [");
            push_str(&mut r, b.as_str());
            push_str(&mut r, "] ");
        },
        None => push_str(&mut r, " "),
    }
    let d = first_line_of(it.description.as_str());
    push_str(&mut r, d.as_str());
    r
}

/// The modal's text for `state` with `visible_rows` list rows (at least one
/// is used): the title with the selection's position, the search line, the
/// rows on screen (or a notice when nothing matches) and the footer.
pub fn modal_text(state: &PickerState, visible_rows: usize) -> (m: ModalText)
    ensures
        ({
            let shown = state.shown();
            let n = shown.len();
            let sel = clamped_selection(state.selected_index as nat, n);
            let (start, end) = modal_window(state.selected_index as nat, n, visible_rows as nat);
            &&& m.title@ == modal_title(state.title@, state.selected_index as nat, n)
            &&& m.search@ == search_line(state.filter_text@, n)
            &&& views(m.rows@) == (if n == 0 {
                seq!["   No matching items found."@]
            } else {
                item_rows(shown, start as int, end as int, sel as int)
            })
            &&& m.footer@ == footer_line(start, end, n)
        }),
{
    let filtered = state.filtered_items();
    let n = filtered.len();
    let ghost shown = state.shown();
    assert(item_views(filtered@).len() == filtered@.len());
    let sel: usize = if n == 0 {
        0
    } else if state.selected_index < n {
        state.selected_index
    } else {
        n - 1
    };

    let mut title = string_of(" ");
    push_str(&mut title, state.title.as_str());
    push_str(&mut title, " [");
    push_decimal(&mut title, if n == 0 { 0 } else { sel as u64 + 1 });
    push_str(&mut title, "/");
    push_decimal(&mut title, n as u64);
    push_str(&mut title, "] ");

    let mut search = string_of(" 🔍 Search: ");
    if chars_of(state.filter_text.as_str()).len() == 0 {
        push_str(&mut search, " (type to search...) ");
    } else {
        push_str(&mut search, " \"");
        push_str(&mut search, state.filter_text.as_str());
        push_str(&mut search, "\" ");
    }
    push_str(&mut search, " [");
    push_decimal(&mut search, n as u64);
    push_str(&mut search, " result(s)]");

    let rows_n: usize = if visible_rows > 0 { visible_rows } else { 1 };
    let start = scroll_offset(sel, n, rows_n);
    let end: usize = if start < n && rows_n < n - start { start + rows_n } else { n };
    assert(end as nat == modal_window(state.selected_index as nat, n as nat, visible_rows as nat).1);

    let mut rows: Vec<String> = Vec::new();
    if n == 0 {
        rows.push(string_of("   No matching items found."));
        assert(views(rows@) =~= seq!["   No matching items found."@]);
    } else {
        let mut i = start;
        while i < end
            invariant
                start <= i <= end <= n,
                n == filtered@.len(),
                item_views(filtered@) == shown,
                views(rows@) == item_rows(shown, start as int, i as int, sel as int),
            decreases end - i,
        {
            let r = item_row_text(&filtered[i], i == sel);
            let ghost before = views(rows@);
            rows.push(r);
            assert(views(rows@) =~= before.push(item_row(shown[i as int], i == sel)));
            i += 1;
        }
    }

    let mut footer = String::new();
    if start > 0 {
        push_str(&mut footer, " ↑");
        push_decimal(&mut footer, start as u64);
        push_str(&mut footer, " more ");
    }
    push_str(&mut footer, " ↑/↓ move  Enter attach  Esc close ");
    if end < n {
        push_str(&mut footer, " ↓");
        push_decimal(&mut footer, (n - end) as u64);
        push_str(&mut footer, " more ");
    }
    assert(footer@ =~= footer_line(start as nat, end as nat, n as nat));
    assert(title@ =~= modal_title(state.title@, state.selected_index as nat, n as nat));
    assert(search@ =~= search_line(state.filter_text@, n as nat));
    ModalText { title, search, rows, footer }
}

} // verus!
