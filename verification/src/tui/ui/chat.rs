//! The text of the chat pane, line by line, and how far it scrolls.
use vstd::prelude::*;
use crate::text::{
    all_lines, chars_of, decimal, lines, lines_upto, push_char, push_decimal, push_str,
    string_from_chars, string_of, views,
};
use crate::tui::app::{ActiveToolCall, AgentStatus};
use crate::types::message::{calls_view, opt_view, ChatMessage, MessageView, ToolCallView};

verus! {

pub open spec fn indented(ls: Seq<Seq<char>>) -> Seq<Seq<char>> {
    ls.map_values(|l: Seq<char>| "  "@ + l)
}

/// `s` with each newline shown as a space.
pub open spec fn spaces_for_newlines(s: Seq<char>) -> Seq<char> {
    s.map_values(|c: char| if c == '\n' { ' ' } else { c })
}

pub open spec fn call_line(c: ToolCallView) -> Seq<char> {
    "  ⚙️ Tool Call: `"@ + c.name + "` args: "@ + c.arguments
}

/// A tool result shows at most eight of its lines, then a marker.
pub open spec fn tool_output_lines(content: Seq<char>) -> Seq<Seq<char>> {
    let ls = lines(content);
    if ls.len() > 8 {
        indented(ls.take(8)).push("  ... (output truncated for display)"@)
    } else {
        indented(ls)
    }
}

/// The lines one committed message takes, ending with a blank line.
pub open spec fn message_lines(m: MessageView) -> Seq<Seq<char>> {
    match m {
        MessageView::System { content, .. } => seq![
            "⚙ System: "@ + spaces_for_newlines(content),
            Seq::empty(),
        ],
        MessageView::User { content, .. } => seq!["👤 You"@] + indented(lines(content)) + seq![
            Seq::empty(),
        ],
        MessageView::Assistant { content, tool_calls, .. } => seq!["⚡ Thunder Assistant"@] + (
        match content {
            Some(c) => indented(lines(c)),
            None => Seq::empty(),
        }) + (match tool_calls {
            Some(cs) => cs.map_values(|c: ToolCallView| call_line(c)),
            None => Seq::empty(),
        }) + seq![Seq::empty()],
        MessageView::Tool { tool_call_id, content, name } => seq![
            "  🔧 ["@ + (match name {
                Some(n) => n,
                None => "tool"@,
            }) + "] (id: "@ + tool_call_id + ")"@,
        ] + tool_output_lines(content) + seq![Seq::empty()],
    }
}

pub open spec fn history_lines(ms: Seq<MessageView>) -> Seq<Seq<char>>
    decreases ms.len(),
{
    if ms.len() == 0 {
        Seq::empty()
    } else {
        history_lines(ms.drop_last()) + message_lines(ms.last())
    }
}

pub open spec fn reasoning_lines(r: Seq<char>) -> Seq<Seq<char>> {
    if r.len() > 0 {
        seq!["🧠 Thinking Process:"@] + indented(lines(r)) + seq![Seq::empty()]
    } else {
        Seq::empty()
    }
}

/// The answer being streamed; while thinking with nothing streamed yet, a
/// placeholder line.
pub open spec fn streaming_lines(d: Seq<char>, thinking: bool, streaming: bool) -> Seq<Seq<char>> {
    if d.len() > 0 || streaming || thinking {
        if d.len() == 0 && thinking {
            seq!["⚡ Thunder Assistant ◐ (reasoning & planning...)"@, Seq::empty()]
        } else {
            seq!["⚡ Thunder Assistant"@] + indented(lines(d)) + seq![Seq::empty()]
        }
    } else {
        Seq::empty()
    }
}

/// A result is shown up to 150 characters, then `...`.
pub open spec fn clipped_result(r: Seq<char>) -> Seq<char> {
    if r.len() > 150 {
        r.take(150) + "..."@
    } else {
        r
    }
}

pub open spec fn call_status(result: Option<Seq<char>>, is_error: bool) -> Seq<char> {
    if result is Some {
        if is_error {
            "✖ Failed"@
        } else {
            "✔ Completed"@
        }
    } else {
        "⏳ Running..."@
    }
}

pub open spec fn active_call_lines(c: ActiveToolCall) -> Seq<Seq<char>> {
    seq!["  ⚙ Executing Tool `"@ + c.name@ + "`: "@ + call_status(opt_view(c.result), c.is_error)]
        + (match c.result {
        Some(r) => seq!["    └─ "@ + clipped_result(r@)],
        None => Seq::empty(),
    }) + seq![Seq::empty()]
}

pub open spec fn calls_lines(cs: Seq<ActiveToolCall>) -> Seq<Seq<char>>
    decreases cs.len(),
{
    if cs.len() == 0 {
        Seq::empty()
    } else {
        calls_lines(cs.drop_last()) + active_call_lines(cs.last())
    }
}

pub open spec fn message_views(v: Seq<ChatMessage>) -> Seq<MessageView> {
    v.map_values(|m: ChatMessage| m@)
}

/// Everything the chat pane shows, in order: the committed messages, the
/// reasoning in progress, the answer being streamed, and the tool calls of
/// the current turn.
pub open spec fn chat_text(
    ms: Seq<MessageView>,
    reasoning: Seq<char>,
    streaming: Seq<char>,
    status: AgentStatus,
    calls: Seq<ActiveToolCall>,
) -> Seq<Seq<char>> {
    history_lines(ms) + reasoning_lines(reasoning) + streaming_lines(
        streaming,
        status is Thinking,
        status is Streaming,
    ) + calls_lines(calls)
}

fn push_line(out: &mut Vec<String>, line: String)
    ensures
        views(final(out)@) == views(old(out)@).push(line@),
{
    out.push(line);
    assert(views(out@) =~= views(old(out)@).push(line@));
}

fn push_indented(out: &mut Vec<String>, ls: &Vec<String>, n: usize)
    requires
        n <= ls.len(),
    ensures
        views(final(out)@) == views(old(out)@) + indented(views(ls@).take(n as int)),
{
    let ghost start = views(out@);
    let mut i: usize = 0;
    while i < n
        invariant
            i <= n <= ls.len(),
            views(out@) == start + indented(views(ls@).take(i as int)),
        decreases n - i,
    {
        let mut l = string_of("  ");
        push_str(&mut l, ls[i].as_str());
        push_line(out, l);
        assert(indented(views(ls@).take(i + 1)) =~= indented(views(ls@).take(i as int)).push(
            "  "@ + ls@[i as int]@,
        ));
        i += 1;
    }
}

fn push_all_indented(out: &mut Vec<String>, s: &str)
    ensures
        views(final(out)@) == views(old(out)@) + indented(lines(s@)),
{
    let ls = all_lines(s);
    push_indented(out, &ls, ls.len());
    assert(views(ls@).take(ls.len() as int) =~= views(ls@));
}

fn blank_line(out: &mut Vec<String>)
    ensures
        views(final(out)@) == views(old(out)@).push(Seq::<char>::empty()),
{
    let s = String::new();
    push_line(out, s);
}

fn newlines_as_spaces(s: &str) -> (r: String)
    ensures
        r@ == spaces_for_newlines(s@),
{
    let v = chars_of(s);
    let mut r = String::new();
    let mut i: usize = 0;
    while i < v.len()
        invariant
            i <= v.len(),
            v@ == s@,
            r@ == spaces_for_newlines(v@.take(i as int)),
        decreases v.len() - i,
    {
        let c = v[i];
        push_char(&mut r, if c == '\n' { ' ' } else { c });
        assert(spaces_for_newlines(v@.take(i + 1)) =~= spaces_for_newlines(v@.take(i as int)).push(
            if c == '\n' { ' ' } else { c },
        ));
        i += 1;
    }
    assert(v@.take(v.len() as int) =~= v@);
    r
}

fn push_tool_output(out: &mut Vec<String>, content: &str)
    ensures
        views(final(out)@) == views(old(out)@) + tool_output_lines(content@),
{
    let ls = lines_upto(content, 9);
    let ghost all = lines(content@);
    if ls.len() > 8 {
        assert(views(ls@).take(8) =~= all.take(8));
        push_indented(out, &ls, 8);
        push_line(out, string_of("  ... (output truncated for display)"));
        assert(views(out@) =~= views(old(out)@) + indented(all.take(8)).push(
            "  ... (output truncated for display)"@,
        ));
    } else {
        assert(views(ls@) =~= all);
        push_indented(out, &ls, ls.len());
        assert(views(ls@).take(ls.len() as int) =~= views(ls@));
    }
}

fn push_calls(out: &mut Vec<String>, calls: &Vec<crate::types::message::ToolCall>)
    ensures
        views(final(out)@) == views(old(out)@) + calls_view(calls@).map_values(
            |c: ToolCallView| call_line(c),
        ),
{
    let ghost start = views(out@);
    let mut i: usize = 0;
    while i < calls.len()
        invariant
            i <= calls.len(),
            views(out@) == start + calls_view(calls@).take(i as int).map_values(
                |c: ToolCallView| call_line(c),
            ),
        decreases calls.len() - i,
    {
        let c = &calls[i];
        let mut l = string_of("  ⚙️ Tool Call: `");
        push_str(&mut l, c.function.name.as_str());
        push_str(&mut l, "` args: ");
        push_str(&mut l, c.function.arguments.as_str());
        push_line(out, l);
        assert(calls_view(calls@).take(i + 1).map_values(|c: ToolCallView| call_line(c))
            =~= calls_view(calls@).take(i as int).map_values(|c: ToolCallView| call_line(c)).push(
            call_line(calls@[i as int]@),
        ));
        i += 1;
    }
    assert(calls_view(calls@).take(calls.len() as int) =~= calls_view(calls@));
}

fn push_message(out: &mut Vec<String>, m: &ChatMessage)
    ensures
        views(final(out)@) == views(old(out)@) + message_lines(m@),
{
    let ghost start = views(out@);
    match m {
        ChatMessage::System { content, .. } => {
            let mut l = string_of("⚙ System: ");
            let body = newlines_as_spaces(content.as_str());
            push_str(&mut l, body.as_str());
            push_line(out, l);
            blank_line(out);
            assert(views(out@) =~= start + message_lines(m@));
        },
        ChatMessage::User { content, .. } => {
            push_line(out, string_of("👤 You"));
            push_all_indented(out, content.as_str());
            blank_line(out);
            assert(views(out@) =~= start + message_lines(m@));
        },
        ChatMessage::Assistant { content, tool_calls, .. } => {
            push_line(out, string_of("⚡ Thunder Assistant"));
            let ghost a = views(out@);
            match content {
                Some(c) => push_all_indented(out, c.as_str()),
                None => {
                    assert(views(out@) =~= a + Seq::<Seq<char>>::empty());
                },
            }
            let ghost b = views(out@);
            match tool_calls {
                Some(cs) => push_calls(out, cs),
                None => {
                    assert(views(out@) =~= b + Seq::<Seq<char>>::empty());
                },
            }
            blank_line(out);
            assert(views(out@) =~= start + message_lines(m@));
        },
        ChatMessage::Tool { tool_call_id, content, name } => {
            let mut l = string_of("  🔧 [");
            match name {
                Some(n) => push_str(&mut l, n.as_str()),
                None => push_str(&mut l, "tool"),
            }
            push_str(&mut l, "] (id: ");
            push_str(&mut l, tool_call_id.as_str());
            push_str(&mut l, ")");
            push_line(out, l);
            push_tool_output(out, content.as_str());
            blank_line(out);
            assert(views(out@) =~= start + message_lines(m@));
        },
    }
}

fn clip_result(r: &str) -> (s: String)
    ensures
        s@ == clipped_result(r@),
{
    let v = chars_of(r);
    if v.len() > 150 {
        let mut s = string_from_chars(&v, 0, 150);
        push_str(&mut s, "...");
        assert(v@.subrange(0, 150) =~= v@.take(150));
        s
    } else {
        string_of(r)
    }
}

fn push_active_call(out: &mut Vec<String>, c: &ActiveToolCall)
    ensures
        views(final(out)@) == views(old(out)@) + active_call_lines(*c),
{
    let ghost start = views(out@);
    let mut l = string_of("  ⚙ Executing Tool `");
    push_str(&mut l, c.name.as_str());
    push_str(&mut l, "`: ");
    match &c.result {
        Some(_) => {
            if c.is_error {
                push_str(&mut l, "✖ Failed");
            } else {
                push_str(&mut l, "✔ Completed");
            }
        },
        None => push_str(&mut l, "⏳ Running..."),
    }
    push_line(out, l);
    match &c.result {
        Some(r) => {
            let mut rl = string_of("    └─ ");
            let short = clip_result(r.as_str());
            push_str(&mut rl, short.as_str());
            push_line(out, rl);
        },
        None => {},
    }
    blank_line(out);
    assert(views(out@) =~= start + active_call_lines(*c));
}

/// The lines of the chat pane (`render_chat` without its styling).
pub fn chat_lines(
    messages: &Vec<ChatMessage>,
    reasoning_delta: &str,
    streaming_delta: &str,
    status: &AgentStatus,
    active_tool_calls: &Vec<ActiveToolCall>,
) -> (r: Vec<String>)
    ensures
        views(r@) == chat_text(
            message_views(messages@),
            reasoning_delta@,
            streaming_delta@,
            *status,
            active_tool_calls@,
        ),
{
    let mut out: Vec<String> = Vec::new();
    let mut i: usize = 0;
    while i < messages.len()
        invariant
            i <= messages.len(),
            views(out@) == history_lines(message_views(messages@).take(i as int)),
        decreases messages.len() - i,
    {
        let ghost before = views(out@);
        push_message(&mut out, &messages[i]);
        proof {
            let t = message_views(messages@).take(i + 1);
            assert(t.drop_last() =~= message_views(messages@).take(i as int));
            assert(t.last() == messages@[i as int]@);
        }
        i += 1;
    }
    assert(message_views(messages@).take(messages.len() as int) =~= message_views(messages@));
    let ghost h = views(out@);

    let rv = chars_of(reasoning_delta);
    if rv.len() > 0 {
        push_line(&mut out, string_of("🧠 Thinking Process:"));
        push_all_indented(&mut out, reasoning_delta);
        blank_line(&mut out);
    }
    assert(views(out@) =~= h + reasoning_lines(reasoning_delta@));
    let ghost hr = views(out@);

    let thinking = match status {
        AgentStatus::Thinking => true,
        _ => false,
    };
    let streaming = match status {
        AgentStatus::Streaming => true,
        _ => false,
    };
    let sv = chars_of(streaming_delta);
    if sv.len() > 0 || streaming || thinking {
        if sv.len() == 0 && thinking {
            push_line(&mut out, string_of("⚡ Thunder Assistant ◐ (reasoning & planning...)"));
            blank_line(&mut out);
        } else {
            push_line(&mut out, string_of("⚡ Thunder Assistant"));
            push_all_indented(&mut out, streaming_delta);
            blank_line(&mut out);
        }
    }
    assert(views(out@) =~= hr + streaming_lines(streaming_delta@, thinking, streaming));
    let ghost hs = views(out@);

    let mut j: usize = 0;
    while j < active_tool_calls.len()
        invariant
            j <= active_tool_calls.len(),
            views(out@) == hs + calls_lines(active_tool_calls@.take(j as int)),
        decreases active_tool_calls.len() - j,
    {
        push_active_call(&mut out, &active_tool_calls[j]);
        proof {
            let t = active_tool_calls@.take(j + 1);
            assert(t.drop_last() =~= active_tool_calls@.take(j as int));
        }
        j += 1;
    }
    assert(active_tool_calls@.take(active_tool_calls.len() as int) =~= active_tool_calls@);
    out
}

// ---------------------------------------------------------------------------
// Scrolling
// ---------------------------------------------------------------------------

/// Cells a character takes: two for anything beyond ASCII, one otherwise.
pub open spec fn cell_width(c: char) -> nat {
    if c > '\u{7F}' {
        2
    } else {
        1
    }
}

pub open spec fn text_width(s: Seq<char>) -> nat
    decreases s.len(),
{
    if s.len() == 0 {
        0
    } else {
        text_width(s.drop_last()) + cell_width(s.last())
    }
}

/// Rows a line of `width` cells takes when wrapped at `inner` cells (an
/// empty line still takes one).
pub open spec fn line_rows(width: nat, inner: nat) -> nat {
    if width == 0 {
        1
    } else {
        ((width + inner - 1) / (inner as int)) as nat
    }
}

pub open spec fn total_rows(ls: Seq<Seq<char>>, inner: nat) -> nat
    decreases ls.len(),
{
    if ls.len() == 0 {
        0
    } else {
        total_rows(ls.drop_last(), inner) + line_rows(text_width(ls.last()), inner)
    }
}

/// The wrapping width inside the pane's borders, at least one cell.
pub open spec fn inner_width(area_width: u16) -> nat {
    if area_width > 2 {
        (area_width - 2) as nat
    } else {
        1
    }
}

/// How far the pane can scroll: rows beyond the visible height.
pub open spec fn max_scroll_of(ls: Seq<Seq<char>>, area_width: u16, area_height: u16) -> nat {
    let total = total_rows(ls, inner_width(area_width));
    let visible: nat = if area_height > 2 { (area_height - 2) as nat } else { 0 };
    if total > visible {
        (total - visible) as nat
    } else {
        0
    }
}

/// Cells `s` takes on screen.
pub fn display_width(s: &str) -> (w: usize)
    requires
        text_width(s@) <= usize::MAX,
    ensures
        w == text_width(s@),
{
    let v = chars_of(s);
    let mut w: usize = 0;
    let mut i: usize = 0;
    while i < v.len()
        invariant
            i <= v.len(),
            v@ == s@,
            text_width(s@) <= usize::MAX,
            w == text_width(v@.take(i as int)),
        decreases v.len() - i,
    {
        proof {
            assert(v@.take(i + 1).drop_last() =~= v@.take(i as int));
            assert(v@.take(i + 1).last() == v@[i as int]);
            lemma_width_prefix(v@, i + 1);
        }
        let c = v[i];
        let cw: usize = if c > '\u{7F}' { 2 } else { 1 };
        w = w + cw;
        i += 1;
    }
    assert(v@.take(v.len() as int) =~= v@);
    w
}

proof fn lemma_width_prefix(s: Seq<char>, k: int)
    requires
        0 <= k <= s.len(),
    ensures
        text_width(s.take(k)) <= text_width(s),
    decreases s.len() - k,
{
    if k < s.len() {
        lemma_width_prefix(s, k + 1);
        assert(s.take(k + 1).drop_last() =~= s.take(k));
    } else {
        assert(s.take(k) =~= s);
    }
}

proof fn lemma_rows_prefix(ls: Seq<Seq<char>>, k: int, inner: nat)
    requires
        0 <= k <= ls.len(),
    ensures
        total_rows(ls.take(k), inner) <= total_rows(ls, inner),
    decreases ls.len() - k,
{
    if k < ls.len() {
        lemma_rows_prefix(ls, k + 1, inner);
        assert(ls.take(k + 1).drop_last() =~= ls.take(k));
    } else {
        assert(ls.take(k) =~= ls);
    }
}

/// The pane's scroll bounds: the largest offset, and the offset used — the
/// largest when following the stream, the requested one capped at the
/// largest otherwise.
pub fn chat_scroll(
    ls: &Vec<String>,
    area_width: u16,
    area_height: u16,
    auto_scroll: bool,
    scroll_offset: usize,
) -> (r: (usize, usize))
    requires
        total_rows(views(ls@), inner_width(area_width)) <= usize::MAX,
        forall|i: int| 0 <= i < ls@.len() ==> text_width(#[trigger] ls@[i]@) + inner_width(area_width) <= usize::MAX,
    ensures
        r.0 == max_scroll_of(views(ls@), area_width, area_height),
        r.1 == (if auto_scroll {
            r.0 as int
        } else if scroll_offset < r.0 {
            scroll_offset as int
        } else {
            r.0 as int
        }),
        r.1 <= r.0,
{
    let inner: usize = if area_width > 2 { (area_width - 2) as usize } else { 1 };
    let ghost inn = inner_width(area_width);
    let mut total: usize = 0;
    let mut i: usize = 0;
    while i < ls.len()
        invariant
            i <= ls.len(),
            inner as nat == inn,
            inn >= 1,
            total_rows(views(ls@), inn) <= usize::MAX,
            forall|k: int| 0 <= k < ls@.len() ==> text_width(#[trigger] ls@[k]@) + inn <= usize::MAX,
            total == total_rows(views(ls@).take(i as int), inn),
        decreases ls.len() - i,
    {
        proof {
            assert(views(ls@).take(i + 1).drop_last() =~= views(ls@).take(i as int));
            assert(views(ls@).take(i + 1).last() == ls@[i as int]@);
            lemma_rows_prefix(views(ls@), i + 1, inn);
            assert(text_width(ls@[i as int]@) <= usize::MAX);
        }
        let w = display_width(ls[i].as_str());
        let rows: usize = if w == 0 { 1 } else { (w + inner - 1) / inner };
        total = total + rows;
        i += 1;
    }
    assert(views(ls@).take(ls.len() as int) =~= views(ls@));
    let visible: usize = if area_height > 2 { (area_height - 2) as usize } else { 0 };
    let max_scroll = if total > visible { total - visible } else { 0 };
    let y = if auto_scroll {
        max_scroll
    } else if scroll_offset < max_scroll {
        scroll_offset
    } else {
        max_scroll
    };
    (max_scroll, y)
}

pub open spec fn chat_title_text(auto_scroll: bool, scroll_y: nat, max_scroll: nat) -> Seq<char> {
    if auto_scroll {
        " ⚡ Chat Stream (Auto-Scroll) "@
    } else {
        " ⚡ Chat Stream [Scroll: "@ + decimal(scroll_y) + "/"@ + decimal(max_scroll)
            + " - Press End to snap bottom] "@
    }
}

/// The pane's title: the following state, or the position when scrolled.
pub fn chat_title(auto_scroll: bool, scroll_y: u64, max_scroll: u64) -> (s: String)
    ensures
        s@ == chat_title_text(auto_scroll, scroll_y as nat, max_scroll as nat),
{
    if auto_scroll {
        string_of(" ⚡ Chat Stream (Auto-Scroll) ")
    } else {
        let mut s = string_of(" ⚡ Chat Stream [Scroll: ");
        push_decimal(&mut s, scroll_y);
        push_str(&mut s, "/");
        push_decimal(&mut s, max_scroll);
        push_str(&mut s, " - Press End to snap bottom] ");
        s
    }
}

} // verus!
