//! Checkpoint compaction: choosing which older region of a context to
//! summarize, rendering it for the summarizer, and the checkpoint message.
use crate::agent::context::{
    lemma_total_tokens_append, lemma_total_tokens_single, message_tokens, total_tokens,
    ContextBuffer,
};
use crate::json::{json_str_field, json_string_field};
use crate::text::{lex_lt, insert_sorted, strictly_sorted, views, seq_eq, chars_of, decimal, push_decimal, push_str, str_eq, string_from_chars, string_of};
use crate::types::message::{calls_view, ChatMessage, MessageView, ToolCall, ToolCallView};
use vstd::prelude::*;

verus! {

/// Stable message name identifying the checkpoint entry inside a context.
pub const CHECKPOINT_MESSAGE_NAME: &'static str = "context_checkpoint";

pub open spec fn checkpoint_name() -> Seq<char> {
    CHECKPOINT_MESSAGE_NAME@
}

pub open spec fn is_checkpoint_view(m: MessageView) -> bool {
    m matches MessageView::System { name: Some(n), .. } && n == checkpoint_name()
}

pub open spec fn is_tool_view(m: MessageView) -> bool {
    m is Tool
}

pub open spec fn is_user_view(m: MessageView) -> bool {
    m is User
}

/// Is this entry the persisted checkpoint message?
pub fn is_checkpoint_message(msg: &ChatMessage) -> (b: bool)
    ensures
        b == is_checkpoint_view(msg@),
{
    match msg {
        ChatMessage::System { name: Some(n), .. } => str_eq(n.as_str(), CHECKPOINT_MESSAGE_NAME),
        _ => false,
    }
}

pub fn is_tool_message(msg: &ChatMessage) -> (b: bool)
    ensures
        b == is_tool_view(msg@),
{
    match msg {
        ChatMessage::Tool { .. } => true,
        _ => false,
    }
}

fn is_tool_at(buffer: &ContextBuffer, i: usize) -> (b: bool)
    requires
        buffer.wf(),
    ensures
        b == (i < buffer@.len() && is_tool_view(buffer@[i as int])),
{
    match buffer.get_entry(i) {
        Some(e) => is_tool_message(&e.message),
        None => false,
    }
}

pub fn is_user_message(msg: &ChatMessage) -> (b: bool)
    ensures
        b == is_user_view(msg@),
{
    match msg {
        ChatMessage::User { .. } => true,
        _ => false,
    }
}

/// Lowest index compaction may rewrite: 2 when index 1 holds a checkpoint,
/// else 1 (right after the pinned system prompt).
pub open spec fn floor_of(s: Seq<MessageView>) -> int {
    if s.len() > 1 && is_checkpoint_view(s[1]) {
        2
    } else {
        1
    }
}

pub fn region_floor(buffer: &ContextBuffer) -> (f: usize)
    requires
        buffer.wf(),
    ensures
        f == floor_of(buffer@),
{
    match buffer.get_entry(1) {
        Some(e) => if is_checkpoint_message(&e.message) {
            2
        } else {
            1
        },
        None => 1,
    }
}

/// Tokens of the messages from `c` to the end.
pub open spec fn suffix_tokens(s: Seq<MessageView>, c: int) -> nat {
    total_tokens(s.subrange(c, s.len() as int))
}

/// The largest `c` in `(floor, from]` whose suffix covers `keep` tokens.
pub open spec fn keep_boundary(s: Seq<MessageView>, floor: int, keep: nat, from: int) -> Option<int>
    decreases from - floor,
{
    if from <= floor {
        None
    } else if suffix_tokens(s, from) >= keep {
        Some(from)
    } else {
        keep_boundary(s, floor, keep, from - 1)
    }
}

/// Moves `cut` back past tool results so each stays with its call.
pub open spec fn skip_tool_results(s: Seq<MessageView>, floor: int, cut: int) -> int
    decreases cut - floor,
{
    if cut > floor && cut < s.len() && is_tool_view(s[cut]) {
        skip_tool_results(s, floor, cut - 1)
    } else {
        cut
    }
}

/// First user message at or after `i`.
pub open spec fn next_user(s: Seq<MessageView>, i: int) -> Option<int>
    decreases s.len() - i,
{
    if i < 0 || i >= s.len() {
        None
    } else if is_user_view(s[i]) {
        Some(i)
    } else {
        next_user(s, i + 1)
    }
}

/// Where the verbatim-kept region starts, or `None` when nothing can safely
/// be summarized.
pub open spec fn cut_index(s: Seq<MessageView>, keep: nat) -> Option<int> {
    let n = s.len() as int;
    let floor = floor_of(s);
    if n <= 2 {
        None
    } else {
        let first = keep_boundary(s, floor, keep, n);
        if first is None && suffix_tokens(s, floor) < keep {
            None
        } else {
            let cut = match first {
                Some(c) => c,
                None => n,
            };
            let snapped = skip_tool_results(s, floor, cut);
            if snapped <= floor {
                None
            } else {
                match next_user(s, snapped) {
                    Some(u) => Some(u),
                    None => Some(snapped),
                }
            }
        }
    }
}

proof fn lemma_suffix_step(s: Seq<MessageView>, i: int)
    requires
        0 <= i < s.len(),
    ensures
        suffix_tokens(s, i) == message_tokens(s[i]) + suffix_tokens(s, i + 1),
{
    let rest = s.subrange(i + 1, s.len() as int);
    assert(s.subrange(i, s.len() as int) =~= seq![s[i]] + rest);
    lemma_total_tokens_append(seq![s[i]], rest);
    lemma_total_tokens_single(s[i]);
}

proof fn lemma_suffix_bound(s: Seq<MessageView>, i: int)
    requires
        0 <= i <= s.len(),
    ensures
        suffix_tokens(s, i) <= total_tokens(s),
{
    assert(s =~= s.subrange(0, i) + s.subrange(i, s.len() as int));
    lemma_total_tokens_append(s.subrange(0, i), s.subrange(i, s.len() as int));
}

proof fn lemma_skip_tool_results(s: Seq<MessageView>, floor: int, cut: int)
    ensures
        skip_tool_results(s, floor, cut) <= cut,
        cut <= floor ==> skip_tool_results(s, floor, cut) == cut,
        cut > floor ==> skip_tool_results(s, floor, cut) >= floor,
        skip_tool_results(s, floor, cut) > floor && skip_tool_results(s, floor, cut) < s.len()
            ==> !is_tool_view(s[skip_tool_results(s, floor, cut)]),
    decreases cut - floor,
{
    if cut > floor && cut < s.len() && is_tool_view(s[cut]) {
        lemma_skip_tool_results(s, floor, cut - 1);
    }
}

proof fn lemma_next_user(s: Seq<MessageView>, i: int)
    ensures
        next_user(s, i) matches Some(u) ==> i <= u < s.len() && is_user_view(s[u]),
    decreases s.len() - i,
{
    if !(i < 0 || i >= s.len()) && !is_user_view(s[i]) {
        lemma_next_user(s, i + 1);
    }
}

proof fn lemma_keep_boundary(s: Seq<MessageView>, floor: int, keep: nat, from: int)
    ensures
        keep_boundary(s, floor, keep, from) matches Some(c) ==> floor < c <= from,
    decreases from - floor,
{
    if from > floor && suffix_tokens(s, from) < keep {
        lemma_keep_boundary(s, floor, keep, from - 1);
    }
}

/// The cut never falls on a tool result, never enters the pinned system
/// prompt or an existing checkpoint, and nothing is cut when the whole
/// summarizable history fits the keep budget.
pub proof fn lemma_cut_index_safe(s: Seq<MessageView>, keep: nat)
    ensures
        cut_index(s, keep) matches Some(c) ==> floor_of(s) < c <= s.len() && (c < s.len()
            ==> !is_tool_view(s[c])),
        s.len() > 2 && suffix_tokens(s, floor_of(s)) < keep ==> cut_index(s, keep) is None,
{
    let n = s.len() as int;
    let floor = floor_of(s);
    if n > 2 {
        lemma_keep_boundary(s, floor, keep, n);
        let first = keep_boundary(s, floor, keep, n);
        let cut = match first {
            Some(c) => c,
            None => n,
        };
        lemma_skip_tool_results(s, floor, cut);
        let snapped = skip_tool_results(s, floor, cut);
        lemma_next_user(s, snapped);
        if suffix_tokens(s, floor) < keep {
            lemma_keep_boundary_none(s, floor, keep, n);
        }
    }
}

/// Suffix sums shrink as the start moves right.
proof fn lemma_suffix_monotone(s: Seq<MessageView>, a: int, b: int)
    requires
        0 <= a <= b <= s.len(),
    ensures
        suffix_tokens(s, b) <= suffix_tokens(s, a),
    decreases b - a,
{
    if a < b {
        lemma_suffix_step(s, a);
        lemma_suffix_monotone(s, a + 1, b);
    }
}

proof fn lemma_keep_boundary_none(s: Seq<MessageView>, floor: int, keep: nat, from: int)
    requires
        0 <= floor <= from <= s.len(),
        suffix_tokens(s, floor) < keep,
    ensures
        keep_boundary(s, floor, keep, from) is None,
    decreases from - floor,
{
    if from > floor {
        lemma_suffix_monotone(s, floor, from);
        lemma_keep_boundary_none(s, floor, keep, from - 1);
    }
}

/// Scans candidate boundaries `len, len-1, ..., floor+1` for the first whose
/// suffix covers `keep` tokens; also reports the suffix total reached.
fn scan_keep_boundary(buffer: &ContextBuffer, floor: usize, keep: usize) -> (r: (Option<usize>, usize))
    requires
        buffer.wf(),
        floor < buffer@.len(),
    ensures
        r.0 matches Some(c) ==> keep_boundary(buffer@, floor as int, keep as nat, buffer@.len() as int) == Some(c as int),
        r.0 is None ==> keep_boundary(buffer@, floor as int, keep as nat, buffer@.len() as int) is None
            && r.1 == suffix_tokens(buffer@, floor as int),
{
    let ghost s = buffer@;
    let len = buffer.len();
    let total = buffer.estimated_tokens();
    let mut acc: usize = 0;
    let mut i: usize = len;
    proof {
        assert(s.subrange(len as int, len as int) =~= Seq::<MessageView>::empty());
    }
    while i > floor
        invariant
            s == buffer@,
            buffer.wf(),
            len == s.len(),
            total == total_tokens(s),
            floor < len,
            floor <= i <= len,
            acc == suffix_tokens(s, i as int),
            keep_boundary(s, floor as int, keep as nat, len as int) == keep_boundary(
                s,
                floor as int,
                keep as nat,
                i as int,
            ),
        decreases i,
    {
        if acc >= keep {
            return (Some(i), acc);
        }
        proof {
            lemma_suffix_step(s, i - 1);
            lemma_suffix_bound(s, i - 1);
        }
        let e = buffer.get_entry(i - 1).unwrap();
        acc = acc + e.estimated_tokens;
        i -= 1;
    }
    (None, acc)
}

/// Walks `cut` back past tool results.
fn skip_back(buffer: &ContextBuffer, floor: usize, start: usize) -> (r: usize)
    requires
        buffer.wf(),
        start <= buffer@.len(),
    ensures
        r == skip_tool_results(buffer@, floor as int, start as int),
{
    let mut cut = start;
    while cut > floor && is_tool_at(buffer, cut)
        invariant
            buffer.wf(),
            cut <= buffer@.len(),
            skip_tool_results(buffer@, floor as int, cut as int) == skip_tool_results(
                buffer@,
                floor as int,
                start as int,
            ),
        decreases cut,
    {
        cut -= 1;
    }
    cut
}

/// First user message at or after `from`.
fn find_next_user(buffer: &ContextBuffer, from: usize) -> (r: Option<usize>)
    requires
        buffer.wf(),
    ensures
        match r {
            Some(u) => next_user(buffer@, from as int) == Some(u as int),
            None => next_user(buffer@, from as int) is None,
        },
{
    let len = buffer.len();
    let mut j = from;
    while j < len
        invariant
            buffer.wf(),
            from <= j,
            len == buffer@.len(),
            next_user(buffer@, from as int) == next_user(buffer@, j as int),
        decreases len - j,
    {
        let e = buffer.get_entry(j).unwrap();
        if is_user_message(&e.message) {
            return Some(j);
        }
        j += 1;
    }
    None
}

/// Finds where the verbatim-kept region starts: older messages covering
/// more than `keep_recent_tokens` are left for summarization.
pub fn find_cut_index(buffer: &ContextBuffer, keep_recent_tokens: usize) -> (r: Option<usize>)
    requires
        buffer.wf(),
    ensures
        match r {
            Some(c) => cut_index(buffer@, keep_recent_tokens as nat) == Some(c as int),
            None => cut_index(buffer@, keep_recent_tokens as nat) is None,
        },
{
    let len = buffer.len();
    if len <= 2 {
        return None;
    }
    let floor = region_floor(buffer);
    let (first, acc) = scan_keep_boundary(buffer, floor, keep_recent_tokens);
    if first.is_none() && acc < keep_recent_tokens {
        return None;
    }
    let cut = match first {
        Some(c) => c,
        None => len,
    };
    proof {
        lemma_keep_boundary(buffer@, floor as int, keep_recent_tokens as nat, len as int);
    }
    let cut = skip_back(buffer, floor, cut);
    if cut <= floor {
        return None;
    }
    match find_next_user(buffer, cut) {
        Some(u) => Some(u),
        None => Some(cut),
    }
}

/// Max characters one message body contributes to the summarization input.
pub const TOOL_RESULT_MAX_CHARS: usize = 2000;
/// Max characters of tool-call arguments in the summarization input.
pub const TOOL_ARGS_MAX_CHARS: usize = 200;

/// `text` cut to `max` characters, with a note counting what was dropped.
pub open spec fn truncated(text: Seq<char>, max: nat) -> Seq<char> {
    if text.len() <= max {
        text
    } else {
        text.take(max as int) + "\n[... "@ + decimal((text.len() - max) as nat)
            + " chars truncated ...]"@
    }
}

/// Appends `truncated(text, max)` to `out`.
pub fn push_truncated(out: &mut String, text: &str, max: usize)
    ensures
        final(out)@ == old(out)@ + truncated(text@, max as nat),
{
    let v = chars_of(text);
    if v.len() <= max {
        push_str(out, text);
    } else {
        let head = string_from_chars(&v, 0, max);
        push_str(out, head.as_str());
        push_str(out, "\n[... ");
        push_decimal(out, (v.len() - max) as u64);
        push_str(out, " chars truncated ...]");
        assert(final(out)@ =~= old(out)@ + truncated(text@, max as nat));
    }
}

/// `name(args)` with the arguments cut to `TOOL_ARGS_MAX_CHARS`.
pub open spec fn render_call(c: ToolCallView) -> Seq<char> {
    c.name + "("@ + truncated(c.arguments, TOOL_ARGS_MAX_CHARS as nat) + ")"@
}

/// The rendered calls joined with `"; "`.
pub open spec fn render_calls(cs: Seq<ToolCallView>) -> Seq<char>
    decreases cs.len(),
{
    if cs.len() == 0 {
        Seq::empty()
    } else if cs.len() == 1 {
        render_call(cs[0])
    } else {
        render_calls(cs.drop_last()) + "; "@ + render_call(cs.last())
    }
}

/// The flat text one message contributes to the summarization input.
pub open spec fn serialize_message(m: MessageView) -> Seq<char> {
    match m {
        MessageView::System { content, .. } => if is_checkpoint_view(m) {
            Seq::empty()
        } else {
            "[System]: "@ + truncated(content, 2000) + "\n"@
        },
        MessageView::User { content, .. } => "[User]: "@ + truncated(content, 2000) + "\n"@,
        MessageView::Assistant { content, tool_calls, .. } => (match content {
            Some(c) => if c.len() > 0 {
                "[Assistant]: "@ + truncated(c, 2000) + "\n"@
            } else {
                Seq::empty()
            },
            None => Seq::empty(),
        }) + (match tool_calls {
            Some(cs) => if cs.len() > 0 {
                "[Assistant tool calls]: "@ + render_calls(cs) + "\n"@
            } else {
                Seq::empty()
            },
            None => Seq::empty(),
        }),
        MessageView::Tool { content, .. } => "[Tool result]: "@ + truncated(
            content,
            TOOL_RESULT_MAX_CHARS as nat,
        ) + "\n"@,
    }
}

/// The whole region flattened: each message's text, in order.
pub open spec fn serialize_spec(ms: Seq<MessageView>) -> Seq<char>
    decreases ms.len(),
{
    if ms.len() == 0 {
        Seq::empty()
    } else {
        serialize_spec(ms.drop_last()) + serialize_message(ms.last())
    }
}

fn push_calls(out: &mut String, calls: &Vec<ToolCall>)
    requires
        calls@.len() > 0,
    ensures
        final(out)@ == old(out)@ + render_calls(calls_view(calls@)),
{
    let ghost cv = calls_view(calls@);
    let mut i: usize = 0;
    while i < calls.len()
        invariant
            cv == calls_view(calls@),
            0 <= i <= calls@.len(),
            calls@.len() > 0,
            out@ == old(out)@ + render_calls(cv.take(i as int)),
        decreases calls.len() - i,
    {
        let ghost before = out@;
        if i > 0 {
            push_str(out, "; ");
        }
        push_str(out, calls[i].function.name.as_str());
        push_str(out, "(");
        push_truncated(out, calls[i].function.arguments.as_str(), TOOL_ARGS_MAX_CHARS);
        push_str(out, ")");
        proof {
            let t = cv.take(i + 1);
            assert(t.drop_last() =~= cv.take(i as int));
            assert(t.last() == calls@[i as int]@);
            if i == 0 {
                assert(t.len() == 1);
                assert(cv.take(0) =~= Seq::<ToolCallView>::empty());
                assert(out@ =~= old(out)@ + render_calls(t));
            } else {
                assert(out@ =~= old(out)@ + render_calls(t));
            }
        }
        i += 1;
    }
    assert(cv.take(calls.len() as int) =~= cv);
}

fn push_message(out: &mut String, msg: &ChatMessage)
    ensures
        final(out)@ == old(out)@ + serialize_message(msg@),
{
    match msg {
        ChatMessage::System { content, .. } => {
            if is_checkpoint_message(msg) {
                assert(old(out)@ + Seq::<char>::empty() =~= old(out)@);
                return;
            }
            push_str(out, "[System]: ");
            push_truncated(out, content.as_str(), 2000);
            push_str(out, "\n");
        },
        ChatMessage::User { content, .. } => {
            push_str(out, "[User]: ");
            push_truncated(out, content.as_str(), 2000);
            push_str(out, "\n");
        },
        ChatMessage::Assistant { content, tool_calls, .. } => {
            let ghost before = out@;
            let ghost part1 = match msg@ {
                MessageView::Assistant { content, .. } => match content {
                    Some(c) => if c.len() > 0 {
                        "[Assistant]: "@ + truncated(c, 2000) + "\n"@
                    } else {
                        Seq::empty()
                    },
                    None => Seq::empty(),
                },
                _ => Seq::empty(),
            };
            match content {
                Some(c) => {
                    if !c.as_str().is_empty() {
                        push_str(out, "[Assistant]: ");
                        push_truncated(out, c.as_str(), 2000);
                        push_str(out, "\n");
                    }
                },
                None => {},
            }
            assert(out@ =~= before + part1);
            let ghost mid = out@;
            match tool_calls {
                Some(calls) => {
                    if calls.len() > 0 {
                        push_str(out, "[Assistant tool calls]: ");
                        push_calls(out, calls);
                        push_str(out, "\n");
                    }
                },
                None => {},
            }
            assert(out@ =~= before + serialize_message(msg@));
        },
        ChatMessage::Tool { content, .. } => {
            push_str(out, "[Tool result]: ");
            push_truncated(out, content.as_str(), TOOL_RESULT_MAX_CHARS);
            push_str(out, "\n");
        },
    }
}

/// Serializes a message region into flat text for the summarizer, so the
/// model reads it as material rather than a conversation to continue.
pub fn serialize_region(messages: &[ChatMessage]) -> (out: String)
    ensures
        out@ == serialize_spec(messages@.map_values(|m: ChatMessage| m@)),
{
    let ghost mv = messages@.map_values(|m: ChatMessage| m@);
    let mut out = String::new();
    let mut i: usize = 0;
    while i < messages.len()
        invariant
            mv == messages@.map_values(|m: ChatMessage| m@),
            i <= messages@.len(),
            out@ == serialize_spec(mv.take(i as int)),
        decreases messages.len() - i,
    {
        push_message(&mut out, &messages[i]);
        proof {
            assert(mv.take(i + 1).drop_last() =~= mv.take(i as int));
            assert(mv.take(i + 1).last() == messages@[i as int]@);
        }
        i += 1;
    }
    assert(mv.take(messages.len() as int) =~= mv);
    out
}

pub open spec fn is_modify_tool(name: Seq<char>) -> bool {
    name == "write_file"@ || name == "edit_file"@
}

pub open spec fn is_read_tool(name: Seq<char>) -> bool {
    name == "read_file"@
}

/// `path` arguments of the calls whose tool name satisfies `modify`
/// (write/edit) or, when `!modify`, is `read_file`.
pub open spec fn call_paths(cs: Seq<ToolCallView>, modify: bool) -> Set<Seq<char>>
    decreases cs.len(),
{
    if cs.len() == 0 {
        Set::empty()
    } else {
        let c = cs.last();
        let rest = call_paths(cs.drop_last(), modify);
        let wanted = if modify {
            is_modify_tool(c.name)
        } else {
            is_read_tool(c.name)
        };
        match json_str_field(c.arguments, "path"@) {
            Some(p) => if wanted {
                rest.insert(p)
            } else {
                rest
            },
            None => rest,
        }
    }
}

/// Paths touched by assistant tool calls in a region.
pub open spec fn region_paths(ms: Seq<MessageView>, modify: bool) -> Set<Seq<char>>
    decreases ms.len(),
{
    if ms.len() == 0 {
        Set::empty()
    } else {
        region_paths(ms.drop_last(), modify).union(
            match ms.last() {
                MessageView::Assistant { tool_calls: Some(cs), .. } => call_paths(cs, modify),
                _ => Set::empty(),
            },
        )
    }
}

fn is_named(name: &String, expected: &str) -> (b: bool)
    ensures
        b == (name@ == expected@),
{
    str_eq(name.as_str(), expected)
}

fn collect_call_paths(calls: &Vec<ToolCall>, read: &mut Vec<String>, modified: &mut Vec<String>)
    requires
        strictly_sorted(views(old(read)@)),
        strictly_sorted(views(old(modified)@)),
    ensures
        strictly_sorted(views(final(read)@)),
        strictly_sorted(views(final(modified)@)),
        views(final(read)@).to_set() == views(old(read)@).to_set().union(call_paths(calls_view(calls@), false)),
        views(final(modified)@).to_set() == views(old(modified)@).to_set().union(call_paths(calls_view(calls@), true)),
{
    let ghost cv = calls_view(calls@);
    let ghost r0 = views(read@).to_set();
    let ghost m0 = views(modified@).to_set();
    let mut i: usize = 0;
    proof {
        assert(cv.take(0) =~= Seq::<ToolCallView>::empty());
        assert(r0.union(Set::empty()) =~= r0);
        assert(m0.union(Set::empty()) =~= m0);
    }
    while i < calls.len()
        invariant
            cv == calls_view(calls@),
            i <= calls@.len(),
            strictly_sorted(views(read@)),
            strictly_sorted(views(modified@)),
            views(read@).to_set() == r0.union(call_paths(cv.take(i as int), false)),
            views(modified@).to_set() == m0.union(call_paths(cv.take(i as int), true)),
        decreases calls.len() - i,
    {
        let ghost rb = views(read@).to_set();
        let ghost mb = views(modified@).to_set();
        let call = &calls[i];
        proof {
            reveal_strlit("write_file");
            reveal_strlit("edit_file");
            reveal_strlit("read_file");
            assert("edit_file"@[0] != "read_file"@[0]);
            assert("write_file"@.len() != "read_file"@.len());
            assert(cv.take(i + 1).drop_last() =~= cv.take(i as int));
            assert(cv.take(i + 1).last() == call@);
        }
        match json_string_field(call.function.arguments.as_str(), "path") {
            Some(path) => {
                if is_named(&call.function.name, "write_file") || is_named(&call.function.name, "edit_file") {
                    insert_sorted(modified, path);
                    proof {
                        assert(!is_read_tool(call@.name));
                        assert(call_paths(cv.take(i + 1), false) == call_paths(cv.take(i as int), false));
                        assert(views(modified@).to_set() =~= m0.union(call_paths(cv.take(i + 1), true)));
                        assert(views(read@).to_set() =~= r0.union(call_paths(cv.take(i + 1), false)));
                    }
                } else if is_named(&call.function.name, "read_file") {
                    insert_sorted(read, path);
                    proof {
                        assert(views(modified@).to_set() =~= m0.union(call_paths(cv.take(i + 1), true)));
                        assert(views(read@).to_set() =~= r0.union(call_paths(cv.take(i + 1), false)));
                    }
                } else {
                    proof {
                        assert(views(modified@).to_set() =~= m0.union(call_paths(cv.take(i + 1), true)));
                        assert(views(read@).to_set() =~= r0.union(call_paths(cv.take(i + 1), false)));
                    }
                }
            },
            None => {
                proof {
                    assert(views(modified@).to_set() =~= m0.union(call_paths(cv.take(i + 1), true)));
                    assert(views(read@).to_set() =~= r0.union(call_paths(cv.take(i + 1), false)));
                }
            },
        }
        i += 1;
    }
    assert(cv.take(calls.len() as int) =~= cv);
}

fn list_contains(v: &Vec<String>, x: &String) -> (b: bool)
    ensures
        b == views(v@).contains(x@),
{
    let xv = chars_of(x.as_str());
    let mut i: usize = 0;
    while i < v.len()
        invariant
            xv@ == x@,
            i <= v.len(),
            forall|k: int| 0 <= k < i ==> views(v@)[k] != x@,
        decreases v.len() - i,
    {
        if seq_eq(&chars_of(v[i].as_str()), &xv) {
            assert(views(v@)[i as int] == x@);
            return true;
        }
        i += 1;
    }
    false
}

/// Mechanically extracts the files a region read and modified: `write_file`
/// / `edit_file` paths are modified; `read_file` paths are read-only unless
/// also modified. Both lists are sorted and free of repeats.
pub fn extract_file_lists(messages: &[ChatMessage]) -> (r: (Vec<String>, Vec<String>))
    ensures
        strictly_sorted(views(r.0@)),
        strictly_sorted(views(r.1@)),
        views(r.1@).to_set() == region_paths(messages@.map_values(|m: ChatMessage| m@), true),
        views(r.0@).to_set() == region_paths(messages@.map_values(|m: ChatMessage| m@), false).difference(
            region_paths(messages@.map_values(|m: ChatMessage| m@), true),
        ),
{
    let ghost mv = messages@.map_values(|m: ChatMessage| m@);
    let mut read: Vec<String> = Vec::new();
    let mut modified: Vec<String> = Vec::new();
    let mut i: usize = 0;
    proof {
        assert(views(read@) =~= Seq::<Seq<char>>::empty());
        assert(views(read@).to_set() =~= Set::empty());
        assert(mv.take(0) =~= Seq::<MessageView>::empty());
    }
    while i < messages.len()
        invariant
            mv == messages@.map_values(|m: ChatMessage| m@),
            i <= messages@.len(),
            strictly_sorted(views(read@)),
            strictly_sorted(views(modified@)),
            views(read@).to_set() == region_paths(mv.take(i as int), false),
            views(modified@).to_set() == region_paths(mv.take(i as int), true),
        decreases messages.len() - i,
    {
        proof {
            assert(mv.take(i + 1).drop_last() =~= mv.take(i as int));
            assert(mv.take(i + 1).last() == messages@[i as int]@);
        }
        match &messages[i] {
            ChatMessage::Assistant { tool_calls: Some(calls), .. } => {
                collect_call_paths(calls, &mut read, &mut modified);
            },
            _ => {
                proof {
                    assert(views(read@).to_set() =~= region_paths(mv.take(i + 1), false));
                    assert(views(modified@).to_set() =~= region_paths(mv.take(i + 1), true));
                }
            },
        }
        i += 1;
    }
    proof {
        assert(mv.take(messages.len() as int) =~= mv);
    }
    let mut read_only: Vec<String> = Vec::new();
    let mut j: usize = 0;
    let ghost target = views(read@).to_set().difference(views(modified@).to_set());
    proof {
        assert(views(read_only@) =~= Seq::<Seq<char>>::empty());
    }
    while j < read.len()
        invariant
            j <= read@.len(),
            strictly_sorted(views(read@)),
            target == views(read@).to_set().difference(views(modified@).to_set()),
            strictly_sorted(views(read_only@)),
            forall|k: int, q: int| 0 <= k < views(read_only@).len() && j <= q < views(read@).len() ==> lex_lt(#[trigger] views(read_only@)[k], #[trigger] views(read@)[q]),
            forall|y: Seq<char>| #[trigger] views(read_only@).to_set().contains(y) <==> (exists|q: int| 0 <= q < j && views(read@)[q] == y) && !views(modified@).contains(y),
        decreases read.len() - j,
    {
        let ghost before = views(read_only@);
        if !list_contains(&modified, &read[j]) {
            read_only.push(read[j].clone());
            proof {
                let nv = views(read_only@);
                assert(nv =~= before.push(views(read@)[j as int]));
                assert forall|x: int, y: int| 0 <= x < y < nv.len() implies lex_lt(#[trigger] nv[x], #[trigger] nv[y]) by {
                    if y < before.len() {
                        assert(nv[x] == before[x] && nv[y] == before[y]);
                    } else {
                        assert(nv[x] == before[x]);
                    }
                }
                assert forall|k: int, q: int| 0 <= k < nv.len() && j + 1 <= q < views(read@).len() implies lex_lt(#[trigger] nv[k], #[trigger] views(read@)[q]) by {
                    if k < before.len() {
                        assert(nv[k] == before[k]);
                    } else {
                        assert(nv[k] == views(read@)[j as int]);
                    }
                }
                assert forall|y: Seq<char>| nv.to_set().contains(y) <==> (exists|q: int| 0 <= q < j + 1 && views(read@)[q] == y) && !views(modified@).contains(y) by {
                    if nv.to_set().contains(y) {
                        let k = choose|k: int| 0 <= k < nv.len() && nv[k] == y;
                        if k < before.len() {
                            assert(before[k] == y);
                            assert(before.to_set().contains(y));
                        }
                    }
                    if (exists|q: int| 0 <= q < j + 1 && views(read@)[q] == y) && !views(modified@).contains(y) {
                        let q = choose|q: int| 0 <= q < j + 1 && views(read@)[q] == y;
                        if q < j {
                            assert(before.to_set().contains(y));
                            let k = choose|k: int| 0 <= k < before.len() && before[k] == y;
                            assert(nv[k] == y);
                        } else {
                            assert(nv[before.len() as int] == y);
                        }
                    }
                }
            }
        } else {
            proof {
                assert forall|y: Seq<char>| before.to_set().contains(y) <==> (exists|q: int| 0 <= q < j + 1 && views(read@)[q] == y) && !views(modified@).contains(y) by {
                    if (exists|q: int| 0 <= q < j + 1 && views(read@)[q] == y) && !views(modified@).contains(y) {
                        let q = choose|q: int| 0 <= q < j + 1 && views(read@)[q] == y;
                        if q == j {
                            assert(false);
                        }
                    }
                }
            }
        }
        j += 1;
    }
    proof {
        let ro = views(read_only@);
        assert forall|y: Seq<char>| ro.to_set().contains(y) <==> target.contains(y) by {
            if ro.to_set().contains(y) {
                let q = choose|q: int| 0 <= q < j && views(read@)[q] == y;
                assert(views(read@).contains(y));
                assert(views(read@).to_set().contains(y));
                assert(views(modified@).to_set().contains(y) == views(modified@).contains(y));
            }
            if target.contains(y) {
                let q = choose|q: int| 0 <= q < views(read@).len() && views(read@)[q] == y;
            }
        }
        assert(ro.to_set() =~= target);
    }
    (read_only, modified)
}

/// The previous checkpoint's summary text and where the summarizable region
/// starts (2), when index 1 holds a checkpoint.
pub open spec fn previous_checkpoint_spec(s: Seq<MessageView>) -> Option<(Seq<char>, int)> {
    if s.len() > 1 && is_checkpoint_view(s[1]) {
        Some((s[1]->System_content, 2))
    } else {
        None
    }
}

pub fn previous_checkpoint(buffer: &ContextBuffer) -> (r: Option<(String, usize)>)
    requires
        buffer.wf(),
    ensures
        match r {
            Some((text, start)) => previous_checkpoint_spec(buffer@) == Some((text@, start as int)),
            None => previous_checkpoint_spec(buffer@) is None,
        },
{
    let entry = match buffer.get_entry(1) {
        Some(e) => e,
        None => return None,
    };
    if is_checkpoint_message(&entry.message) {
        if let ChatMessage::System { content, .. } = &entry.message {
            return Some((content.clone(), 2));
        }
    }
    None
}

/// A checkpoint inserted at index 1 is the one found next time: its summary,
/// with the region starting after it.
pub proof fn lemma_checkpoint_found_after_insert(s: Seq<MessageView>, summary: Seq<char>)
    requires
        s.len() >= 1,
    ensures
        previous_checkpoint_spec(s.insert(1, MessageView::System { content: summary, name: Some(checkpoint_name()) }))
            == Some((summary, 2int)),
{
    let t = s.insert(1, MessageView::System { content: summary, name: Some(checkpoint_name()) });
    assert(t[1] == MessageView::System { content: summary, name: Some(checkpoint_name()) });
}

/// The checkpoint message inserted at index 1 of a rebuilt context.
pub fn checkpoint_message(summary: &str) -> (m: ChatMessage)
    ensures
        m@ == (MessageView::System { content: summary@, name: Some(checkpoint_name()) }),
{
    ChatMessage::System {
        content: string_of(summary),
        name: Some(string_of(CHECKPOINT_MESSAGE_NAME)),
    }
}

/// Compaction is due when the estimate exceeds `window - reserve`
/// (the budget is 0 when the reserve is at least the window).
pub open spec fn trigger_spec(estimated: nat, window: nat, reserve: nat) -> bool {
    if reserve >= window {
        estimated > 0
    } else {
        estimated > window - reserve
    }
}

pub fn checkpoint_trigger(estimated: usize, window: usize, reserve: usize) -> (b: bool)
    ensures
        b == trigger_spec(estimated as nat, window as nat, reserve as nat),
{
    let budget = if window > reserve { window - reserve } else { 0 };
    estimated > budget
}

} // verus!
