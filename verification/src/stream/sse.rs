//! Server-sent-event framing of a model's response stream, and accumulation
//! of the tool calls it streams in fragments.
//!
//! Decoding a data payload's JSON is the host's part: it hands each decoded
//! event back as a `ChunkData`.
use vstd::prelude::*;
use crate::text::{
    chars_of, chars_start_with, decimal, line_end, push_decimal, push_str, starts_with, string_from_chars,
    string_of, trim, trim_string, views,
};
use crate::types::message::{opt_view, ToolCall, ToolCallView};

verus! {

/// Text of a byte chunk as `String::from_utf8_lossy` decodes it (invalid
/// sequences become U+FFFD).
pub uninterp spec fn utf8_lossy(bytes: Seq<u8>) -> Seq<char>;

/// `String::from_utf8_lossy`, made owned. The contract claims only that the
/// result is a function of the bytes.
#[verifier::external_body]
pub(crate) fn decode_lossy(bytes: &[u8]) -> (r: String)
    ensures
        r@ == utf8_lossy(bytes@),
{
    String::from_utf8_lossy(bytes).into_owned()
}

/// The payload of one event line (already trimmed): the trimmed text after
/// `data:`, unless the line is empty, a comment (`:`), another field, or the
/// `[DONE]` marker.
pub open spec fn event_payload(line: Seq<char>) -> Option<Seq<char>> {
    if line.len() == 0 || line[0] == ':' {
        None
    } else if starts_with(line, "data:"@) {
        let d = trim(line.subrange(5, line.len() as int));
        if d == "[DONE]"@ {
            None
        } else {
            Some(d)
        }
    } else {
        None
    }
}

/// The payloads of the complete lines of `buf`, in order, and the text left
/// after its last `\n`.
pub open spec fn frame(buf: Seq<char>) -> (Seq<Seq<char>>, Seq<char>)
    decreases buf.len(),
{
    let k = line_end(buf, 0);
    if k < 0 || k >= buf.len() {
        (Seq::empty(), buf)
    } else {
        let (ps, rest) = frame(buf.subrange(k + 1, buf.len() as int));
        match event_payload(trim(buf.subrange(0, k))) {
            Some(p) => (seq![p] + ps, rest),
            None => (ps, rest),
        }
    }
}

/// The payload left in `buf` when the stream ends.
pub open spec fn final_payload(buf: Seq<char>) -> Option<Seq<char>> {
    let t = trim(buf);
    if starts_with(t, "data:"@) {
        let d = trim(t.subrange(5, t.len() as int));
        if d == "[DONE]"@ {
            None
        } else {
            Some(d)
        }
    } else {
        None
    }
}

proof fn lemma_line_end_prefix(x: Seq<char>, y: Seq<char>, i: int)
    requires
        0 <= i <= x.len(),
        line_end(x, i) < x.len(),
    ensures
        line_end(x + y, i) == line_end(x, i),
    decreases x.len() - i,
{
    assert((x + y)[i] == x[i]);
    if x[i] != '\n' {
        lemma_line_end_prefix(x, y, i + 1);
    }
}

/// Framing does not depend on where the text was split into chunks: framing
/// `x` and then the leftover of `x` followed by `y` gives the payloads and
/// leftover of framing `x + y` at once.
pub proof fn lemma_frame_split(x: Seq<char>, y: Seq<char>)
    ensures
        frame(x + y).0 == frame(x).0 + frame(frame(x).1 + y).0,
        frame(x + y).1 == frame(frame(x).1 + y).1,
    decreases x.len(),
{
    let k = line_end(x, 0);
    if 0 <= k < x.len() {
        lemma_line_end_prefix(x, y, 0);
        let tail = x.subrange(k + 1, x.len() as int);
        assert((x + y).subrange(0, k) =~= x.subrange(0, k));
        assert((x + y).subrange(k + 1, (x + y).len() as int) =~= tail + y);
        lemma_frame_split(tail, y);
        match event_payload(trim(x.subrange(0, k))) {
            Some(p) => {
                assert(seq![p] + frame(tail).0 + frame(frame(tail).1 + y).0 =~= seq![p] + (frame(tail).0 + frame(
                    frame(tail).1 + y,
                ).0));
            },
            None => {},
        }
    } else {
        assert(frame(x).0 =~= Seq::<Seq<char>>::empty());
        assert(Seq::<Seq<char>>::empty() + frame(x + y).0 =~= frame(x + y).0);
    }
}

fn payload_of_line(v: &Vec<char>, a: usize, b: usize) -> (r: Option<String>)
    requires
        a <= b <= v.len(),
    ensures
        match r {
            Some(p) => event_payload(trim(v@.subrange(a as int, b as int))) == Some(p@),
            None => event_payload(trim(v@.subrange(a as int, b as int))) is None,
        },
{
    let raw = string_from_chars(v, a, b);
    let line = trim_string(raw.as_str());
    let lc = chars_of(line.as_str());
    if lc.len() == 0 || lc[0] == ':' {
        return None;
    }
    if !chars_start_with(&lc, "data:") {
        return None;
    }
    proof {
        reveal_strlit("data:");
    }
    let rest = string_from_chars(&lc, 5, lc.len());
    let d = trim_string(rest.as_str());
    if crate::text::str_eq(d.as_str(), "[DONE]") {
        None
    } else {
        Some(d)
    }
}

/// An increment of one tool call being streamed.
#[derive(Debug, PartialEq, Eq)]
pub struct StreamToolCallDelta {
    pub index: usize,
    pub id: Option<String>,
    pub name: Option<String>,
    pub arguments_delta: Option<String>,
}

/// What one decoded event adds to the response.
#[derive(Debug)]
pub struct StreamDelta {
    pub content_delta: Option<String>,
    /// Reasoning tokens, kept apart from the answer.
    pub reasoning_delta: Option<String>,
    pub tool_calls_delta: Option<Vec<StreamToolCallDelta>>,
    pub finish_reason: Option<String>,
    pub prompt_tokens: Option<usize>,
    pub completion_tokens: Option<usize>,
}

/// One tool-call fragment of a decoded event.
#[derive(Debug)]
pub struct ToolCallFragment {
    pub index: usize,
    pub id: Option<String>,
    pub name: Option<String>,
    pub arguments: Option<String>,
}

/// The message part of a decoded choice.
#[derive(Debug)]
pub struct DeltaData {
    pub content: Option<String>,
    pub reasoning_content: Option<String>,
    pub reasoning: Option<String>,
    pub text: Option<String>,
    pub tool_calls: Option<Vec<ToolCallFragment>>,
}

/// A decoded choice.
#[derive(Debug)]
pub struct ChoiceData {
    pub delta: Option<DeltaData>,
    pub message: Option<DeltaData>,
    pub finish_reason: Option<String>,
}

/// Token usage reported by an event.
#[derive(Debug)]
pub struct UsageData {
    pub prompt_tokens: Option<usize>,
    pub completion_tokens: Option<usize>,
}

/// A decoded data event: its first choice and its usage.
#[derive(Debug)]
pub struct ChunkData {
    pub choice: Option<ChoiceData>,
    pub usage: Option<UsageData>,
}

/// A tool call as accumulated so far: id, name, arguments.
pub type AccView = (Seq<char>, Seq<char>, Seq<char>);

/// A tool-call fragment as plain values: index, id, name, arguments.
pub type FragView = (usize, Option<Seq<char>>, Option<Seq<char>>, Option<Seq<char>>);

impl View for ToolCallFragment {
    type V = FragView;

    open spec fn view(&self) -> FragView {
        (self.index, opt_view(self.id), opt_view(self.name), opt_view(self.arguments))
    }
}

impl View for StreamToolCallDelta {
    type V = FragView;

    open spec fn view(&self) -> FragView {
        (self.index, opt_view(self.id), opt_view(self.name), opt_view(self.arguments_delta))
    }
}

pub open spec fn frag_views(v: Seq<ToolCallFragment>) -> Seq<FragView> {
    v.map_values(|f: ToolCallFragment| f@)
}

pub open spec fn delta_views(v: Seq<StreamToolCallDelta>) -> Seq<FragView> {
    v.map_values(|d: StreamToolCallDelta| d@)
}

pub open spec fn or_else(t: Option<Seq<char>>, d: Seq<char>) -> Seq<char> {
    match t {
        Some(x) => x,
        None => d,
    }
}

/// A call after one more fragment: the id replaced when given, the name and
/// arguments extended.
pub open spec fn apply_fragment(acc: AccView, f: FragView) -> AccView {
    (
        or_else(f.1, acc.0),
        acc.1 + or_else(f.2, Seq::empty()),
        acc.2 + or_else(f.3, Seq::empty()),
    )
}

/// Number of leading entries whose index is below `k`.
pub open spec fn lower_bound(e: Seq<(usize, AccView)>, k: usize) -> int
    decreases e.len(),
{
    if e.len() > 0 && e[0].0 < k {
        1 + lower_bound(e.drop_first(), k)
    } else {
        0
    }
}

/// The accumulated calls after one fragment: merged into the call of its
/// index, or starting a new one in index order.
pub open spec fn merge_fragment(e: Seq<(usize, AccView)>, f: FragView) -> Seq<(usize, AccView)> {
    let p = lower_bound(e, f.0);
    if p < e.len() && e[p].0 == f.0 {
        e.update(p, (f.0, apply_fragment(e[p].1, f)))
    } else {
        e.insert(p, (f.0, apply_fragment((Seq::empty(), Seq::empty(), Seq::empty()), f)))
    }
}

pub open spec fn merge_fragments(e: Seq<(usize, AccView)>, fs: Seq<FragView>) -> Seq<(usize, AccView)>
    decreases fs.len(),
{
    if fs.len() == 0 {
        e
    } else {
        merge_fragment(merge_fragments(e, fs.drop_last()), fs.last())
    }
}

proof fn lemma_lower_bound(e: Seq<(usize, AccView)>, k: usize, p: int)
    requires
        0 <= p <= e.len(),
        forall|j: int| 0 <= j < p ==> (#[trigger] e[j]).0 < k,
        p < e.len() ==> e[p].0 >= k,
    ensures
        lower_bound(e, k) == p,
    decreases p,
{
    if p > 0 {
        let t = e.drop_first();
        assert forall|j: int| 0 <= j < p - 1 implies (#[trigger] t[j]).0 < k by {
            assert(t[j] == e[j + 1]);
        }
        if p - 1 < t.len() {
            assert(t[p - 1] == e[p]);
        }
        lemma_lower_bound(t, k, p - 1);
    }
}

/// The message part of a decoded choice: its delta, else its message.
pub open spec fn choice_part(c: Option<ChoiceData>) -> Option<DeltaData> {
    match c {
        Some(ch) => match ch.delta {
            Some(d) => Some(d),
            None => ch.message,
        },
        None => None,
    }
}

/// The first of two optional texts that is present, kept only if non-empty.
pub open spec fn first_present(a: Option<String>, b: Option<String>) -> Option<Seq<char>> {
    let t = match a {
        Some(x) => Some(x@),
        None => opt_view(b),
    };
    match t {
        Some(x) => if x.len() > 0 {
            Some(x)
        } else {
            None
        },
        None => None,
    }
}

pub open spec fn part_fragments(d: Option<DeltaData>) -> Option<Seq<FragView>> {
    match d {
        Some(x) => match x.tool_calls {
            Some(fs) => Some(frag_views(fs@)),
            None => None,
        },
        None => None,
    }
}

/// A streamed call as finally reported: a missing id becomes `call_<index>`
/// and a missing name `unnamed_tool_<index>`.
pub open spec fn completed_call(k: usize, a: AccView) -> ToolCallView {
    ToolCallView {
        id: if a.0.len() == 0 {
            "call_"@ + decimal(k as nat)
        } else {
            a.0
        },
        call_type: "function"@,
        name: if a.1.len() == 0 {
            "unnamed_tool_"@ + decimal(k as nat)
        } else {
            a.1
        },
        arguments: a.2,
    }
}

#[derive(Debug)]
struct AccumulatedToolCall {
    id: String,
    name: String,
    arguments: String,
}

/// Frames a byte stream into events and accumulates streamed tool calls.
#[derive(Debug)]
pub struct SSEStreamParser {
    buffer: String,
    /// Accumulated calls by stream index, in increasing index order.
    accumulated: Vec<(usize, AccumulatedToolCall)>,
}

pub open spec fn sorted_keys(e: Seq<(usize, AccView)>) -> bool {
    forall|i: int, j: int| 0 <= i < j < e.len() ==> (#[trigger] e[i]).0 < (#[trigger] e[j]).0
}

impl SSEStreamParser {
    /// Text received after the last complete line.
    pub closed spec fn pending(&self) -> Seq<char> {
        self.buffer@
    }

    /// Accumulated calls, by increasing stream index.
    pub closed spec fn calls(&self) -> Seq<(usize, AccView)> {
        self.accumulated@.map_values(|e: (usize, AccumulatedToolCall)| (e.0, (e.1.id@, e.1.name@, e.1.arguments@)))
    }

    pub closed spec fn wf(&self) -> bool {
        sorted_keys(self.calls())
    }

    pub fn new() -> (p: SSEStreamParser)
        ensures
            p.wf(),
            p.pending() == Seq::<char>::empty(),
            p.calls() == Seq::<(usize, AccView)>::empty(),
    {
        let p = SSEStreamParser { buffer: String::new(), accumulated: Vec::new() };
        assert(p.calls() =~= Seq::<(usize, AccView)>::empty());
        p
    }

    /// Appends a received chunk (decoded leniently) and returns the payloads
    /// of the event lines it completes, in order; text after the last line
    /// break stays pending.
    pub fn feed_chunk(&mut self, chunk: &[u8]) -> (r: Vec<String>)
        requires
            old(self).wf(),
        ensures
            final(self).wf(),
            final(self).calls() == old(self).calls(),
            views(r@) == frame(old(self).pending() + utf8_lossy(chunk@)).0,
            final(self).pending() == frame(old(self).pending() + utf8_lossy(chunk@)).1,
    {
        let text = decode_lossy(chunk);
        push_str(&mut self.buffer, text.as_str());
        let v = chars_of(self.buffer.as_str());
        let ghost all = v@;
        let mut out: Vec<String> = Vec::new();
        let mut pos: usize = 0;
        assert(v@.subrange(0, v.len() as int) =~= v@);
        loop
            invariant
                v@ == all,
                pos <= v.len(),
                frame(all) == (views(out@) + frame(all.subrange(pos as int, all.len() as int)).0, frame(
                    all.subrange(pos as int, all.len() as int),
                ).1),
            ensures
                views(out@) == frame(all).0,
                frame(all).1 == all.subrange(pos as int, all.len() as int),
            decreases v.len() - pos,
        {
            let ghost rest = all.subrange(pos as int, all.len() as int);
            let k = crate::text::scan_line_end(&v, pos);
            if k >= v.len() {
                proof {
                    assert(frame(rest) == (Seq::<Seq<char>>::empty(), rest));
                    assert(views(out@) + Seq::<Seq<char>>::empty() =~= views(out@));
                }
                break;
            }
            proof {
                assert(rest.subrange(0, k - pos) =~= all.subrange(pos as int, k as int));
                assert(rest.subrange(k - pos + 1, rest.len() as int) =~= all.subrange(k + 1, all.len() as int));
            }
            let ghost before = views(out@);
            match payload_of_line(&v, pos, k) {
                Some(p) => {
                    out.push(p);
                    proof {
                        assert(views(out@) =~= before.push(p@));
                        assert(before + (seq![p@] + frame(all.subrange(k + 1, all.len() as int)).0) =~= views(out@)
                            + frame(all.subrange(k + 1, all.len() as int)).0);
                    }
                },
                None => {},
            }
            pos = k + 1;
        }
        self.buffer = string_from_chars(&v, pos, v.len());
        out
    }

    /// Ends the stream: returns the payload of whatever is still pending and
    /// clears it.
    pub fn flush(&mut self) -> (r: Option<String>)
        requires
            old(self).wf(),
        ensures
            final(self).wf(),
            final(self).calls() == old(self).calls(),
            final(self).pending() == Seq::<char>::empty(),
            match r {
                Some(p) => final_payload(old(self).pending()) == Some(p@),
                None => final_payload(old(self).pending()) is None,
            },
    {
        let t = trim_string(self.buffer.as_str());
        self.buffer = String::new();
        let tc = chars_of(t.as_str());
        if !chars_start_with(&tc, "data:") {
            return None;
        }
        proof {
            reveal_strlit("data:");
        }
        let rest = string_from_chars(&tc, 5, tc.len());
        let d = trim_string(rest.as_str());
        if crate::text::str_eq(d.as_str(), "[DONE]") {
            None
        } else {
            Some(d)
        }
    }

    fn merge_one(&mut self, f: &ToolCallFragment)
        requires
            old(self).wf(),
        ensures
            final(self).wf(),
            final(self).pending() == old(self).pending(),
            final(self).calls() == merge_fragment(old(self).calls(), f@),
    {
        let ghost e = self.calls();
        let k = f.index;
        let mut p: usize = 0;
        while p < self.accumulated.len() && self.accumulated[p].0 < k
            invariant
                p <= self.accumulated.len(),
                e == self.calls(),
                forall|j: int| 0 <= j < p ==> (#[trigger] e[j]).0 < k,
            decreases self.accumulated.len() - p,
        {
            assert(e[p as int].0 == self.accumulated@[p as int].0);
            p += 1;
        }
        proof {
            if p < e.len() {
                assert(e[p as int].0 == self.accumulated@[p as int].0);
            }
            lemma_lower_bound(e, k, p as int);
        }
        let name_part: &str = match &f.name {
            Some(x) => x.as_str(),
            None => "",
        };
        let args_part: &str = match &f.arguments {
            Some(x) => x.as_str(),
            None => "",
        };
        proof {
            reveal_strlit("");
        }
        if p < self.accumulated.len() && self.accumulated[p].0 == k {
            let (key, acc) = self.accumulated.remove(p);
            let AccumulatedToolCall { id, name, arguments } = acc;
            let new_id = match &f.id {
                Some(x) => x.clone(),
                None => id,
            };
            let mut new_name = name;
            push_str(&mut new_name, name_part);
            let mut new_args = arguments;
            push_str(&mut new_args, args_part);
            self.accumulated.insert(p, (key, AccumulatedToolCall { id: new_id, name: new_name, arguments: new_args }));
            proof {
                assert(self.calls() =~= e.update(p as int, (k, apply_fragment(e[p as int].1, f@))));
            }
        } else {
            let new_id = match &f.id {
                Some(x) => x.clone(),
                None => String::new(),
            };
            let new_name = string_of(name_part);
            let new_args = string_of(args_part);
            proof {
                assert(Seq::<char>::empty() + name_part@ =~= name_part@);
                assert(Seq::<char>::empty() + args_part@ =~= args_part@);
                assert(new_id@ == or_else(opt_view(f.id), Seq::empty()));
            }
            self.accumulated.insert(p, (k, AccumulatedToolCall { id: new_id, name: new_name, arguments: new_args }));
            proof {
                assert(self.calls() =~= e.insert(
                    p as int,
                    (k, apply_fragment((Seq::empty(), Seq::empty(), Seq::empty()), f@)),
                ));
                assert(sorted_keys(self.calls())) by {
                    let n = self.calls();
                    assert forall|a: int, b: int| 0 <= a < b < n.len() implies (#[trigger] n[a]).0 < (#[trigger] n[b]).0 by {
                        if a < p && b < p {
                            assert(n[a] == e[a] && n[b] == e[b]);
                        } else if a < p && b == p {
                            assert(n[a] == e[a]);
                        } else if a < p {
                            assert(n[a] == e[a] && n[b] == e[b - 1]);
                            if b - 1 > p {
                                assert(e[p as int].0 < e[b - 1].0);
                            }
                        } else if a == p {
                            assert(n[b] == e[b - 1]);
                            if b - 1 > p {
                                assert(e[p as int].0 < e[b - 1].0);
                            }
                        } else {
                            assert(n[a] == e[a - 1] && n[b] == e[b - 1]);
                        }
                    }
                }
            }
        }
    }

    /// Applies one decoded event (`None` when its payload did not decode):
    /// reports its answer and reasoning text (each only when non-empty), its
    /// tool-call fragments, finish reason and usage, and merges the
    /// fragments into the accumulated calls.
    pub fn apply_data(&mut self, data: Option<ChunkData>) -> (r: Option<StreamDelta>)
        requires
            old(self).wf(),
        ensures
            final(self).wf(),
            final(self).pending() == old(self).pending(),
            match data {
                None => r is None && final(self).calls() == old(self).calls(),
                Some(d) => r matches Some(delta) && {
                    let part = choice_part(d.choice);
                    &&& opt_view(delta.reasoning_delta) == (match part {
                        Some(x) => first_present(x.reasoning_content, x.reasoning),
                        None => None,
                    })
                    &&& opt_view(delta.content_delta) == (match part {
                        Some(x) => first_present(x.content, x.text),
                        None => None,
                    })
                    &&& (match delta.tool_calls_delta {
                        Some(ds) => part_fragments(part) == Some(delta_views(ds@)),
                        None => part_fragments(part) is None,
                    })
                    &&& final(self).calls() == (match part_fragments(part) {
                        Some(fs) => merge_fragments(old(self).calls(), fs),
                        None => old(self).calls(),
                    })
                    &&& opt_view(delta.finish_reason) == (match d.choice {
                        Some(c) => opt_view(c.finish_reason),
                        None => None,
                    })
                    &&& delta.prompt_tokens == (match d.usage {
                        Some(u) => u.prompt_tokens,
                        None => None,
                    })
                    &&& delta.completion_tokens == (match d.usage {
                        Some(u) => u.completion_tokens,
                        None => None,
                    })
                },
            },
    {
        let d = match data {
            Some(d) => d,
            None => return None,
        };
        let ChunkData { choice, usage } = d;
        let mut content_delta: Option<String> = None;
        let mut reasoning_delta: Option<String> = None;
        let mut tool_calls_delta: Option<Vec<StreamToolCallDelta>> = None;
        let mut finish_reason: Option<String> = None;
        match choice {
            Some(c) => {
                let ChoiceData { delta, message, finish_reason: fr } = c;
                let part = match delta {
                    Some(x) => Some(x),
                    None => message,
                };
                match part {
                    Some(x) => {
                        let DeltaData { content, reasoning_content, reasoning, text, tool_calls } = x;
                        let r = match reasoning_content {
                            Some(t) => Some(t),
                            None => reasoning,
                        };
                        match r {
                            Some(t) => if !t.as_str().is_empty() {
                                reasoning_delta = Some(t);
                            },
                            None => {},
                        }
                        let c2 = match content {
                            Some(t) => Some(t),
                            None => text,
                        };
                        match c2 {
                            Some(t) => if !t.as_str().is_empty() {
                                content_delta = Some(t);
                            },
                            None => {},
                        }
                        match tool_calls {
                            Some(fs) => {
                                let ghost start = self.calls();
                                let ghost pend = self.pending();
                                let mut ds: Vec<StreamToolCallDelta> = Vec::new();
                                let mut i: usize = 0;
                                while i < fs.len()
                                    invariant
                                        self.wf(),
                                        self.pending() == pend,
                                        i <= fs.len(),
                                        self.calls() == merge_fragments(start, frag_views(fs@).subrange(0, i as int)),
                                        delta_views(ds@) == frag_views(fs@).subrange(0, i as int),
                                    decreases fs.len() - i,
                                {
                                    let f = &fs[i];
                                    proof {
                                        let pre = frag_views(fs@).subrange(0, i + 1);
                                        assert(pre.drop_last() =~= frag_views(fs@).subrange(0, i as int));
                                        assert(pre.last() == f@);
                                    }
                                    self.merge_one(f);
                                    let nd = StreamToolCallDelta {
                                        index: f.index,
                                        id: crate::types::message::clone_opt_string(&f.id),
                                        name: crate::types::message::clone_opt_string(&f.name),
                                        arguments_delta: crate::types::message::clone_opt_string(&f.arguments),
                                    };
                                    let ghost before = delta_views(ds@);
                                    ds.push(nd);
                                    assert(delta_views(ds@) =~= before.push(f@));
                                    i += 1;
                                }
                                assert(frag_views(fs@).subrange(0, fs.len() as int) =~= frag_views(fs@));
                                tool_calls_delta = Some(ds);
                            },
                            None => {},
                        }
                    },
                    None => {},
                }
                finish_reason = fr;
            },
            None => {},
        }
        let (prompt_tokens, completion_tokens) = match usage {
            Some(u) => (u.prompt_tokens, u.completion_tokens),
            None => (None, None),
        };
        Some(StreamDelta {
            content_delta,
            reasoning_delta,
            tool_calls_delta,
            finish_reason,
            prompt_tokens,
            completion_tokens,
        })
    }

    /// The accumulated calls, in stream-index order, with fallback ids and
    /// names for calls whose fragments carried none.
    pub fn get_completed_tool_calls(&self) -> (r: Vec<ToolCall>)
        ensures
            r@.map_values(|c: ToolCall| c@) == completed_calls(self.calls()),
    {
        let ghost e = self.calls();
        let mut out: Vec<ToolCall> = Vec::new();
        let mut i: usize = 0;
        while i < self.accumulated.len()
            invariant
                i <= self.accumulated.len(),
                e == self.calls(),
                out@.map_values(|c: ToolCall| c@) == e.map_values(|x: (usize, AccView)| completed_call(x.0, x.1)).subrange(
                    0,
                    i as int,
                ),
            decreases self.accumulated.len() - i,
        {
            let k = self.accumulated[i].0;
            let acc = &self.accumulated[i].1;
            let id = if acc.id.as_str().is_empty() {
                let mut t = string_of("call_");
                push_decimal(&mut t, k as u64);
                t
            } else {
                acc.id.clone()
            };
            let name = if acc.name.as_str().is_empty() {
                let mut t = string_of("unnamed_tool_");
                push_decimal(&mut t, k as u64);
                t
            } else {
                acc.name.clone()
            };
            let call = ToolCall::new_function(id.as_str(), name.as_str(), acc.arguments.as_str());
            let ghost before = out@.map_values(|c: ToolCall| c@);
            out.push(call);
            proof {
                assert(e[i as int] == (k, (acc.id@, acc.name@, acc.arguments@)));
                assert(call@ == completed_call(k, e[i as int].1));
                assert(out@.map_values(|c: ToolCall| c@) =~= before.push(call@));
                assert(e.map_values(|x: (usize, AccView)| completed_call(x.0, x.1)).subrange(0, i + 1)
                    =~= e.map_values(|x: (usize, AccView)| completed_call(x.0, x.1)).subrange(0, i as int).push(
                    call@,
                ));
            }
            i += 1;
        }
        assert(e.map_values(|x: (usize, AccView)| completed_call(x.0, x.1)).subrange(0, i as int) =~= e.map_values(
            |x: (usize, AccView)| completed_call(x.0, x.1),
        ));
        out
    }
}

/// The calls as reported, in order.
pub open spec fn completed_calls(e: Seq<(usize, AccView)>) -> Seq<ToolCallView> {
    e.map_values(|x: (usize, AccView)| completed_call(x.0, x.1))
}

/// The call of stream index `k` assembled from `fs` in arrival order: the
/// id last given for it, and its name and argument fragments concatenated.
pub open spec fn assembled(fs: Seq<FragView>, k: usize) -> AccView
    decreases fs.len(),
{
    if fs.len() == 0 {
        (Seq::empty(), Seq::empty(), Seq::empty())
    } else {
        let a = assembled(fs.drop_last(), k);
        if fs.last().0 == k {
            apply_fragment(a, fs.last())
        } else {
            a
        }
    }
}

/// Whether some fragment of `fs` has stream index `k`.
pub open spec fn has_index(fs: Seq<FragView>, k: usize) -> bool {
    exists|j: int| 0 <= j < fs.len() && (#[trigger] fs[j]).0 == k
}

/// `e` holds, by increasing index, exactly one call per index of `fs`, each
/// assembled from `fs`.
pub open spec fn assembles(e: Seq<(usize, AccView)>, fs: Seq<FragView>) -> bool {
    &&& sorted_keys(e)
    &&& forall|i: int| 0 <= i < e.len() ==> has_index(fs, (#[trigger] e[i]).0) && e[i].1 == assembled(fs, e[i].0)
    &&& forall|j: int| 0 <= j < fs.len() ==> exists|i: int| 0 <= i < e.len() && (#[trigger] e[i]).0 == (#[trigger] fs[j]).0
}

proof fn lemma_lower_bound_sorted(e: Seq<(usize, AccView)>, k: usize)
    requires
        sorted_keys(e),
    ensures
        0 <= lower_bound(e, k) <= e.len(),
        forall|j: int| 0 <= j < lower_bound(e, k) ==> (#[trigger] e[j]).0 < k,
        forall|j: int| lower_bound(e, k) <= j < e.len() ==> (#[trigger] e[j]).0 >= k,
    decreases e.len(),
{
    if e.len() > 0 {
        let t = e.drop_first();
        assert forall|a: int, b: int| 0 <= a < b < t.len() implies (#[trigger] t[a]).0 < (#[trigger] t[b]).0 by {
            assert(t[a] == e[a + 1] && t[b] == e[b + 1]);
        }
        lemma_lower_bound_sorted(t, k);
        if e[0].0 < k {
            assert forall|j: int| 0 <= j < lower_bound(e, k) implies (#[trigger] e[j]).0 < k by {
                if j > 0 {
                    assert(e[j] == t[j - 1]);
                }
            }
            assert forall|j: int| lower_bound(e, k) <= j < e.len() implies (#[trigger] e[j]).0 >= k by {
                assert(e[j] == t[j - 1]);
            }
        } else {
            assert forall|j: int| 0 <= j < e.len() implies (#[trigger] e[j]).0 >= k by {
                if j > 0 {
                    assert(e[0].0 < e[j].0);
                }
            }
        }
    }
}

proof fn lemma_assembled_absent(fs: Seq<FragView>, k: usize)
    requires
        !has_index(fs, k),
    ensures
        assembled(fs, k) == (Seq::<char>::empty(), Seq::<char>::empty(), Seq::<char>::empty()),
    decreases fs.len(),
{
    if fs.len() > 0 {
        let t = fs.drop_last();
        assert(fs.last() == fs[fs.len() - 1]);
        if has_index(t, k) {
            let j = choose|j: int| 0 <= j < t.len() && (#[trigger] t[j]).0 == k;
            assert(fs[j] == t[j]);
        }
        lemma_assembled_absent(t, k);
    }
}

proof fn lemma_has_index_push(fs: Seq<FragView>, f: FragView, m: usize)
    requires
        has_index(fs, m),
    ensures
        has_index(fs.push(f), m),
{
    let j = choose|j: int| 0 <= j < fs.len() && (#[trigger] fs[j]).0 == m;
    assert(fs.push(f)[j] == fs[j]);
}

proof fn lemma_assembled_push(fs: Seq<FragView>, f: FragView, k: usize)
    ensures
        assembled(fs.push(f), k) == (if f.0 == k { apply_fragment(assembled(fs, k), f) } else { assembled(fs, k) }),
{
    assert(fs.push(f).drop_last() =~= fs);
    assert(fs.push(f).last() == f);
}

proof fn lemma_step_update(e: Seq<(usize, AccView)>, fs: Seq<FragView>, f: FragView, p: int)
    requires
        assembles(e, fs),
        0 <= p < e.len(),
        e[p].0 == f.0,
    ensures
        assembles(e.update(p, (f.0, apply_fragment(e[p].1, f))), fs.push(f)),
{
    let g = fs.push(f);
    let n = e.update(p, (f.0, apply_fragment(e[p].1, f)));
    assert(n.len() == e.len());
    assert forall|i: int| 0 <= i < n.len() implies has_index(g, (#[trigger] n[i]).0) && n[i].1 == assembled(
        g,
        n[i].0,
    ) by {
        lemma_has_index_push(fs, f, e[i].0);
        lemma_assembled_push(fs, f, e[i].0);
        assert(has_index(fs, e[i].0) && e[i].1 == assembled(fs, e[i].0));
        if i == p {
            assert(n[p] == (f.0, apply_fragment(e[p].1, f)));
        } else {
            assert(n[i] == e[i]);
            if i < p {
                assert(e[i].0 < e[p].0);
            } else {
                assert(e[p].0 < e[i].0);
            }
        }
    }
    assert forall|j: int| 0 <= j < g.len() implies exists|i: int| 0 <= i < n.len() && (#[trigger] n[i]).0
        == (#[trigger] g[j]).0 by {
        if j < fs.len() {
            assert(g[j] == fs[j]);
            assert(exists|i: int| 0 <= i < e.len() && (#[trigger] e[i]).0 == (#[trigger] fs[j]).0);
            let i = choose|i: int| 0 <= i < e.len() && (#[trigger] e[i]).0 == (#[trigger] fs[j]).0;
            if i == p {
                assert(n[p].0 == f.0);
            } else {
                assert(n[i] == e[i]);
            }
            assert(0 <= i < n.len() && n[i].0 == g[j].0);
        } else {
            assert(g[j] == f);
            assert(n[p].0 == g[j].0);
        }
    }
    assert forall|a: int, b: int| 0 <= a < b < n.len() implies (#[trigger] n[a]).0 < (#[trigger] n[b]).0 by {
        assert(n[a].0 == e[a].0 && n[b].0 == e[b].0);
    }
}

proof fn lemma_step_insert(e: Seq<(usize, AccView)>, fs: Seq<FragView>, f: FragView, p: int)
    requires
        assembles(e, fs),
        0 <= p <= e.len(),
        forall|j: int| 0 <= j < p ==> (#[trigger] e[j]).0 < f.0,
        forall|j: int| p <= j < e.len() ==> (#[trigger] e[j]).0 > f.0,
    ensures
        assembles(
            e.insert(p, (f.0, apply_fragment((Seq::<char>::empty(), Seq::<char>::empty(), Seq::<char>::empty()), f))),
            fs.push(f),
        ),
{
    let g = fs.push(f);
    let k = f.0;
    let n = e.insert(p, (k, apply_fragment((Seq::<char>::empty(), Seq::<char>::empty(), Seq::<char>::empty()), f)));
    if has_index(fs, k) {
        let j = choose|j: int| 0 <= j < fs.len() && (#[trigger] fs[j]).0 == k;
        let i = choose|i: int| 0 <= i < e.len() && (#[trigger] e[i]).0 == (#[trigger] fs[j]).0;
        assert(e[i].0 == k);
    }
    lemma_assembled_absent(fs, k);
    lemma_assembled_push(fs, f, k);
    assert(g[fs.len() as int] == f);
    assert(has_index(g, k));
    assert forall|i: int| 0 <= i < n.len() implies has_index(g, (#[trigger] n[i]).0) && n[i].1 == assembled(
        g,
        n[i].0,
    ) by {
        if i < p {
            assert(n[i] == e[i]);
            lemma_has_index_push(fs, f, e[i].0);
            lemma_assembled_push(fs, f, e[i].0);
        } else if i > p {
            assert(n[i] == e[i - 1]);
            lemma_has_index_push(fs, f, e[i - 1].0);
            lemma_assembled_push(fs, f, e[i - 1].0);
        }
    }
    assert forall|j: int| 0 <= j < g.len() implies exists|i: int| 0 <= i < n.len() && (#[trigger] n[i]).0
        == (#[trigger] g[j]).0 by {
        if j < fs.len() {
            assert(g[j] == fs[j]);
            let i = choose|i: int| 0 <= i < e.len() && (#[trigger] e[i]).0 == (#[trigger] fs[j]).0;
            if i < p {
                assert(n[i] == e[i]);
            } else {
                assert(n[i + 1] == e[i]);
            }
        } else {
            assert(g[j] == f);
            assert(n[p].0 == g[j].0);
        }
    }
    assert forall|a: int, b: int| 0 <= a < b < n.len() implies (#[trigger] n[a]).0 < (#[trigger] n[b]).0 by {
        if a < p && b < p {
            assert(n[a] == e[a] && n[b] == e[b]);
        } else if a < p && b == p {
            assert(n[a] == e[a]);
        } else if a < p {
            assert(n[a] == e[a] && n[b] == e[b - 1]);
        } else if a == p {
            assert(n[b] == e[b - 1]);
        } else {
            assert(n[a] == e[a - 1] && n[b] == e[b - 1]);
        }
    }
}

proof fn lemma_assembles_step(e: Seq<(usize, AccView)>, fs: Seq<FragView>, f: FragView)
    requires
        assembles(e, fs),
    ensures
        assembles(merge_fragment(e, f), fs.push(f)),
{
    let k = f.0;
    lemma_lower_bound_sorted(e, k);
    let p = lower_bound(e, k);
    if p < e.len() && e[p].0 == k {
        lemma_step_update(e, fs, f, p);
    } else {
        assert forall|j: int| p <= j < e.len() implies (#[trigger] e[j]).0 > k by {
            if j > p {
                assert(e[p].0 < e[j].0);
            }
        }
        lemma_step_insert(e, fs, f, p);
    }
}

/// Merging fragments batch by batch is merging them all at once: the calls
/// accumulated over several events are those of their fragments in order.
pub proof fn lemma_merge_fragments_concat(e: Seq<(usize, AccView)>, a: Seq<FragView>, b: Seq<FragView>)
    ensures
        merge_fragments(e, a + b) == merge_fragments(merge_fragments(e, a), b),
    decreases b.len(),
{
    if b.len() == 0 {
        assert(a + b =~= a);
    } else {
        assert((a + b).drop_last() =~= a + b.drop_last());
        assert((a + b).last() == b.last());
        lemma_merge_fragments_concat(e, a, b.drop_last());
    }
}

/// Tool calls streamed in fragments are assembled per stream index: from no
/// calls, the fragments `fs` leave one call per index seen, by increasing
/// index, each with the id last given for that index and its name and
/// argument fragments concatenated in arrival order; reported, a missing id
/// becomes `call_<index>` and a missing name `unnamed_tool_<index>`.
pub proof fn lemma_tool_calls_assembled(fs: Seq<FragView>)
    ensures
        assembles(merge_fragments(Seq::empty(), fs), fs),
        forall|i: int|
            0 <= i < merge_fragments(Seq::empty(), fs).len() ==> #[trigger] completed_calls(
                merge_fragments(Seq::empty(), fs),
            )[i] == completed_call(
                merge_fragments(Seq::empty(), fs)[i].0,
                assembled(fs, merge_fragments(Seq::empty(), fs)[i].0),
            ),
    decreases fs.len(),
{
    if fs.len() > 0 {
        let t = fs.drop_last();
        lemma_tool_calls_assembled(t);
        lemma_assembles_step(merge_fragments(Seq::empty(), t), t, fs.last());
        assert(t.push(fs.last()) =~= fs);
    }
}

/// Where the text of a delta comes from: the primary field when present
/// (`reasoning_content` for reasoning, `content` for the answer), else the
/// fallback field (`reasoning`, `text`); an empty text reports nothing.
pub proof fn lemma_text_field_fallback(primary: Option<String>, fallback: Option<String>)
    ensures
        (primary is Some && primary->Some_0@.len() > 0) ==> first_present(primary, fallback) == Some(
            primary->Some_0@,
        ),
        (primary is Some && primary->Some_0@.len() == 0) ==> first_present(primary, fallback) is None,
        (primary is None && fallback is Some && fallback->Some_0@.len() > 0) ==> first_present(primary, fallback)
            == Some(fallback->Some_0@),
        (primary is None && fallback is Some && fallback->Some_0@.len() == 0) ==> first_present(
            primary,
            fallback,
        ) is None,
        (primary is None && fallback is None) ==> first_present(primary, fallback) is None,
{
}

/// A decoded event's reasoning and answer texts, as `apply_data` reports
/// them: reasoning from `reasoning_content`, or failing that `reasoning`;
/// the answer from `content`, or failing that `text`; never an empty text.
pub proof fn lemma_delta_texts(part: DeltaData)
    ensures
        (part.reasoning_content is None && part.reasoning is Some && part.reasoning->Some_0@.len() > 0)
            ==> first_present(part.reasoning_content, part.reasoning) == Some(part.reasoning->Some_0@),
        (part.content is None && part.text is Some && part.text->Some_0@.len() > 0) ==> first_present(
            part.content,
            part.text,
        ) == Some(part.text->Some_0@),
        (part.reasoning_content is Some && part.reasoning_content->Some_0@.len() > 0) ==> first_present(
            part.reasoning_content,
            part.reasoning,
        ) == Some(part.reasoning_content->Some_0@),
        (part.content is Some && part.content->Some_0@.len() > 0) ==> first_present(part.content, part.text)
            == Some(part.content->Some_0@),
        first_present(part.reasoning_content, part.reasoning) is Some ==> first_present(
            part.reasoning_content,
            part.reasoning,
        )->Some_0.len() > 0,
        first_present(part.content, part.text) is Some ==> first_present(part.content, part.text)->Some_0.len() > 0,
{
    lemma_text_field_fallback(part.reasoning_content, part.reasoning);
    lemma_text_field_fallback(part.content, part.text);
}

} // verus!
