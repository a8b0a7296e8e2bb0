//! The interface's record of the turn in progress: what the agent is doing,
//! the text streaming in, the tool calls under way, and which of it belongs
//! in the conversation. Each agent event and the end of a run is a step from
//! one record to the next that also says what to commit to the
//! conversation; the caller applies those commits to its history.
use crate::daemon::task::{ends_with_answer, ends_with_answer_exec, message_views};
use crate::text::{decimal, push_decimal, push_str, str_eq, string_of};
use crate::tui::app::{ActiveToolCall, AgentStatus};
use crate::types::message::{calls_view, ChatMessage, MessageView, ToolCall, ToolCallView};
use vstd::prelude::*;

verus! {

/// Mathematical view of the agent's status.
pub enum StatusView {
    Idle,
    Thinking,
    Streaming,
    ExecutingTool { name: Seq<char>, duration_ms: u64 },
    Done,
    Error(Seq<char>),
}

impl View for AgentStatus {
    type V = StatusView;

    open spec fn view(&self) -> StatusView {
        match self {
            AgentStatus::Idle => StatusView::Idle,
            AgentStatus::Thinking => StatusView::Thinking,
            AgentStatus::Streaming => StatusView::Streaming,
            AgentStatus::ExecutingTool { name, duration_ms } => StatusView::ExecutingTool {
                name: name@,
                duration_ms: *duration_ms,
            },
            AgentStatus::Done => StatusView::Done,
            AgentStatus::Error(m) => StatusView::Error(m@),
        }
    }
}

/// Mathematical view of a tool call under way.
pub struct ActiveView {
    pub id: Seq<char>,
    pub name: Seq<char>,
    pub arguments: Seq<char>,
    pub result: Option<Seq<char>>,
    pub is_error: bool,
    pub duration_ms: u64,
}

impl View for ActiveToolCall {
    type V = ActiveView;

    open spec fn view(&self) -> ActiveView {
        ActiveView {
            id: self.id@,
            name: self.name@,
            arguments: self.arguments@,
            result: match self.result {
                Some(r) => Some(r@),
                None => None,
            },
            is_error: self.is_error,
            duration_ms: self.duration_ms,
        }
    }
}

pub open spec fn actives_view(v: Seq<ActiveToolCall>) -> Seq<ActiveView> {
    v.map_values(|a: ActiveToolCall| a@)
}

/// What the agent reports while it works, as far as the interface reacts to
/// it; `Other` stands for the reports it lets pass.
pub enum TurnEvent {
    TurnStart,
    TokenDelta { delta: String },
    ReasoningDelta { delta: String },
    ToolCallReady { tool_call: ToolCall },
    ToolExecStart { name: String },
    ToolExecResult { tool_call_id: String, name: String, output: String, is_error: bool, duration_ms: u64 },
    TurnEnd,
    Error { message: String },
    ContextCompacted { tokens_before: usize, tokens_after: usize },
    Other,
}

pub enum EventView {
    TurnStart,
    TokenDelta(Seq<char>),
    ReasoningDelta(Seq<char>),
    ToolCallReady(ToolCallView),
    ToolExecStart(Seq<char>),
    ToolExecResult { tool_call_id: Seq<char>, name: Seq<char>, output: Seq<char> },
    TurnEnd,
    Error(Seq<char>),
    ContextCompacted { tokens_before: usize, tokens_after: usize },
    Other,
}

impl View for TurnEvent {
    type V = EventView;

    open spec fn view(&self) -> EventView {
        match self {
            TurnEvent::TurnStart => EventView::TurnStart,
            TurnEvent::TokenDelta { delta } => EventView::TokenDelta(delta@),
            TurnEvent::ReasoningDelta { delta } => EventView::ReasoningDelta(delta@),
            TurnEvent::ToolCallReady { tool_call } => EventView::ToolCallReady(tool_call@),
            TurnEvent::ToolExecStart { name } => EventView::ToolExecStart(name@),
            TurnEvent::ToolExecResult { tool_call_id, name, output, .. } => EventView::ToolExecResult {
                tool_call_id: tool_call_id@,
                name: name@,
                output: output@,
            },
            TurnEvent::TurnEnd => EventView::TurnEnd,
            TurnEvent::Error { message } => EventView::Error(message@),
            TurnEvent::ContextCompacted { tokens_before, tokens_after } => EventView::ContextCompacted {
                tokens_before: *tokens_before,
                tokens_after: *tokens_after,
            },
            TurnEvent::Other => EventView::Other,
        }
    }
}

/// A change to the conversation that a step asks for: append an assistant
/// message, append a tool result, or replace the whole history.
pub enum Commit {
    Assistant { content: Option<String>, tool_calls: Option<Vec<ToolCall>> },
    ToolResult { tool_call_id: String, output: String, name: String },
    ReplaceHistory(Vec<ChatMessage>),
}

pub enum CommitView {
    Assistant { content: Option<Seq<char>>, tool_calls: Option<Seq<ToolCallView>> },
    ToolResult { tool_call_id: Seq<char>, output: Seq<char>, name: Seq<char> },
    ReplaceHistory(Seq<MessageView>),
}

impl View for Commit {
    type V = CommitView;

    open spec fn view(&self) -> CommitView {
        match self {
            Commit::Assistant { content, tool_calls } => CommitView::Assistant {
                content: match content {
                    Some(c) => Some(c@),
                    None => None,
                },
                tool_calls: match tool_calls {
                    Some(v) => Some(calls_view(v@)),
                    None => None,
                },
            },
            Commit::ToolResult { tool_call_id, output, name } => CommitView::ToolResult {
                tool_call_id: tool_call_id@,
                output: output@,
                name: name@,
            },
            Commit::ReplaceHistory(ms) => CommitView::ReplaceHistory(message_views(ms@)),
        }
    }
}

pub open spec fn commits_view(v: Seq<Commit>) -> Seq<CommitView> {
    v.map_values(|c: Commit| c@)
}

/// The record of the turn in progress.
pub struct TurnState {
    pub status: AgentStatus,
    pub streaming: String,
    pub reasoning: String,
    pub active: Vec<ActiveToolCall>,
    pub last_error: Option<String>,
    pub notice: Option<String>,
    /// The history as it stood before the run compacted it, kept for the
    /// record on disk.
    pub raw_transcript: Option<Vec<ChatMessage>>,
}

pub struct TurnView {
    pub status: StatusView,
    pub streaming: Seq<char>,
    pub reasoning: Seq<char>,
    pub active: Seq<ActiveView>,
    pub last_error: Option<Seq<char>>,
    pub notice: Option<Seq<char>>,
    pub raw_transcript: Option<Seq<MessageView>>,
}

pub open spec fn opt_str_view(o: Option<String>) -> Option<Seq<char>> {
    match o {
        Some(s) => Some(s@),
        None => None,
    }
}

pub open spec fn opt_messages_view(o: Option<Vec<ChatMessage>>) -> Option<Seq<MessageView>> {
    match o {
        Some(v) => Some(message_views(v@)),
        None => None,
    }
}

impl View for TurnState {
    type V = TurnView;

    open spec fn view(&self) -> TurnView {
        TurnView {
            status: self.status@,
            streaming: self.streaming@,
            reasoning: self.reasoning@,
            active: actives_view(self.active@),
            last_error: opt_str_view(self.last_error),
            notice: opt_str_view(self.notice),
            raw_transcript: opt_messages_view(self.raw_transcript),
        }
    }
}

/// Whether one of `calls` has id `id`.
pub open spec fn has_id(calls: Seq<ToolCallView>, id: Seq<char>) -> bool {
    exists|j: int| 0 <= j < calls.len() && (#[trigger] calls[j]).id == id
}

/// Whether `m` is an assistant message that requested a call with id `id`.
pub open spec fn carries_call(m: MessageView, id: Seq<char>) -> bool {
    match m {
        MessageView::Assistant { tool_calls: Some(calls), .. } => has_id(calls, id),
        _ => false,
    }
}

/// Whether the history already holds the request for call `id`.
pub open spec fn call_committed(history: Seq<MessageView>, id: Seq<char>) -> bool {
    exists|i: int| 0 <= i < history.len() && #[trigger] carries_call(history[i], id)
}

/// The calls under way, without those with id `id`, in their order.
pub open spec fn without_call(s: Seq<ActiveView>, id: Seq<char>) -> Seq<ActiveView>
    decreases s.len(),
{
    if s.len() == 0 {
        s
    } else {
        let rest = without_call(s.drop_last(), id);
        if s.last().id == id {
            rest
        } else {
            rest.push(s.last())
        }
    }
}

pub open spec fn started_call(c: ToolCallView) -> ActiveView {
    ActiveView {
        id: c.id,
        name: c.name,
        arguments: c.arguments,
        result: None,
        is_error: false,
        duration_ms: 0,
    }
}

pub open spec fn compacted_notice(before: usize, after: usize) -> Seq<char> {
    "🗜 Context compacted: ~"@ + decimal(before as nat) + " → ~"@ + decimal(after as nat)
        + " tokens (older history summarized)"@
}

pub open spec fn error_notice(message: Seq<char>) -> Seq<char> {
    "Error: "@ + message
}

/// The record after one event.
pub open spec fn event_state(s: TurnView, history: Seq<MessageView>, e: EventView) -> TurnView {
    match e {
        EventView::TurnStart => TurnView { status: StatusView::Thinking, ..s },
        EventView::TokenDelta(d) => TurnView {
            status: StatusView::Streaming,
            streaming: s.streaming + d,
            ..s
        },
        EventView::ReasoningDelta(d) => TurnView { reasoning: s.reasoning + d, ..s },
        EventView::ToolCallReady(c) => TurnView { active: s.active.push(started_call(c)), ..s },
        EventView::ToolExecStart(name) => TurnView {
            status: StatusView::ExecutingTool { name, duration_ms: 0 },
            ..s
        },
        EventView::ToolExecResult { tool_call_id, .. } => TurnView {
            active: without_call(s.active, tool_call_id),
            status: StatusView::Thinking,
            ..s
        },
        EventView::TurnEnd => TurnView { streaming: Seq::empty(), reasoning: Seq::empty(), ..s },
        EventView::Error(m) => TurnView {
            last_error: Some(m),
            status: StatusView::Error(m),
            notice: Some(error_notice(m)),
            ..s
        },
        EventView::ContextCompacted { tokens_before, tokens_after } => TurnView {
            notice: Some(compacted_notice(tokens_before, tokens_after)),
            ..s
        },
        EventView::Other => s,
    }
}

/// What one event commits to the conversation: a requested call once (not
/// when the history already holds it), a tool result, or at the end of a
/// turn the text streamed during it.
pub open spec fn event_commits(s: TurnView, history: Seq<MessageView>, e: EventView) -> Seq<CommitView> {
    match e {
        EventView::ToolCallReady(c) => if call_committed(history, c.id) {
            Seq::empty()
        } else {
            seq![CommitView::Assistant { content: None, tool_calls: Some(seq![c]) }]
        },
        EventView::ToolExecResult { tool_call_id, name, output } => seq![
            CommitView::ToolResult { tool_call_id, output, name },
        ],
        EventView::TurnEnd => if s.streaming.len() > 0 {
            seq![CommitView::Assistant { content: Some(s.streaming), tool_calls: None }]
        } else {
            Seq::empty()
        },
        _ => Seq::empty(),
    }
}

pub open spec fn call_of(a: ActiveView) -> ToolCallView {
    ToolCallView { id: a.id, call_type: "function"@, name: a.name, arguments: a.arguments }
}

/// The tool results gathered for the calls under way, in their order.
pub open spec fn result_commits(s: Seq<ActiveView>) -> Seq<CommitView>
    decreases s.len(),
{
    if s.len() == 0 {
        Seq::empty()
    } else {
        let rest = result_commits(s.drop_last());
        match s.last().result {
            Some(r) => rest.push(
                CommitView::ToolResult { tool_call_id: s.last().id, output: r, name: s.last().name },
            ),
            None => rest,
        }
    }
}

pub open spec fn failed_run_text() -> Seq<char> {
    "Agent execution failed. No available LLM provider or the request was interrupted."@
}

/// What a failed run reports: the last error, else the text streamed so
/// far, else the run's final text, else a fixed explanation.
pub open spec fn failure_text(s: TurnView, final_text: Option<Seq<char>>) -> Seq<char> {
    match s.last_error {
        Some(e) => e,
        None => if s.streaming.len() > 0 {
            s.streaming
        } else {
            match final_text {
                Some(t) => t,
                None => failed_run_text(),
            }
        },
    }
}

/// The record after the run ends: no text streaming, no call under way, no
/// pending error; idle after a success, in error after a failure.
pub open spec fn finish_state(
    s: TurnView,
    success: bool,
    final_text: Option<Seq<char>>,
    raw: Option<Seq<MessageView>>,
) -> TurnView {
    let cleared = TurnView {
        streaming: Seq::empty(),
        reasoning: Seq::empty(),
        active: Seq::empty(),
        last_error: None,
        raw_transcript: raw,
        ..s
    };
    if success {
        TurnView { status: StatusView::Idle, ..cleared }
    } else {
        let err = failure_text(s, final_text);
        TurnView {
            status: StatusView::Error(err),
            notice: Some(error_notice(err)),
            ..cleared
        }
    }
}

/// The run's final text, committed unless it is empty or the history
/// already ends with it.
pub open spec fn answer_commits(history: Seq<MessageView>, final_text: Option<Seq<char>>) -> Seq<CommitView> {
    match final_text {
        Some(t) => if !ends_with_answer(history, t) && t.len() > 0 {
            seq![CommitView::Assistant { content: Some(t), tool_calls: None }]
        } else {
            Seq::empty()
        },
        None => Seq::empty(),
    }
}

/// What the end of a run commits. A success with the run's own non-empty
/// history replaces the conversation's; without one, the streamed text is
/// committed with the calls under way and their results, or else the final
/// text unless the history already ends with it. A failure commits its
/// report.
pub open spec fn finish_commits(
    s: TurnView,
    history: Seq<MessageView>,
    success: bool,
    final_text: Option<Seq<char>>,
    authoritative: Option<Seq<MessageView>>,
) -> Seq<CommitView> {
    if success {
        match authoritative {
            Some(ms) => if ms.len() > 0 {
                seq![CommitView::ReplaceHistory(ms)]
            } else {
                Seq::empty()
            },
            None => if s.streaming.len() > 0 {
                seq![
                    CommitView::Assistant {
                        content: Some(s.streaming),
                        tool_calls: if s.active.len() > 0 {
                            Some(s.active.map_values(|a: ActiveView| call_of(a)))
                        } else {
                            None
                        },
                    },
                ] + result_commits(s.active)
            } else {
                answer_commits(history, final_text)
            },
        }
    } else {
        seq![
            CommitView::Assistant {
                content: Some("❌ "@ + failure_text(s, final_text)),
                tool_calls: None,
            },
        ]
    }
}

/// The history that results from applying commits in order: an assistant
/// commit or a tool result appends a message, a replacement takes the place
/// of everything before it.
pub open spec fn apply_commits(history: Seq<MessageView>, cs: Seq<CommitView>) -> Seq<MessageView>
    decreases cs.len(),
{
    if cs.len() == 0 {
        history
    } else {
        let h = apply_commits(history, cs.drop_last());
        match cs.last() {
            CommitView::Assistant { content, tool_calls } => h.push(
                MessageView::Assistant { content, tool_calls, name: None },
            ),
            CommitView::ToolResult { tool_call_id, output, name } => h.push(
                MessageView::Tool { tool_call_id, content: output, name: Some(name) },
            ),
            CommitView::ReplaceHistory(ms) => ms,
        }
    }
}

/// Agent events only ever append to the conversation: no event replaces
/// the history, so applying an event's commits keeps the history as a
/// prefix.
pub proof fn lemma_events_only_append(s: TurnView, history: Seq<MessageView>, e: EventView)
    ensures
        forall|k: int|
            0 <= k < event_commits(s, history, e).len() ==> !(#[trigger] event_commits(
                s,
                history,
                e,
            )[k] is ReplaceHistory),
        history.is_prefix_of(apply_commits(history, event_commits(s, history, e))),
{
    let cs = event_commits(s, history, e);
    if cs.len() == 1 {
        assert(cs.drop_last() =~= Seq::<CommitView>::empty());
        assert(apply_commits(history, cs.drop_last()) == history);
    }
}

/// Once a tool result is in, no call with its id stays under way; the other
/// calls keep their order.
pub proof fn lemma_result_retires_call(s: Seq<ActiveView>, id: Seq<char>)
    ensures
        forall|k: int| 0 <= k < without_call(s, id).len() ==> (#[trigger] without_call(s, id)[k]).id != id,
        without_call(s, id).len() <= s.len(),
    decreases s.len(),
{
    if s.len() > 0 {
        lemma_result_retires_call(s.drop_last(), id);
    }
}

/// A tool call is written to the conversation once: when the same call is
/// reported again after its request was committed, nothing more is
/// committed.
pub proof fn lemma_tool_call_recorded_once(s: TurnView, history: Seq<MessageView>, c: ToolCallView)
    ensures
        ({
            let e = EventView::ToolCallReady(c);
            let h1 = apply_commits(history, event_commits(s, history, e));
            event_commits(event_state(s, history, e), h1, e) =~= Seq::<CommitView>::empty()
        }),
{
    let e = EventView::ToolCallReady(c);
    let cs = event_commits(s, history, e);
    let h1 = apply_commits(history, cs);
    if call_committed(history, c.id) {
        let i = choose|i: int| 0 <= i < history.len() && #[trigger] carries_call(history[i], c.id);
        assert(h1 == history);
        assert(carries_call(h1[i], c.id));
    } else {
        assert(cs.drop_last() =~= Seq::<CommitView>::empty());
        let m = MessageView::Assistant { content: None, tool_calls: Some(seq![c]), name: None };
        assert(apply_commits(history, cs.drop_last()) == history);
        assert(cs.last() == CommitView::Assistant { content: None, tool_calls: Some(seq![c]) });
        assert(h1 == history.push(m));
        assert(seq![c][0] == c);
        assert(has_id(seq![c], c.id));
        assert(carries_call(h1[history.len() as int], c.id));
    }
}

/// Text streamed during a turn is committed once: after the turn has ended,
/// a successful finish without a history of its own commits at most the
/// run's final answer, never the streamed text again.
pub proof fn lemma_streamed_text_committed_once(
    s: TurnView,
    history: Seq<MessageView>,
    later: Seq<MessageView>,
    final_text: Option<Seq<char>>,
)
    ensures
        finish_commits(event_state(s, history, EventView::TurnEnd), later, true, final_text, None)
            == answer_commits(later, final_text),
{
}

/// The end of a run always settles the record: nothing streams, no call is
/// under way and no error is pending; the agent is idle after a success and
/// in error, with a notice, after a failure.
pub proof fn lemma_finish_settles(
    s: TurnView,
    success: bool,
    final_text: Option<Seq<char>>,
    raw: Option<Seq<MessageView>>,
)
    ensures
        ({
            let t = finish_state(s, success, final_text, raw);
            &&& t.streaming.len() == 0
            &&& t.reasoning.len() == 0
            &&& t.active.len() == 0
            &&& t.last_error is None
            &&& t.raw_transcript == raw
            &&& success ==> t.status == StatusView::Idle
            &&& !success ==> t.status == StatusView::Error(failure_text(s, final_text))
                && t.notice == Some(error_notice(failure_text(s, final_text)))
        }),
{
}

fn has_call_id(calls: &Vec<ToolCall>, id: &str) -> (b: bool)
    ensures
        b == has_id(calls_view(calls@), id@),
{
    let mut j: usize = 0;
    while j < calls.len()
        invariant
            j <= calls.len(),
            forall|k: int| 0 <= k < j ==> (#[trigger] calls_view(calls@)[k]).id != id@,
        decreases calls.len() - j,
    {
        if str_eq(calls[j].id.as_str(), id) {
            assert(calls_view(calls@)[j as int].id == id@);
            return true;
        }
        j += 1;
    }
    false
}

fn carries_call_exec(m: &ChatMessage, id: &str) -> (b: bool)
    ensures
        b == carries_call(m@, id@),
{
    match m {
        ChatMessage::Assistant { tool_calls: Some(calls), .. } => {
            let b = has_call_id(calls, id);
            b
        },
        _ => false,
    }
}

fn call_committed_exec(history: &Vec<ChatMessage>, id: &str) -> (b: bool)
    ensures
        b == call_committed(message_views(history@), id@),
{
    let ghost hv = message_views(history@);
    let mut i: usize = 0;
    while i < history.len()
        invariant
            i <= history.len(),
            hv == message_views(history@),
            forall|k: int| 0 <= k < i ==> !#[trigger] carries_call(hv[k], id@),
        decreases history.len() - i,
    {
        assert(hv[i as int] == history@[i as int]@);
        if carries_call_exec(&history[i], id) {
            return true;
        }
        i += 1;
    }
    false
}

impl ActiveToolCall {
    pub fn duplicate(&self) -> (r: ActiveToolCall)
        ensures
            r@ == self@,
    {
        ActiveToolCall {
            id: self.id.clone(),
            name: self.name.clone(),
            arguments: self.arguments.clone(),
            result: match &self.result {
                Some(x) => Some(x.clone()),
                None => None,
            },
            is_error: self.is_error,
            duration_ms: self.duration_ms,
        }
    }
}

fn retire_call(active: &Vec<ActiveToolCall>, id: &str) -> (r: Vec<ActiveToolCall>)
    ensures
        actives_view(r@) == without_call(actives_view(active@), id@),
{
    let ghost av = actives_view(active@);
    let mut r: Vec<ActiveToolCall> = Vec::new();
    let mut i: usize = 0;
    while i < active.len()
        invariant
            i <= active.len(),
            av == actives_view(active@),
            actives_view(r@) == without_call(av.take(i as int), id@),
        decreases active.len() - i,
    {
        assert(av.take(i as int + 1).drop_last() =~= av.take(i as int));
        assert(av.take(i as int + 1).last() == active@[i as int]@);
        if !str_eq(active[i].id.as_str(), id) {
            let a = active[i].duplicate();
            r.push(a);
            assert(actives_view(r@) =~= without_call(av.take(i as int), id@).push(active@[i as int]@));
        }
        i += 1;
    }
    assert(av.take(active.len() as int) =~= av);
    r
}

fn gathered_calls(active: &Vec<ActiveToolCall>) -> (r: Vec<ToolCall>)
    ensures
        calls_view(r@) == actives_view(active@).map_values(|a: ActiveView| call_of(a)),
{
    let mut r: Vec<ToolCall> = Vec::new();
    let mut i: usize = 0;
    while i < active.len()
        invariant
            i <= active.len(),
            r.len() == i,
            forall|k: int| 0 <= k < i ==> (#[trigger] r@[k])@ == call_of(active@[k]@),
        decreases active.len() - i,
    {
        let a = &active[i];
        r.push(ToolCall::new_function(a.id.as_str(), a.name.as_str(), a.arguments.as_str()));
        i += 1;
    }
    assert(calls_view(r@) =~= actives_view(active@).map_values(|a: ActiveView| call_of(a)));
    r
}

fn gathered_results(active: &Vec<ActiveToolCall>) -> (r: Vec<Commit>)
    ensures
        commits_view(r@) == result_commits(actives_view(active@)),
{
    let ghost av = actives_view(active@);
    let mut r: Vec<Commit> = Vec::new();
    let mut i: usize = 0;
    while i < active.len()
        invariant
            i <= active.len(),
            av == actives_view(active@),
            commits_view(r@) == result_commits(av.take(i as int)),
        decreases active.len() - i,
    {
        assert(av.take(i as int + 1).drop_last() =~= av.take(i as int));
        assert(av.take(i as int + 1).last() == active@[i as int]@);
        let a = &active[i];
        match &a.result {
            Some(res) => {
                r.push(
                    Commit::ToolResult {
                        tool_call_id: a.id.clone(),
                        output: res.clone(),
                        name: a.name.clone(),
                    },
                );
                assert(commits_view(r@) =~= result_commits(av.take(i as int)).push(
                    CommitView::ToolResult { tool_call_id: a.id@, output: res@, name: a.name@ },
                ));
            },
            None => {},
        }
        i += 1;
    }
    assert(av.take(active.len() as int) =~= av);
    r
}

fn one_commit(c: Commit) -> (r: Vec<Commit>)
    ensures
        commits_view(r@) == seq![c@],
{
    let mut r: Vec<Commit> = Vec::new();
    r.push(c);
    assert(commits_view(r@) =~= seq![c@]);
    r
}

impl TurnState {
    /// An idle record with nothing under way.
    pub fn new() -> (t: TurnState)
        ensures
            t@ == (TurnView {
                status: StatusView::Idle,
                streaming: Seq::empty(),
                reasoning: Seq::empty(),
                active: Seq::empty(),
                last_error: None,
                notice: None,
                raw_transcript: None,
            }),
    {
        let t = TurnState {
            status: AgentStatus::Idle,
            streaming: String::new(),
            reasoning: String::new(),
            active: Vec::new(),
            last_error: None,
            notice: None,
            raw_transcript: None,
        };
        assert(actives_view(t.active@) =~= Seq::empty());
        t
    }

    /// A new run starts: the agent is thinking, nothing streams, no call is
    /// under way and no error is pending.
    pub fn begin_run(&mut self)
        ensures
            final(self)@ == (TurnView {
                status: StatusView::Thinking,
                streaming: Seq::empty(),
                reasoning: Seq::empty(),
                active: Seq::empty(),
                last_error: None,
                ..old(self)@
            }),
    {
        self.status = AgentStatus::Thinking;
        self.streaming = String::new();
        self.reasoning = String::new();
        self.active = Vec::new();
        self.last_error = None;
        assert(actives_view(self.active@) =~= Seq::<ActiveView>::empty());
    }

    /// Takes one agent event into the record, given the conversation's
    /// history as it stands, and returns what to commit to it.
    pub fn apply_event(&mut self, history: &Vec<ChatMessage>, event: TurnEvent) -> (commits: Vec<Commit>)
        ensures
            final(self)@ == event_state(old(self)@, message_views(history@), event@),
            commits_view(commits@) == event_commits(old(self)@, message_views(history@), event@),
    {
        let ghost s = self@;
        match event {
            TurnEvent::TurnStart => {
                self.status = AgentStatus::Thinking;
                Vec::new()
            },
            TurnEvent::TokenDelta { delta } => {
                self.status = AgentStatus::Streaming;
                push_str(&mut self.streaming, delta.as_str());
                Vec::new()
            },
            TurnEvent::ReasoningDelta { delta } => {
                push_str(&mut self.reasoning, delta.as_str());
                Vec::new()
            },
            TurnEvent::ToolCallReady { tool_call } => {
                let committed = call_committed_exec(history, tool_call.id.as_str());
                let started = ActiveToolCall {
                    id: tool_call.id.clone(),
                    name: tool_call.function.name.clone(),
                    arguments: tool_call.function.arguments.clone(),
                    result: None,
                    is_error: false,
                    duration_ms: 0,
                };
                self.active.push(started);
                assert(actives_view(self.active@) =~= s.active.push(started_call(tool_call@)));
                if committed {
                    Vec::new()
                } else {
                    let ghost cv = tool_call@;
                    let mut calls: Vec<ToolCall> = Vec::new();
                    calls.push(tool_call);
                    assert(calls_view(calls@) =~= seq![cv]);
                    one_commit(Commit::Assistant { content: None, tool_calls: Some(calls) })
                }
            },
            TurnEvent::ToolExecStart { name } => {
                self.status = AgentStatus::ExecutingTool { name, duration_ms: 0 };
                Vec::new()
            },
            TurnEvent::ToolExecResult { tool_call_id, name, output, .. } => {
                self.active = retire_call(&self.active, tool_call_id.as_str());
                self.status = AgentStatus::Thinking;
                one_commit(Commit::ToolResult { tool_call_id, output, name })
            },
            TurnEvent::TurnEnd => {
                let commits = if !self.streaming.as_str().is_empty() {
                    let content = self.streaming.clone();
                    one_commit(Commit::Assistant { content: Some(content), tool_calls: None })
                } else {
                    Vec::new()
                };
                self.streaming = String::new();
                self.reasoning = String::new();
                commits
            },
            TurnEvent::Error { message } => {
                let mut notice = string_of("Error: ");
                push_str(&mut notice, message.as_str());
                self.last_error = Some(message.clone());
                self.status = AgentStatus::Error(message);
                self.notice = Some(notice);
                Vec::new()
            },
            TurnEvent::ContextCompacted { tokens_before, tokens_after } => {
                let mut notice = string_of("🗜 Context compacted: ~");
                push_decimal(&mut notice, tokens_before as u64);
                push_str(&mut notice, " → ~");
                push_decimal(&mut notice, tokens_after as u64);
                push_str(&mut notice, " tokens (older history summarized)");
                self.notice = Some(notice);
                Vec::new()
            },
            TurnEvent::Other => Vec::new(),
        }
    }

    fn failure_report(&self, final_text: Option<String>) -> (r: String)
        ensures
            r@ == failure_text(self@, opt_str_view(final_text)),
    {
        match &self.last_error {
            Some(e) => e.clone(),
            None => if !self.streaming.as_str().is_empty() {
                self.streaming.clone()
            } else {
                match final_text {
                    Some(t) => t,
                    None => string_of(
                        "Agent execution failed. No available LLM provider or the request was interrupted.",
                    ),
                }
            },
        }
    }

    /// Closes the run: `success` says how it ended, `final_text` is its last
    /// answer, `authoritative` the history it leaves when it kept one, and
    /// `raw` the history before compaction, when it compacted. Returns what
    /// to commit to the conversation.
    pub fn finish(
        &mut self,
        history: &Vec<ChatMessage>,
        success: bool,
        final_text: Option<String>,
        authoritative: Option<Vec<ChatMessage>>,
        raw: Option<Vec<ChatMessage>>,
    ) -> (commits: Vec<Commit>)
        ensures
            final(self)@ == finish_state(old(self)@, success, opt_str_view(final_text), opt_messages_view(raw)),
            commits_view(commits@) == finish_commits(
                old(self)@,
                message_views(history@),
                success,
                opt_str_view(final_text),
                opt_messages_view(authoritative),
            ),
    {
        let ghost s = self@;
        let commits = if success {
            self.status = AgentStatus::Idle;
            match authoritative {
                Some(ms) => if ms.len() > 0 {
                    one_commit(Commit::ReplaceHistory(ms))
                } else {
                    Vec::new()
                },
                None => if !self.streaming.as_str().is_empty() {
                    let content = self.streaming.clone();
                    let calls = if self.active.len() > 0 {
                        Some(gathered_calls(&self.active))
                    } else {
                        None
                    };
                    let mut c = one_commit(Commit::Assistant { content: Some(content), tool_calls: calls });
                    let mut results = gathered_results(&self.active);
                    let ghost before = commits_view(c@);
                    let ghost rv = commits_view(results@);
                    c.append(&mut results);
                    assert(commits_view(c@) =~= before + rv);
                    c
                } else {
                    match final_text {
                        Some(t) => {
                            if !ends_with_answer_exec(history, &t) && !t.as_str().is_empty() {
                                one_commit(Commit::Assistant { content: Some(t), tool_calls: None })
                            } else {
                                Vec::new()
                            }
                        },
                        None => Vec::new(),
                    }
                },
            }
        } else {
            let err = self.failure_report(final_text);
            let mut report = string_of("❌ ");
            push_str(&mut report, err.as_str());
            let mut notice = string_of("Error: ");
            push_str(&mut notice, err.as_str());
            self.status = AgentStatus::Error(err);
            self.notice = Some(notice);
            one_commit(Commit::Assistant { content: Some(report), tool_calls: None })
        };
        self.raw_transcript = raw;
        self.last_error = None;
        self.streaming = String::new();
        self.reasoning = String::new();
        self.active = Vec::new();
        assert(actives_view(self.active@) =~= Seq::<ActiveView>::empty());
        commits
    }
}

/// The system prompt of a run with a skill attached: the skill's fragment
/// after the configured prompt and a blank line, or the fragment alone.
pub fn with_skill_fragment(existing: Option<String>, fragment: &str) -> (r: String)
    ensures
        r@ == match existing {
            Some(e) => e@ + "\n\n"@ + fragment@,
            None => fragment@,
        },
{
    match existing {
        Some(mut e) => {
            push_str(&mut e, "\n\n");
            push_str(&mut e, fragment);
            e
        },
        None => string_of(fragment),
    }
}

/// The final text of a run that could not start for want of a model client.
pub fn no_client_text(model: &str, err: &str) -> (r: String)
    ensures
        r@ == "❌ No LLM client available for model `"@ + model@ + "`: "@ + err@
            + "\n\nConfigure it in ~/.thunder/models.json + auth.json, switch with `/model <id>`, or inject a client via `App::with_client_factory`."@,
{
    let mut r = string_of("❌ No LLM client available for model `");
    push_str(&mut r, model);
    push_str(&mut r, "`: ");
    push_str(&mut r, err);
    push_str(
        &mut r,
        "\n\nConfigure it in ~/.thunder/models.json + auth.json, switch with `/model <id>`, or inject a client via `App::with_client_factory`.",
    );
    r
}

} // verus!
