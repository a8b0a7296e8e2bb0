//! The daemon's decisions around one task run: whether a request is
//! admitted, what the run is bound to, and how the stored history takes in
//! what the run produced.
use vstd::prelude::*;
use crate::text::{
    chars_of, parse_usize, parse_usize_spec, push_str, string_from_chars, string_of, trim, trim_string, views,
};
use crate::types::message::{opt_view, ChatMessage, MessageView};

verus! {

/// How many tasks may run at once when nothing is configured.
pub const DEFAULT_MAX_CONCURRENT_TASKS: usize = 8;

/// The concurrency limit set by the `THUNDER_MAX_CONCURRENT_TASKS` value
/// `raw`: the number it holds, else eight, and never less than one.
pub open spec fn concurrency_limit(raw: Option<Seq<char>>) -> nat {
    let n = match raw {
        Some(t) => match parse_usize_spec(t) {
            Some(v) => v,
            None => DEFAULT_MAX_CONCURRENT_TASKS as nat,
        },
        None => DEFAULT_MAX_CONCURRENT_TASKS as nat,
    };
    if n >= 1 { n } else { 1 }
}

pub fn max_concurrent_tasks(raw: Option<&str>) -> (n: usize)
    ensures
        n as nat == concurrency_limit(
            match raw {
                Some(t) => Some(t@),
                None => None,
            },
        ),
{
    let n = match raw {
        Some(t) => match parse_usize(t) {
            Some(v) => v,
            None => DEFAULT_MAX_CONCURRENT_TASKS,
        },
        None => DEFAULT_MAX_CONCURRENT_TASKS,
    };
    if n >= 1 { n } else { 1 }
}

/// Why a run request is refused before any work starts.
#[derive(Debug, Clone, Copy, PartialEq, Eq, Structural)]
pub enum RunRejection {
    /// The request asks for the scripted model but this build has none.
    MockUnavailable,
    /// Every concurrent-task slot is taken.
    Busy,
    /// A task with the same id is still running.
    Conflict,
}

/// The refusal a request meets, checked in this order: scripted model
/// unavailable, no free slot among `max_concurrent`, task id already
/// running. `active` holds the ids of the running tasks, each holding one
/// slot.
pub open spec fn rejection_of(
    use_mock: bool,
    mock_available: bool,
    active: Seq<Seq<char>>,
    max_concurrent: nat,
    task_id: Seq<char>,
) -> Option<RunRejection> {
    if use_mock && !mock_available {
        Some(RunRejection::MockUnavailable)
    } else if active.len() >= max_concurrent {
        Some(RunRejection::Busy)
    } else if active.contains(task_id) {
        Some(RunRejection::Conflict)
    } else {
        None
    }
}

pub fn admit_run(
    use_mock: bool,
    mock_available: bool,
    active: &Vec<String>,
    max_concurrent: usize,
    task_id: &str,
) -> (r: Option<RunRejection>)
    ensures
        r == rejection_of(use_mock, mock_available, views(active@), max_concurrent as nat, task_id@),
{
    if use_mock && !mock_available {
        return Some(RunRejection::MockUnavailable);
    }
    if active.len() >= max_concurrent {
        return Some(RunRejection::Busy);
    }
    let mut i: usize = 0;
    while i < active.len()
        invariant
            i <= active.len(),
            active.len() < max_concurrent,
            !(use_mock && !mock_available),
            forall|k: int| 0 <= k < i ==> views(active@)[k] != task_id@,
        decreases active.len() - i,
    {
        if crate::text::str_eq(active[i].as_str(), task_id) {
            assert(views(active@)[i as int] == task_id@);
            assert(views(active@).contains(task_id@));
            return Some(RunRejection::Conflict);
        }
        i += 1;
    }
    assert(!views(active@).contains(task_id@));
    None
}

pub open spec fn rejection_text(r: RunRejection, task_id: Seq<char>) -> Seq<char> {
    match r {
        RunRejection::MockUnavailable => "mock mode is not compiled into this build; rebuild with `--features thunder-agent-daemon/testing-mock` or configure a real provider in ~/.thunder/models.json + auth.json"@,
        RunRejection::Busy => "Server busy: maximum concurrent task limit reached"@,
        RunRejection::Conflict => "Task '"@ + task_id + "' is already running (conflict)"@,
    }
}

/// The error text the refused request is answered with.
pub fn rejection_message(r: RunRejection, task_id: &str) -> (s: String)
    ensures
        s@ == rejection_text(r, task_id@),
{
    match r {
        RunRejection::MockUnavailable => string_of(
            "mock mode is not compiled into this build; rebuild with `--features thunder-agent-daemon/testing-mock` or configure a real provider in ~/.thunder/models.json + auth.json",
        ),
        RunRejection::Busy => string_of("Server busy: maximum concurrent task limit reached"),
        RunRejection::Conflict => {
            let mut s = string_of("Task '");
            push_str(&mut s, task_id);
            push_str(&mut s, "' is already running (conflict)");
            s
        },
    }
}

/// The title of a new conversation: the prompt, cut to its first 30
/// characters followed by `...` when it is longer.
pub open spec fn initial_title_of(prompt: Seq<char>) -> Seq<char> {
    if prompt.len() > 30 {
        prompt.take(30) + "..."@
    } else {
        prompt
    }
}

pub fn initial_title(prompt: &str) -> (t: String)
    ensures
        t@ == initial_title_of(prompt@),
{
    let v = chars_of(prompt);
    if v.len() > 30 {
        let mut t = string_from_chars(&v, 0, 30);
        push_str(&mut t, "...");
        assert(v@.subrange(0, 30) =~= v@.take(30));
        t
    } else {
        string_of(prompt)
    }
}

/// The model a run uses: the requested one, else the one the conversation
/// is bound to, else the first available, else `openai/gpt-4o`.
pub open spec fn chosen_model(
    requested: Option<Seq<char>>,
    bound: Option<Seq<char>>,
    first_available: Option<Seq<char>>,
) -> Seq<char> {
    match requested {
        Some(m) => m,
        None => match bound {
            Some(m) => m,
            None => match first_available {
                Some(m) => m,
                None => "openai/gpt-4o"@,
            },
        },
    }
}

pub fn choose_model(
    requested: Option<String>,
    bound: Option<String>,
    first_available: Option<String>,
) -> (m: String)
    ensures
        m@ == chosen_model(opt_view(requested), opt_view(bound), opt_view(first_available)),
{
    match requested {
        Some(m) => m,
        None => match bound {
            Some(m) => m,
            None => match first_available {
                Some(m) => m,
                None => string_of("openai/gpt-4o"),
            },
        },
    }
}

/// The workspace a run uses: once a conversation is bound to one it keeps
/// it; a new conversation takes the requested one, else the default.
pub open spec fn chosen_workspace(
    bound: Option<Seq<char>>,
    requested: Option<Seq<char>>,
    default: Seq<char>,
) -> Seq<char> {
    match bound {
        Some(w) => w,
        None => match requested {
            Some(w) => w,
            None => default,
        },
    }
}

pub fn choose_workspace(bound: Option<String>, requested: Option<String>, default: String) -> (w: String)
    ensures
        w@ == chosen_workspace(opt_view(bound), opt_view(requested), default@),
{
    match bound {
        Some(w) => w,
        None => match requested {
            Some(w) => w,
            None => default,
        },
    }
}

/// The thinking level: the requested one, else the conversation's, else
/// the default of the chosen model (if the registry knows the model).
pub open spec fn chosen_thinking(
    requested: Option<Seq<char>>,
    bound: Option<Seq<char>>,
    model_default: Option<Seq<char>>,
) -> Option<Seq<char>> {
    match requested {
        Some(t) => Some(t),
        None => match bound {
            Some(t) => Some(t),
            None => model_default,
        },
    }
}

pub fn choose_thinking(
    requested: Option<String>,
    bound: Option<String>,
    model_default: Option<String>,
) -> (t: Option<String>)
    ensures
        opt_view(t) == chosen_thinking(opt_view(requested), opt_view(bound), opt_view(model_default)),
{
    match requested {
        Some(t) => Some(t),
        None => match bound {
            Some(t) => Some(t),
            None => model_default,
        },
    }
}

/// The shared roots after a run request: the roots already bound, in order,
/// followed by each requested directory (trimmed) that is not blank and not
/// yet present.
pub open spec fn merged_roots(bound: Seq<Seq<char>>, dirs: Seq<Seq<char>>) -> Seq<Seq<char>>
    decreases dirs.len(),
{
    if dirs.len() == 0 {
        bound
    } else {
        let prev = merged_roots(bound, dirs.drop_last());
        let d = trim(dirs.last());
        if d.len() > 0 && !prev.contains(d) {
            prev.push(d)
        } else {
            prev
        }
    }
}

pub open spec fn opt_dirs(extra: Option<Vec<String>>) -> Seq<Seq<char>> {
    match extra {
        Some(v) => views(v@),
        None => Seq::empty(),
    }
}

fn contains_string(v: &Vec<String>, s: &String) -> (r: bool)
    ensures
        r == views(v@).contains(s@),
{
    let mut i: usize = 0;
    while i < v.len()
        invariant
            i <= v.len(),
            forall|k: int| 0 <= k < i ==> views(v@)[k] != s@,
        decreases v.len() - i,
    {
        if crate::text::str_eq(v[i].as_str(), s.as_str()) {
            assert(views(v@)[i as int] == s@);
            return true;
        }
        i += 1;
    }
    false
}

pub fn merge_shared_roots(bound: Vec<String>, extra: &Option<Vec<String>>) -> (r: Vec<String>)
    ensures
        views(r@) == merged_roots(views(bound@), opt_dirs(*extra)),
{
    let mut roots = bound;
    let ghost b = views(roots@);
    match extra {
        None => {
            roots
        },
        Some(dirs) => {
            let mut i: usize = 0;
            while i < dirs.len()
                invariant
                    i <= dirs.len(),
                    views(roots@) == merged_roots(b, views(dirs@).subrange(0, i as int)),
                decreases dirs.len() - i,
            {
                let ghost pre = views(dirs@).subrange(0, i + 1);
                proof {
                    assert(pre.drop_last() =~= views(dirs@).subrange(0, i as int));
                    assert(pre.last() == dirs@[i as int]@);
                }
                let d = trim_string(dirs[i].as_str());
                if chars_of(d.as_str()).len() > 0 && !contains_string(&roots, &d) {
                    let ghost before = views(roots@);
                    roots.push(d);
                    assert(views(roots@) =~= before.push(trim(dirs@[i as int]@)));
                }
                i += 1;
            }
            assert(views(dirs@).subrange(0, dirs.len() as int) =~= views(dirs@));
            roots
        },
    }
}

/// Merging keeps the bound roots first and in order, takes in every
/// non-blank requested directory, adds nothing else, adds no duplicate to
/// duplicate-free roots, and asking again with the same directories changes
/// nothing.
pub proof fn lemma_merge_roots(bound: Seq<Seq<char>>, dirs: Seq<Seq<char>>)
    ensures
        merged_roots(bound, dirs).len() >= bound.len(),
        merged_roots(bound, dirs).take(bound.len() as int) == bound,
        forall|i: int|
            0 <= i < dirs.len() && trim(#[trigger] dirs[i]).len() > 0 ==> merged_roots(
                bound,
                dirs,
            ).contains(trim(dirs[i])),
        forall|x: Seq<char>|
            #[trigger] merged_roots(bound, dirs).contains(x) ==> bound.contains(x) || exists|i: int|
                0 <= i < dirs.len() && x == trim(#[trigger] dirs[i]),
        bound.no_duplicates() ==> merged_roots(bound, dirs).no_duplicates(),
        merged_roots(merged_roots(bound, dirs), dirs) == merged_roots(bound, dirs),
    decreases dirs.len(),
{
    if dirs.len() > 0 {
        let init = dirs.drop_last();
        lemma_merge_roots(bound, init);
        let prev = merged_roots(bound, init);
        let m = merged_roots(bound, dirs);
        let d = trim(dirs.last());
        assert(m.take(bound.len() as int) =~= prev.take(bound.len() as int));
        assert forall|i: int| 0 <= i < dirs.len() && trim(#[trigger] dirs[i]).len() > 0 implies m.contains(trim(dirs[i])) by {
            if i < dirs.len() - 1 {
                assert(init[i] == dirs[i]);
                assert(prev.contains(trim(init[i])));
                let j = choose|j: int| 0 <= j < prev.len() && prev[j] == trim(init[i]);
                assert(m[j] == prev[j]);
            } else {
                if !prev.contains(d) {
                    assert(m[m.len() - 1] == d);
                }
            }
        }
        assert forall|x: Seq<char>| #[trigger] m.contains(x) implies bound.contains(x) || exists|i: int|
            0 <= i < dirs.len() && x == trim(#[trigger] dirs[i]) by {
            let j = choose|j: int| 0 <= j < m.len() && m[j] == x;
            if j < prev.len() {
                assert(prev[j] == x);
                assert(prev.contains(x));
                if !bound.contains(x) {
                    let i = choose|i: int| 0 <= i < init.len() && x == trim(#[trigger] init[i]);
                    assert(dirs[i] == init[i]);
                }
            } else {
                assert(x == trim(dirs[dirs.len() - 1]));
            }
        }
        if bound.no_duplicates() && d.len() > 0 && !prev.contains(d) {
            assert forall|a: int, b: int| 0 <= a < b < m.len() implies m[a] != m[b] by {
                if b == m.len() - 1 {
                    assert(prev[a] == m[a]);
                }
            }
        }
        lemma_merge_present(m, dirs);
    } else {
        assert(bound.take(bound.len() as int) =~= bound);
    }
}

/// Merging directories that are all already present (or blank) changes
/// nothing; used for the idempotence of a repeated request.
proof fn lemma_merge_present(roots: Seq<Seq<char>>, dirs: Seq<Seq<char>>)
    requires
        forall|i: int| 0 <= i < dirs.len() && trim(#[trigger] dirs[i]).len() > 0 ==> roots.contains(trim(dirs[i])),
    ensures
        merged_roots(roots, dirs) == roots,
    decreases dirs.len(),
{
    if dirs.len() > 0 {
        let init = dirs.drop_last();
        assert forall|i: int| 0 <= i < init.len() && trim(#[trigger] init[i]).len() > 0 implies roots.contains(trim(init[i])) by {
            assert(init[i] == dirs[i]);
        }
        lemma_merge_present(roots, init);
    }
}

/// Plugins every daemon run loads: the conversation and skills plugins, and
/// the MCP plugin when the workspace configures MCP servers.
pub open spec fn forced_plugin_ids(has_mcp_config: bool) -> Seq<Seq<char>> {
    if has_mcp_config {
        seq!["conversation"@, "skills"@, "mcp"@]
    } else {
        seq!["conversation"@, "skills"@]
    }
}

pub fn forced_plugins(has_mcp_config: bool) -> (v: Vec<String>)
    ensures
        views(v@) == forced_plugin_ids(has_mcp_config),
{
    let mut v: Vec<String> = Vec::new();
    v.push(string_of("conversation"));
    v.push(string_of("skills"));
    if has_mcp_config {
        v.push(string_of("mcp"));
    }
    assert(views(v@) =~= forced_plugin_ids(has_mcp_config));
    v
}

/// Events kept in a task's stored trace (the live stream carries them all).
pub const MAX_TRACE_EVENTS: usize = 5000;

/// Whether an observed event goes into the stored trace: streaming
/// micro-deltas never do, others while fewer than `MAX_TRACE_EVENTS` are kept.
pub fn keeps_trace_event(is_micro_delta: bool, kept: usize) -> (b: bool)
    ensures
        b == (!is_micro_delta && kept < MAX_TRACE_EVENTS),
{
    !is_micro_delta && kept < MAX_TRACE_EVENTS
}

/// Whether a finished run asks for a generated title: on the
/// conversation's first run, or while its title is still a placeholder, and
/// never for scripted runs.
pub fn wants_auto_title(turns_after_run: usize, run_turns: usize, title_is_placeholder: bool, use_mock: bool) -> (b: bool)
    ensures
        b == ((turns_after_run <= run_turns || title_is_placeholder) && !use_mock),
{
    (turns_after_run <= run_turns || title_is_placeholder) && !use_mock
}

pub open spec fn message_views(v: Seq<ChatMessage>) -> Seq<MessageView> {
    v.map_values(|m: ChatMessage| m@)
}

pub open spec fn answer_view(t: Seq<char>) -> MessageView {
    MessageView::Assistant { content: Some(t), tool_calls: None, name: None }
}

/// Whether the history already ends with an assistant message whose text is
/// `t`.
pub open spec fn ends_with_answer(ms: Seq<MessageView>, t: Seq<char>) -> bool {
    ms.len() > 0 && (ms.last() matches MessageView::Assistant { content: Some(c), .. } && c == t)
}

/// The history a conversation keeps after a run. `stored` is what the store
/// holds now (the conversation plugin records as the run goes), `initial`
/// the number of messages before the run, `run` the run's own message list
/// and `answer` its final text. When the run compacted its context, the
/// run's list becomes the history. Otherwise, if nothing was recorded, the
/// run's new messages are appended, or failing those its non-empty answer;
/// if messages were recorded, a non-empty answer is appended unless the
/// history already ends with it. Earlier turns are never rewritten.
pub open spec fn reconciled_history(
    stored: Seq<MessageView>,
    initial: nat,
    run: Seq<MessageView>,
    answer: Option<Seq<char>>,
    compacted: bool,
) -> Seq<MessageView> {
    if compacted {
        run
    } else if stored.len() <= initial {
        if run.len() > initial {
            stored + run.subrange(initial as int, run.len() as int)
        } else {
            match answer {
                Some(t) => if t.len() > 0 { stored.push(answer_view(t)) } else { stored },
                None => stored,
            }
        }
    } else {
        match answer {
            Some(t) => if !ends_with_answer(stored, t) && t.len() > 0 {
                stored.push(answer_view(t))
            } else {
                stored
            },
            None => stored,
        }
    }
}

pub(crate) fn ends_with_answer_exec(ms: &Vec<ChatMessage>, t: &String) -> (b: bool)
    ensures
        b == ends_with_answer(message_views(ms@), t@),
{
    if ms.len() == 0 {
        return false;
    }
    let last = &ms[ms.len() - 1];
    proof {
        assert(message_views(ms@).last() == last@);
    }
    match last {
        ChatMessage::Assistant { content: Some(c), .. } => crate::text::str_eq(c.as_str(), t.as_str()),
        _ => false,
    }
}

fn copy_messages(v: &Vec<ChatMessage>) -> (r: Vec<ChatMessage>)
    ensures
        message_views(r@) == message_views(v@),
{
    let mut r: Vec<ChatMessage> = Vec::new();
    let mut i: usize = 0;
    while i < v.len()
        invariant
            i <= v.len(),
            message_views(r@) == message_views(v@).subrange(0, i as int),
        decreases v.len() - i,
    {
        let ghost before = message_views(r@);
        let m = v[i].duplicate();
        r.push(m);
        assert(message_views(r@) =~= before.push(v@[i as int]@));
        assert(message_views(v@).subrange(0, i + 1) =~= message_views(v@).subrange(0, i as int).push(
            v@[i as int]@,
        ));
        i += 1;
    }
    assert(message_views(v@).subrange(0, v.len() as int) =~= message_views(v@));
    r
}

pub fn reconcile_history(
    stored: Vec<ChatMessage>,
    initial_count: usize,
    run_messages: &Vec<ChatMessage>,
    final_content: &Option<String>,
    compacted: bool,
) -> (r: Vec<ChatMessage>)
    ensures
        message_views(r@) == reconciled_history(
            message_views(stored@),
            initial_count as nat,
            message_views(run_messages@),
            opt_view(*final_content),
            compacted,
        ),
{
    if compacted {
        return copy_messages(run_messages);
    }
    let mut ms = stored;
    let ghost s0 = message_views(ms@);
    if ms.len() <= initial_count {
        if run_messages.len() > initial_count {
            let mut i = initial_count;
            while i < run_messages.len()
                invariant
                    initial_count <= i <= run_messages.len(),
                    message_views(ms@) == s0 + message_views(run_messages@).subrange(
                        initial_count as int,
                        i as int,
                    ),
                decreases run_messages.len() - i,
            {
                let ghost before = message_views(ms@);
                let m = run_messages[i].duplicate();
                ms.push(m);
                assert(message_views(ms@) =~= before.push(run_messages@[i as int]@));
                assert(message_views(run_messages@).subrange(initial_count as int, i + 1)
                    =~= message_views(run_messages@).subrange(initial_count as int, i as int).push(
                    run_messages@[i as int]@,
                ));
                i += 1;
            }
        } else {
            match final_content {
                Some(t) => {
                    if chars_of(t.as_str()).len() > 0 {
                        ms.push(ChatMessage::assistant(Some(t.clone()), None));
                        assert(message_views(ms@) =~= s0.push(answer_view(t@)));
                    }
                },
                None => {},
            }
        }
    } else {
        match final_content {
            Some(t) => {
                if !ends_with_answer_exec(&ms, t) && chars_of(t.as_str()).len() > 0 {
                    ms.push(ChatMessage::assistant(Some(t.clone()), None));
                    assert(message_views(ms@) =~= s0.push(answer_view(t@)));
                }
            },
            None => {},
        }
    }
    ms
}

/// Without compaction a run only ever appends: the stored history is a
/// prefix of what is kept.
pub proof fn lemma_history_only_grows(
    stored: Seq<MessageView>,
    initial: nat,
    run: Seq<MessageView>,
    answer: Option<Seq<char>>,
)
    ensures
        reconciled_history(stored, initial, run, answer, false).len() >= stored.len(),
        reconciled_history(stored, initial, run, answer, false).take(stored.len() as int) == stored,
{
    let r = reconciled_history(stored, initial, run, answer, false);
    assert(r.take(stored.len() as int) =~= stored);
}

} // verus!
