use thunder_agent::tui::app::{handle_mouse, ActiveToolCall, AgentStatus, ChatScroll, MouseWheel};
use thunder_agent::tui::input::PromptInput;
use thunder_agent::tui::picker::PickerState;
use thunder_agent::tui::session::{no_client_text, with_skill_fragment, Commit, TurnEvent, TurnState};
use thunder_agent::types::message::{ChatMessage, ToolCall};

fn delta(s: &str) -> TurnEvent {
    TurnEvent::TokenDelta { delta: s.to_string() }
}

#[test]
fn streamed_text_is_committed_at_turn_end() {
    let history: Vec<ChatMessage> = Vec::new();
    let mut t = TurnState::new();
    assert!(t.apply_event(&history, TurnEvent::TurnStart).is_empty());
    assert!(matches!(t.status, AgentStatus::Thinking));
    assert!(t.apply_event(&history, delta("Hel")).is_empty());
    assert!(t.apply_event(&history, delta("lo")).is_empty());
    assert!(matches!(t.status, AgentStatus::Streaming));
    assert_eq!(t.streaming, "Hello");
    t.apply_event(&history, TurnEvent::ReasoningDelta { delta: "hmm".to_string() });
    assert_eq!(t.reasoning, "hmm");
    let commits = t.apply_event(&history, TurnEvent::TurnEnd);
    assert_eq!(commits.len(), 1);
    match &commits[0] {
        Commit::Assistant { content: Some(c), tool_calls: None } => assert_eq!(c, "Hello"),
        _ => panic!("expected the streamed answer"),
    }
    assert_eq!(t.streaming, "");
    assert_eq!(t.reasoning, "");
    assert!(t.apply_event(&history, TurnEvent::TurnEnd).is_empty());
}

#[test]
fn tool_call_is_recorded_once() {
    let mut history: Vec<ChatMessage> = Vec::new();
    let mut t = TurnState::new();
    let call = ToolCall::new_function("call_1", "read_file", "{}");
    let commits = t.apply_event(&history, TurnEvent::ToolCallReady { tool_call: call });
    assert_eq!(commits.len(), 1);
    assert_eq!(t.active.len(), 1);
    assert_eq!(t.active[0].id, "call_1");
    assert_eq!(t.active[0].name, "read_file");
    match commits.into_iter().next().unwrap() {
        Commit::Assistant { content: None, tool_calls: Some(calls) } => {
            assert_eq!(calls.len(), 1);
            assert_eq!(calls[0].id, "call_1");
            history.push(ChatMessage::assistant(None, Some(calls)));
        }
        _ => panic!("expected the tool call request"),
    }
    let again = ToolCall::new_function("call_1", "read_file", "{}");
    assert!(t.apply_event(&history, TurnEvent::ToolCallReady { tool_call: again }).is_empty());
    assert_eq!(t.active.len(), 2);
}

#[test]
fn tool_result_retires_the_call() {
    let history: Vec<ChatMessage> = Vec::new();
    let mut t = TurnState::new();
    t.apply_event(&history, TurnEvent::ToolCallReady { tool_call: ToolCall::new_function("a", "bash", "{}") });
    t.apply_event(&history, TurnEvent::ToolCallReady { tool_call: ToolCall::new_function("b", "grep", "{}") });
    t.apply_event(&history, TurnEvent::ToolExecStart { name: "bash".to_string() });
    match &t.status {
        AgentStatus::ExecutingTool { name, duration_ms } => {
            assert_eq!(name, "bash");
            assert_eq!(*duration_ms, 0);
        }
        _ => panic!("expected a running tool"),
    }
    let commits = t.apply_event(
        &history,
        TurnEvent::ToolExecResult {
            tool_call_id: "a".to_string(),
            name: "bash".to_string(),
            output: "ok".to_string(),
            is_error: false,
            duration_ms: 12,
        },
    );
    assert_eq!(t.active.len(), 1);
    assert_eq!(t.active[0].id, "b");
    assert!(matches!(t.status, AgentStatus::Thinking));
    match &commits[..] {
        [Commit::ToolResult { tool_call_id, output, name }] => {
            assert_eq!(tool_call_id, "a");
            assert_eq!(output, "ok");
            assert_eq!(name, "bash");
        }
        _ => panic!("expected one tool result"),
    }
}

#[test]
fn error_and_compaction_notices() {
    let history: Vec<ChatMessage> = Vec::new();
    let mut t = TurnState::new();
    t.apply_event(&history, TurnEvent::Error { message: "boom".to_string() });
    assert_eq!(t.last_error.as_deref(), Some("boom"));
    assert_eq!(t.notice.as_deref(), Some("Error: boom"));
    assert!(matches!(&t.status, AgentStatus::Error(m) if m == "boom"));
    t.apply_event(&history, TurnEvent::ContextCompacted { tokens_before: 120000, tokens_after: 30500 });
    assert_eq!(
        t.notice.as_deref(),
        Some("🗜 Context compacted: ~120000 → ~30500 tokens (older history summarized)")
    );
    assert!(t.apply_event(&history, TurnEvent::Other).is_empty());
}

#[test]
fn finish_replaces_history_with_the_runs_own() {
    let history = vec![ChatMessage::user("hi")];
    let mut t = TurnState::new();
    t.apply_event(&history, delta("partial"));
    let run = vec![ChatMessage::user("hi"), ChatMessage::assistant_text("hello")];
    let raw = vec![ChatMessage::user("older")];
    let commits = t.finish(&history, true, Some("hello".to_string()), Some(run), Some(raw));
    match &commits[..] {
        [Commit::ReplaceHistory(ms)] => assert_eq!(ms.len(), 2),
        _ => panic!("expected a replacement"),
    }
    assert!(matches!(t.status, AgentStatus::Idle));
    assert_eq!(t.streaming, "");
    assert!(t.active.is_empty());
    assert_eq!(t.raw_transcript.as_ref().map(|v| v.len()), Some(1));
}

#[test]
fn finish_with_empty_run_history_commits_nothing() {
    let history: Vec<ChatMessage> = Vec::new();
    let mut t = TurnState::new();
    t.apply_event(&history, delta("text"));
    let commits = t.finish(&history, true, Some("text".to_string()), Some(Vec::new()), None);
    assert!(commits.is_empty());
    assert_eq!(t.streaming, "");
}

#[test]
fn finish_commits_streamed_text_with_calls_under_way() {
    let history: Vec<ChatMessage> = Vec::new();
    let mut t = TurnState::new();
    t.apply_event(&history, delta("working"));
    t.active.push(ActiveToolCall {
        id: "c1".to_string(),
        name: "bash".to_string(),
        arguments: "{\"command\":\"ls\"}".to_string(),
        result: Some("a.txt".to_string()),
        is_error: false,
        duration_ms: 3,
    });
    t.active.push(ActiveToolCall {
        id: "c2".to_string(),
        name: "grep".to_string(),
        arguments: "{}".to_string(),
        result: None,
        is_error: false,
        duration_ms: 0,
    });
    let commits = t.finish(&history, true, None, None, None);
    assert_eq!(commits.len(), 2);
    match &commits[0] {
        Commit::Assistant { content: Some(c), tool_calls: Some(calls) } => {
            assert_eq!(c, "working");
            assert_eq!(calls.len(), 2);
            assert_eq!(calls[0].id, "c1");
            assert_eq!(calls[0].call_type, "function");
            assert_eq!(calls[0].function.arguments, "{\"command\":\"ls\"}");
            assert_eq!(calls[1].function.name, "grep");
        }
        _ => panic!("expected the streamed answer with its calls"),
    }
    match &commits[1] {
        Commit::ToolResult { tool_call_id, output, name } => {
            assert_eq!(tool_call_id, "c1");
            assert_eq!(output, "a.txt");
            assert_eq!(name, "bash");
        }
        _ => panic!("expected the gathered result"),
    }
    assert!(t.active.is_empty());
}

#[test]
fn finish_appends_final_text_unless_already_there() {
    let history = vec![ChatMessage::user("q"), ChatMessage::assistant_text("done")];
    let mut t = TurnState::new();
    assert!(t.finish(&history, true, Some("done".to_string()), None, None).is_empty());
    let mut t = TurnState::new();
    let commits = t.finish(&history, true, Some("more".to_string()), None, None);
    match &commits[..] {
        [Commit::Assistant { content: Some(c), tool_calls: None }] => assert_eq!(c, "more"),
        _ => panic!("expected the final text"),
    }
    let mut t = TurnState::new();
    assert!(t.finish(&history, true, Some(String::new()), None, None).is_empty());
    assert!(t.finish(&history, true, None, None, None).is_empty());
}

#[test]
fn failed_run_reports_its_error() {
    let history: Vec<ChatMessage> = Vec::new();
    let mut t = TurnState::new();
    t.apply_event(&history, TurnEvent::Error { message: "rate limited".to_string() });
    t.apply_event(&history, delta("partial"));
    let commits = t.finish(&history, false, Some("final".to_string()), None, None);
    match &commits[..] {
        [Commit::Assistant { content: Some(c), tool_calls: None }] => assert_eq!(c, "❌ rate limited"),
        _ => panic!("expected the failure report"),
    }
    assert!(t.last_error.is_none());
    assert_eq!(t.notice.as_deref(), Some("Error: rate limited"));
    assert!(matches!(&t.status, AgentStatus::Error(m) if m == "rate limited"));

    let mut t = TurnState::new();
    t.apply_event(&history, delta("partial"));
    let commits = t.finish(&history, false, Some("final".to_string()), None, None);
    assert!(matches!(&commits[..], [Commit::Assistant { content: Some(c), .. }] if c == "❌ partial"));

    let mut t = TurnState::new();
    let commits = t.finish(&history, false, Some("final".to_string()), None, None);
    assert!(matches!(&commits[..], [Commit::Assistant { content: Some(c), .. }] if c == "❌ final"));

    let mut t = TurnState::new();
    let commits = t.finish(&history, false, None, None, None);
    assert!(matches!(
        &commits[..],
        [Commit::Assistant { content: Some(c), .. }]
            if c == "❌ Agent execution failed. No available LLM provider or the request was interrupted."
    ));
}

/// Applies commits to a history the way the conversation records them.
fn apply(history: &mut Vec<ChatMessage>, commits: Vec<Commit>) {
    for c in commits {
        match c {
            Commit::Assistant { content, tool_calls } => history.push(ChatMessage::assistant(content, tool_calls)),
            Commit::ToolResult { tool_call_id, output, name } => history.push(ChatMessage::Tool {
                tool_call_id,
                content: output,
                name: Some(name),
            }),
            Commit::ReplaceHistory(ms) => *history = ms,
        }
    }
}

#[test]
fn test_app_streaming_event_ingestion() {
    let mut input = PromptInput::new();
    input.type_char('H');
    input.type_char('i');
    assert_eq!(input.text(), "Hi");

    let mut history = vec![ChatMessage::system("You are a helpful, fast, autonomous AI engineering assistant.")];
    let mut t = TurnState::new();
    let c = t.apply_event(&history, TurnEvent::TurnStart);
    apply(&mut history, c);
    assert!(matches!(t.status, AgentStatus::Thinking));

    let c = t.apply_event(&history, delta("Hello "));
    apply(&mut history, c);
    let c = t.apply_event(&history, delta("world!"));
    apply(&mut history, c);
    assert!(matches!(t.status, AgentStatus::Streaming));
    assert_eq!(t.streaming, "Hello world!");

    let call = ToolCall::new_function("call_1", "read_file", "{\"path\":\"Cargo.toml\"}");
    let c = t.apply_event(&history, TurnEvent::ToolCallReady { tool_call: call });
    apply(&mut history, c);
    assert_eq!(t.active.len(), 1);
    assert_eq!(t.active[0].name, "read_file");
    assert!(matches!(history.last(), Some(ChatMessage::Assistant { tool_calls: Some(_), .. })));

    let c = t.apply_event(
        &history,
        TurnEvent::ToolExecResult {
            tool_call_id: "call_1".to_string(),
            name: "read_file".to_string(),
            output: "file contents".to_string(),
            is_error: false,
            duration_ms: 4,
        },
    );
    apply(&mut history, c);
    assert!(t.active.is_empty());
    assert!(matches!(history.last(), Some(ChatMessage::Tool { .. })));

    let c = t.finish(&history, true, None, None, None);
    apply(&mut history, c);
    assert!(matches!(t.status, AgentStatus::Idle));
    assert_eq!(history.len(), 4);
}

#[test]
fn test_app_scrolling_and_mouse() {
    let mut scroll = ChatScroll { offset: 0, auto_scroll: true, last_max_scroll: 50 };
    scroll.scroll_up(10);
    assert_eq!(scroll.offset, 40);
    assert!(!scroll.auto_scroll);
    scroll.scroll_to_top();
    assert_eq!(scroll.offset, 0);
    let mut picker = PickerState::new();
    handle_mouse(&mut picker, &mut scroll, MouseWheel::ScrollDown);
    assert_eq!(scroll.offset, 3);
    scroll.scroll_to_bottom();
    assert_eq!(scroll.offset, 50);
    assert!(scroll.auto_scroll);
}

#[test]
fn streamed_text_is_not_committed_twice() {
    let mut history: Vec<ChatMessage> = Vec::new();
    let mut t = TurnState::new();
    let c = t.apply_event(&history, delta("All done."));
    apply(&mut history, c);
    let c = t.apply_event(&history, TurnEvent::TurnEnd);
    apply(&mut history, c);
    assert_eq!(history.len(), 1);
    let c = t.finish(&history, true, Some("All done.".to_string()), None, None);
    assert!(c.is_empty());
}

#[test]
fn a_new_run_starts_fresh() {
    let history: Vec<ChatMessage> = Vec::new();
    let mut t = TurnState::new();
    t.apply_event(&history, delta("old"));
    t.apply_event(&history, TurnEvent::ToolCallReady { tool_call: ToolCall::new_function("x", "bash", "{}") });
    t.apply_event(&history, TurnEvent::Error { message: "bad".to_string() });
    t.begin_run();
    assert!(matches!(t.status, AgentStatus::Thinking));
    assert_eq!(t.streaming, "");
    assert!(t.active.is_empty());
    assert!(t.last_error.is_none());
    assert_eq!(t.notice.as_deref(), Some("Error: bad"));
}

#[test]
fn run_setup_texts() {
    assert_eq!(with_skill_fragment(Some("base".to_string()), "skill"), "base\n\nskill");
    assert_eq!(with_skill_fragment(None, "skill"), "skill");
    assert_eq!(
        no_client_text("openai/gpt-4o", "missing key"),
        "❌ No LLM client available for model `openai/gpt-4o`: missing key\n\nConfigure it in ~/.thunder/models.json + auth.json, switch with `/model <id>`, or inject a client via `App::with_client_factory`."
    );
}
