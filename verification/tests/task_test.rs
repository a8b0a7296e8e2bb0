use thunder_agent::daemon::ask_user::{answer_text, no_answer_message, question_id, DEFAULT_TIMEOUT_SECS};
use thunder_agent::daemon::title::{conversation_not_found, manual_title};
use thunder_agent::daemon::task::{
    admit_run, max_concurrent_tasks, choose_model, choose_thinking, choose_workspace, forced_plugins, initial_title,
    keeps_trace_event, merge_shared_roots, reconcile_history, rejection_message, wants_auto_title,
    RunRejection, MAX_TRACE_EVENTS,
};
use thunder_agent::types::message::{ChatMessage, Role};

fn strings(v: &[&str]) -> Vec<String> {
    v.iter().map(|s| s.to_string()).collect()
}

#[test]
fn admission_checks_mock_then_slots_then_duplicates() {
    let active = strings(&["duplicate-task-1"]);
    assert_eq!(admit_run(false, false, &active, 4, "duplicate-task-1"), Some(RunRejection::Conflict));
    assert_eq!(admit_run(false, false, &active, 4, "task-2"), None);
    assert_eq!(admit_run(false, false, &active, 1, "task-2"), Some(RunRejection::Busy));
    assert_eq!(admit_run(false, false, &active, 1, "duplicate-task-1"), Some(RunRejection::Busy));
    assert_eq!(admit_run(true, false, &active, 4, "task-2"), Some(RunRejection::MockUnavailable));
    assert_eq!(admit_run(true, true, &Vec::new(), 4, "task-2"), None);
    assert_eq!(admit_run(false, true, &Vec::new(), 0, "task-2"), Some(RunRejection::Busy));

    let conflict = rejection_message(RunRejection::Conflict, "duplicate-task-1");
    assert_eq!(conflict, "Task 'duplicate-task-1' is already running (conflict)");
    assert!(conflict.contains("already running"));
    assert!(rejection_message(RunRejection::Busy, "x").contains("Server busy"));
    assert!(rejection_message(RunRejection::MockUnavailable, "x")
        .starts_with("mock mode is not compiled into this build; rebuild with `--features"));
}

#[test]
fn new_conversation_titles_are_cut_at_thirty_chars() {
    assert_eq!(initial_title("Hello Thunder!"), "Hello Thunder!");
    let long = "0123456789012345678901234567890123";
    assert_eq!(initial_title(long), "012345678901234567890123456789...");
    let thirty = "012345678901234567890123456789";
    assert_eq!(initial_title(thirty), thirty);
    assert_eq!(initial_title("一二三四五六七八九十一二三四五六七八九十一二三四五六七八九十一"), "一二三四五六七八九十一二三四五六七八九十一二三四五六七八九十...");
}

#[test]
fn binding_prefers_request_then_conversation_then_defaults() {
    assert_eq!(choose_model(Some("a/x".into()), Some("b/y".into()), Some("c/z".into())), "a/x");
    assert_eq!(choose_model(None, Some("b/y".into()), Some("c/z".into())), "b/y");
    assert_eq!(choose_model(None, None, Some("c/z".into())), "c/z");
    assert_eq!(choose_model(None, None, None), "openai/gpt-4o");

    assert_eq!(choose_workspace(Some("/bound".into()), Some("/this/ignored/new/workspace".into()), "/def".into()), "/bound");
    assert_eq!(choose_workspace(None, Some("/req".into()), "/def".into()), "/req");
    assert_eq!(choose_workspace(None, None, "/def".into()), "/def");

    assert_eq!(choose_thinking(Some("high".into()), Some("low".into()), Some("medium".into())), Some("high".to_string()));
    assert_eq!(choose_thinking(None, Some("low".into()), Some("medium".into())), Some("low".to_string()));
    assert_eq!(choose_thinking(None, None, Some("medium".into())), Some("medium".to_string()));
    assert_eq!(choose_thinking(None, None, None), None);
}

#[test]
fn shared_roots_merge_as_a_deduplicated_union() {
    let first = merge_shared_roots(Vec::new(), &Some(strings(&["/tmp/thunder_ipc_repo_a"])));
    assert_eq!(first, strings(&["/tmp/thunder_ipc_repo_a"]));
    let second = merge_shared_roots(
        first.clone(),
        &Some(strings(&["/tmp/thunder_ipc_repo_a", "  /tmp/thunder_ipc_repo_b ", "", "   "])),
    );
    assert_eq!(second, strings(&["/tmp/thunder_ipc_repo_a", "/tmp/thunder_ipc_repo_b"]));
    let again = merge_shared_roots(second.clone(), &Some(strings(&["/tmp/thunder_ipc_repo_b", "/tmp/thunder_ipc_repo_a"])));
    assert_eq!(again, second);
    assert_eq!(merge_shared_roots(second.clone(), &None), second);
    let dup_in_request = merge_shared_roots(Vec::new(), &Some(strings(&["/x", "/x ", "/y"])));
    assert_eq!(dup_in_request, strings(&["/x", "/y"]));
}

#[test]
fn forced_plugins_add_mcp_only_when_configured() {
    assert_eq!(forced_plugins(false), strings(&["conversation", "skills"]));
    assert_eq!(forced_plugins(true), strings(&["conversation", "skills", "mcp"]));
}

#[test]
fn trace_retention_and_title_trigger() {
    assert!(keeps_trace_event(false, 0));
    assert!(keeps_trace_event(false, MAX_TRACE_EVENTS - 1));
    assert!(!keeps_trace_event(false, MAX_TRACE_EVENTS));
    assert!(!keeps_trace_event(true, 0));
    assert_eq!(MAX_TRACE_EVENTS, 5000);
    assert!(wants_auto_title(3, 3, false, false));
    assert!(!wants_auto_title(7, 3, false, false));
    assert!(wants_auto_title(7, 3, true, false));
    assert!(!wants_auto_title(3, 3, true, true));
}

fn texts(ms: &[ChatMessage]) -> Vec<(Role, Option<String>)> {
    ms.iter().map(|m| (m.role(), m.content_str().map(|s| s.to_string()))).collect()
}

#[test]
fn history_keeps_earlier_turns_and_adds_the_run() {
    let stored = vec![ChatMessage::user("Hello first turn"), ChatMessage::assistant_text("Hi")];
    // Nothing recorded during the run: the run's new messages are appended.
    let run = vec![
        ChatMessage::user("Hello first turn"),
        ChatMessage::assistant_text("Hi"),
        ChatMessage::user("Hello second turn"),
        ChatMessage::assistant_text("Hi again"),
    ];
    let kept = reconcile_history(stored, 2, &run, &Some("Hi again".to_string()), false);
    assert_eq!(
        texts(&kept),
        vec![
            (Role::User, Some("Hello first turn".to_string())),
            (Role::Assistant, Some("Hi".to_string())),
            (Role::User, Some("Hello second turn".to_string())),
            (Role::Assistant, Some("Hi again".to_string())),
        ]
    );

    // Nothing recorded and no new run messages: the answer is appended.
    let stored = vec![ChatMessage::user("q")];
    let kept = reconcile_history(stored, 1, &vec![ChatMessage::user("q")], &Some("a".to_string()), false);
    assert_eq!(texts(&kept), vec![(Role::User, Some("q".to_string())), (Role::Assistant, Some("a".to_string()))]);

    // Recorded already, ending with the answer: unchanged.
    let stored = vec![ChatMessage::user("q"), ChatMessage::assistant_text("a")];
    let kept = reconcile_history(stored, 1, &Vec::new(), &Some("a".to_string()), false);
    assert_eq!(kept.len(), 2);

    // Recorded, but the answer is missing at the end: appended.
    let stored = vec![ChatMessage::user("q"), ChatMessage::assistant_text("thinking")];
    let kept = reconcile_history(stored, 1, &Vec::new(), &Some("a".to_string()), false);
    assert_eq!(kept.len(), 3);

    // Empty answers are never stored.
    let stored = vec![ChatMessage::user("q")];
    let kept = reconcile_history(stored, 1, &Vec::new(), &Some(String::new()), false);
    assert_eq!(kept.len(), 1);

    // A compacted run replaces the working history with its projection.
    let stored = vec![ChatMessage::user("a"), ChatMessage::user("b"), ChatMessage::user("c")];
    let projection = vec![ChatMessage::system("sys"), ChatMessage::user("c")];
    let kept = reconcile_history(stored, 1, &projection, &None, true);
    assert_eq!(texts(&kept), vec![(Role::System, Some("sys".to_string())), (Role::User, Some("c".to_string()))]);
}

#[test]
fn manual_titles_are_trimmed_and_clamped() {
    assert_eq!(manual_title("  My title  ").unwrap(), "My title");
    let long = "标".repeat(50);
    assert_eq!(manual_title(&long).unwrap(), "标".repeat(40));
    let e = manual_title("   ").unwrap_err();
    assert_eq!(e.kind, "invalid_title");
    assert_eq!(e.describe(), "[invalid_title] title must not be empty");
    let nf = conversation_not_found("sess_1");
    assert_eq!(nf.describe(), "[not_found] conversation `sess_1` not found");
}

#[test]
fn question_ids_and_answer_rendering() {
    assert_eq!(question_id("task-1", 1), "task-1:q1");
    assert_eq!(question_id("task-1", 12), "task-1:q12");
    assert_eq!(DEFAULT_TIMEOUT_SECS, 1800);
    assert!(no_answer_message(60).starts_with("No answer received within 60s. "));
    let out = answer_text(Some("{\"Which layer?\": \"renderer\"}"));
    assert_eq!(out, "User answered:\n\nQ: Which layer?\nA: renderer");
    assert!(out.contains("Which layer?") && out.contains("renderer"));
    let two = answer_text(Some("{\"b\": [1, 2], \"a\": true}"));
    assert_eq!(two, "User answered:\n\nQ: a\nA: true\n\nQ: b\nA: [1,2]");
    assert_eq!(answer_text(Some("\"just text\"")), "just text");
    assert_eq!(answer_text(Some("{}")), "User dismissed the question without answering.");
    assert!(answer_text(None).to_lowercase().contains("dismissed"));
    assert_eq!(answer_text(Some("[1, 2]")), "[1,2]");
    assert_eq!(answer_text(Some("not json")), "not json");
}

#[test]
fn concurrency_limit_from_setting() {
    assert_eq!(max_concurrent_tasks(None), 8);
    assert_eq!(max_concurrent_tasks(Some("3")), 3);
    assert_eq!(max_concurrent_tasks(Some("+4")), 4);
    assert_eq!(max_concurrent_tasks(Some("0")), 1);
    assert_eq!(max_concurrent_tasks(Some("lots")), 8);
    assert_eq!(max_concurrent_tasks(Some(" 5")), 8);
}
