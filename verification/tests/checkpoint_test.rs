use thunder_agent::agent::context::ContextBuffer;
use thunder_agent::pruning::checkpoint::{
    checkpoint_message, checkpoint_trigger, extract_file_lists, find_cut_index,
    is_checkpoint_message, is_tool_message, is_user_message, previous_checkpoint,
    region_floor, serialize_region,
};
use thunder_agent::types::message::{ChatMessage, ToolCall};

#[test]
fn cut_never_lands_on_tool_result() {
    let mut ctx = ContextBuffer::new();
    ctx.set_system_prompt("sys");
    ctx.push(ChatMessage::user("q1"));
    ctx.push(ChatMessage::assistant_text("a1"));
    ctx.push(ChatMessage::assistant(
        None,
        Some(vec![ToolCall::new_function("t1", "bash", "{}")]),
    ));
    ctx.push(ChatMessage::Tool {
        tool_call_id: "t1".into(),
        content: "out".into(),
        name: Some("bash".into()),
    });
    ctx.push(ChatMessage::user("q2"));
    ctx.push(ChatMessage::assistant_text("a2"));

    let tail: usize = [4usize, 5]
        .iter()
        .filter_map(|i| ctx.get_entry(*i).map(|e| e.estimated_tokens))
        .sum();
    let cut = find_cut_index(&ctx, tail).expect("cut exists");
    let first_kept = ctx.get_entry(cut).unwrap();
    assert!(!is_tool_message(&first_kept.message), "cut landed on a tool result");
    assert!(is_user_message(&first_kept.message));
    assert!(cut >= 1);
}

#[test]
fn cut_respects_existing_checkpoint_floor() {
    let mut ctx = ContextBuffer::new();
    ctx.set_system_prompt("sys");
    ctx.push(checkpoint_message("old summary"));
    ctx.push(ChatMessage::user("q1"));
    ctx.push(ChatMessage::assistant_text("a1"));
    ctx.push(ChatMessage::user("q2"));
    ctx.push(ChatMessage::assistant_text("a2"));

    let cut = find_cut_index(&ctx, 1).expect("cut exists");
    assert!(cut >= 2, "cut must not enter the checkpoint/system region");
}

#[test]
fn no_cut_when_history_fits_keep_budget() {
    let mut ctx = ContextBuffer::new();
    ctx.set_system_prompt("sys");
    ctx.push(ChatMessage::user("hi"));
    ctx.push(ChatMessage::assistant_text("hello"));
    assert!(find_cut_index(&ctx, usize::MAX).is_none());
}

#[test]
fn serialization_truncates_tool_results() {
    let long = "x".repeat(5000);
    let text = serialize_region(&[ChatMessage::Tool {
        tool_call_id: "t".into(),
        content: long,
        name: Some("bash".into()),
    }]);
    assert!(text.contains("[Tool result]: "));
    assert!(text.contains("chars truncated"));
    assert!(text.chars().count() < 2400);
}

#[test]
fn file_lists_distinguish_read_and_modified() {
    let msgs = vec![ChatMessage::assistant(
        None,
        Some(vec![
            ToolCall::new_function("t1", "read_file", r#"{"path":"a.rs"}"#),
            ToolCall::new_function("t2", "write_file", r#"{"path":"b.rs"}"#),
            ToolCall::new_function("t3", "read_file", r#"{"path":"b.rs"}"#),
        ]),
    )];
    let (read, modified) = extract_file_lists(&msgs);
    assert_eq!(read, vec!["a.rs".to_string()]);
    assert_eq!(modified, vec!["b.rs".to_string()]);
}

#[test]
fn trigger_math_matches_pi() {
    assert!(!checkpoint_trigger(80, 100, 20));
    assert!(checkpoint_trigger(81, 100, 20));
    assert!(checkpoint_trigger(50, 100, 200));
}

#[test]
fn checkpoint_message_is_recognized_and_read_back() {
    let mut ctx = ContextBuffer::new();
    ctx.set_system_prompt("sys");
    assert_eq!(region_floor(&ctx), 1);
    assert!(previous_checkpoint(&ctx).is_none());
    ctx.push(checkpoint_message("summary text"));
    assert!(is_checkpoint_message(ctx.get_entry(1).map(|e| &e.message).unwrap()));
    assert_eq!(region_floor(&ctx), 2);
    assert_eq!(previous_checkpoint(&ctx), Some(("summary text".to_string(), 2)));
}

#[test]
fn serialization_renders_each_role() {
    let msgs = vec![
        ChatMessage::system("s"),
        ChatMessage::user("u"),
        ChatMessage::assistant(
            Some("a".to_string()),
            Some(vec![
                ToolCall::new_function("1", "read_file", "{}"),
                ToolCall::new_function("2", "bash", "ls"),
            ]),
        ),
        checkpoint_message("ignored"),
    ];
    assert_eq!(
        serialize_region(&msgs),
        "[System]: s\n[User]: u\n[Assistant]: a\n[Assistant tool calls]: read_file({}); bash(ls)\n"
    );
    let long = "y".repeat(2005);
    assert_eq!(
        serialize_region(&[ChatMessage::user(&long)]),
        format!("[User]: {}\n[... 5 chars truncated ...]\n", "y".repeat(2000))
    );
}

#[test]
fn file_lists_are_sorted_and_deduplicated() {
    let msgs = vec![
        ChatMessage::assistant(
            None,
            Some(vec![
                ToolCall::new_function("1", "read_file", r#"{"path":"z.rs"}"#),
                ToolCall::new_function("2", "edit_file", r#"{"path":"m.rs"}"#),
                ToolCall::new_function("3", "read_file", r#"{"path":"c.rs"}"#),
                ToolCall::new_function("4", "read_file", r#"{"path":"z.rs"}"#),
                ToolCall::new_function("5", "bash", r#"{"path":"q.rs"}"#),
                ToolCall::new_function("6", "read_file", "not json"),
            ]),
        ),
        ChatMessage::user("x"),
    ];
    let (read, modified) = extract_file_lists(&msgs);
    assert_eq!(read, vec!["c.rs".to_string(), "z.rs".to_string()]);
    assert_eq!(modified, vec!["m.rs".to_string()]);
}
