use thunder_agent::agent::context::ContextBuffer;
use thunder_agent::agent::state::{AgentStateTracker, LoopStatus};
use thunder_agent::types::event::TurnStats;
use thunder_agent::types::message::{ChatMessage, Role};

#[test]
fn loop_status_codes_round_trip() {
    let all = [
        LoopStatus::Idle,
        LoopStatus::Running,
        LoopStatus::ExecutingTools,
        LoopStatus::Completed,
        LoopStatus::Failed,
        LoopStatus::Aborted,
    ];
    for (i, s) in all.iter().enumerate() {
        assert_eq!(s.as_u8() as usize, i);
        assert_eq!(LoopStatus::from_u8(s.as_u8()), *s);
    }
    assert_eq!(LoopStatus::from_u8(6), LoopStatus::Idle);
    assert_eq!(LoopStatus::from_u8(255), LoopStatus::Idle);
}

#[test]
fn tracker_accumulates_turns_and_tools() {
    let mut t = AgentStateTracker::new();
    assert_eq!(t.status(), LoopStatus::Idle);
    assert_eq!(t.current_turn(), 0);
    t.set_status(LoopStatus::Running);
    assert_eq!(t.status(), LoopStatus::Running);
    assert_eq!(t.next_turn(), 1);
    t.record_turn_stats(TurnStats {
        turn: 1,
        prompt_tokens: Some(100),
        completion_tokens: Some(20),
        cached_tokens: None,
        reasoning_tokens: Some(5),
        tool_calls_count: 2,
    });
    assert_eq!(t.next_turn(), 2);
    t.record_turn_stats(TurnStats {
        turn: 2,
        prompt_tokens: Some(150),
        completion_tokens: None,
        cached_tokens: Some(40),
        reasoning_tokens: None,
        tool_calls_count: 1,
    });
    t.record_tool_execution(30);
    t.record_tool_execution(12);
    let s = t.get_stats(1000);
    assert_eq!(s.total_turns, 2);
    assert_eq!(s.total_prompt_tokens, 250);
    assert_eq!(s.total_completion_tokens, 20);
    assert_eq!(s.total_cached_tokens, 40);
    assert_eq!(s.total_reasoning_tokens, 5);
    assert_eq!(s.total_tool_executions, 3);
    assert_eq!(s.total_tool_time_ms, 42);
    assert_eq!(s.total_duration_ms, 1000);
    assert_eq!(t.turn_history().len(), 2);
    assert_eq!(t.turn_history()[1].turn, 2);
}

#[test]
fn context_built_from_messages_gives_them_back_in_order() {
    let ctx = ContextBuffer::with_messages(vec![
        ChatMessage::system("sys"),
        ChatMessage::user("hello"),
        ChatMessage::assistant_text("hi there"),
    ]);
    assert_eq!(ctx.len(), 3);
    let msgs = ctx.get_messages();
    assert_eq!(msgs.len(), 3);
    assert_eq!(msgs[0].role(), Role::System);
    assert_eq!(msgs[1].content_str(), Some("hello"));
    assert_eq!(msgs[2].role(), Role::Assistant);
    assert_eq!(msgs[2].content_str(), Some("hi there"));
    let mut total = 0;
    for m in &msgs {
        total += ContextBuffer::calculate_message_tokens(m);
    }
    assert_eq!(ctx.estimated_tokens(), total);
    assert!(ContextBuffer::with_messages(Vec::new()).is_empty());
}
