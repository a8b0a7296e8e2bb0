use thunder_agent::agent::context::ContextBuffer;
use thunder_agent::pruning::checkpoint::{checkpoint_message, is_checkpoint_message};
use thunder_agent::pruning::compactor::RollingCompactor;
use thunder_agent::pruning::strategy::ContextPruner;
use thunder_agent::types::config::ContextPruningConfig;
use thunder_agent::types::message::{ChatMessage, Role, ToolCall};

fn conversation(turns: usize) -> ContextBuffer {
    let mut ctx = ContextBuffer::new();
    ctx.set_system_prompt("Pinned System Prompt");
    for i in 1..=turns {
        ctx.push(ChatMessage::user(&format!("User step {}", i)));
        ctx.push(ChatMessage::assistant(Some(format!("Assistant completed step {}", i)), None));
    }
    ctx
}

#[test]
fn test_rolling_compactor_lifecycle() {
    let mut ctx = conversation(15);
    let tokens_before = ctx.estimated_tokens();
    assert_eq!(ctx.len(), 31); // 1 system + 15*2 messages

    let compactor = RollingCompactor::new(3);

    let artifacts_summary = "- `.thunder/scratchpad/turn_02_bash.log` (1.5 MB)\n";
    let res = compactor.force_compact(&mut ctx, artifacts_summary);

    assert!(res.compacted);
    assert!(res.tokens_after < tokens_before);

    assert_eq!(ctx.get_entry(0).unwrap().message.role(), Role::System);
    let digest_entry = ctx.get_entry(1).unwrap();
    assert!(digest_entry.message.content_str().unwrap().contains("【Previous Conversation Summary"));
    assert!(digest_entry.message.content_str().unwrap().contains("turn_02_bash.log"));
}

#[test]
fn compactor_digest_contents_and_iteration() {
    let mut ctx = conversation(4);
    ctx.push(ChatMessage::assistant(None, Some(vec![ToolCall::new_function("t1", "bash", "{}")])));
    ctx.push(ChatMessage::Tool { tool_call_id: "t1".into(), content: "Error: boom\nmore".into(), name: Some("bash".into()) });
    let compactor = RollingCompactor::new(1);
    let res = compactor.force_compact(&mut ctx, "");
    assert!(res.compacted);
    // 1 system + 10 messages; keep 3; fold [1, 8).
    assert_eq!(res.messages_compacted, 7);
    assert_eq!(ctx.len(), 5);
    let d = res.digest_summary.clone();
    assert!(d.starts_with("【Previous Conversation Summary & Milestone State Digest】:\n"));
    assert!(d.contains("• Key User Directives Processed:\n  - User step 1\n"));
    assert!(!d.contains("Actions Performed"));
    assert!(!d.contains("Prior Milestone"));

    // Folding everything after the system prompt counts the tool call and
    // records the failing tool output.
    let mut all = conversation(1);
    all.push(ChatMessage::assistant(None, Some(vec![ToolCall::new_function("t1", "bash", "{}")])));
    all.push(ChatMessage::Tool { tool_call_id: "t1".into(), content: "Error: boom\nmore".into(), name: Some("bash".into()) });
    let everything = RollingCompactor::new(0).force_compact(&mut all, "");
    assert_eq!(everything.messages_compacted, 4);
    assert_eq!(all.len(), 2);
    assert!(everything.digest_summary.contains("• Actions Performed: 1 tool executions recorded.\n"));
    assert!(everything.digest_summary.contains("  - Assistant completed step 1\n  - Tool 'bash' output: Error: boom\n"));

    // Compacting again replaces the digest in place and carries it forward.
    for i in 0..4 {
        ctx.push(ChatMessage::user(&format!("later {}", i)));
    }
    let res2 = compactor.force_compact(&mut ctx, "");
    assert!(res2.compacted);
    assert!(res2.digest_summary.contains("• Prior Milestone Context:\n"));
    assert_eq!(ctx.get_entry(1).unwrap().message.content_str().unwrap(), res2.digest_summary);

    // Too little history: nothing happens.
    let mut small = conversation(1);
    let r = compactor.force_compact(&mut small, "");
    assert!(!r.compacted);
    assert_eq!(r.tokens_after, r.tokens_before);
    assert!(r.digest_summary.is_empty());
}

#[test]
fn compact_if_needed_respects_threshold() {
    let mut ctx = conversation(15);
    let compactor = RollingCompactor::new(3);
    let before = ctx.estimated_tokens();
    let res = compactor.compact_if_needed(&mut ctx, before, "");
    assert!(!res.compacted);
    assert_eq!(ctx.len(), 31);
    let res = compactor.compact_if_needed(&mut ctx, before - 1, "");
    assert!(res.compacted);
}

fn pruner(max: usize, keep: usize, reserve: usize) -> ContextPruner {
    let mut config = ContextPruningConfig::new();
    config.max_context_tokens = max;
    config.keep_recent_tokens = keep;
    config.reserve_tokens = reserve;
    ContextPruner::new(config)
}

#[test]
fn prune_is_a_no_op_below_the_trigger() {
    let mut ctx = conversation(3);
    let p = pruner(1_000_000, 10, 100);
    assert!(!p.should_compact(ctx.estimated_tokens()));
    assert!(p.plan_prune(&ctx).is_none());
    let r = p.prune(&mut ctx, Some("summary".to_string()));
    assert!(!r.pruned && !r.checkpoint && !r.emergency);
    assert_eq!(ctx.len(), 7);
    assert_eq!(r.tokens_before, r.tokens_after);
}

#[test]
fn prune_swaps_region_for_checkpoint() {
    let mut ctx = conversation(6);
    let total = ctx.estimated_tokens();
    let p = pruner(total, 10, total / 2);
    let req = p.plan_prune(&ctx).expect("a region to summarize");
    assert!(req.serialized.contains("User step 1"));
    assert!(req.previous_summary.is_none());
    let r = p.prune(&mut ctx, Some("SUMMARY".to_string()));
    assert!(r.pruned && r.checkpoint && !r.emergency);
    assert!(r.messages_removed > 0);
    assert!(is_checkpoint_message(&ctx.get_entry(1).unwrap().message));
    assert!(r.tokens_after < r.tokens_before);

    // The next round extends the previous checkpoint.
    for i in 0..6 {
        ctx.push(ChatMessage::user(&format!("more {}", i)));
    }
    let p2 = pruner(ctx.estimated_tokens(), 10, ctx.estimated_tokens() / 2);
    let req2 = p2.plan_prune(&ctx).expect("a region to summarize");
    assert_eq!(req2.previous_summary.as_deref(), Some("SUMMARY"));
    p2.prune(&mut ctx, Some("SUMMARY 2".to_string()));
    assert_eq!(ctx.get_entry(1).unwrap().message.content_str(), Some("SUMMARY 2"));
}

#[test]
fn prune_without_summary_falls_back() {
    let mut ctx = conversation(6);
    let total = ctx.estimated_tokens();
    // Over the trigger but within the window: left as it is.
    let p = pruner(total, 10, total / 2);
    let r = p.prune(&mut ctx, None);
    assert!(!r.pruned && !r.emergency);
    assert_eq!(ctx.len(), 13);
    // Over the window: the emergency trim drops whole turns.
    let p = pruner(total / 2, 10, 0);
    let r = p.prune(&mut ctx, None);
    assert!(r.emergency);
    assert!(r.messages_removed > 0);
    assert_eq!(ctx.get_entry(0).unwrap().message.role(), Role::System);
    assert!(r.tokens_after <= total / 2 || ctx.len() <= 3);
}

#[test]
fn emergency_trim_keeps_system_prompt_and_checkpoint() {
    let mut ctx = ContextBuffer::new();
    ctx.set_system_prompt("sys");
    ctx.push(checkpoint_message("old"));
    for i in 0..5 {
        ctx.push(ChatMessage::user(&format!("question number {}", i)));
        ctx.push(ChatMessage::assistant_text(&format!("answer number {}", i)));
    }
    let p = pruner(30, 5, 0);
    let removed = p.emergency_trim(&mut ctx);
    assert!(removed > 0);
    assert!(is_checkpoint_message(&ctx.get_entry(1).unwrap().message));
    assert_eq!(ctx.get_entry(0).unwrap().message.content_str(), Some("sys"));
    let mut q = pruner(10, 1, 0);
    q.update_max_tokens(99);
    assert_eq!(q.max_tokens(), 99);
}
