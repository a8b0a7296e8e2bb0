//! Per-turn statistics reported by the loop.
use vstd::prelude::*;

verus! {

/// Token and tool usage of one turn.
#[derive(Debug, Clone, Copy)]
pub struct TurnStats {
    pub turn: usize,
    pub prompt_tokens: Option<usize>,
    pub completion_tokens: Option<usize>,
    pub cached_tokens: Option<usize>,
    pub reasoning_tokens: Option<usize>,
    pub tool_calls_count: usize,
}

/// Aggregate usage over a run (the average-throughput figure, a float, is
/// derived by the host from `total_completion_tokens` and
/// `total_duration_ms`).
#[derive(Debug, Clone, Copy)]
pub struct AgentStats {
    pub total_turns: usize,
    pub total_prompt_tokens: usize,
    pub total_completion_tokens: usize,
    pub total_cached_tokens: usize,
    pub total_reasoning_tokens: usize,
    pub total_duration_ms: u64,
    pub total_tool_executions: usize,
    pub total_tool_time_ms: u64,
}

} // verus!
