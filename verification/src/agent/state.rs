//! Loop status and run statistics.
use crate::types::event::{AgentStats, TurnStats};
use vstd::prelude::*;

verus! {

/// Lifecycle of one loop run; stored by handles as a `u8`.
#[derive(Debug, Clone, Copy, PartialEq, Eq, Structural)]
pub enum LoopStatus {
    Idle,
    Running,
    ExecutingTools,
    Completed,
    Failed,
    Aborted,
}

pub open spec fn status_code(s: LoopStatus) -> u8 {
    match s {
        LoopStatus::Idle => 0,
        LoopStatus::Running => 1,
        LoopStatus::ExecutingTools => 2,
        LoopStatus::Completed => 3,
        LoopStatus::Failed => 4,
        LoopStatus::Aborted => 5,
    }
}

/// The status a stored code stands for; unknown codes read as `Idle`.
pub open spec fn status_of_code(v: u8) -> LoopStatus {
    if v == 1 {
        LoopStatus::Running
    } else if v == 2 {
        LoopStatus::ExecutingTools
    } else if v == 3 {
        LoopStatus::Completed
    } else if v == 4 {
        LoopStatus::Failed
    } else if v == 5 {
        LoopStatus::Aborted
    } else {
        LoopStatus::Idle
    }
}

impl LoopStatus {
    pub fn as_u8(self) -> (v: u8)
        ensures
            v == status_code(self),
    {
        match self {
            LoopStatus::Idle => 0,
            LoopStatus::Running => 1,
            LoopStatus::ExecutingTools => 2,
            LoopStatus::Completed => 3,
            LoopStatus::Failed => 4,
            LoopStatus::Aborted => 5,
        }
    }

    /// Decodes a status code; unknown codes read as `Idle`.
    pub fn from_u8(value: u8) -> (s: LoopStatus)
        ensures
            s == status_of_code(value),
    {
        match value {
            1 => LoopStatus::Running,
            2 => LoopStatus::ExecutingTools,
            3 => LoopStatus::Completed,
            4 => LoopStatus::Failed,
            5 => LoopStatus::Aborted,
            _ => LoopStatus::Idle,
        }
    }
}

/// Decoding an encoded status gives it back, and distinct statuses have
/// distinct codes.
pub proof fn lemma_status_round_trip(s: LoopStatus, t: LoopStatus)
    ensures
        status_of_code(status_code(s)) == s,
        status_code(s) == status_code(t) ==> s == t,
{
}

/// Sum of the values present.
pub open spec fn sum_opt(s: Seq<Option<usize>>) -> nat
    decreases s.len(),
{
    if s.len() == 0 {
        0
    } else {
        sum_opt(s.drop_last()) + match s.last() {
            Some(v) => v as nat,
            None => 0,
        }
    }
}

pub open spec fn prompt_of(h: Seq<TurnStats>) -> Seq<Option<usize>> {
    h.map_values(|t: TurnStats| t.prompt_tokens)
}

pub open spec fn completion_of(h: Seq<TurnStats>) -> Seq<Option<usize>> {
    h.map_values(|t: TurnStats| t.completion_tokens)
}

pub open spec fn cached_of(h: Seq<TurnStats>) -> Seq<Option<usize>> {
    h.map_values(|t: TurnStats| t.cached_tokens)
}

pub open spec fn reasoning_of(h: Seq<TurnStats>) -> Seq<Option<usize>> {
    h.map_values(|t: TurnStats| t.reasoning_tokens)
}

pub open spec fn tools_of(h: Seq<TurnStats>) -> Seq<Option<usize>> {
    h.map_values(|t: TurnStats| Some(t.tool_calls_count))
}

/// Tracks status, turn count and cumulative usage of a run. The run's start
/// time is kept by the host, which passes the elapsed time to `get_stats`.
#[derive(Debug)]
pub struct AgentStateTracker {
    status: LoopStatus,
    current_turn: usize,
    total_prompt_tokens: usize,
    total_completion_tokens: usize,
    total_cached_tokens: usize,
    total_reasoning_tokens: usize,
    total_tool_executions: usize,
    total_tool_time_ms: u64,
    turn_history: Vec<TurnStats>,
}

impl AgentStateTracker {
    pub closed spec fn status_spec(&self) -> LoopStatus {
        self.status
    }

    pub closed spec fn turn(&self) -> nat {
        self.current_turn as nat
    }

    pub closed spec fn history(&self) -> Seq<TurnStats> {
        self.turn_history@
    }

    pub closed spec fn tool_time(&self) -> nat {
        self.total_tool_time_ms as nat
    }

    /// The totals are the sums over the recorded turns.
    pub closed spec fn wf(&self) -> bool {
        &&& self.total_prompt_tokens == sum_opt(prompt_of(self.turn_history@))
        &&& self.total_completion_tokens == sum_opt(completion_of(self.turn_history@))
        &&& self.total_cached_tokens == sum_opt(cached_of(self.turn_history@))
        &&& self.total_reasoning_tokens == sum_opt(reasoning_of(self.turn_history@))
        &&& self.total_tool_executions == sum_opt(tools_of(self.turn_history@))
    }

    pub fn new() -> (t: AgentStateTracker)
        ensures
            t.wf(),
            t.status_spec() == LoopStatus::Idle,
            t.turn() == 0,
            t.history() == Seq::<TurnStats>::empty(),
            t.tool_time() == 0,
    {
        let t = AgentStateTracker {
            status: LoopStatus::Idle,
            current_turn: 0,
            total_prompt_tokens: 0,
            total_completion_tokens: 0,
            total_cached_tokens: 0,
            total_reasoning_tokens: 0,
            total_tool_executions: 0,
            total_tool_time_ms: 0,
            turn_history: Vec::new(),
        };
        assert(prompt_of(t.turn_history@) =~= Seq::<Option<usize>>::empty());
        assert(completion_of(t.turn_history@) =~= Seq::<Option<usize>>::empty());
        assert(cached_of(t.turn_history@) =~= Seq::<Option<usize>>::empty());
        assert(reasoning_of(t.turn_history@) =~= Seq::<Option<usize>>::empty());
        assert(tools_of(t.turn_history@) =~= Seq::<Option<usize>>::empty());
        t
    }

    pub fn status(&self) -> (s: LoopStatus)
        ensures
            s == self.status_spec(),
    {
        self.status
    }

    pub fn set_status(&mut self, status: LoopStatus)
        ensures
            final(self).status_spec() == status,
            final(self).turn() == old(self).turn(),
            final(self).history() == old(self).history(),
            final(self).tool_time() == old(self).tool_time(),
            final(self).wf() == old(self).wf(),
    {
        self.status = status;
    }

    pub fn current_turn(&self) -> (n: usize)
        ensures
            n == self.turn(),
    {
        self.current_turn
    }

    /// Advances to the next turn and returns its number.
    pub fn next_turn(&mut self) -> (n: usize)
        requires
            old(self).turn() < usize::MAX,
        ensures
            n == old(self).turn() + 1,
            final(self).turn() == n,
            final(self).status_spec() == old(self).status_spec(),
            final(self).history() == old(self).history(),
            final(self).tool_time() == old(self).tool_time(),
            final(self).wf() == old(self).wf(),
    {
        self.current_turn = self.current_turn + 1;
        self.current_turn
    }

    /// Adds a turn's usage to the totals and appends it to the history.
    pub fn record_turn_stats(&mut self, stats: TurnStats)
        requires
            old(self).wf(),
            sum_opt(prompt_of(old(self).history().push(stats))) <= usize::MAX,
            sum_opt(completion_of(old(self).history().push(stats))) <= usize::MAX,
            sum_opt(cached_of(old(self).history().push(stats))) <= usize::MAX,
            sum_opt(reasoning_of(old(self).history().push(stats))) <= usize::MAX,
            sum_opt(tools_of(old(self).history().push(stats))) <= usize::MAX,
        ensures
            final(self).wf(),
            final(self).history() == old(self).history().push(stats),
            final(self).status_spec() == old(self).status_spec(),
            final(self).turn() == old(self).turn(),
            final(self).tool_time() == old(self).tool_time(),
    {
        let ghost h = self.turn_history@.push(stats);
        proof {
            assert(prompt_of(h).drop_last() =~= prompt_of(self.turn_history@));
            assert(completion_of(h).drop_last() =~= completion_of(self.turn_history@));
            assert(cached_of(h).drop_last() =~= cached_of(self.turn_history@));
            assert(reasoning_of(h).drop_last() =~= reasoning_of(self.turn_history@));
            assert(tools_of(h).drop_last() =~= tools_of(self.turn_history@));
        }
        if let Some(pt) = stats.prompt_tokens {
            self.total_prompt_tokens = self.total_prompt_tokens + pt;
        }
        if let Some(ct) = stats.completion_tokens {
            self.total_completion_tokens = self.total_completion_tokens + ct;
        }
        if let Some(cached) = stats.cached_tokens {
            self.total_cached_tokens = self.total_cached_tokens + cached;
        }
        if let Some(reasoning) = stats.reasoning_tokens {
            self.total_reasoning_tokens = self.total_reasoning_tokens + reasoning;
        }
        self.total_tool_executions = self.total_tool_executions + stats.tool_calls_count;
        self.turn_history.push(stats);
    }

    pub fn record_tool_execution(&mut self, duration_ms: u64)
        requires
            old(self).tool_time() + duration_ms <= u64::MAX,
        ensures
            final(self).tool_time() == old(self).tool_time() + duration_ms,
            final(self).status_spec() == old(self).status_spec(),
            final(self).turn() == old(self).turn(),
            final(self).history() == old(self).history(),
            final(self).wf() == old(self).wf(),
    {
        self.total_tool_time_ms = self.total_tool_time_ms + duration_ms;
    }

    /// Aggregate statistics after `elapsed_ms` of wall time.
    pub fn get_stats(&self, elapsed_ms: u64) -> (s: AgentStats)
        requires
            self.wf(),
        ensures
            s.total_turns == self.turn(),
            s.total_prompt_tokens == sum_opt(prompt_of(self.history())),
            s.total_completion_tokens == sum_opt(completion_of(self.history())),
            s.total_cached_tokens == sum_opt(cached_of(self.history())),
            s.total_reasoning_tokens == sum_opt(reasoning_of(self.history())),
            s.total_duration_ms == elapsed_ms,
            s.total_tool_executions == sum_opt(tools_of(self.history())),
            s.total_tool_time_ms == self.tool_time(),
    {
        AgentStats {
            total_turns: self.current_turn,
            total_prompt_tokens: self.total_prompt_tokens,
            total_completion_tokens: self.total_completion_tokens,
            total_cached_tokens: self.total_cached_tokens,
            total_reasoning_tokens: self.total_reasoning_tokens,
            total_duration_ms: elapsed_ms,
            total_tool_executions: self.total_tool_executions,
            total_tool_time_ms: self.total_tool_time_ms,
        }
    }

    pub fn turn_history(&self) -> (h: &[TurnStats])
        ensures
            h@ == self.history(),
    {
        self.turn_history.as_slice()
    }
}

} // verus!
