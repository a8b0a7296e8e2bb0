//! Repetition detector and error circuit breaker for the agent loop.
use crate::text::{push_decimal, push_str, str_eq, string_of, trim, trim_string};
use std::collections::VecDeque;
use vstd::prelude::*;

verus! {

/// One recorded tool invocation (arguments trimmed).
#[derive(Debug)]
pub struct ActionRecord {
    pub tool_name: String,
    pub arguments: String,
}

pub struct ActionView {
    pub tool_name: Seq<char>,
    pub arguments: Seq<char>,
}

impl View for ActionRecord {
    type V = ActionView;

    open spec fn view(&self) -> ActionView {
        ActionView { tool_name: self.tool_name@, arguments: self.arguments@ }
    }
}

/// Detects an agent repeating the same tool call and trips after too many
/// consecutive tool errors.
#[derive(Debug)]
pub struct LoopGuard {
    recent_actions: VecDeque<ActionRecord>,
    max_history: usize,
    repetition_threshold: usize,
    hard_repetition_limit: usize,
    consecutive_errors: usize,
    max_consecutive_errors: usize,
}

/// The last `k` entries of `s` all equal `r`.
pub open spec fn tail_matches(s: Seq<ActionView>, k: nat, r: ActionView) -> bool {
    forall|i: int| s.len() - k <= i < s.len() ==> #[trigger] s[i] == r
}

/// The warning issued once a call has repeated `threshold` times in a row.
pub open spec fn repetition_notice(tool: Seq<char>, threshold: nat) -> Seq<char> {
    "[System Notice: You have executed the exact same tool '"@ + tool
        + "' with identical arguments "@ + crate::text::decimal(threshold)
        + " times in a row without progress. Please verify the output, modify your strategy, or summarize your findings.]"@
}

impl LoopGuard {
    /// Recorded actions, oldest first.
    pub closed spec fn actions(&self) -> Seq<ActionView> {
        self.recent_actions@.map_values(|a: ActionRecord| a@)
    }

    pub closed spec fn history_limit(&self) -> nat {
        self.max_history as nat
    }

    pub closed spec fn threshold(&self) -> nat {
        self.repetition_threshold as nat
    }

    pub closed spec fn hard_limit(&self) -> nat {
        self.hard_repetition_limit as nat
    }

    pub closed spec fn errors(&self) -> nat {
        self.consecutive_errors as nat
    }

    pub closed spec fn max_errors(&self) -> nat {
        self.max_consecutive_errors as nat
    }

    /// The history never holds more than `max(max_history, 1)` actions.
    pub closed spec fn wf(&self) -> bool {
        self.recent_actions@.len() <= if self.max_history == 0 {
            1
        } else {
            self.max_history as int
        }
    }

    pub fn new(
        max_history: usize,
        repetition_threshold: usize,
        hard_repetition_limit: usize,
        max_consecutive_errors: usize,
    ) -> (g: LoopGuard)
        ensures
            g.wf(),
            g.actions() == Seq::<ActionView>::empty(),
            g.history_limit() == max_history,
            g.threshold() == repetition_threshold,
            g.hard_limit() == hard_repetition_limit,
            g.max_errors() == max_consecutive_errors,
            g.errors() == 0,
    {
        let g = LoopGuard {
            recent_actions: VecDeque::new(),
            max_history,
            repetition_threshold,
            hard_repetition_limit,
            consecutive_errors: 0,
            max_consecutive_errors,
        };
        assert(g.actions() =~= Seq::<ActionView>::empty());
        g
    }

    /// Do the last `k` recorded actions all equal `r`?
    fn last_k_match(&self, k: usize, name: &str, args: &str) -> (b: bool)
        requires
            k <= self.actions().len(),
        ensures
            b == tail_matches(self.actions(), k as nat, ActionView { tool_name: name@, arguments: args@ }),
    {
        let n = self.recent_actions.len();
        let mut i = n - k;
        let ghost r = ActionView { tool_name: name@, arguments: args@ };
        while i < n
            invariant
                n == self.actions().len(),
                r == (ActionView { tool_name: name@, arguments: args@ }),
                k <= n,
                n - k <= i <= n,
                forall|j: int| n - k <= j < i ==> #[trigger] self.actions()[j] == r,
            decreases n - i,
        {
            let a = &self.recent_actions[i];
            let same_name = str_eq(a.tool_name.as_str(), name);
            let same_args = str_eq(a.arguments.as_str(), args);
            if !(same_name && same_args) {
                assert(self.actions()[i as int] == a@);
                return false;
            }
            assert(self.actions()[i as int] == a@);
            assert(a@.tool_name == r.tool_name && a@.arguments == r.arguments);
            assert(a@ == r);
            i += 1;
        }
        true
    }

    /// Records a tool invocation (oldest entry evicted when the history is
    /// full) and returns a warning when the last `repetition_threshold`
    /// actions are all this same call.
    pub fn record_and_check_repetition(&mut self, tool_name: &str, arguments: &str) -> (r: Option<String>)
        requires
            old(self).wf(),
        ensures
            final(self).wf(),
            final(self).actions() == (if old(self).actions().len() >= old(self).history_limit()
                && old(self).actions().len() > 0 {
                old(self).actions().drop_first()
            } else {
                old(self).actions()
            }).push(ActionView { tool_name: tool_name@, arguments: trim(arguments@) }),
            final(self).history_limit() == old(self).history_limit(),
            final(self).threshold() == old(self).threshold(),
            final(self).hard_limit() == old(self).hard_limit(),
            final(self).errors() == old(self).errors(),
            final(self).max_errors() == old(self).max_errors(),
            match r {
                Some(msg) => final(self).actions().len() >= final(self).threshold() && tail_matches(
                    final(self).actions(),
                    final(self).threshold(),
                    ActionView { tool_name: tool_name@, arguments: trim(arguments@) },
                ) && msg@ == repetition_notice(tool_name@, final(self).threshold()),
                None => !(final(self).actions().len() >= final(self).threshold() && tail_matches(
                    final(self).actions(),
                    final(self).threshold(),
                    ActionView { tool_name: tool_name@, arguments: trim(arguments@) },
                )),
            },
    {
        let trimmed = trim_string(arguments);
        let record = ActionRecord { tool_name: string_of(tool_name), arguments: trimmed.clone() };
        let ghost before = self.actions();
        if self.recent_actions.len() >= self.max_history && self.recent_actions.len() > 0 {
            self.recent_actions.pop_front();
        }
        let ghost mid = self.actions();
        assert(mid =~= if before.len() >= self.max_history && before.len() > 0 {
            before.drop_first()
        } else {
            before
        });
        self.recent_actions.push_back(record);
        assert(self.actions() =~= mid.push(ActionView { tool_name: tool_name@, arguments: trimmed@ }));
        if self.recent_actions.len() >= self.repetition_threshold {
            if self.last_k_match(self.repetition_threshold, tool_name, trimmed.as_str()) {
                let mut msg = string_of(
                    "[System Notice: You have executed the exact same tool '",
                );
                push_str(&mut msg, tool_name);
                push_str(&mut msg, "' with identical arguments ");
                push_decimal(&mut msg, self.repetition_threshold as u64);
                push_str(
                    &mut msg,
                    " times in a row without progress. Please verify the output, modify your strategy, or summarize your findings.]",
                );
                return Some(msg);
            }
        }
        None
    }

    /// Has the same call been repeated at least `hard_repetition_limit`
    /// times in a row (counting back from the latest action)?
    pub fn is_repetition_limit_exceeded(&self) -> (b: bool)
        ensures
            b == (self.actions().len() >= self.hard_limit() && self.actions().len() > 0
                && tail_matches(self.actions(), self.hard_limit(), self.actions().last())),
    {
        let n = self.recent_actions.len();
        if n >= self.hard_repetition_limit && n > 0 {
            let last = &self.recent_actions[n - 1];
            assert(self.actions().last() == last@);
            return self.last_k_match(
                self.hard_repetition_limit,
                last.tool_name.as_str(),
                last.arguments.as_str(),
            );
        }
        false
    }

    /// Counts a failed tool execution, or resets the count on success.
    pub fn record_tool_result(&mut self, is_error: bool)
        requires
            is_error ==> old(self).errors() < usize::MAX,
        ensures
            final(self).errors() == if is_error {
                old(self).errors() + 1
            } else {
                0
            },
            final(self).actions() == old(self).actions(),
            final(self).wf() == old(self).wf(),
            final(self).history_limit() == old(self).history_limit(),
            final(self).threshold() == old(self).threshold(),
            final(self).hard_limit() == old(self).hard_limit(),
            final(self).max_errors() == old(self).max_errors(),
    {
        if is_error {
            self.consecutive_errors = self.consecutive_errors + 1;
        } else {
            self.consecutive_errors = 0;
        }
    }

    /// Have consecutive errors reached the threshold?
    pub fn is_circuit_broken(&self) -> (b: bool)
        ensures
            b == (self.errors() >= self.max_errors()),
    {
        self.consecutive_errors >= self.max_consecutive_errors
    }

    pub fn consecutive_errors(&self) -> (n: usize)
        ensures
            n == self.errors(),
    {
        self.consecutive_errors
    }

    pub fn reset(&mut self)
        ensures
            final(self).wf(),
            final(self).actions() == Seq::<ActionView>::empty(),
            final(self).errors() == 0,
            final(self).history_limit() == old(self).history_limit(),
            final(self).threshold() == old(self).threshold(),
            final(self).hard_limit() == old(self).hard_limit(),
            final(self).max_errors() == old(self).max_errors(),
    {
        self.recent_actions.clear();
        self.consecutive_errors = 0;
        assert(self.actions() =~= Seq::<ActionView>::empty());
    }
}

} // verus!
