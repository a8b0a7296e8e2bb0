//! Context pruning: checkpoint compaction, with an emergency trim of the
//! oldest turns as the floor when no checkpoint can be made.
//!
//! A pruning turn has two halves around the summarizer: `plan_prune` says
//! what to summarize (if anything), and `prune` applies the outcome.
use vstd::prelude::*;
use crate::agent::context::{
    fits, lemma_total_tokens_append, lemma_total_tokens_insert, lemma_total_tokens_update,
    message_fits, message_tokens, total_tokens, ContextBuffer,
};
use crate::pruning::checkpoint::{
    is_tool_view,
    checkpoint_message, checkpoint_name, checkpoint_trigger, cut_index, extract_file_lists,
    find_cut_index, floor_of, lemma_cut_index_safe, previous_checkpoint,
    previous_checkpoint_spec, region_floor, region_paths, serialize_region, serialize_spec,
    trigger_spec,
};
use crate::text::{strictly_sorted, views};
use crate::types::config::ContextPruningConfig;
use crate::types::message::{opt_view, ChatMessage, MessageView};

verus! {

/// What one pruning turn did.
#[derive(Debug, Clone, Copy)]
pub struct PruneResult {
    pub pruned: bool,
    pub tokens_before: usize,
    pub tokens_after: usize,
    pub messages_removed: usize,
    /// A checkpoint summary was swapped in.
    pub checkpoint: bool,
    /// The emergency trim ran.
    pub emergency: bool,
}

impl Default for PruneResult {
    fn default() -> (r: PruneResult)
        ensures
            !r.pruned && r.tokens_before == 0 && r.tokens_after == 0 && r.messages_removed == 0
                && !r.checkpoint && !r.emergency,
    {
        PruneResult {
            pruned: false,
            tokens_before: 0,
            tokens_after: 0,
            messages_removed: 0,
            checkpoint: false,
            emergency: false,
        }
    }
}

/// `s` with the messages in `[from, to)` removed.
pub open spec fn without_range(s: Seq<MessageView>, from: int, to: int) -> Seq<MessageView> {
    s.subrange(0, from) + s.subrange(to, s.len() as int)
}

/// The emergency trim: while over `max` tokens, drop the messages from the
/// region floor `floor` up to the cut, as long as the cut lies above it.
pub open spec fn trimmed(s: Seq<MessageView>, floor: int, keep: nat, max: nat) -> Seq<MessageView>
    decreases s.len(),
{
    if total_tokens(s) <= max {
        s
    } else {
        match cut_index(s, keep) {
            Some(c) => if 0 <= floor < c <= s.len() {
                trimmed(without_range(s, floor, c), floor, keep, max)
            } else {
                s
            },
            None => s,
        }
    }
}

/// The emergency trim never touches the messages below the floor (the
/// pinned system prompt and an existing checkpoint), never grows the
/// context, and when it removed anything, the first message kept above the
/// floor is not a tool result, so no result is parted from its call. What
/// remains is the messages below the floor followed by a suffix of the old
/// context: only one block right above the floor is ever dropped.
pub proof fn lemma_trim_keeps_turns_whole(s: Seq<MessageView>, floor: int, keep: nat, max: nat)
    requires
        0 <= floor <= s.len(),
    ensures
        floor <= trimmed(s, floor, keep, max).len() <= s.len(),
        trimmed(s, floor, keep, max).len() == s.len() ==> trimmed(s, floor, keep, max) == s,
        trimmed(s, floor, keep, max).subrange(0, floor) == s.subrange(0, floor),
        trimmed(s, floor, keep, max).len() < s.len() && floor < trimmed(s, floor, keep, max).len()
            ==> !is_tool_view(trimmed(s, floor, keep, max)[floor]),
        trimmed(s, floor, keep, max) == s.subrange(0, floor) + s.subrange(
            s.len() - (trimmed(s, floor, keep, max).len() - floor),
            s.len() as int,
        ),
    decreases s.len(),
{
    let t = trimmed(s, floor, keep, max);
    if total_tokens(s) <= max {
        assert(s =~= s.subrange(0, floor) + s.subrange(floor, s.len() as int));
    } else {
        lemma_cut_index_safe(s, keep);
        match cut_index(s, keep) {
            Some(c) => if 0 <= floor < c <= s.len() {
                let s2 = without_range(s, floor, c);
                assert(s2.subrange(0, floor) =~= s.subrange(0, floor));
                lemma_trim_keeps_turns_whole(s2, floor, keep, max);
                if floor < s2.len() {
                    assert(s2[floor] == s[c]);
                }
                if t.len() == s2.len() {
                    assert(t == s2);
                }
                assert(t.subrange(0, floor) =~= s2.subrange(0, floor));
                let k = t.len() - floor;
                assert(s2.subrange(s2.len() - k, s2.len() as int) =~= s.subrange(s.len() - k, s.len() as int));
            } else {
                assert(t.subrange(0, floor) =~= s.subrange(0, floor));
                assert(s =~= s.subrange(0, floor) + s.subrange(floor, s.len() as int));
            },
            None => {
                assert(t.subrange(0, floor) =~= s.subrange(0, floor));
                assert(s =~= s.subrange(0, floor) + s.subrange(floor, s.len() as int));
            },
        }
    }
}

/// Where the summarizable region starts: after the previous checkpoint, or
/// at the region floor.
pub open spec fn region_start(s: Seq<MessageView>) -> int {
    match previous_checkpoint_spec(s) {
        Some((_, start)) => start,
        None => floor_of(s),
    }
}

/// The range `[start, cut)` a checkpoint would replace, when there is one.
pub open spec fn summary_range(s: Seq<MessageView>, keep: nat) -> Option<(int, int)> {
    match cut_index(s, keep) {
        Some(c) => if c > region_start(s) {
            Some((region_start(s), c))
        } else {
            None
        },
        None => None,
    }
}

pub open spec fn checkpoint_view(summary: Seq<char>) -> MessageView {
    MessageView::System { content: summary, name: Some(checkpoint_name()) }
}

/// `s` after swapping `[start, cut)` for a checkpoint holding `summary`: it
/// replaces the previous checkpoint at index 1, or is inserted at `start`.
pub open spec fn with_checkpoint(s: Seq<MessageView>, start: int, cut: int, summary: Seq<char>) -> Seq<MessageView> {
    let rest = without_range(s, start, cut);
    if previous_checkpoint_spec(s) is Some {
        rest.update(1, checkpoint_view(summary))
    } else {
        rest.insert(start, checkpoint_view(summary))
    }
}

/// The prior summary handed to the summarizer: the previous checkpoint's
/// text, unless empty.
pub open spec fn prior_summary(s: Seq<MessageView>) -> Option<Seq<char>> {
    match previous_checkpoint_spec(s) {
        Some((text, _)) => if text.len() > 0 {
            Some(text)
        } else {
            None
        },
        None => None,
    }
}

/// What the summarizer is asked for.
#[derive(Debug)]
pub struct SummaryRequest {
    /// The region, flattened to text.
    pub serialized: String,
    /// The summary being extended, if any.
    pub previous_summary: Option<String>,
    /// Files the region only read, sorted.
    pub read_files: Vec<String>,
    /// Files the region modified, sorted.
    pub modified_files: Vec<String>,
}

/// `req` asks for a summary of `context[range]`.
pub open spec fn request_matches(req: SummaryRequest, context: Seq<MessageView>, range: (int, int)) -> bool {
    let region = context.subrange(range.0, range.1);
    &&& req.serialized@ == serialize_spec(region)
    &&& opt_view(req.previous_summary) == prior_summary(context)
    &&& strictly_sorted(views(req.read_files@))
    &&& strictly_sorted(views(req.modified_files@))
    &&& views(req.modified_files@).to_set() == region_paths(region, true)
    &&& views(req.read_files@).to_set() == region_paths(region, false).difference(region_paths(region, true))
}

/// Chooses when and how the conversation context is compacted.
#[derive(Debug)]
pub struct ContextPruner {
    config: ContextPruningConfig,
}

proof fn lemma_without_range_tokens(s: Seq<MessageView>, from: int, to: int)
    requires
        0 <= from <= to <= s.len(),
    ensures
        total_tokens(without_range(s, from, to)) <= total_tokens(s),
{
    let a = s.subrange(0, from);
    let b = s.subrange(from, to);
    let c = s.subrange(to, s.len() as int);
    assert(s =~= a + b + c);
    lemma_total_tokens_append(a + b, c);
    lemma_total_tokens_append(a, b);
    lemma_total_tokens_append(a, c);
}

/// Removes the messages in `[from, to)`.
pub(crate) fn remove_range(ctx: &mut ContextBuffer, from: usize, to: usize)
    requires
        old(ctx).wf(),
        from <= to <= old(ctx)@.len(),
    ensures
        final(ctx).wf(),
        final(ctx)@ == without_range(old(ctx)@, from as int, to as int),
{
    let ghost s = ctx@;
    let mut k: usize = from;
    assert(s =~= s.subrange(0, from as int) + s.subrange(from as int, s.len() as int));
    while k < to
        invariant
            ctx.wf(),
            from <= k <= to <= s.len(),
            ctx@ == s.subrange(0, from as int) + s.subrange(k as int, s.len() as int),
        decreases to - k,
    {
        let ghost before = ctx@;
        let removed = ctx.remove_at(from);
        proof {
            assert(before.remove(from as int) =~= s.subrange(0, from as int) + s.subrange(k + 1, s.len() as int));
        }
        k += 1;
    }
}

impl ContextPruner {
    pub closed spec fn max(&self) -> nat {
        self.config.max_context_tokens as nat
    }

    pub closed spec fn keep(&self) -> nat {
        self.config.keep_recent_tokens as nat
    }

    pub closed spec fn reserve(&self) -> nat {
        self.config.reserve_tokens as nat
    }

    pub fn new(config: ContextPruningConfig) -> (p: ContextPruner)
        ensures
            p.max() == config.max_context_tokens,
            p.keep() == config.keep_recent_tokens,
            p.reserve() == config.reserve_tokens,
    {
        ContextPruner { config }
    }

    /// Adopts a newly learned context window.
    pub fn update_max_tokens(&mut self, new_max: usize)
        ensures
            final(self).max() == new_max,
            final(self).keep() == old(self).keep(),
            final(self).reserve() == old(self).reserve(),
    {
        self.config.max_context_tokens = new_max;
    }

    pub fn max_tokens(&self) -> (r: usize)
        ensures
            r == self.max(),
    {
        self.config.max_context_tokens
    }

    /// Whether the context crosses the compaction trigger
    /// (`estimated > max - reserve`).
    pub fn should_compact(&self, estimated_tokens: usize) -> (r: bool)
        ensures
            r == trigger_spec(estimated_tokens as nat, self.max(), self.reserve()),
    {
        checkpoint_trigger(estimated_tokens, self.config.max_context_tokens, self.config.reserve_tokens)
    }

    /// Last-resort protection of the hard window: drops the oldest complete
    /// turns above the region floor until the context fits or nothing more
    /// can be cut. Returns how many messages were removed.
    pub fn emergency_trim(&self, context: &mut ContextBuffer) -> (removed: usize)
        requires
            old(context).wf(),
        ensures
            final(context).wf(),
            final(context)@ == trimmed(old(context)@, floor_of(old(context)@), self.keep(), self.max()),
            removed == old(context)@.len() - final(context)@.len(),
    {
        let floor = region_floor(context);
        let ghost s0 = context@;
        let ghost target = trimmed(s0, floor as int, self.keep(), self.max());
        let mut removed: usize = 0;
        let n0 = context.len();
        loop
            invariant
                context.wf(),
                n0 == s0.len(),
                floor == floor_of(s0),
                trimmed(context@, floor as int, self.keep(), self.max()) == target,
                removed == s0.len() - context@.len(),
            ensures
                context.wf(),
                context@ == target,
                removed == s0.len() - context@.len(),
            decreases context@.len(),
        {
            if context.estimated_tokens() <= self.config.max_context_tokens {
                break;
            }
            let cut = match find_cut_index(context, self.config.keep_recent_tokens) {
                Some(c) => c,
                None => break,
            };
            proof {
                lemma_cut_index_safe(context@, self.keep());
            }
            if cut <= floor {
                break;
            }
            let before = context.len();
            remove_range(context, floor, cut);
            removed = removed + (before - context.len());
        }
        removed
    }

    /// What to summarize this turn: `None` unless the trigger is crossed and
    /// a non-empty region lies between the region start and the cut.
    pub fn plan_prune(&self, context: &ContextBuffer) -> (r: Option<SummaryRequest>)
        requires
            context.wf(),
        ensures
            match r {
                None => !trigger_spec(total_tokens(context@), self.max(), self.reserve())
                    || summary_range(context@, self.keep()) is None,
                Some(req) => {
                    &&& trigger_spec(total_tokens(context@), self.max(), self.reserve())
                    &&& summary_range(context@, self.keep()) is Some
                    &&& request_matches(req, context@, summary_range(context@, self.keep())->0)
                },
            },
    {
        if !self.should_compact(context.estimated_tokens()) {
            return None;
        }
        let cut = match find_cut_index(context, self.config.keep_recent_tokens) {
            Some(c) => c,
            None => return None,
        };
        proof {
            lemma_cut_index_safe(context@, self.keep());
        }
        let previous = previous_checkpoint(context);
        let start = match &previous {
            Some((_, st)) => *st,
            None => region_floor(context),
        };
        if cut <= start {
            return None;
        }
        let mut region: Vec<ChatMessage> = Vec::new();
        let mut i = start;
        while i < cut
            invariant
                context.wf(),
                start <= i <= cut <= context@.len(),
                region@.map_values(|m: ChatMessage| m@) == context@.subrange(start as int, i as int),
            decreases cut - i,
        {
            let e = context.get_entry(i).unwrap();
            let ghost before = region@.map_values(|m: ChatMessage| m@);
            region.push(e.message.duplicate());
            assert(region@.map_values(|m: ChatMessage| m@) =~= before.push(context@[i as int]));
            assert(context@.subrange(start as int, i + 1) =~= context@.subrange(start as int, i as int).push(
                context@[i as int],
            ));
            i += 1;
        }
        let serialized = serialize_region(region.as_slice());
        let (read_files, modified_files) = extract_file_lists(region.as_slice());
        let previous_summary = match previous {
            Some((text, _)) => if text.as_str().is_empty() {
                None
            } else {
                Some(text)
            },
            None => None,
        };
        Some(SummaryRequest { serialized, previous_summary, read_files, modified_files })
    }

    /// Runs compaction for this turn, given what the summarizer returned for
    /// `plan_prune`'s request (`None` when there was no request, no
    /// summarizer, or it failed). Below the trigger nothing changes. With a
    /// summary, the region is swapped for a checkpoint; if that leaves the
    /// context within the window the turn ends there. Otherwise, within the
    /// window the context is left as it is, and over it the emergency trim
    /// runs.
    pub fn prune(&self, context: &mut ContextBuffer, summary: Option<String>) -> (r: PruneResult)
        requires
            old(context).wf(),
            summary matches Some(t) ==> fits(t@) && total_tokens(old(context)@) + message_tokens(
                checkpoint_view(t@),
            ) <= usize::MAX,
        ensures
            final(context).wf(),
            r.tokens_before == total_tokens(old(context)@),
            r.tokens_after == total_tokens(final(context)@),
            ({
                let s = old(context)@;
                let swapped = match (summary, summary_range(s, self.keep())) {
                    (Some(t), Some((start, cut))) => Some(with_checkpoint(s, start, cut, t@)),
                    _ => None,
                };
                let mid = match swapped {
                    Some(s2) => s2,
                    None => s,
                };
                let replaced: int = match summary_range(s, self.keep()) {
                    Some((start, cut)) => cut - start,
                    None => 0,
                };
                if !trigger_spec(total_tokens(s), self.max(), self.reserve()) {
                    &&& final(context)@ == s
                    &&& !r.pruned && !r.checkpoint && !r.emergency && r.messages_removed == 0
                } else if swapped is Some && total_tokens(mid) <= self.max() {
                    &&& final(context)@ == mid
                    &&& r.pruned && r.checkpoint && !r.emergency
                    &&& r.messages_removed == replaced
                } else if total_tokens(mid) <= self.max() {
                    &&& final(context)@ == mid
                    &&& r.pruned == (total_tokens(mid) < total_tokens(s))
                    &&& !r.checkpoint && !r.emergency && r.messages_removed == 0
                } else {
                    &&& final(context)@ == trimmed(mid, floor_of(mid), self.keep(), self.max())
                    &&& r.emergency && !r.checkpoint
                    &&& r.messages_removed == mid.len() - final(context)@.len()
                    &&& r.pruned == (r.messages_removed > 0)
                }
            }),
    {
        let tokens_before = context.estimated_tokens();
        if !self.should_compact(tokens_before) {
            return PruneResult {
                pruned: false,
                tokens_before,
                tokens_after: tokens_before,
                messages_removed: 0,
                checkpoint: false,
                emergency: false,
            };
        }
        let ghost s = context@;
        let cut = find_cut_index(context, self.config.keep_recent_tokens);
        proof {
            lemma_cut_index_safe(context@, self.keep());
        }
        let previous = previous_checkpoint(context);
        let start = match &previous {
            Some((_, st)) => *st,
            None => region_floor(context),
        };
        if let (Some(c), Some(text)) = (cut, summary) {
            if c > start {
                proof {
                    lemma_without_range_tokens(s, start as int, c as int);
                }
                remove_range(context, start, c);
                let msg = checkpoint_message(text.as_str());
                let ghost rest = context@;
                if previous.is_some() {
                    proof {
                        assert(rest[1] == s[1]);
                        lemma_total_tokens_update(rest, 1, msg@);
                    }
                    context.replace_at(1, msg);
                } else {
                    proof {
                        lemma_total_tokens_insert(rest, start as int, msg@);
                    }
                    context.insert_at(start, msg);
                }
                let tokens_after = context.estimated_tokens();
                if tokens_after <= self.config.max_context_tokens {
                    return PruneResult {
                        pruned: true,
                        tokens_before,
                        tokens_after,
                        messages_removed: c - start,
                        checkpoint: true,
                        emergency: false,
                    };
                }
            }
        }
        let now = context.estimated_tokens();
        if now <= self.config.max_context_tokens {
            return PruneResult {
                pruned: now < tokens_before,
                tokens_before,
                tokens_after: now,
                messages_removed: 0,
                checkpoint: false,
                emergency: false,
            };
        }
        let removed = self.emergency_trim(context);
        let tokens_after = context.estimated_tokens();
        PruneResult {
            pruned: removed > 0,
            tokens_before,
            tokens_after,
            messages_removed: removed,
            checkpoint: false,
            emergency: true,
        }
    }
}

} // verus!
