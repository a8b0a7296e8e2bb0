//! Rolling compaction without a model: older turns are folded into a
//! mechanical state digest placed right after the pinned system prompt.
use vstd::prelude::*;
use crate::agent::context::{
    calls_tokens, fits, lemma_total_tokens_append, lemma_total_tokens_insert, lemma_total_tokens_single,
    lemma_total_tokens_update, message_tokens, total_tokens, ContextBuffer,
};
use crate::pruning::strategy::without_range;
use crate::text::{
    contains, decimal, first_line, occurs_at, first_line_of, lines, lines_upto, push_char, push_decimal, push_str,
    str_contains, string_of, trim, trim_string, views,
};
use crate::types::message::{role_of, ChatMessage, MessageView, Role, ToolCallView};

verus! {

/// What one compaction did.
#[derive(Debug)]
pub struct CompactionResult {
    pub compacted: bool,
    pub messages_compacted: usize,
    pub tokens_before: usize,
    pub tokens_after: usize,
    pub digest_summary: String,
}

pub open spec fn digest_marker() -> Seq<char> {
    "【Previous Conversation Summary"@
}

pub open spec fn digest_name() -> Seq<char> {
    "state_digest"@
}

/// The context starts with a system prompt.
pub open spec fn pinned_system(s: Seq<MessageView>) -> bool {
    s.len() > 0 && role_of(s[0]) == Role::System
}

/// Index 1 holds an earlier digest.
pub open spec fn has_digest(s: Seq<MessageView>) -> bool {
    &&& pinned_system(s)
    &&& s.len() > 1
    &&& s[1] matches MessageView::System { content, .. } && contains(content, digest_marker())
}

/// First index the compaction may fold.
pub open spec fn fold_start(s: Seq<MessageView>) -> int {
    if has_digest(s) {
        2
    } else if pinned_system(s) {
        1
    } else {
        0
    }
}

/// The earlier digest's text, or empty text.
pub open spec fn prior_digest(s: Seq<MessageView>) -> Seq<char> {
    if has_digest(s) {
        s[1]->System_content
    } else {
        Seq::empty()
    }
}

pub open spec fn call_count(calls: Option<Seq<ToolCallView>>) -> nat {
    match calls {
        Some(c) => c.len(),
        None => 0,
    }
}

/// Notes gathered from folded messages, in order: up to five user
/// directives (first lines, trimmed), the number of tool calls, and the
/// findings (up to five assistant first lines, trimmed, plus every tool
/// output mentioning "Error" or "failed").
pub open spec fn notes(ms: Seq<MessageView>) -> (Seq<Seq<char>>, nat, Seq<Seq<char>>)
    decreases ms.len(),
{
    if ms.len() == 0 {
        (Seq::empty(), 0, Seq::empty())
    } else {
        let (q, n, f) = notes(ms.drop_last());
        match ms.last() {
            MessageView::User { content, .. } => {
                let t = trim(first_line(content));
                if t.len() > 0 && q.len() < 5 {
                    (q.push(t), n, f)
                } else {
                    (q, n, f)
                }
            },
            MessageView::Assistant { content, tool_calls, .. } => {
                let f2 = match content {
                    Some(c) => {
                        let t = trim(first_line(c));
                        if t.len() > 0 && f.len() < 5 {
                            f.push(t)
                        } else {
                            f
                        }
                    },
                    None => f,
                };
                (q, n + call_count(tool_calls), f2)
            },
            MessageView::Tool { content, name, .. } => {
                if contains(content, "Error"@) || contains(content, "failed"@) {
                    let who = match name {
                        Some(x) => x,
                        None => "tool"@,
                    };
                    (q, n, f.push("Tool '"@ + who + "' output: "@ + first_line(content)))
                } else {
                    (q, n, f)
                }
            },
            MessageView::System { .. } => (q, n, f),
        }
    }
}

/// Lines kept from the earlier digest: each indented, header lines dropped.
pub open spec fn prior_lines(ls: Seq<Seq<char>>) -> Seq<char>
    decreases ls.len(),
{
    if ls.len() == 0 {
        Seq::empty()
    } else {
        let l = ls.last();
        prior_lines(ls.drop_last()) + if l.len() > 0 && l[0] == '【' {
            Seq::empty()
        } else {
            "  "@ + l + "\n"@
        }
    }
}

pub open spec fn bullets(xs: Seq<Seq<char>>) -> Seq<char>
    decreases xs.len(),
{
    if xs.len() == 0 {
        Seq::empty()
    } else {
        bullets(xs.drop_last()) + "  - "@ + xs.last() + "\n"@
    }
}

pub open spec fn first_six(ls: Seq<Seq<char>>) -> Seq<Seq<char>> {
    ls.take(if 6 <= ls.len() { 6 } else { ls.len() as int })
}

pub open spec fn prior_section(prior: Seq<char>) -> Seq<char> {
    if prior.len() > 0 {
        "• Prior Milestone Context:\n"@ + prior_lines(first_six(lines(prior)))
    } else {
        Seq::empty()
    }
}

pub open spec fn directives_section(q: Seq<Seq<char>>) -> Seq<char> {
    if q.len() > 0 {
        "• Key User Directives Processed:\n"@ + bullets(q)
    } else {
        Seq::empty()
    }
}

pub open spec fn actions_section(n: nat) -> Seq<char> {
    if n > 0 {
        "• Actions Performed: "@ + decimal(n) + " tool executions recorded.\n"@
    } else {
        Seq::empty()
    }
}

pub open spec fn findings_section(f: Seq<Seq<char>>) -> Seq<char> {
    if f.len() > 0 {
        "• Discovered Facts & Key Progress:\n"@ + bullets(f)
    } else {
        Seq::empty()
    }
}

pub open spec fn artifacts_section(artifacts: Seq<char>) -> Seq<char> {
    if artifacts.len() > 0 {
        "\n"@ + artifacts
    } else {
        Seq::empty()
    }
}

/// The digest text from the earlier digest `prior`, the notes `(q, n, f)`
/// and the artifacts manifest.
pub open spec fn digest_from(prior: Seq<char>, q: Seq<Seq<char>>, n: nat, f: Seq<Seq<char>>, artifacts: Seq<char>) -> Seq<char> {
    "【Previous Conversation Summary & Milestone State Digest】:\n"@ + prior_section(prior) + directives_section(q)
        + actions_section(n) + findings_section(f) + artifacts_section(artifacts)
}

/// The digest text for folded messages `ms`, the earlier digest `prior` and
/// the artifacts manifest.
pub open spec fn digest_text(prior: Seq<char>, ms: Seq<MessageView>, artifacts: Seq<char>) -> Seq<char> {
    digest_from(prior, notes(ms).0, notes(ms).1, notes(ms).2, artifacts)
}

proof fn lemma_contains_self(p: Seq<char>)
    ensures
        contains(p, p),
{
    assert(occurs_at(p, p, 0)) by {
        assert(p.subrange(0, p.len() as int) =~= p);
    }
}

proof fn lemma_contains_left(a: Seq<char>, b: Seq<char>, p: Seq<char>)
    requires
        contains(a, p),
    ensures
        contains(a + b, p),
{
    let at = choose|at: int| occurs_at(a, p, at);
    assert((a + b).subrange(at, at + p.len()) =~= a.subrange(at, at + p.len()));
    assert(occurs_at(a + b, p, at));
}

proof fn lemma_contains_right(a: Seq<char>, b: Seq<char>, p: Seq<char>)
    requires
        contains(b, p),
    ensures
        contains(a + b, p),
{
    let at = choose|at: int| occurs_at(b, p, at);
    assert((a + b).subrange(a.len() + at, a.len() + at + p.len()) =~= b.subrange(at, at + p.len()));
    assert(occurs_at(a + b, p, a.len() + at));
}

proof fn lemma_bullets_contain(xs: Seq<Seq<char>>, k: int)
    requires
        0 <= k < xs.len(),
    ensures
        contains(bullets(xs), "  - "@ + xs[k] + "\n"@),
    decreases xs.len(),
{
    let line = "  - "@ + xs[k] + "\n"@;
    if k == xs.len() - 1 {
        lemma_contains_self(line);
        assert(bullets(xs) =~= bullets(xs.drop_last()) + line);
        lemma_contains_right(bullets(xs.drop_last()), line, line);
    } else {
        assert(xs.drop_last()[k] == xs[k]);
        lemma_bullets_contain(xs.drop_last(), k);
        assert(bullets(xs) =~= bullets(xs.drop_last()) + ("  - "@ + xs.last() + "\n"@));
        lemma_contains_left(bullets(xs.drop_last()), "  - "@ + xs.last() + "\n"@, line);
    }
}

/// The finding a folded tool result contributes: the tool's name (`tool`
/// when it has none) and the first line of its output.
pub open spec fn tool_finding(name: Option<Seq<char>>, content: Seq<char>) -> Seq<char> {
    "Tool '"@ + (match name {
        Some(x) => x,
        None => "tool"@,
    }) + "' output: "@ + first_line(content)
}

proof fn lemma_failure_noted(ms: Seq<MessageView>, i: int)
    requires
        0 <= i < ms.len(),
        ms[i] is Tool,
        contains(ms[i]->Tool_content, "Error"@) || contains(ms[i]->Tool_content, "failed"@),
    ensures
        notes(ms).2.contains(tool_finding(ms[i]->Tool_name, ms[i]->Tool_content)),
    decreases ms.len(),
{
    let (q, n, f) = notes(ms.drop_last());
    let x = tool_finding(ms[i]->Tool_name, ms[i]->Tool_content);
    if i == ms.len() - 1 {
        assert(ms.last() == ms[i]);
        assert(notes(ms).2 == f.push(x));
        assert(notes(ms).2[f.len() as int] == x);
    } else {
        assert(ms.drop_last()[i] == ms[i]);
        lemma_failure_noted(ms.drop_last(), i);
        let k = choose|k: int| 0 <= k < f.len() && f[k] == x;
        assert(notes(ms).2.len() >= f.len());
        assert(notes(ms).2[k] == f[k]);
    }
}

/// Every folded tool result whose output reports an error or a failure
/// ("Error" or "failed") reaches the digest: under the findings heading, as
/// a bullet naming the tool with the first line of its output.
pub proof fn lemma_failures_reach_digest(prior: Seq<char>, ms: Seq<MessageView>, artifacts: Seq<char>, i: int)
    requires
        0 <= i < ms.len(),
        ms[i] is Tool,
        contains(ms[i]->Tool_content, "Error"@) || contains(ms[i]->Tool_content, "failed"@),
    ensures
        contains(digest_text(prior, ms, artifacts), "• Discovered Facts & Key Progress:\n"@),
        contains(
            digest_text(prior, ms, artifacts),
            "  - "@ + "Tool '"@ + (match ms[i]->Tool_name {
                Some(x) => x,
                None => "tool"@,
            }) + "' output: "@ + first_line(ms[i]->Tool_content) + "\n"@,
        ),
{
    let (q, n, f) = notes(ms);
    let x = tool_finding(ms[i]->Tool_name, ms[i]->Tool_content);
    lemma_failure_noted(ms, i);
    let k = choose|k: int| 0 <= k < f.len() && f[k] == x;
    let hdr = "• Discovered Facts & Key Progress:\n"@;
    let line = "  - "@ + x + "\n"@;
    let nm = match ms[i]->Tool_name {
        Some(y) => y,
        None => "tool"@,
    };
    assert(line =~= "  - "@ + "Tool '"@ + nm + "' output: "@ + first_line(ms[i]->Tool_content) + "\n"@);
    lemma_bullets_contain(f, k);
    assert(findings_section(f) == hdr + bullets(f));
    lemma_contains_right(hdr, bullets(f), line);
    lemma_contains_self(hdr);
    lemma_contains_left(hdr, bullets(f), hdr);
    let before = "【Previous Conversation Summary & Milestone State Digest】:\n"@ + prior_section(prior)
        + directives_section(q) + actions_section(n);
    let art = artifacts_section(artifacts);
    assert(digest_text(prior, ms, artifacts) == before + findings_section(f) + art);
    lemma_contains_right(before, findings_section(f), line);
    lemma_contains_left(before + findings_section(f), art, line);
    lemma_contains_right(before, findings_section(f), hdr);
    lemma_contains_left(before + findings_section(f), art, hdr);
}

pub open spec fn digest_view(text: Seq<char>) -> MessageView {
    MessageView::System { content: text, name: Some(digest_name()) }
}

/// Messages folded when `keep` recent messages stay: `[start, len - keep)`,
/// or `None` when that range is empty.
pub open spec fn fold_range(s: Seq<MessageView>, keep: nat) -> Option<(int, int)> {
    if s.len() <= fold_start(s) + keep {
        None
    } else {
        Some((fold_start(s), s.len() - keep))
    }
}

/// The context after folding `[start, cut)` into a digest holding `text`:
/// it replaces the earlier digest, or goes right after the system prompt,
/// or first.
pub open spec fn folded(s: Seq<MessageView>, start: int, cut: int, text: Seq<char>) -> Seq<MessageView> {
    let rest = without_range(s, start, cut);
    if has_digest(s) {
        rest.update(1, digest_view(text))
    } else if pinned_system(s) {
        rest.insert(1, digest_view(text))
    } else {
        rest.insert(0, digest_view(text))
    }
}

/// Folding keeps the pinned system prompt first, puts the digest right
/// after it (in place of an earlier digest), keeps the last `keep` messages
/// verbatim and in order, and leaves fewer messages than before.
pub proof fn lemma_fold_keeps_prompt_and_recent(s: Seq<MessageView>, keep: nat, text: Seq<char>)
    requires
        fold_range(s, keep) is Some,
    ensures
        ({
            let (start, cut) = fold_range(s, keep).unwrap();
            let after = folded(s, start, cut, text);
            &&& pinned_system(s) ==> after[0] == s[0]
            &&& after[if pinned_system(s) { 1int } else { 0int }] == digest_view(text)
            &&& after.len() >= keep
            &&& forall|i: int| 0 <= i < keep ==> #[trigger] after[after.len() - keep + i] == s[s.len() - keep + i]
            &&& after.len() <= s.len()
        }),
{
    let (start, cut) = fold_range(s, keep).unwrap();
    let rest = without_range(s, start, cut);
    let after = folded(s, start, cut, text);
    assert(rest.len() == s.len() - (cut - start));
    assert forall|i: int| 0 <= i < keep implies #[trigger] after[after.len() - keep + i] == s[s.len() - keep + i] by {
        assert(rest[rest.len() - keep + i] == s[s.len() - keep + i]);
        if has_digest(s) {
            assert(after[after.len() - keep + i] == rest[rest.len() - keep + i]);
        } else if pinned_system(s) {
            assert(after[after.len() - keep + i] == rest[rest.len() - keep + i]);
        } else {
            assert(after[after.len() - keep + i] == rest[rest.len() - keep + i]);
        }
    }
    if pinned_system(s) {
        assert(rest[0] == s[0]);
    }
}

proof fn lemma_calls_tokens_bound(c: Seq<ToolCallView>)
    ensures
        calls_tokens(c) >= 8 * c.len(),
    decreases c.len(),
{
    if c.len() > 0 {
        lemma_calls_tokens_bound(c.drop_last());
    }
}

proof fn lemma_notes_calls_bound(ms: Seq<MessageView>)
    ensures
        8 * notes(ms).1 <= total_tokens(ms),
    decreases ms.len(),
{
    if ms.len() > 0 {
        lemma_notes_calls_bound(ms.drop_last());
        match ms.last() {
            MessageView::Assistant { tool_calls, .. } => {
                match tool_calls {
                    Some(c) => lemma_calls_tokens_bound(c),
                    None => {},
                }
            },
            _ => {},
        }
    }
}

proof fn lemma_range_tokens(s: Seq<MessageView>, a: int, b: int)
    requires
        0 <= a <= b <= s.len(),
    ensures
        total_tokens(s.subrange(a, b)) <= total_tokens(s),
        total_tokens(without_range(s, a, b)) <= total_tokens(s),
{
    let x = s.subrange(0, a);
    let y = s.subrange(a, b);
    let z = s.subrange(b, s.len() as int);
    assert(s =~= x + y + z);
    lemma_total_tokens_append(x + y, z);
    lemma_total_tokens_append(x, y);
    lemma_total_tokens_append(x, z);
}

fn push_bullets(out: &mut String, xs: &Vec<String>)
    ensures
        final(out)@ == old(out)@ + bullets(views(xs@)),
{
    let ghost start = out@;
    let mut i: usize = 0;
    while i < xs.len()
        invariant
            i <= xs.len(),
            out@ == start + bullets(views(xs@).subrange(0, i as int)),
        decreases xs.len() - i,
    {
        push_str(out, "  - ");
        push_str(out, xs[i].as_str());
        push_str(out, "\n");
        proof {
            let pre = views(xs@).subrange(0, i + 1);
            assert(pre.drop_last() =~= views(xs@).subrange(0, i as int));
            assert(pre.last() == xs@[i as int]@);
        }
        i += 1;
    }
    assert(views(xs@).subrange(0, xs.len() as int) =~= views(xs@));
}

fn push_prior_lines(out: &mut String, prior: &str)
    ensures
        final(out)@ == old(out)@ + prior_lines(first_six(lines(prior@))),
{
    let ls = lines_upto(prior, 6);
    let ghost start = out@;
    let mut i: usize = 0;
    while i < ls.len()
        invariant
            i <= ls.len(),
            views(ls@) == first_six(lines(prior@)),
            out@ == start + prior_lines(views(ls@).subrange(0, i as int)),
        decreases ls.len() - i,
    {
        let l = &ls[i];
        let lc = crate::text::chars_of(l.as_str());
        proof {
            let pre = views(ls@).subrange(0, i + 1);
            assert(pre.drop_last() =~= views(ls@).subrange(0, i as int));
            assert(pre.last() == l@);
        }
        if !(lc.len() > 0 && lc[0] == '【') {
            push_str(out, "  ");
            push_str(out, l.as_str());
            push_str(out, "\n");
        } else {
            assert(out@ =~= out@ + Seq::<char>::empty());
        }
        i += 1;
    }
    assert(views(ls@).subrange(0, ls.len() as int) =~= views(ls@));
}

#[verifier::spinoff_prover]
#[verifier::rlimit(40)]
fn build_digest(prior: &str, questions: &Vec<String>, calls: usize, findings: &Vec<String>, artifacts: &str) -> (d: String)
    ensures
        d@ == digest_from(prior@, views(questions@), calls as nat, views(findings@), artifacts@),
{
    let mut digest = string_of("【Previous Conversation Summary & Milestone State Digest】:\n");
    let ghost d0 = digest@;
    if !prior.is_empty() {
        push_str(&mut digest, "• Prior Milestone Context:\n");
        push_prior_lines(&mut digest, prior);
    }
    assert(digest@ =~= d0 + prior_section(prior@));
    let ghost d1 = digest@;
    assert(views(questions@).len() == questions.len());
    if questions.len() > 0 {
        push_str(&mut digest, "• Key User Directives Processed:\n");
        push_bullets(&mut digest, questions);
    }
    assert(digest@ =~= d1 + directives_section(views(questions@)));
    let ghost d2 = digest@;
    if calls > 0 {
        push_str(&mut digest, "• Actions Performed: ");
        push_decimal(&mut digest, calls as u64);
        push_str(&mut digest, " tool executions recorded.\n");
    }
    assert(digest@ =~= d2 + actions_section(calls as nat));
    let ghost d3 = digest@;
    assert(views(findings@).len() == findings.len());
    if findings.len() > 0 {
        push_str(&mut digest, "• Discovered Facts & Key Progress:\n");
        push_bullets(&mut digest, findings);
    }
    assert(digest@ =~= d3 + findings_section(views(findings@)));
    let ghost d4 = digest@;
    if !artifacts.is_empty() {
        push_str(&mut digest, "\n");
        push_str(&mut digest, artifacts);
    }
    assert(digest@ =~= d4 + artifacts_section(artifacts@));
    digest
}

/// Folds older turns into a state digest; the most recent
/// `preserve_recent_turns` turns (three messages each) stay verbatim.
#[derive(Debug)]
pub struct RollingCompactor {
    preserve_recent_turns: usize,
}

impl RollingCompactor {
    pub closed spec fn keep(&self) -> nat {
        (self.preserve_recent_turns * 3) as nat
    }

    pub fn new(preserve_recent_turns: usize) -> (c: RollingCompactor)
        requires
            preserve_recent_turns * 3 + 2 <= usize::MAX,
        ensures
            c.keep() == preserve_recent_turns * 3,
    {
        RollingCompactor { preserve_recent_turns }
    }

    /// Compacts when the context holds more than `trigger_threshold` tokens.
    pub fn compact_if_needed(&self, context: &mut ContextBuffer, trigger_threshold: usize, artifacts_summary: &str) -> (r: CompactionResult)
        requires
            old(context).wf(),
            self.keep() + 2 <= usize::MAX,
            total_tokens(old(context)@) > trigger_threshold ==> self.digest_fits(old(context)@, artifacts_summary@),
        ensures
            final(context).wf(),
            r.tokens_before == total_tokens(old(context)@),
            total_tokens(old(context)@) <= trigger_threshold ==> {
                &&& final(context)@ == old(context)@
                &&& !r.compacted && r.messages_compacted == 0
                &&& r.tokens_after == r.tokens_before
                &&& r.digest_summary@ == Seq::<char>::empty()
            },
            total_tokens(old(context)@) > trigger_threshold ==> self.compacts(
                old(context)@,
                final(context)@,
                artifacts_summary@,
                r,
            ),
    {
        let tokens_before = context.estimated_tokens();
        if tokens_before <= trigger_threshold {
            return CompactionResult {
                compacted: false,
                messages_compacted: 0,
                tokens_before,
                tokens_after: tokens_before,
                digest_summary: String::new(),
            };
        }
        self.force_compact(context, artifacts_summary)
    }

    /// The digest of `s` can join it without overflowing the token count.
    pub open spec fn digest_fits(&self, s: Seq<MessageView>, artifacts: Seq<char>) -> bool {
        fold_range(s, self.keep()) matches Some((start, cut)) ==> {
            let text = digest_text(prior_digest(s), s.subrange(start, cut), artifacts);
            fits(text) && total_tokens(s) + message_tokens(digest_view(text)) <= usize::MAX
        }
    }

    /// `after` and `r` are what folding `before` gives.
    pub open spec fn compacts(&self, before: Seq<MessageView>, after: Seq<MessageView>, artifacts: Seq<char>, r: CompactionResult) -> bool {
        &&& r.tokens_before == total_tokens(before)
        &&& r.tokens_after == total_tokens(after)
        &&& match fold_range(before, self.keep()) {
            None => after == before && !r.compacted && r.messages_compacted == 0 && r.digest_summary@
                == Seq::<char>::empty(),
            Some((start, cut)) => {
                let text = digest_text(prior_digest(before), before.subrange(start, cut), artifacts);
                &&& r.compacted
                &&& r.messages_compacted == cut - start
                &&& r.digest_summary@ == text
                &&& after == folded(before, start, cut, text)
            },
        }
    }

    /// Folds the messages between the system prompt (and an earlier digest)
    /// and the preserved recent turns into a fresh digest, which also carries
    /// the artifacts manifest.
    pub fn force_compact(&self, context: &mut ContextBuffer, artifacts_summary: &str) -> (r: CompactionResult)
        requires
            old(context).wf(),
            self.keep() + 2 <= usize::MAX,
            self.digest_fits(old(context)@, artifacts_summary@),
        ensures
            final(context).wf(),
            self.compacts(old(context)@, final(context)@, artifacts_summary@, r),
    {
        let ghost s = context@;
        let tokens_before = context.estimated_tokens();
        let len = context.len();
        let pinned = match context.get_entry(0) {
            Some(e) => e.message.role() == Role::System,
            None => false,
        };
        let digest_present = pinned && match context.get_entry(1) {
            Some(e) => match &e.message {
                ChatMessage::System { content, .. } => str_contains(
                    content.as_str(),
                    "【Previous Conversation Summary",
                ),
                _ => false,
            },
            None => false,
        };
        assert(digest_present == has_digest(s));
        let start: usize = if digest_present {
            2
        } else if pinned {
            1
        } else {
            0
        };
        let keep = self.preserve_recent_turns * 3;
        if len <= start + keep {
            return CompactionResult {
                compacted: false,
                messages_compacted: 0,
                tokens_before,
                tokens_after: tokens_before,
                digest_summary: String::new(),
            };
        }
        let cutoff = len - keep;
        let ghost region = s.subrange(start as int, cutoff as int);
        let prior: String = if digest_present {
            match context.get_entry(1) {
                Some(e) => match &e.message {
                    ChatMessage::System { content, .. } => content.clone(),
                    _ => String::new(),
                },
                None => String::new(),
            }
        } else {
            String::new()
        };
        assert(prior@ == prior_digest(s));
        let mut questions: Vec<String> = Vec::new();
        let mut calls: usize = 0;
        let mut findings: Vec<String> = Vec::new();
        let mut i = start;
        proof {
            lemma_range_tokens(s, start as int, cutoff as int);
            assert(s.subrange(start as int, start as int) =~= Seq::<MessageView>::empty());
        }
        while i < cutoff
            invariant
                context.wf(),
                context@ == s,
                start <= i <= cutoff <= s.len(),
                total_tokens(s.subrange(start as int, cutoff as int)) <= total_tokens(s),
                total_tokens(s) <= usize::MAX,
                (views(questions@), calls as nat, views(findings@)) == notes(s.subrange(start as int, i as int)),
            decreases cutoff - i,
        {
            let ghost pre = s.subrange(start as int, i as int);
            let ghost next = s.subrange(start as int, i + 1);
            proof {
                assert(next.drop_last() =~= pre);
                assert(next.last() == s[i as int]);
                lemma_notes_calls_bound(next);
                lemma_range_tokens(s, start as int, i + 1);
            }
            let e = context.get_entry(i).unwrap();
            match &e.message {
                ChatMessage::User { content, .. } => {
                    let text = trim_string(first_line_of(content.as_str()).as_str());
                    if !text.as_str().is_empty() && questions.len() < 5 {
                        let ghost before = views(questions@);
                        questions.push(text);
                        assert(views(questions@) =~= before.push(text@));
                    } else {
                        assert(text@.len() == 0 || views(questions@).len() >= 5);
                    }
                },
                ChatMessage::Assistant { content, tool_calls, .. } => {
                    match tool_calls {
                        Some(cs) => {
                            calls = calls + cs.len();
                        },
                        None => {},
                    }
                    match content {
                        Some(c) => {
                            let text = trim_string(first_line_of(c.as_str()).as_str());
                            if !text.as_str().is_empty() && findings.len() < 5 {
                                let ghost before = views(findings@);
                                findings.push(text);
                                assert(views(findings@) =~= before.push(text@));
                            } else {
                                assert(text@.len() == 0 || views(findings@).len() >= 5);
                            }
                        },
                        None => {},
                    }
                },
                ChatMessage::Tool { content, name, .. } => {
                    if str_contains(content.as_str(), "Error") || str_contains(content.as_str(), "failed") {
                        let mut f = string_of("Tool '");
                        match name {
                            Some(n) => push_str(&mut f, n.as_str()),
                            None => push_str(&mut f, "tool"),
                        }
                        push_str(&mut f, "' output: ");
                        let first = first_line_of(content.as_str());
                        push_str(&mut f, first.as_str());
                        let ghost before = views(findings@);
                        findings.push(f);
                        assert(views(findings@) =~= before.push(f@));
                    }
                },
                ChatMessage::System { .. } => {},
            }
            i += 1;
        }
        let digest = build_digest(prior.as_str(), &questions, calls, &findings, artifacts_summary);
        proof {
            assert(s.subrange(start as int, i as int) == region);
        }
        let remove_count = cutoff - start;
        proof {
            lemma_range_tokens(s, start as int, cutoff as int);
        }
        crate::pruning::strategy::remove_range(context, start, cutoff);
        let ghost rest = context@;
        let msg = ChatMessage::System { content: digest.clone(), name: Some(string_of("state_digest")) };
        assert(msg@ == digest_view(digest@));
        if digest_present {
            proof {
                assert(rest[1] == s[1]);
                lemma_total_tokens_update(rest, 1, msg@);
            }
            context.replace_at(1, msg);
        } else if pinned {
            proof {
                lemma_total_tokens_insert(rest, 1, msg@);
            }
            context.insert_at(1, msg);
        } else {
            proof {
                lemma_total_tokens_insert(rest, 0, msg@);
            }
            context.insert_at(0, msg);
        }
        let tokens_after = context.estimated_tokens();
        CompactionResult {
            compacted: true,
            messages_compacted: remove_count,
            tokens_before,
            tokens_after,
            digest_summary: digest,
        }
    }
}

} // verus!
