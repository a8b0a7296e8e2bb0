//! The conversation context: an ordered message buffer that keeps a running
//! total of its estimated tokens.
use crate::agent::token_estimator::{estimate_token_count, estimate_tokens};
use crate::types::message::{
    role_of, ChatMessage, MessageView, Role, ToolCall, ToolCallView,
};
use vstd::prelude::*;

verus! {

/// Longest text the estimator accepts (a `str` never holds more than
/// `isize::MAX` bytes).
pub open spec fn fits(s: Seq<char>) -> bool {
    s.len() <= usize::MAX / 2
}

pub open spec fn opt_fits(o: Option<Seq<char>>) -> bool {
    match o {
        Some(s) => fits(s),
        None => true,
    }
}

pub open spec fn calls_fit(calls: Seq<ToolCallView>) -> bool {
    forall|i: int| 0 <= i < calls.len() ==> fits(#[trigger] calls[i].name) && fits(calls[i].arguments)
}

/// Every text of the message can be handed to the estimator.
pub open spec fn message_fits(m: MessageView) -> bool {
    match m {
        MessageView::System { content, .. } => fits(content),
        MessageView::User { content, .. } => fits(content),
        MessageView::Assistant { content, tool_calls, .. } => opt_fits(content) && match tool_calls {
            Some(c) => calls_fit(c),
            None => true,
        },
        MessageView::Tool { content, .. } => fits(content),
    }
}

pub open spec fn name_cost(name: Option<Seq<char>>) -> nat {
    if name is Some {
        1
    } else {
        0
    }
}

/// Tokens of a run of tool calls: 8 per call plus its name and arguments.
pub open spec fn calls_tokens(calls: Seq<ToolCallView>) -> nat
    decreases calls.len(),
{
    if calls.len() == 0 {
        0
    } else {
        calls_tokens(calls.drop_last()) + 8 + estimate_tokens(calls.last().name) + estimate_tokens(
            calls.last().arguments,
        )
    }
}

/// Estimated tokens of one message: a 4-token envelope, 1 for a name, and
/// the estimates of its texts.
pub open spec fn message_tokens(m: MessageView) -> nat {
    4 + match m {
        MessageView::System { content, name } => name_cost(name) + estimate_tokens(content),
        MessageView::User { content, name } => name_cost(name) + estimate_tokens(content),
        MessageView::Assistant { content, tool_calls, name } => name_cost(name) + match content {
            Some(c) => estimate_tokens(c),
            None => 0,
        } + match tool_calls {
            Some(calls) => calls_tokens(calls),
            None => 0,
        },
        MessageView::Tool { content, name, .. } => name_cost(name) + estimate_tokens(content),
    }
}

/// Total estimated tokens of a message sequence.
pub open spec fn total_tokens(s: Seq<MessageView>) -> nat
    decreases s.len(),
{
    if s.len() == 0 {
        0
    } else {
        total_tokens(s.drop_last()) + message_tokens(s.last())
    }
}

/// A message the buffer can take: its texts fit the estimator and its
/// estimate fits in `usize`.
pub open spec fn storable(m: MessageView) -> bool {
    message_fits(m) && message_tokens(m) <= usize::MAX
}

pub proof fn lemma_total_tokens_append(a: Seq<MessageView>, b: Seq<MessageView>)
    ensures
        total_tokens(a + b) == total_tokens(a) + total_tokens(b),
    decreases b.len(),
{
    if b.len() == 0 {
        assert(a + b =~= a);
    } else {
        lemma_total_tokens_append(a, b.drop_last());
        assert((a + b).drop_last() =~= a + b.drop_last());
    }
}

pub proof fn lemma_total_tokens_single(m: MessageView)
    ensures
        total_tokens(seq![m]) == message_tokens(m),
{
    assert(seq![m].drop_last() =~= Seq::<MessageView>::empty());
    assert(total_tokens(Seq::<MessageView>::empty()) == 0);
    assert(seq![m].last() == m);
}

/// Token total after removing the element at `i`.
pub proof fn lemma_total_tokens_remove(s: Seq<MessageView>, i: int)
    requires
        0 <= i < s.len(),
    ensures
        total_tokens(s) == total_tokens(s.remove(i)) + message_tokens(s[i]),
{
    assert(s =~= s.subrange(0, i) + seq![s[i]] + s.subrange(i + 1, s.len() as int));
    assert(s.remove(i) =~= s.subrange(0, i) + s.subrange(i + 1, s.len() as int));
    lemma_total_tokens_append(s.subrange(0, i) + seq![s[i]], s.subrange(i + 1, s.len() as int));
    lemma_total_tokens_append(s.subrange(0, i), seq![s[i]]);
    lemma_total_tokens_append(s.subrange(0, i), s.subrange(i + 1, s.len() as int));
    lemma_total_tokens_single(s[i]);
}

/// Token total after inserting `m` at `i`.
pub proof fn lemma_total_tokens_insert(s: Seq<MessageView>, i: int, m: MessageView)
    requires
        0 <= i <= s.len(),
    ensures
        total_tokens(s.insert(i, m)) == total_tokens(s) + message_tokens(m),
{
    let t = s.insert(i, m);
    assert(t.remove(i) =~= s);
    lemma_total_tokens_remove(t, i);
}

/// Token total after replacing the element at `i`.
pub proof fn lemma_total_tokens_update(s: Seq<MessageView>, i: int, m: MessageView)
    requires
        0 <= i < s.len(),
    ensures
        total_tokens(s.update(i, m)) + message_tokens(s[i]) == total_tokens(s) + message_tokens(m),
{
    lemma_total_tokens_remove(s, i);
    lemma_total_tokens_remove(s.update(i, m), i);
    assert(s.update(i, m).remove(i) =~= s.remove(i));
}

/// Every prefix total is bounded by the whole total.
pub proof fn lemma_total_tokens_prefix(s: Seq<MessageView>, k: int)
    requires
        0 <= k <= s.len(),
    ensures
        total_tokens(s.take(k)) <= total_tokens(s),
    decreases s.len() - k,
{
    if k < s.len() {
        lemma_total_tokens_prefix(s, k + 1);
        assert(s.take(k + 1).drop_last() =~= s.take(k));
    } else {
        assert(s.take(k) =~= s);
    }
}

fn tool_calls_tokens(calls: &Vec<ToolCall>) -> (n: usize)
    requires
        calls_fit(crate::types::message::calls_view(calls@)),
        calls_tokens(crate::types::message::calls_view(calls@)) <= usize::MAX,
    ensures
        n == calls_tokens(crate::types::message::calls_view(calls@)),
{
    let ghost cv = crate::types::message::calls_view(calls@);
    let mut n: usize = 0;
    let mut i: usize = 0;
    while i < calls.len()
        invariant
            cv == crate::types::message::calls_view(calls@),
            calls_fit(cv),
            calls_tokens(cv) <= usize::MAX,
            i <= calls.len(),
            n == calls_tokens(cv.take(i as int)),
        decreases calls.len() - i,
    {
        proof {
            assert(cv.take(i + 1).drop_last() =~= cv.take(i as int));
            lemma_calls_tokens_prefix(cv, i + 1);
            assert(cv[i as int] == calls@[i as int]@);
        }
        let a = estimate_token_count(calls[i].function.name.as_str());
        let b = estimate_token_count(calls[i].function.arguments.as_str());
        n = n + 8 + a + b;
        i += 1;
    }
    assert(cv.take(calls.len() as int) =~= cv);
    n
}

proof fn lemma_calls_tokens_prefix(s: Seq<ToolCallView>, k: int)
    requires
        0 <= k <= s.len(),
    ensures
        calls_tokens(s.take(k)) <= calls_tokens(s),
    decreases s.len() - k,
{
    if k < s.len() {
        lemma_calls_tokens_prefix(s, k + 1);
        assert(s.take(k + 1).drop_last() =~= s.take(k));
    } else {
        assert(s.take(k) =~= s);
    }
}

/// One buffered message together with its token estimate.
#[derive(Debug)]
pub struct MessageEntry {
    pub message: ChatMessage,
    pub estimated_tokens: usize,
}

/// Ordered message buffer with a running token total.
#[derive(Debug)]
pub struct ContextBuffer {
    entries: Vec<MessageEntry>,
    total_estimated_tokens: usize,
}

impl View for ContextBuffer {
    type V = Seq<MessageView>;

    closed spec fn view(&self) -> Seq<MessageView> {
        self.entries@.map_values(|e: MessageEntry| e.message@)
    }
}

impl ContextBuffer {
    /// Every entry carries its own estimate and the total is their sum.
    pub closed spec fn wf(&self) -> bool {
        &&& forall|i: int|
            0 <= i < self.entries@.len() ==> (#[trigger] self.entries@[i]).estimated_tokens
                == message_tokens(self.entries@[i].message@)
        &&& self.total_estimated_tokens == total_tokens(self@)
    }

    pub fn new() -> (c: ContextBuffer)
        ensures
            c.wf(),
            c@ == Seq::<MessageView>::empty(),
    {
        let c = ContextBuffer { entries: Vec::new(), total_estimated_tokens: 0 };
        assert(c@ =~= Seq::<MessageView>::empty());
        c
    }

    /// A buffer holding `messages` in order.
    pub fn with_messages(messages: Vec<ChatMessage>) -> (c: ContextBuffer)
        requires
            forall|i: int| 0 <= i < messages@.len() ==> message_fits(#[trigger] messages@[i]@),
            total_tokens(messages@.map_values(|m: ChatMessage| m@)) <= usize::MAX,
        ensures
            c.wf(),
            c@ == messages@.map_values(|m: ChatMessage| m@),
    {
        let ghost mv = messages@.map_values(|m: ChatMessage| m@);
        let mut ctx = ContextBuffer::new();
        let mut messages = messages;
        let mut rest: Vec<ChatMessage> = Vec::new();
        // Consume from the back so every message moves into the buffer.
        while messages.len() > 0
            invariant
                rest@.len() + messages@.len() == mv.len(),
                forall|i: int| 0 <= i < messages@.len() ==> (#[trigger] messages@[i])@ == mv[i],
                forall|i: int|
                    0 <= i < rest@.len() ==> (#[trigger] rest@[i])@ == mv[mv.len() - 1 - i],
            decreases messages.len(),
        {
            let m = messages.pop().unwrap();
            rest.push(m);
        }
        while rest.len() > 0
            invariant
                ctx.wf(),
                ctx@ == mv.take(mv.len() - rest@.len()),
                rest@.len() <= mv.len(),
                forall|i: int|
                    0 <= i < rest@.len() ==> (#[trigger] rest@[i])@ == mv[mv.len() - 1 - i],
                forall|i: int| 0 <= i < mv.len() ==> message_fits(#[trigger] mv[i]),
                total_tokens(mv) <= usize::MAX,
            decreases rest.len(),
        {
            let m = rest.pop().unwrap();
            let ghost k = mv.len() - rest@.len() - 1;
            proof {
                assert(m@ == mv[k]);
                assert(mv.take(k + 1) =~= mv.take(k).push(mv[k]));
                assert(mv.take(k + 1).drop_last() =~= mv.take(k));
                lemma_total_tokens_prefix(mv, k + 1);
            }
            ctx.push(m);
        }
        assert(mv.take(mv.len() as int) =~= mv);
        ctx
    }

    /// Estimated tokens of one message.
    pub fn calculate_message_tokens(msg: &ChatMessage) -> (n: usize)
        requires
            storable(msg@),
        ensures
            n == message_tokens(msg@),
    {
        match msg {
            ChatMessage::System { content, name } => {
                let extra: usize = if name.is_some() { 1 } else { 0 };
                4 + extra + estimate_token_count(content.as_str())
            },
            ChatMessage::User { content, name } => {
                let extra: usize = if name.is_some() { 1 } else { 0 };
                4 + extra + estimate_token_count(content.as_str())
            },
            ChatMessage::Assistant { content, tool_calls, name } => {
                let extra: usize = if name.is_some() { 1 } else { 0 };
                let c: usize = match content {
                    Some(c) => estimate_token_count(c.as_str()),
                    None => 0,
                };
                let t: usize = match tool_calls {
                    Some(calls) => tool_calls_tokens(calls),
                    None => 0,
                };
                4 + extra + c + t
            },
            ChatMessage::Tool { content, name, .. } => {
                let extra: usize = if name.is_some() { 1 } else { 0 };
                4 + extra + estimate_token_count(content.as_str())
            },
        }
    }

    /// Appends `message` at the end.
    pub fn push(&mut self, message: ChatMessage)
        requires
            old(self).wf(),
            message_fits(message@),
            total_tokens(old(self)@) + message_tokens(message@) <= usize::MAX,
        ensures
            final(self).wf(),
            final(self)@ == old(self)@.push(message@),
    {
        let len = self.entries.len();
        self.insert_at(len, message);
    }

    /// Inserts `message` at `index`, or at the end when `index` is past it.
    pub fn insert_at(&mut self, index: usize, message: ChatMessage)
        requires
            old(self).wf(),
            message_fits(message@),
            total_tokens(old(self)@) + message_tokens(message@) <= usize::MAX,
        ensures
            final(self).wf(),
            final(self)@ == old(self)@.insert(
                if index <= old(self)@.len() {
                    index as int
                } else {
                    old(self)@.len() as int
                },
                message@,
            ),
    {
        let tokens = Self::calculate_message_tokens(&message);
        let clamped = if index <= self.entries.len() { index } else { self.entries.len() };
        proof {
            lemma_total_tokens_insert(self@, clamped as int, message@);
        }
        self.total_estimated_tokens = self.total_estimated_tokens + tokens;
        self.entries.insert(clamped, MessageEntry { message, estimated_tokens: tokens });
        proof {
            assert(self@ =~= old(self)@.insert(clamped as int, message@));
            assert forall|i: int| 0 <= i < self.entries@.len() implies (#[trigger] self.entries@[i]).estimated_tokens
                == message_tokens(self.entries@[i].message@) by {
                if i < clamped {
                    assert(self.entries@[i] == old(self).entries@[i]);
                } else if i > clamped {
                    assert(self.entries@[i] == old(self).entries@[i - 1]);
                }
            }
        }
    }

    pub fn len(&self) -> (n: usize)
        ensures
            n == self@.len(),
    {
        self.entries.len()
    }

    pub fn is_empty(&self) -> (b: bool)
        ensures
            b == (self@.len() == 0),
    {
        self.entries.len() == 0
    }

    pub fn estimated_tokens(&self) -> (n: usize)
        requires
            self.wf(),
        ensures
            n == total_tokens(self@),
    {
        self.total_estimated_tokens
    }

    /// Copies of all messages, in order.
    pub fn get_messages(&self) -> (v: Vec<ChatMessage>)
        ensures
            v@.map_values(|m: ChatMessage| m@) == self@,
    {
        let mut v: Vec<ChatMessage> = Vec::new();
        let mut i: usize = 0;
        while i < self.entries.len()
            invariant
                i <= self.entries@.len(),
                v@.len() == i,
                forall|k: int| 0 <= k < i ==> (#[trigger] v@[k])@ == self.entries@[k].message@,
            decreases self.entries.len() - i,
        {
            v.push(self.entries[i].message.duplicate());
            i += 1;
        }
        assert(v@.map_values(|m: ChatMessage| m@) =~= self@);
        v
    }

    /// The entry at `index`, if any.
    pub fn get_entry(&self, index: usize) -> (e: Option<&MessageEntry>)
        requires
            self.wf(),
        ensures
            match e {
                Some(entry) => index < self@.len() && entry.message@ == self@[index as int]
                    && entry.estimated_tokens == message_tokens(self@[index as int]),
                None => index >= self@.len(),
            },
    {
        if index < self.entries.len() {
            Some(&self.entries[index])
        } else {
            None
        }
    }

    /// Makes `prompt` the system prompt: replaces a leading system message,
    /// or inserts one at the front.
    pub fn set_system_prompt(&mut self, prompt: &str)
        requires
            old(self).wf(),
            fits(prompt@),
            total_tokens(old(self)@) + message_tokens(
                MessageView::System { content: prompt@, name: None },
            ) <= usize::MAX,
        ensures
            final(self).wf(),
            final(self)@ == if old(self)@.len() > 0 && role_of(old(self)@[0]) == Role::System {
                old(self)@.update(0, MessageView::System { content: prompt@, name: None })
            } else {
                old(self)@.insert(0, MessageView::System { content: prompt@, name: None })
            },
    {
        let sys_msg = ChatMessage::system(prompt);
        if self.entries.len() > 0 && self.entries[0].message.role() == Role::System {
            proof {
                lemma_total_tokens_update(self@, 0, sys_msg@);
            }
            self.replace_at(0, sys_msg);
        } else {
            self.insert_at(0, sys_msg);
        }
    }

    /// Replaces the message at `index`; no effect when `index` is out of range.
    pub fn replace_at(&mut self, index: usize, new_message: ChatMessage)
        requires
            old(self).wf(),
            message_fits(new_message@),
            index < old(self)@.len() ==> total_tokens(old(self)@.update(index as int, new_message@))
                <= usize::MAX,
        ensures
            final(self).wf(),
            final(self)@ == if index < old(self)@.len() {
                old(self)@.update(index as int, new_message@)
            } else {
                old(self)@
            },
    {
        if index < self.entries.len() {
            proof {
                lemma_total_tokens_update(self@, index as int, new_message@);
                assert(message_tokens(new_message@) <= total_tokens(
                    old(self)@.update(index as int, new_message@),
                )) by {
                    lemma_total_tokens_remove(old(self)@.update(index as int, new_message@), index as int);
                }
            }
            let new_tokens = Self::calculate_message_tokens(&new_message);
            let old_tokens = self.entries[index].estimated_tokens;
            let t = if self.total_estimated_tokens >= old_tokens {
                self.total_estimated_tokens - old_tokens
            } else {
                0
            };
            self.total_estimated_tokens = t + new_tokens;
            self.entries.set(index, MessageEntry { message: new_message, estimated_tokens: new_tokens });
            proof {
                assert(self@ =~= old(self)@.update(index as int, new_message@));
                assert forall|i: int| 0 <= i < self.entries@.len() implies (#[trigger] self.entries@[i]).estimated_tokens
                    == message_tokens(self.entries@[i].message@) by {
                    if i != index {
                        assert(self.entries@[i] == old(self).entries@[i]);
                    }
                }
            }
        }
    }

    /// Removes and returns the message at `index`, if any.
    pub fn remove_at(&mut self, index: usize) -> (r: Option<ChatMessage>)
        requires
            old(self).wf(),
        ensures
            final(self).wf(),
            match r {
                Some(m) => index < old(self)@.len() && m@ == old(self)@[index as int]
                    && final(self)@ == old(self)@.remove(index as int),
                None => index >= old(self)@.len() && final(self)@ == old(self)@,
            },
    {
        if index < self.entries.len() {
            proof {
                lemma_total_tokens_remove(self@, index as int);
            }
            let removed = self.entries.remove(index);
            self.total_estimated_tokens = if self.total_estimated_tokens >= removed.estimated_tokens {
                self.total_estimated_tokens - removed.estimated_tokens
            } else {
                0
            };
            proof {
                assert(self@ =~= old(self)@.remove(index as int));
                assert forall|i: int| 0 <= i < self.entries@.len() implies (#[trigger] self.entries@[i]).estimated_tokens
                    == message_tokens(self.entries@[i].message@) by {
                    if i < index {
                        assert(self.entries@[i] == old(self).entries@[i]);
                    } else {
                        assert(self.entries@[i] == old(self).entries@[i + 1]);
                    }
                }
            }
            Some(removed.message)
        } else {
            None
        }
    }

    /// Removes and returns the last message, if any.
    pub fn pop(&mut self) -> (r: Option<ChatMessage>)
        requires
            old(self).wf(),
        ensures
            final(self).wf(),
            match r {
                Some(m) => old(self)@.len() > 0 && m@ == old(self)@.last() && final(self)@
                    == old(self)@.drop_last(),
                None => old(self)@.len() == 0 && final(self)@ == old(self)@,
            },
    {
        if self.entries.len() > 0 {
            let last = self.entries.len() - 1;
            let r = self.remove_at(last);
            assert(old(self)@.remove(last as int) =~= old(self)@.drop_last());
            r
        } else {
            None
        }
    }

    pub fn clear(&mut self)
        ensures
            final(self).wf(),
            final(self)@ == Seq::<MessageView>::empty(),
    {
        self.entries.clear();
        self.total_estimated_tokens = 0;
        assert(self@ =~= Seq::<MessageView>::empty());
    }
}

} // verus!
