//! A canned model for running the interface without a provider.
use vstd::prelude::*;
use crate::stream::client::LLMStreamChunk;
use crate::text::{contains, lowercase, push_str, space_pieces, split_after_spaces, str_contains, string_of, to_lowercase, views};
use crate::types::message::{ChatMessage, MessageView};

verus! {

/// The text of the last user message, or `hello` when there is none.
pub open spec fn last_user_text(ms: Seq<MessageView>) -> Seq<char>
    decreases ms.len(),
{
    if ms.len() == 0 {
        "hello"@
    } else {
        match ms.last() {
            MessageView::User { content, .. } => content,
            _ => last_user_text(ms.drop_last()),
        }
    }
}

/// Whether a prompt reads as a greeting: it contains `hello` or `hi`,
/// ignoring case.
pub open spec fn greets(t: Seq<char>) -> bool {
    contains(lowercase(t), "hello"@) || contains(lowercase(t), "hi"@)
}

pub fn last_user_message(messages: &Vec<ChatMessage>) -> (r: String)
    ensures
        r@ == last_user_text(messages@.map_values(|m: ChatMessage| m@)),
{
    let ghost ms = messages@.map_values(|m: ChatMessage| m@);
    let mut i = messages.len();
    assert(ms.subrange(0, ms.len() as int) =~= ms);
    while i > 0
        invariant
            i <= messages.len(),
            ms == messages@.map_values(|m: ChatMessage| m@),
            last_user_text(ms) == last_user_text(ms.subrange(0, i as int)),
        decreases i,
    {
        proof {
            let pre = ms.subrange(0, i as int);
            assert(pre.last() == messages@[i - 1]@);
            assert(pre.drop_last() =~= ms.subrange(0, i - 1));
        }
        if let ChatMessage::User { content, .. } = &messages[i - 1] {
            return content.clone();
        }
        i -= 1;
    }
    string_of("hello")
}

pub fn is_greeting(t: &str) -> (b: bool)
    ensures
        b == greets(t@),
{
    let l = to_lowercase(t);
    str_contains(l.as_str(), "hello") || str_contains(l.as_str(), "hi")
}

pub open spec fn tui_reply(last: Seq<char>) -> Seq<char> {
    if greets(last) {
        "Hello! 👋 I am Thunder Assistant running in ultra-fast Mock mode. How can I help you today?"@
    } else {
        "Received your request: \""@ + last + "\". Thunder Agent executed this successfully in Mock mode."@
    }
}

/// The interface's canned model.
#[derive(Debug, Clone, Copy, Default)]
pub struct TuiMockClient;

impl TuiMockClient {
    /// The reply to a conversation.
    pub fn reply(&self, messages: &Vec<ChatMessage>) -> (r: String)
        ensures
            r@ == tui_reply(last_user_text(messages@.map_values(|m: ChatMessage| m@))),
    {
        let last = last_user_message(messages);
        if is_greeting(last.as_str()) {
            string_of("Hello! 👋 I am Thunder Assistant running in ultra-fast Mock mode. How can I help you today?")
        } else {
            let mut r = string_of("Received your request: \"");
            push_str(&mut r, last.as_str());
            push_str(&mut r, "\". Thunder Agent executed this successfully in Mock mode.");
            r
        }
    }

    /// What the stream carries, in order: the reply word by word (each word
    /// with its following space), then completion with the whole reply and
    /// fixed usage figures.
    pub fn stream_items(&self, messages: &Vec<ChatMessage>) -> (r: Vec<LLMStreamChunk>)
        ensures
            ({
                let text = tui_reply(last_user_text(messages@.map_values(|m: ChatMessage| m@)));
                let words = space_pieces(text);
                &&& r@.len() == words.len() + 1
                &&& forall|i: int| 0 <= i < words.len() ==> ((#[trigger] r@[i]) matches LLMStreamChunk::Token(w) && w@ == words[i])
                &&& r@.last() matches LLMStreamChunk::Completed {
                    content,
                    tool_calls,
                    finish_reason,
                    prompt_tokens,
                    completion_tokens,
                    cached_tokens,
                    reasoning_tokens,
                } && content matches Some(c) && c@ == text && tool_calls@.len() == 0 && finish_reason@ == "stop"@
                    && prompt_tokens == Some(15usize) && completion_tokens == Some(25usize) && cached_tokens is None
                    && reasoning_tokens is None
            }),
    {
        let text = self.reply(messages);
        let words = split_after_spaces(text.as_str());
        let mut out: Vec<LLMStreamChunk> = Vec::new();
        let mut i: usize = 0;
        while i < words.len()
            invariant
                i <= words.len(),
                out@.len() == i,
                views(words@) == space_pieces(text@),
                forall|k: int| 0 <= k < i ==> ((#[trigger] out@[k]) matches LLMStreamChunk::Token(w) && w@ == views(words@)[k]),
            decreases words.len() - i,
        {
            out.push(LLMStreamChunk::Token(words[i].clone()));
            i += 1;
        }
        out.push(LLMStreamChunk::Completed {
            content: Some(text),
            tool_calls: Vec::new(),
            finish_reason: string_of("stop"),
            prompt_tokens: Some(15),
            completion_tokens: Some(25),
            cached_tokens: None,
            reasoning_tokens: None,
        });
        out
    }
}

} // verus!
