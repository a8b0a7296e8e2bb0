//! The daemon's canned model, for runs without a provider.
use vstd::prelude::*;
use crate::stream::client::LLMStreamChunk;
use crate::text::{push_str, space_pieces, split_after_spaces, string_of, views};
use crate::tui::mock::{greets, is_greeting, last_user_message, last_user_text};
use crate::types::message::ChatMessage;

verus! {

pub open spec fn daemon_reply(last: Seq<char>) -> Seq<char> {
    if greets(last) {
        "Hello! ⚡ I am Thunder Agent Daemon running in Sidecar mode. I am ready to assist you in Electron!"@
    } else {
        "Received prompt: \""@ + last + "\". Thunder Daemon successfully executed this in Mock mode."@
    }
}

/// The daemon's canned model.
#[derive(Debug, Clone, Copy, Default)]
pub struct DaemonMockClient;

impl DaemonMockClient {
    /// The reply to a conversation.
    pub fn reply(&self, messages: &Vec<ChatMessage>) -> (r: String)
        ensures
            r@ == daemon_reply(last_user_text(messages@.map_values(|m: ChatMessage| m@))),
    {
        let last = last_user_message(messages);
        if is_greeting(last.as_str()) {
            string_of("Hello! ⚡ I am Thunder Agent Daemon running in Sidecar mode. I am ready to assist you in Electron!")
        } else {
            let mut r = string_of("Received prompt: \"");
            push_str(&mut r, last.as_str());
            push_str(&mut r, "\". Thunder Daemon successfully executed this in Mock mode.");
            r
        }
    }

    /// The reply word by word (each word with its following space).
    pub fn reply_words(&self, messages: &Vec<ChatMessage>) -> (r: Vec<String>)
        ensures
            views(r@) == space_pieces(daemon_reply(last_user_text(messages@.map_values(|m: ChatMessage| m@)))),
    {
        let text = self.reply(messages);
        split_after_spaces(text.as_str())
    }

    /// The completion sent once every word is out.
    pub fn completion(&self, content: String) -> (c: LLMStreamChunk)
        ensures
            c matches LLMStreamChunk::Completed {
                content: ct,
                tool_calls,
                finish_reason,
                prompt_tokens,
                completion_tokens,
                cached_tokens,
                reasoning_tokens,
            } && ct matches Some(x) && x == content && tool_calls@.len() == 0 && finish_reason@ == "stop"@
                && prompt_tokens is None && completion_tokens is None && cached_tokens is None && reasoning_tokens is None,
    {
        LLMStreamChunk::Completed {
            content: Some(content),
            tool_calls: Vec::new(),
            finish_reason: string_of("stop"),
            prompt_tokens: None,
            completion_tokens: None,
            cached_tokens: None,
            reasoning_tokens: None,
        }
    }

    /// The completion sent when the stream is cancelled midway.
    pub fn cancelled(&self) -> (c: LLMStreamChunk)
        ensures
            c matches LLMStreamChunk::Completed {
                content,
                tool_calls,
                finish_reason,
                prompt_tokens,
                completion_tokens,
                cached_tokens,
                reasoning_tokens,
            } && content is None && tool_calls@.len() == 0 && finish_reason@ == "cancelled"@ && prompt_tokens is None
                && completion_tokens is None && cached_tokens is None && reasoning_tokens is None,
    {
        LLMStreamChunk::Completed {
            content: None,
            tool_calls: Vec::new(),
            finish_reason: string_of("cancelled"),
            prompt_tokens: None,
            completion_tokens: None,
            cached_tokens: None,
            reasoning_tokens: None,
        }
    }
}

} // verus!
