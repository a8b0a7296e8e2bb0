//! What a model client streams back.
use vstd::prelude::*;
use crate::text::string_of;
use crate::types::message::ToolCall;

verus! {

/// An increment of one tool call being streamed.
#[derive(Debug, PartialEq, Eq)]
pub struct StreamToolCallDelta {
    pub index: usize,
    pub id: Option<String>,
    pub name: Option<String>,
    pub arguments_delta: Option<String>,
}

/// One item of a model's response stream.
#[derive(Debug)]
pub enum LLMStreamChunk {
    /// User-visible answer content.
    Token(String),
    /// Reasoning tokens, kept apart from the answer.
    ReasoningToken(String),
    ToolCallChunk(StreamToolCallDelta),
    Completed {
        content: Option<String>,
        tool_calls: Vec<ToolCall>,
        finish_reason: String,
        prompt_tokens: Option<usize>,
        completion_tokens: Option<usize>,
        cached_tokens: Option<usize>,
        reasoning_tokens: Option<usize>,
    },
}

/// The error every request to an unconfigured client gets.
pub open spec fn unconfigured_message() -> Seq<char> {
    "No LLM client configured. In production, thunder-pi-bridge provides the LLM transport via @earendil-works/pi-ai."@
}

/// A client with no transport: every request fails with an explanation.
#[derive(Debug, Clone, Copy, Default)]
pub struct UnconfiguredLLMClient;

impl UnconfiguredLLMClient {
    /// The outcome of any streaming request.
    pub fn stream_chat(&self) -> (r: Result<(), String>)
        ensures
            r matches Err(m) && m@ == unconfigured_message(),
    {
        Err(
            string_of(
                "No LLM client configured. In production, thunder-pi-bridge provides the LLM transport via @earendil-works/pi-ai.",
            ),
        )
    }
}

} // verus!
