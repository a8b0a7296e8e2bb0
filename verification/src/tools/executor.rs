//! Results of executed tool calls.
use vstd::prelude::*;
use crate::types::message::ToolCall;
use crate::types::tool::ToolExecutionResult;

verus! {

/// A tool call together with what running it produced.
#[derive(Debug)]
pub struct ExecutedToolResult {
    pub tool_call: ToolCall,
    pub result: ToolExecutionResult,
}

} // verus!
