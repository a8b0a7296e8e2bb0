//! Recoverable unit-level failures.
use crate::text::{push_str, string_of};
use vstd::prelude::*;

verus! {

/// Recoverable unit-level failure. Terminal loop outcomes (cancellation,
/// budget, max turns) are finish reasons, not errors.
#[derive(Debug)]
pub enum AgentError {
    /// A second `start`/`run` was issued while this unit is already executing.
    AlreadyRunning { agent_id: String },
    /// The spawned loop ended without producing a result (panic or dropped).
    Terminated { agent_id: String },
    /// Host-supplied configuration cannot be used.
    Config(String),
    /// Catch-all for unexpected internal failures.
    Other(String),
}

impl AgentError {
    /// The agent the error concerns, for the variants that name one.
    pub fn agent_id(&self) -> (r: Option<&str>)
        ensures
            match self {
                AgentError::AlreadyRunning { agent_id } => r matches Some(s) && s@ == agent_id@,
                AgentError::Terminated { agent_id } => r matches Some(s) && s@ == agent_id@,
                _ => r is None,
            },
    {
        match self {
            AgentError::AlreadyRunning { agent_id } => Some(agent_id.as_str()),
            AgentError::Terminated { agent_id } => Some(agent_id.as_str()),
            AgentError::Config(_) => None,
            AgentError::Other(_) => None,
        }
    }

    /// Human-readable rendering of the error.
    pub fn message(&self) -> (s: String)
        ensures
            s@ == match self {
                AgentError::AlreadyRunning { agent_id } => "agent `"@ + agent_id@
                    + "` is already running a task"@,
                AgentError::Terminated { agent_id } => "agent `"@ + agent_id@
                    + "` terminated without a result"@,
                AgentError::Config(msg) => "configuration error: "@ + msg@,
                AgentError::Other(msg) => msg@,
            },
    {
        match self {
            AgentError::AlreadyRunning { agent_id } => {
                let mut s = string_of("agent `");
                push_str(&mut s, agent_id.as_str());
                push_str(&mut s, "` is already running a task");
                s
            },
            AgentError::Terminated { agent_id } => {
                let mut s = string_of("agent `");
                push_str(&mut s, agent_id.as_str());
                push_str(&mut s, "` terminated without a result");
                s
            },
            AgentError::Config(msg) => {
                let mut s = string_of("configuration error: ");
                push_str(&mut s, msg.as_str());
                s
            },
            AgentError::Other(msg) => msg.clone(),
        }
    }
}

} // verus!
