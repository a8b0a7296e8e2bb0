//! Requests the daemon accepts over its line protocol.
use vstd::prelude::*;

verus! {

/// One request, by method.
#[derive(Debug)]
#[allow(inconsistent_fields)]
pub enum DaemonRequest {
    Ping { id: Option<String> },
    ListModels { id: Option<String> },
    ListConversations { id: Option<String> },
    GetConversation { id: Option<String>, session_id: String },
    RunTask {
        id: Option<String>,
        task_id: String,
        prompt: String,
        session_id: Option<String>,
        model: Option<String>,
        use_mock: Option<bool>,
        workspace_dir: Option<String>,
        thinking_level: Option<String>,
    },
    CancelTask { id: Option<String>, task_id: String },
    ReloadPlugins { id: Option<String>, path: Option<String> },
    GetTrace { id: Option<String>, session_id: String, task_id: Option<String> },
    ListTraces { id: Option<String>, session_id: String },
}

} // verus!
