//! Memory and cancellation protection around tool execution.
use vstd::prelude::*;
use std::time::Duration;
use crate::json::{json_str_field, json_string_field};
use crate::text::{contains, str_contains, str_eq, string_of};
use crate::tools::middleware::security::{joined_target, NormalPath};
use crate::types::message::ToolCall;
use crate::types::tool::{error_with_notice, is_noticed_error, notice_is, ToolExecutionResult};
use crate::tools::middleware::telemetry::{notice_markdown, SystemNotice};
use crate::text::trim;
use crate::types::tool::{byte_len, millis_of};

verus! {

/// Named result of reading a JSON number member: whether member `key` of
/// the JSON object text `json` holds an unsigned integer (`Value::as_u64`).
pub uninterp spec fn json_has_u64(json: Seq<char>, key: Seq<char>) -> bool;

/// Parses `json` with `serde_json::from_str::<serde_json::Value>` and tests
/// member `key` with `Value::get` and `Value::as_u64`. The contract claims
/// only that the result is a function of the two texts.
#[verifier::external_body]
fn json_unsigned_present(json: &str, key: &str) -> (r: bool)
    ensures
        r == json_has_u64(json@, key@),
{
    match serde_json::from_str::<serde_json::Value>(json) {
        Ok(v) => v.get(key).and_then(|x| x.as_u64()).is_some(),
        Err(_) => false,
    }
}

/// Largest single read allowed by default: 10 MiB.
pub const DEFAULT_MAX_READ_BYTES: u64 = 10485760;

/// A whole-file read the host must size on disk before it runs.
#[derive(Debug)]
pub struct ReadSizeQuery {
    /// The file, joined onto the workspace root when relative.
    pub path: String,
    /// Whether the call names a `limit`, which makes any size acceptable.
    pub limited: bool,
}

/// Guards reads of oversized files and honours cancellation before and
/// after a tool runs.
#[derive(Debug)]
pub struct ResourceGuardMiddleware {
    workspace_root: String,
    max_read_bytes: u64,
}

pub open spec fn cancelled_before_launch(r: ToolExecutionResult, elapsed: Duration) -> bool {
    is_noticed_error(
        r,
        "Tool execution cancelled by user signal"@,
        "ResourceGuard"@,
        "Tool execution cancelled before launch"@,
        "Invocation halted immediately by user cancellation signal."@,
        Some("You may safely formulate a new prompt or retry."@),
        elapsed,
    )
}

impl ResourceGuardMiddleware {
    pub closed spec fn root(&self) -> Seq<char> {
        self.workspace_root@
    }

    pub closed spec fn ceiling(&self) -> u64 {
        self.max_read_bytes
    }

    pub fn new(workspace_root: &str) -> (g: ResourceGuardMiddleware)
        ensures
            g.root() == workspace_root@,
            g.ceiling() == DEFAULT_MAX_READ_BYTES,
    {
        ResourceGuardMiddleware { workspace_root: string_of(workspace_root), max_read_bytes: DEFAULT_MAX_READ_BYTES }
    }

    pub fn with_max_read_bytes(self, bytes: u64) -> (g: ResourceGuardMiddleware)
        ensures
            g.root() == self.root(),
            g.ceiling() == bytes,
    {
        ResourceGuardMiddleware { workspace_root: self.workspace_root, max_read_bytes: bytes }
    }

    pub fn max_read_bytes(&self) -> (b: u64)
        ensures
            b == self.ceiling(),
    {
        self.max_read_bytes
    }

    /// For a `read_file` call with a `path` argument, the file whose size
    /// the host must look up; `None` for other calls.
    pub fn read_size_query(&self, call: &ToolCall) -> (r: Option<ReadSizeQuery>)
        ensures
            match r {
                Some(q) => {
                    &&& call.function.name@ == "read_file"@
                    &&& json_str_field(call.function.arguments@, "path"@) is Some
                    &&& q.path@ == joined_target(self.root(), json_str_field(call.function.arguments@, "path"@)->0)
                    &&& q.limited == json_has_u64(call.function.arguments@, "limit"@)
                },
                None => call.function.name@ != "read_file"@ || json_str_field(call.function.arguments@, "path"@) is None,
            },
    {
        if !str_eq(call.function.name.as_str(), "read_file") {
            return None;
        }
        let args = call.function.arguments.as_str();
        match json_string_field(args, "path") {
            Some(p) => {
                let path = join_onto(self.workspace_root.as_str(), p.as_str());
                let limited = json_unsigned_present(args, "limit");
                Some(ReadSizeQuery { path, limited })
            },
            None => None,
        }
    }

    /// Whether a whole read of a file of `file_size` bytes is refused: it
    /// exceeds the ceiling and the call sets no `limit`.
    pub fn is_oversized(&self, file_size: u64, limited: bool) -> (r: bool)
        ensures
            r == (file_size > self.ceiling() && !limited),
    {
        file_size > self.max_read_bytes && !limited
    }

    /// The refusal of a call made after cancellation was signalled.
    pub fn cancelled_result(&self, elapsed: Duration) -> (r: ToolExecutionResult)
        ensures
            cancelled_before_launch(r, elapsed),
    {
        error_with_notice(
            string_of("Tool execution cancelled by user signal"),
            "ResourceGuard",
            "Tool execution cancelled before launch",
            "Invocation halted immediately by user cancellation signal.",
            "You may safely formulate a new prompt or retry.",
            elapsed,
        )
    }

    /// A result coming back from the tool: an error reporting cancellation
    /// gets a notice that the operation stopped cleanly; anything else is
    /// returned as it is.
    pub fn after_execution(&self, res: ToolExecutionResult) -> (r: ToolExecutionResult)
        ensures
            !(res.is_error && contains(res.output@, "Tool execution cancelled"@)) ==> r == res,
            res.is_error && contains(res.output@, "Tool execution cancelled"@) ==> {
                let md = notice_markdown(
                    "ResourceGuard"@,
                    "Tool execution interrupted by cancellation signal"@,
                    "Running process/operation was halted cleanly upon receiving user signal."@,
                    None,
                    Some("The cancelled operation has been stopped without persistent corruption."@),
                );
                &&& r.output@ == (if trim(res.output@).len() == 0 { md } else { res.output@ + "\n\n"@ + md })
                &&& r.is_error == res.is_error
                &&& r.truncated == res.truncated
                &&& r.duration_ms == res.duration_ms
                &&& r.original_bytes == byte_len(r.output@) as usize
                &&& r.telemetry matches Some(n) && notice_is(
                    n,
                    "ResourceGuard"@,
                    "Tool execution interrupted by cancellation signal"@,
                    "Running process/operation was halted cleanly upon receiving user signal."@,
                    None,
                    Some("The cancelled operation has been stopped without persistent corruption."@),
                )
            },
    {
        if res.is_error && str_contains(res.output.as_str(), "Tool execution cancelled") {
            let notice = SystemNotice::new(
                "ResourceGuard",
                "Tool execution interrupted by cancellation signal",
                "Running process/operation was halted cleanly upon receiving user signal.",
            ).with_guidance("The cancelled operation has been stopped without persistent corruption.");
            return res.with_telemetry(notice);
        }
        res
    }
}

/// `target` joined onto `base` when relative (`Path::join`).
pub fn join_onto(base: &str, target: &str) -> (r: String)
    ensures
        r@ == joined_target(base@, target@),
{
    let t = crate::text::chars_of(target);
    if t.len() > 0 && t[0] == '/' {
        return string_of(target);
    }
    let b = crate::text::chars_of(base);
    let mut r = string_of(base);
    if b.len() > 0 && b[b.len() - 1] != '/' {
        crate::text::push_char(&mut r, '/');
    }
    crate::text::push_str(&mut r, target);
    proof {
        if b.len() == 0 {
            assert(r@ =~= target@);
        }
    }
    r
}

} // verus!
