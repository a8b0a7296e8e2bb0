//! Unit configuration: pruning, loop-guard and middleware settings, and the
//! tool capability tier.
use vstd::prelude::*;

verus! {

/// Recommended autonomous agent prompt guiding the LLM to call tools when needed and conclude when done.
pub const DEFAULT_AUTONOMOUS_SYSTEM_PROMPT: &'static str = "You are an autonomous AI agent capable of using tools to solve complex tasks.
Guidelines:
1. If you need additional information or must execute an operation, call the appropriate tool(s).
2. When you have sufficient information to fulfill the user's request, do NOT invoke any further tools; formulate and output your final answer directly to conclude the execution loop.";

#[derive(Debug, Clone, Copy, PartialEq, Eq, Structural)]
pub enum PruningStrategy {
    TruncateToolResults,
    SlidingWindow,
    Hybrid,
}

impl Default for PruningStrategy {
    fn default() -> (s: Self)
        ensures
            s == PruningStrategy::Hybrid,
    {
        PruningStrategy::Hybrid
    }
}

/// Context-window management settings.
#[derive(Debug)]
pub struct ContextPruningConfig {
    /// The model's hard context window in tokens.
    pub max_context_tokens: usize,
    /// Number of recent turns to preserve with full fidelity (default: 3).
    pub preserve_last_turns: usize,
    pub pin_system_prompt: bool,
    pub strategy: PruningStrategy,
    /// Tokens of recent history kept verbatim when a checkpoint is made.
    pub keep_recent_tokens: usize,
    /// Headroom below the window at which compaction triggers.
    pub reserve_tokens: usize,
    /// Model used for summaries (defaults to the unit's model).
    pub summarizer_model: Option<String>,
    /// Completion budget of one summarization request.
    pub summarizer_max_tokens: usize,
}

impl ContextPruningConfig {
    pub fn new() -> (c: Self)
        ensures
            c.max_context_tokens == 128_000,
            c.preserve_last_turns == 3,
            c.pin_system_prompt,
            c.strategy == PruningStrategy::Hybrid,
            c.keep_recent_tokens == 20_000,
            c.reserve_tokens == 16_384,
            c.summarizer_model is None,
            c.summarizer_max_tokens == 8_192,
    {
        ContextPruningConfig {
            max_context_tokens: 128_000,
            preserve_last_turns: 3,
            pin_system_prompt: true,
            strategy: PruningStrategy::Hybrid,
            keep_recent_tokens: 20_000,
            reserve_tokens: 16_384,
            summarizer_model: None,
            summarizer_max_tokens: 8_192,
        }
    }
}

/// Thresholds for the in-loop repetition / error circuit breaker.
#[derive(Debug, Clone, Copy)]
pub struct LoopGuardConfig {
    pub max_history: usize,
    pub repetition_threshold: usize,
    pub hard_repetition_limit: usize,
    pub max_consecutive_errors: usize,
}

impl Default for LoopGuardConfig {
    fn default() -> (c: Self)
        ensures
            c.max_history == 10,
            c.repetition_threshold == 3,
            c.hard_repetition_limit == 5,
            c.max_consecutive_errors == 5,
    {
        LoopGuardConfig {
            max_history: 10,
            repetition_threshold: 3,
            hard_repetition_limit: 5,
            max_consecutive_errors: 5,
        }
    }
}

/// Toggles for the onion middleware layers.
#[derive(Debug, Clone, Copy)]
pub struct MiddlewareConfig {
    pub enable_security_guard: bool,
    pub enable_resource_guard: bool,
    pub enable_transaction: bool,
    pub enable_output_post_processor: bool,
}

impl MiddlewareConfig {
    /// Every layer on except those the host disables (the host reads
    /// `THUNDER_DISABLE_TX` / `THUNDER_DISABLE_SECURITY`).
    pub fn with_disabled(disable_transaction: bool, disable_security: bool) -> (c: Self)
        ensures
            c.enable_security_guard == !disable_security,
            c.enable_resource_guard,
            c.enable_transaction == !disable_transaction,
            c.enable_output_post_processor,
    {
        MiddlewareConfig {
            enable_security_guard: !disable_security,
            enable_resource_guard: true,
            enable_transaction: !disable_transaction,
            enable_output_post_processor: true,
        }
    }
}

/// Whether an environment flag's value switches a feature off: `1` or
/// `true` in any ASCII case.
pub open spec fn flag_set(value: Seq<char>) -> bool {
    value == "1"@ || crate::text::eq_ignore_ascii_case(value, "true"@)
}

pub fn env_flag_set(value: &str) -> (b: bool)
    ensures
        b == flag_set(value@),
{
    crate::text::str_eq(value, "1") || crate::text::eq_ignore_ascii_case_exec(value, "true")
}

/// Tool capability tier: `Read` ⊂ `Write` ⊂ `Bash`.
#[derive(Debug, Clone, Copy, PartialEq, Eq, Structural)]
pub enum Permission {
    /// Read-only: `read_file` only.
    Read,
    /// Read + mutate workspace: adds `write_file`.
    Write,
    /// Full: adds `bash`.
    Bash,
}

pub open spec fn rank(p: Permission) -> int {
    match p {
        Permission::Read => 0,
        Permission::Write => 1,
        Permission::Bash => 2,
    }
}

pub open spec fn allows_builtin_spec(p: Permission, tool: Seq<char>) -> bool {
    if tool == "read_file"@ {
        true
    } else if tool == "write_file"@ {
        rank(p) >= 1
    } else if tool == "bash"@ {
        rank(p) >= 2
    } else {
        true
    }
}

impl Default for Permission {
    /// `Bash` preserves the historical behaviour of every existing caller.
    fn default() -> (p: Self)
        ensures
            p == Permission::Bash,
    {
        Permission::Bash
    }
}

impl Permission {
    pub fn allows_read(self) -> (b: bool)
        ensures
            b,
    {
        true
    }

    pub fn allows_write(self) -> (b: bool)
        ensures
            b == (rank(self) >= 1),
    {
        match self {
            Permission::Write | Permission::Bash => true,
            Permission::Read => false,
        }
    }

    pub fn allows_exec(self) -> (b: bool)
        ensures
            b == (rank(self) >= 2),
    {
        match self {
            Permission::Bash => true,
            _ => false,
        }
    }

    /// Whether this tier permits a privileged built-in tool by name; names
    /// other than `read_file`, `write_file` and `bash` are not gated here.
    pub fn allows_builtin(self, tool_name: &str) -> (b: bool)
        ensures
            b == allows_builtin_spec(self, tool_name@),
    {
        if crate::text::str_eq(tool_name, "read_file") {
            self.allows_read()
        } else if crate::text::str_eq(tool_name, "write_file") {
            self.allows_write()
        } else if crate::text::str_eq(tool_name, "bash") {
            self.allows_exec()
        } else {
            true
        }
    }

    /// Lowercase identifier used in configs, role files and IPC payloads.
    pub fn as_str(self) -> (s: &'static str)
        ensures
            s@ == match self {
                Permission::Read => "read"@,
                Permission::Write => "write"@,
                Permission::Bash => "bash"@,
            },
    {
        match self {
            Permission::Read => "read",
            Permission::Write => "write",
            Permission::Bash => "bash",
        }
    }

    /// Human-readable summary injected into prompts / telemetry.
    pub fn describe(self) -> (s: &'static str)
        ensures
            s@ == match self {
                Permission::Read => "read-only (fs_write=off, bash=off)"@,
                Permission::Write => "read+write (fs_write=on, bash=off)"@,
                Permission::Bash => "full (fs_write=on, bash=on)"@,
            },
    {
        match self {
            Permission::Read => "read-only (fs_write=off, bash=off)",
            Permission::Write => "read+write (fs_write=on, bash=off)",
            Permission::Bash => "full (fs_write=on, bash=on)",
        }
    }

    /// Parses the lowercase identifier produced by `as_str`.
    pub fn parse(s: &str) -> (r: Option<Permission>)
        ensures
            r == (if s@ == "read"@ {
                Some(Permission::Read)
            } else if s@ == "write"@ {
                Some(Permission::Write)
            } else if s@ == "bash"@ {
                Some(Permission::Bash)
            } else {
                None
            }),
    {
        if crate::text::str_eq(s, "read") {
            Some(Permission::Read)
        } else if crate::text::str_eq(s, "write") {
            Some(Permission::Write)
        } else if crate::text::str_eq(s, "bash") {
            Some(Permission::Bash)
        } else {
            None
        }
    }
}

/// The tiers are nested: whatever a lower tier allows, every higher tier
/// allows too.
pub proof fn lemma_permission_ladder(lo: Permission, hi: Permission, tool: Seq<char>)
    requires
        rank(lo) <= rank(hi),
        allows_builtin_spec(lo, tool),
    ensures
        allows_builtin_spec(hi, tool),
{
}

/// `parse` inverts `as_str`.
pub proof fn lemma_permission_round_trip(p: Permission)
    ensures
        (if (match p {
            Permission::Read => "read"@,
            Permission::Write => "write"@,
            Permission::Bash => "bash"@,
        }) == "read"@ {
            Some(Permission::Read)
        } else if (match p {
            Permission::Read => "read"@,
            Permission::Write => "write"@,
            Permission::Bash => "bash"@,
        }) == "write"@ {
            Some(Permission::Write)
        } else if (match p {
            Permission::Read => "read"@,
            Permission::Write => "write"@,
            Permission::Bash => "bash"@,
        }) == "bash"@ {
            Some(Permission::Bash)
        } else {
            None
        }) == Some(p),
{
    reveal_strlit("read");
    reveal_strlit("write");
    reveal_strlit("bash");
    assert("read"@.len() != "write"@.len());
    assert("read"@[0] != "bash"@[0]);
    assert("write"@.len() != "bash"@.len());
}

} // verus!
