//! Role-based gating of the privileged built-in tools.
use vstd::prelude::*;
use std::time::Duration;
use crate::text::{join, join_strings, push_str, str_eq, string_of, views};
use crate::types::config::{allows_builtin_spec, Permission};
use crate::types::tool::{error_with_notice, is_noticed_error, ToolExecutionResult};

verus! {

/// Refuses, before execution, the built-in tools the active role's tier
/// does not grant.
#[derive(Debug)]
pub struct PermissionGuardMiddleware {
    permission: Permission,
    workspace_roots: Vec<String>,
}

/// The capability a refused tool would have exercised.
pub open spec fn capability(tool: Seq<char>) -> Seq<char> {
    if tool == "write_file"@ {
        "filesystem write"@
    } else if tool == "bash"@ {
        "shell execution"@
    } else {
        "the requested capability"@
    }
}

/// The hint naming the roots still readable, when any are known.
pub open spec fn roots_hint(roots: Seq<Seq<char>>) -> Seq<char> {
    if roots.len() == 0 {
        Seq::empty()
    } else {
        " Reads inside the allowed workspace roots are still available: ["@ + join(roots, ", "@) + "]."@
    }
}

pub open spec fn refusal_message(tool: Seq<char>) -> Seq<char> {
    "Error: tool '"@ + tool + "' is not available in the current role"@
}

pub open spec fn refusal_action(tool: Seq<char>) -> Seq<char> {
    "Blocked '"@ + tool + "' — not granted by the active role"@
}

pub open spec fn refusal_ground_truth(tool: Seq<char>) -> Seq<char> {
    "The call was rejected before execution. No "@ + capability(tool)
        + " occurred and the workspace is untouched."@
}

pub open spec fn refusal_guidance(roots: Seq<Seq<char>>) -> Seq<char> {
    "This role is read-only. Produce a plan or a patch description for the user to approve instead of attempting to modify the workspace directly, and do not try to work around this with other tools (e.g. shell writes)."@
        + roots_hint(roots)
}

impl PermissionGuardMiddleware {
    pub closed spec fn tier(&self) -> Permission {
        self.permission
    }

    /// Displays of the workspace roots named in refusals.
    pub closed spec fn roots(&self) -> Seq<Seq<char>> {
        views(self.workspace_roots@)
    }

    pub fn new(permission: Permission) -> (g: PermissionGuardMiddleware)
        ensures
            g.tier() == permission,
            g.roots() == Seq::<Seq<char>>::empty(),
    {
        let g = PermissionGuardMiddleware { permission, workspace_roots: Vec::new() };
        assert(g.roots() =~= Seq::<Seq<char>>::empty());
        g
    }

    pub fn with_workspace_roots(self, roots: Vec<String>) -> (g: PermissionGuardMiddleware)
        ensures
            g.tier() == self.tier(),
            g.roots() == views(roots@),
    {
        PermissionGuardMiddleware { permission: self.permission, workspace_roots: roots }
    }

    pub fn permission(&self) -> (p: Permission)
        ensures
            p == self.tier(),
    {
        self.permission
    }

    /// The guard's decision on a call of `tool`: `None` lets it through;
    /// otherwise the refusal, timed at `elapsed`, with a "PermissionGuard"
    /// notice.
    pub fn screen(&self, tool: &str, elapsed: Duration) -> (r: Option<ToolExecutionResult>)
        ensures
            allows_builtin_spec(self.tier(), tool@) ==> r is None,
            !allows_builtin_spec(self.tier(), tool@) ==> (r matches Some(res) && is_noticed_error(
                res,
                refusal_message(tool@),
                "PermissionGuard"@,
                refusal_action(tool@),
                refusal_ground_truth(tool@),
                Some(refusal_guidance(self.roots())),
                elapsed,
            )),
    {
        if self.permission.allows_builtin(tool) {
            return None;
        }
        let cap: &str = if str_eq(tool, "write_file") {
            "filesystem write"
        } else if str_eq(tool, "bash") {
            "shell execution"
        } else {
            "the requested capability"
        };
        assert(cap@ == capability(tool@));
        let mut action = string_of("Blocked '");
        push_str(&mut action, tool);
        push_str(&mut action, "' — not granted by the active role");
        let mut ground_truth = string_of("The call was rejected before execution. No ");
        push_str(&mut ground_truth, cap);
        push_str(&mut ground_truth, " occurred and the workspace is untouched.");
        let mut guidance = string_of(
            "This role is read-only. Produce a plan or a patch description for the user to approve instead of attempting to modify the workspace directly, and do not try to work around this with other tools (e.g. shell writes).",
        );
        let ghost base = guidance@;
        if self.workspace_roots.len() > 0 {
            push_str(&mut guidance, " Reads inside the allowed workspace roots are still available: [");
            let listed = join_strings(&self.workspace_roots, ", ");
            push_str(&mut guidance, listed.as_str());
            push_str(&mut guidance, "].");
            assert(guidance@ =~= base + roots_hint(self.roots()));
        } else {
            assert(guidance@ =~= base + roots_hint(self.roots()));
        }
        assert(guidance@ == refusal_guidance(self.roots()));
        let mut msg = string_of("Error: tool '");
        push_str(&mut msg, tool);
        push_str(&mut msg, "' is not available in the current role");
        Some(
            error_with_notice(
                msg,
                "PermissionGuard",
                action.as_str(),
                ground_truth.as_str(),
                guidance.as_str(),
                elapsed,
            ),
        )
    }
}

} // verus!
