//! Atomic file writes: content is staged in a shadow file and renamed over
//! the target. The library decides names, requests and reports; the host
//! performs the file operations.
use vstd::prelude::*;
use std::time::Duration;
use crate::json::{json_str_field, json_string_field};
use crate::text::{
    chars_of, decimal, push_char, push_decimal, push_str, runs, split_runs, str_eq, string_of,
    string_of_chars, views, char_views,
};
use crate::tools::middleware::resource::join_onto;
use crate::tools::middleware::security::{dot, dot_dot, joined_target};
use crate::tools::middleware::telemetry::SystemNotice;
use crate::types::message::ToolCall;
use crate::types::tool::{byte_len, is_noticed_error, notice_is, string_byte_len, ToolExecutionResult};

verus! {

/// Text of the error `serde_json::from_str::<serde_json::Value>` reports for
/// `json`, or `None` when it parses.
pub uninterp spec fn json_error_text(json: Seq<char>) -> Option<Seq<char>>;

/// Parses `json` with `serde_json::from_str::<serde_json::Value>` and
/// renders a failure with `Display`. The contract claims only that the
/// result is a function of the text.
#[verifier::external_body]
fn json_parse_error(json: &str) -> (r: Option<String>)
    ensures
        match r {
            Some(e) => json_error_text(json@) == Some(e@),
            None => json_error_text(json@) is None,
        },
{
    match serde_json::from_str::<serde_json::Value>(json) {
        Ok(_) => None,
        Err(e) => Some(e.to_string()),
    }
}

/// A shadow file that is discarded unless committed.
#[derive(Debug)]
pub struct TempFileGuard {
    path: String,
    committed: bool,
}

impl TempFileGuard {
    pub closed spec fn location(&self) -> Seq<char> {
        self.path@
    }

    pub closed spec fn kept(&self) -> bool {
        self.committed
    }

    pub fn new(path: String) -> (g: TempFileGuard)
        ensures
            g.location() == path@,
            !g.kept(),
    {
        TempFileGuard { path, committed: false }
    }

    /// Marks the file as moved into place: it must not be removed.
    pub fn commit(&mut self)
        ensures
            final(self).kept(),
            final(self).location() == old(self).location(),
    {
        self.committed = true;
    }

    pub fn path(&self) -> (p: &str)
        ensures
            p@ == self.location(),
    {
        self.path.as_str()
    }

    /// Whether the file must be removed when the guard is dropped.
    pub fn discard_on_drop(&self) -> (b: bool)
        ensures
            b == !self.kept(),
    {
        !self.committed
    }
}

/// The last of `segs` that is not `.`.
pub open spec fn last_component(segs: Seq<Seq<char>>) -> Option<Seq<char>>
    decreases segs.len(),
{
    if segs.len() == 0 {
        None
    } else if segs.last() == dot() {
        last_component(segs.drop_last())
    } else {
        Some(segs.last())
    }
}

/// The last component of a path when it is a normal one (`Path::file_name`).
pub open spec fn file_name(p: Seq<char>) -> Option<Seq<char>> {
    match last_component(runs(p, true)) {
        Some(s) => if s == dot_dot() {
            None
        } else {
            Some(s)
        },
        None => None,
    }
}

/// `s` with `/`, `\` and spaces replaced by `_`.
pub open spec fn sanitized(s: Seq<char>) -> Seq<char> {
    s.map_values(|c: char| if c == '/' || c == '\\' || c == ' ' { '_' } else { c })
}

/// Name of the shadow file for `target`: its sanitized file name (or
/// `file`), then the timestamp, process id and counter.
pub open spec fn shadow_name(target: Seq<char>, nanos: u64, pid: u32, counter: u64) -> Seq<char> {
    let stem = match file_name(target) {
        Some(n) => sanitized(n),
        None => "file"@,
    };
    stem + "."@ + decimal(nanos as nat) + "_"@ + decimal(pid as nat) + "_"@ + decimal(counter as nat) + ".tmp"@
}

pub open spec fn written_report(had_original: bool, target: Seq<char>, bytes: nat) -> Seq<char> {
    if had_original {
        "Written "@ + decimal(bytes) + " bytes to '"@ + target
            + "' via atomic rename. Original file safely replaced and permissions preserved."@
    } else {
        "Created new file '"@ + target + "' with "@ + decimal(bytes) + " bytes via atomic shadow staging."@
    }
}

pub open spec fn untouched_report(had_original: bool, target: Seq<char>) -> Seq<char> {
    if had_original {
        "Target file '"@ + target
            + "' remains 100% UNTOUCHED at original state (no data corruption). Shadow temp file discarded."@
    } else {
        "Target file '"@ + target + "' was not created. Shadow temp file discarded."@
    }
}

/// What the middleware does with a call.
#[derive(Debug)]
pub enum WritePlan {
    /// Not a write, or a write missing `path` or `content`: passed on.
    PassThrough,
    /// The arguments are not JSON: refused with this message.
    Refuse(String),
    /// Write `content` atomically to `target`.
    Write { target: String, content: String },
}

/// Makes `write_file` atomic.
#[derive(Debug)]
pub struct TransactionMiddleware {
    workspace_root: String,
    temp_dir: String,
}

pub(crate) fn file_name_of(p: &str) -> (r: Option<String>)
    ensures
        match r {
            Some(n) => file_name(p@) == Some(n@),
            None => file_name(p@) is None,
        },
{
    let v = chars_of(p);
    let segs = split_runs(&v, true);
    let ghost all = char_views(segs@);
    let mut j: usize = segs.len();
    assert(all.subrange(0, j as int) =~= all);
    while j > 0 && segs[j - 1].len() == 1 && segs[j - 1][0] == '.'
        invariant
            j <= segs.len(),
            all == char_views(segs@),
            last_component(all) == last_component(all.subrange(0, j as int)),
        decreases j,
    {
        proof {
            let pre = all.subrange(0, j as int);
            assert(pre.last() == segs@[j - 1]@);
            assert(segs@[j - 1]@ =~= dot());
            assert(pre.drop_last() =~= all.subrange(0, j - 1));
        }
        j -= 1;
    }
    if j == 0 {
        return None;
    }
    let s = &segs[j - 1];
    proof {
        let pre = all.subrange(0, j as int);
        assert(pre.last() == s@);
        if s@ == dot() {
            assert(s@.len() == 1 && s@[0] == '.');
        }
    }
    if s.len() == 2 && s[0] == '.' && s[1] == '.' {
        assert(s@ =~= dot_dot());
        None
    } else {
        proof {
            if s@ == dot_dot() {
                assert(s@.len() == 2 && s@[0] == '.' && s@[1] == '.');
            }
        }
        Some(string_of_chars(s))
    }
}

fn sanitize(s: &str) -> (r: String)
    ensures
        r@ == sanitized(s@),
{
    let v = chars_of(s);
    let mut out = String::new();
    let mut i: usize = 0;
    while i < v.len()
        invariant
            i <= v.len(),
            v@ == s@,
            out@ == sanitized(s@).subrange(0, i as int),
        decreases v.len() - i,
    {
        let c = v[i];
        let d = if c == '/' || c == '\\' || c == ' ' {
            '_'
        } else {
            c
        };
        push_char(&mut out, d);
        assert(sanitized(s@).subrange(0, i + 1) =~= sanitized(s@).subrange(0, i as int).push(d));
        i += 1;
    }
    assert(sanitized(s@).subrange(0, v.len() as int) =~= sanitized(s@));
    out
}

impl TransactionMiddleware {
    pub closed spec fn root(&self) -> Seq<char> {
        self.workspace_root@
    }

    pub closed spec fn staging(&self) -> Seq<char> {
        self.temp_dir@
    }

    /// Stages shadow files under `<workspace_root>/.arp/tmp`.
    pub fn new(workspace_root: &str) -> (t: TransactionMiddleware)
        ensures
            t.root() == workspace_root@,
            t.staging() == joined_target(joined_target(workspace_root@, ".arp"@), "tmp"@),
    {
        let arp = join_onto(workspace_root, ".arp");
        let temp_dir = join_onto(arp.as_str(), "tmp");
        TransactionMiddleware { workspace_root: string_of(workspace_root), temp_dir }
    }

    pub fn temp_dir(&self) -> (d: &str)
        ensures
            d@ == self.staging(),
    {
        self.temp_dir.as_str()
    }

    /// The shadow file for `target`, given the time in nanoseconds since the
    /// epoch, the process id and a process-wide counter.
    pub fn temp_path(&self, target: &str, nanos: u64, pid: u32, counter: u64) -> (p: String)
        ensures
            p@ == joined_target(self.staging(), shadow_name(target@, nanos, pid, counter)),
    {
        let mut name = match file_name_of(target) {
            Some(n) => sanitize(n.as_str()),
            None => string_of("file"),
        };
        push_str(&mut name, ".");
        push_decimal(&mut name, nanos);
        push_str(&mut name, "_");
        push_decimal(&mut name, pid as u64);
        push_str(&mut name, "_");
        push_decimal(&mut name, counter);
        push_str(&mut name, ".tmp");
        join_onto(self.temp_dir.as_str(), name.as_str())
    }

    /// What to do with `call`: `write_file` calls with JSON arguments
    /// holding `path` and `content` are written atomically (relative paths
    /// under the workspace root); unparsable arguments are refused; anything
    /// else passes on.
    pub fn plan(&self, call: &ToolCall) -> (r: WritePlan)
        ensures
            call.function.name@ != "write_file"@ ==> r is PassThrough,
            call.function.name@ == "write_file"@ ==> match json_error_text(call.function.arguments@) {
                Some(e) => r matches WritePlan::Refuse(m) && m@ == "Error parsing arguments for write_file: "@ + e,
                None => match (
                    json_str_field(call.function.arguments@, "path"@),
                    json_str_field(call.function.arguments@, "content"@),
                ) {
                    (Some(p), Some(c)) => r matches WritePlan::Write { target, content } && target@
                        == joined_target(self.root(), p) && content@ == c,
                    _ => r is PassThrough,
                },
            },
    {
        if !str_eq(call.function.name.as_str(), "write_file") {
            return WritePlan::PassThrough;
        }
        let args = call.function.arguments.as_str();
        if let Some(e) = json_parse_error(args) {
            let mut m = string_of("Error parsing arguments for write_file: ");
            push_str(&mut m, e.as_str());
            return WritePlan::Refuse(m);
        }
        match (json_string_field(args, "path"), json_string_field(args, "content")) {
            (Some(p), Some(c)) => WritePlan::Write { target: join_onto(self.workspace_root.as_str(), p.as_str()), content: c },
            _ => WritePlan::PassThrough,
        }
    }

    /// The result reported for an atomic write of `content` to `target`
    /// (`had_original`: the target existed), given how the host's write
    /// ended and how long the call took.
    pub fn report(&self, had_original: bool, target: &str, content: &String, outcome: Result<(), String>, elapsed: Duration) -> (r: ToolExecutionResult)
        ensures
            match outcome {
                Ok(_) => {
                    let text = written_report(had_original, target@, (byte_len(content@) as usize) as nat);
                    &&& !r.is_error
                    &&& r.telemetry matches Some(n) && notice_is(
                        n,
                        "Transaction"@,
                        "Atomic shadow write & rename completed"@,
                        text,
                        None,
                        None,
                    )
                    &&& r.output@ == (if crate::text::trim(text).len() == 0 {
                        crate::tools::middleware::telemetry::notice_markdown("Transaction"@, "Atomic shadow write & rename completed"@, text, None, None)
                    } else {
                        text + "\n\n"@ + crate::tools::middleware::telemetry::notice_markdown(
                            "Transaction"@,
                            "Atomic shadow write & rename completed"@,
                            text,
                            None,
                            None,
                        )
                    })
                    &&& r.duration_ms == crate::types::tool::millis_of(elapsed)
                },
                Err(e) => is_noticed_error(
                    r,
                    e@,
                    "Transaction"@,
                    "Write aborted due to error or cancellation"@,
                    untouched_report(had_original, target@),
                    Some("You may safely retry this write operation or split content into smaller chunks."@),
                    elapsed,
                ),
            },
    {
        match outcome {
            Ok(_) => {
                let bytes = string_byte_len(content);
                let text = if had_original {
                    let mut t = string_of("Written ");
                    push_decimal(&mut t, bytes as u64);
                    push_str(&mut t, " bytes to '");
                    push_str(&mut t, target);
                    push_str(&mut t, "' via atomic rename. Original file safely replaced and permissions preserved.");
                    t
                } else {
                    let mut t = string_of("Created new file '");
                    push_str(&mut t, target);
                    push_str(&mut t, "' with ");
                    push_decimal(&mut t, bytes as u64);
                    push_str(&mut t, " bytes via atomic shadow staging.");
                    t
                };
                let notice = SystemNotice::new("Transaction", "Atomic shadow write & rename completed", text.as_str());
                ToolExecutionResult::success(text, elapsed).with_telemetry(notice)
            },
            Err(e) => {
                let gt = if had_original {
                    let mut t = string_of("Target file '");
                    push_str(&mut t, target);
                    push_str(&mut t, "' remains 100% UNTOUCHED at original state (no data corruption). Shadow temp file discarded.");
                    t
                } else {
                    let mut t = string_of("Target file '");
                    push_str(&mut t, target);
                    push_str(&mut t, "' was not created. Shadow temp file discarded.");
                    t
                };
                crate::types::tool::error_with_notice(
                    e,
                    "Transaction",
                    "Write aborted due to error or cancellation",
                    gt.as_str(),
                    "You may safely retry this write operation or split content into smaller chunks.",
                    elapsed,
                )
            },
        }
    }
}

} // verus!
