//! Outcomes of tool execution.
use crate::text::{push_str, trim, trim_string};
use crate::tools::middleware::telemetry::{notice_markdown, SystemNotice};
use vstd::prelude::*;
use std::time::Duration;

verus! {

/// Whole milliseconds of a duration, as `Duration::as_millis` truncated to `u64`.
pub uninterp spec fn millis_of(d: Duration) -> u64;

/// `Duration::as_millis`, narrowed to `u64` with `as`. The contract names the
/// result only.
#[verifier::external_body]
pub(crate) fn duration_millis(d: Duration) -> (ms: u64)
    ensures
        ms == millis_of(d),
{
    d.as_millis() as u64
}

/// Size in bytes of the UTF-8 encoding of `s`.
pub open spec fn byte_len(s: Seq<char>) -> nat {
    vstd::utf8::encode_utf8(s).len()
}

pub fn string_byte_len(s: &String) -> (n: usize)
    ensures
        n == byte_len(s@) as usize,
{
    s.as_str().len()
}

/// The result of one tool call as fed back to the model.
#[derive(Debug)]
pub struct ToolExecutionResult {
    pub output: String,
    pub is_error: bool,
    pub truncated: bool,
    pub original_bytes: usize,
    pub duration_ms: u64,
    pub telemetry: Option<SystemNotice>,
}

impl ToolExecutionResult {
    pub fn success(output: String, duration: Duration) -> (r: ToolExecutionResult)
        ensures
            r.output == output,
            !r.is_error,
            !r.truncated,
            r.original_bytes == byte_len(output@) as usize,
            r.duration_ms == millis_of(duration),
            r.telemetry is None,
    {
        let bytes = string_byte_len(&output);
        ToolExecutionResult {
            output,
            is_error: false,
            truncated: false,
            original_bytes: bytes,
            duration_ms: duration_millis(duration),
            telemetry: None,
        }
    }

    pub fn error(error_msg: String, duration: Duration) -> (r: ToolExecutionResult)
        ensures
            r.output == error_msg,
            r.is_error,
            !r.truncated,
            r.original_bytes == byte_len(error_msg@) as usize,
            r.duration_ms == millis_of(duration),
            r.telemetry is None,
    {
        let bytes = string_byte_len(&error_msg);
        ToolExecutionResult {
            output: error_msg,
            is_error: true,
            truncated: false,
            original_bytes: bytes,
            duration_ms: duration_millis(duration),
            telemetry: None,
        }
    }

    /// Appends the notice's markdown (after a blank line, or in place of a
    /// blank output) and records the notice.
    pub fn with_telemetry(self, notice: SystemNotice) -> (r: ToolExecutionResult)
        ensures
            r.output@ == (if trim(self.output@).len() == 0 {
                notice.markdown()
            } else {
                self.output@ + "\n\n"@ + notice.markdown()
            }),
            r.is_error == self.is_error,
            r.truncated == self.truncated,
            r.duration_ms == self.duration_ms,
            r.original_bytes == byte_len(r.output@) as usize,
            r.telemetry == Some(notice),
    {
        let md = notice.format_markdown();
        let trimmed = trim_string(self.output.as_str());
        let output = if trimmed.as_str().is_empty() {
            md
        } else {
            let mut o = self.output;
            push_str(&mut o, "\n\n");
            push_str(&mut o, md.as_str());
            o
        };
        let bytes = string_byte_len(&output);
        ToolExecutionResult {
            output,
            is_error: self.is_error,
            truncated: self.truncated,
            original_bytes: bytes,
            duration_ms: self.duration_ms,
            telemetry: Some(notice),
        }
    }
}


/// `n` carries exactly the given fields.
pub open spec fn notice_is(
    n: SystemNotice,
    layer: Seq<char>,
    action: Seq<char>,
    ground_truth: Seq<char>,
    self_healed: Option<Seq<char>>,
    guidance: Option<Seq<char>>,
) -> bool {
    &&& n.layer@ == layer
    &&& n.action@ == action
    &&& n.ground_truth@ == ground_truth
    &&& crate::types::message::opt_view(n.self_healed) == self_healed
    &&& crate::types::message::opt_view(n.guidance) == guidance
}

/// `r` is the error `msg`, timed at `elapsed`, with a notice of the given
/// fields attached as `with_telemetry` attaches it.
pub open spec fn is_noticed_error(
    r: ToolExecutionResult,
    msg: Seq<char>,
    layer: Seq<char>,
    action: Seq<char>,
    ground_truth: Seq<char>,
    guidance: Option<Seq<char>>,
    elapsed: Duration,
) -> bool {
    let md = notice_markdown(layer, action, ground_truth, None, guidance);
    &&& r.is_error
    &&& !r.truncated
    &&& r.duration_ms == millis_of(elapsed)
    &&& r.output@ == (if trim(msg).len() == 0 { md } else { msg + "\n\n"@ + md })
    &&& r.original_bytes == byte_len(r.output@) as usize
    &&& r.telemetry matches Some(n) && notice_is(n, layer, action, ground_truth, None, guidance)
}

/// The error `msg` with a notice carrying guidance attached.
pub fn error_with_notice(
    msg: String,
    layer: &str,
    action: &str,
    ground_truth: &str,
    guidance: &str,
    elapsed: Duration,
) -> (r: ToolExecutionResult)
    ensures
        is_noticed_error(r, msg@, layer@, action@, ground_truth@, Some(guidance@), elapsed),
{
    let notice = SystemNotice::new(layer, action, ground_truth).with_guidance(guidance);
    ToolExecutionResult::error(msg, elapsed).with_telemetry(notice)
}

} // verus!
