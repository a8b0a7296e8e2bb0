//! Output post-processing, the innermost layer: tool output is sanitized,
//! oversized output is handed to the scratchpad when one is configured, and
//! what is still too large is cut to a head and a tail on character
//! boundaries with a note of what was left out.
use vstd::prelude::*;
use std::time::Duration;
use crate::text::{chars_of, contains, decimal, push_decimal, push_str, str_contains, string_from_chars, string_of};
use crate::tools::sanitizer::{binary_spec, sanitize_tool_output, strip_spec};
use crate::types::tool::{byte_len, duration_millis, millis_of, ToolExecutionResult};

verus! {

/// Bytes of the UTF-8 encoding of `c`.
pub open spec fn char_bytes(c: char) -> nat {
    vstd::utf8::encode_scalar(c as u32).len()
}

pub proof fn lemma_byte_len_concat(a: Seq<char>, b: Seq<char>)
    ensures
        byte_len(a + b) == byte_len(a) + byte_len(b),
    decreases a.len(),
{
    if a.len() == 0 {
        assert(a + b =~= b);
    } else {
        assert((a + b)[0] == a[0]);
        assert((a + b).drop_first() =~= a.drop_first() + b);
        lemma_byte_len_concat(a.drop_first(), b);
    }
}

pub proof fn lemma_byte_len_single(c: char)
    ensures
        byte_len(seq![c]) == char_bytes(c),
{
    let one = seq![c];
    assert(one.drop_first() =~= Seq::<char>::empty());
    assert(one[0] == c);
    assert(vstd::utf8::encode_utf8(one.drop_first()) == Seq::<u8>::empty());
    assert(vstd::utf8::encode_utf8(one) == vstd::utf8::encode_scalar(c as u32) + Seq::<u8>::empty());
    assert(vstd::utf8::encode_scalar(c as u32) + Seq::<u8>::empty() =~= vstd::utf8::encode_scalar(c as u32));
}

/// The number of leading characters of `s` whose encoding fits in `budget`
/// bytes: the longest such prefix.
pub open spec fn fit_prefix(s: Seq<char>, budget: nat) -> nat
    decreases s.len(),
{
    if s.len() == 0 {
        0
    } else if char_bytes(s[0]) <= budget {
        1 + fit_prefix(s.drop_first(), (budget - char_bytes(s[0])) as nat)
    } else {
        0
    }
}

/// The number of trailing characters of `s` whose encoding fits in
/// `budget` bytes: the longest such suffix.
pub open spec fn fit_suffix(s: Seq<char>, budget: nat) -> nat
    decreases s.len(),
{
    if s.len() == 0 {
        0
    } else if char_bytes(s.last()) <= budget {
        1 + fit_suffix(s.drop_last(), (budget - char_bytes(s.last())) as nat)
    } else {
        0
    }
}

/// Bytes kept on each side of a cut: four tenths of the limit.
pub open spec fn keep_bytes(max: nat) -> nat {
    max * 4 / 10
}

/// The longest prefix of `s` on a character boundary within `keep` bytes.
pub open spec fn head_of(s: Seq<char>, keep: nat) -> Seq<char> {
    s.take(fit_prefix(s, keep) as int)
}

/// The longest suffix of `s` on a character boundary within `keep` bytes.
pub open spec fn tail_of(s: Seq<char>, keep: nat) -> Seq<char> {
    s.skip(s.len() - fit_suffix(s, keep))
}

/// Output over `max` bytes, cut: its head, a note of how many bytes were
/// left out of how many, and its tail.
pub open spec fn truncated_text(s: Seq<char>, max: nat) -> Seq<char> {
    let h = head_of(s, keep_bytes(max));
    let t = tail_of(s, keep_bytes(max));
    let total = byte_len(s);
    h + "\n\n[... Output truncated: "@ + decimal((total - byte_len(h) - byte_len(t)) as nat)
        + " bytes omitted (total: "@ + decimal(total) + " bytes) ...]\n\n"@ + t
}

/// `r` is `output` formatted within `max` bytes, as `format_and_truncate`
/// makes it.
pub open spec fn is_formatted(r: ToolExecutionResult, output: String, is_error: bool, elapsed: Duration, max: nat) -> bool {
    &&& byte_len(output@) <= max ==> r.output == output && !r.truncated
    &&& byte_len(output@) > max ==> r.truncated && r.output@ == truncated_text(output@, max)
    &&& r.original_bytes == byte_len(output@)
    &&& r.is_error == is_error
    &&& r.duration_ms == millis_of(elapsed)
    &&& r.telemetry is None
}

fn char_width(c: char) -> (w: usize)
    ensures
        w == char_bytes(c),
        1 <= w <= 4,
{
    proof {
        vstd::utf8::char_is_scalar(c);
    }
    let u = c as u32;
    if u < 0x80 {
        1
    } else if u < 0x800 {
        2
    } else if u < 0x10000 {
        3
    } else {
        4
    }
}

fn keep_of(max: usize) -> (k: usize)
    ensures
        k == keep_bytes(max as nat),
{
    let q = max / 10;
    let r = max % 10;
    assert(q * 4 + r * 4 / 10 == max * 4 / 10) by (nonlinear_arith)
        requires
            q == max / 10,
            r == max % 10,
    ;
    q * 4 + r * 4 / 10
}

/// Keeps output within `max_output_bytes`: output that fits is returned as
/// it is; larger output keeps its longest head and tail on character
/// boundaries of four tenths of the limit each, with a note between them of
/// the bytes left out and the total.
pub fn format_and_truncate(output: String, is_error: bool, elapsed: Duration, max_output_bytes: usize) -> (r: ToolExecutionResult)
    ensures
        is_formatted(r, output, is_error, elapsed, max_output_bytes as nat),
        byte_len(output@) > max_output_bytes ==> byte_len(head_of(output@, keep_bytes(max_output_bytes as nat)))
            <= keep_bytes(max_output_bytes as nat) && byte_len(tail_of(output@, keep_bytes(max_output_bytes as nat)))
            <= keep_bytes(max_output_bytes as nat),
{
    let total = output.as_str().as_bytes().len();
    let duration_ms = duration_millis(elapsed);
    if total <= max_output_bytes {
        return ToolExecutionResult {
            output,
            is_error,
            truncated: false,
            original_bytes: total,
            duration_ms,
            telemetry: None,
        };
    }
    let keep = keep_of(max_output_bytes);
    let v = chars_of(output.as_str());
    let n = v.len();
    let ghost s = v@;
    // The head: as many leading characters as fit in `keep` bytes.
    let mut i: usize = 0;
    let mut used_h: usize = 0;
    assert(s.subrange(0, n as int) =~= s);
    assert(s.take(0) =~= Seq::<char>::empty());
    while i < n && char_width(v[i]) <= keep - used_h
        invariant
            s == v@,
            n == v.len(),
            i <= n,
            used_h <= keep,
            used_h == byte_len(s.take(i as int)),
            fit_prefix(s, keep as nat) == i + fit_prefix(s.subrange(i as int, n as int), (keep - used_h) as nat),
        decreases n - i,
    {
        let w = char_width(v[i]);
        proof {
            let sub = s.subrange(i as int, n as int);
            assert(sub[0] == s[i as int]);
            assert(sub.drop_first() =~= s.subrange(i + 1, n as int));
            assert(s.take(i + 1) =~= s.take(i as int) + seq![s[i as int]]);
            lemma_byte_len_concat(s.take(i as int), seq![s[i as int]]);
            lemma_byte_len_single(s[i as int]);
        }
        used_h = used_h + w;
        i = i + 1;
    }
    proof {
        let sub = s.subrange(i as int, n as int);
        if i < n {
            assert(sub[0] == s[i as int]);
        }
    }
    // The tail: as many trailing characters as fit in `keep` bytes.
    let mut j: usize = n;
    let mut used_t: usize = 0;
    assert(s.subrange(n as int, n as int) =~= Seq::<char>::empty());
    assert(s.take(n as int) =~= s);
    while j > 0 && char_width(v[j - 1]) <= keep - used_t
        invariant
            s == v@,
            n == v.len(),
            j <= n,
            used_t <= keep,
            used_t == byte_len(s.subrange(j as int, n as int)),
            fit_suffix(s, keep as nat) == (n - j) + fit_suffix(s.take(j as int), (keep - used_t) as nat),
        decreases j,
    {
        let w = char_width(v[j - 1]);
        proof {
            let pre = s.take(j as int);
            assert(pre.last() == s[j - 1]);
            assert(pre.drop_last() =~= s.take(j - 1));
            assert(s.subrange(j - 1, n as int) =~= seq![s[j - 1]] + s.subrange(j as int, n as int));
            lemma_byte_len_concat(seq![s[j - 1]], s.subrange(j as int, n as int));
            lemma_byte_len_single(s[j - 1]);
        }
        used_t = used_t + w;
        j = j - 1;
    }
    proof {
        let pre = s.take(j as int);
        if j > 0 {
            assert(pre.last() == s[j - 1]);
        }
        assert(s.skip(n - fit_suffix(s, keep as nat)) =~= s.subrange(j as int, n as int));
        assert(keep * 2 <= max_output_bytes);
    }
    let omitted = total - used_h - used_t;
    let head = string_from_chars(&v, 0, i);
    let tail = string_from_chars(&v, j, n);
    let mut out = head;
    push_str(&mut out, "\n\n[... Output truncated: ");
    push_decimal(&mut out, omitted as u64);
    push_str(&mut out, " bytes omitted (total: ");
    push_decimal(&mut out, total as u64);
    push_str(&mut out, " bytes) ...]\n\n");
    push_str(&mut out, tail.as_str());
    proof {
        assert(s.take(i as int) =~= s.subrange(0, i as int));
    }
    ToolExecutionResult {
        output: out,
        is_error,
        truncated: true,
        original_bytes: total,
        duration_ms,
        telemetry: None,
    }
}

/// Tool output as sanitized: a placeholder for binary output, else the text
/// without ANSI escapes.
pub open spec fn sanitized(output: Seq<char>) -> Seq<char> {
    if binary_spec(vstd::utf8::encode_utf8(output)) {
        "[Binary data omitted: "@ + decimal(vstd::utf8::encode_utf8(output).len() as usize as nat) + " bytes]"@
    } else {
        strip_spec(output)
    }
}

/// The marker of output that already stands in for a saved file.
pub open spec fn saved_marker() -> Seq<char> {
    "[Large Output Saved to Disk]"@
}

/// Whether sanitized output goes to the scratchpad: one is configured, the
/// output exceeds its threshold, and it is not already a saved-file handle.
pub open spec fn persists(threshold: Option<usize>, s: Seq<char>) -> bool {
    threshold matches Some(t) && byte_len(s) > t && !contains(s, saved_marker())
}

/// The innermost layer's settings: the byte ceiling of output, and the
/// threshold of the scratchpad that keeps oversized output, when one is
/// configured.
#[derive(Debug)]
pub struct OutputPostProcessorMiddleware {
    max_output_bytes: usize,
    scratchpad_threshold: Option<usize>,
}

/// What the layer does with a tool's result: it is done, or the sanitized
/// output is to be saved to the scratchpad first.
#[derive(Debug)]
pub enum OutputStep {
    Done(ToolExecutionResult),
    Persist(String),
}

impl OutputPostProcessorMiddleware {
    pub closed spec fn max_bytes(&self) -> nat {
        self.max_output_bytes as nat
    }

    pub closed spec fn threshold(&self) -> Option<usize> {
        self.scratchpad_threshold
    }

    pub fn new(max_output_bytes: usize, scratchpad_threshold: Option<usize>) -> (m: OutputPostProcessorMiddleware)
        ensures
            m.max_bytes() == max_output_bytes,
            m.threshold() == scratchpad_threshold,
    {
        OutputPostProcessorMiddleware { max_output_bytes, scratchpad_threshold }
    }

    /// The same layer with a scratchpad of the given threshold.
    pub fn with_scratchpad(self, threshold_bytes: usize) -> (m: OutputPostProcessorMiddleware)
        ensures
            m.max_bytes() == self.max_bytes(),
            m.threshold() == Some(threshold_bytes),
    {
        OutputPostProcessorMiddleware { scratchpad_threshold: Some(threshold_bytes), ..self }
    }

    /// Post-processes the inner layers' result (its output, whether it is an
    /// error, and its duration): errors come back sanitized and untouched;
    /// oversized output goes to the scratchpad when one is configured;
    /// anything else is kept within the byte ceiling.
    pub fn post_process(&self, output: String, is_error: bool, elapsed: Duration) -> (r: OutputStep)
        ensures
            is_error ==> (r matches OutputStep::Done(res) && res.output@ == sanitized(output@) && res.is_error
                && !res.truncated && res.original_bytes == byte_len(sanitized(output@)) as usize
                && res.duration_ms == millis_of(elapsed) && res.telemetry is None),
            !is_error && persists(self.threshold(), sanitized(output@)) ==> (r matches OutputStep::Persist(p)
                && p@ == sanitized(output@)),
            !is_error && !persists(self.threshold(), sanitized(output@)) ==> (r matches OutputStep::Done(res)
                && res.output@ == (if byte_len(sanitized(output@)) <= self.max_bytes() {
                sanitized(output@)
            } else {
                truncated_text(sanitized(output@), self.max_bytes())
            }) && res.truncated == (byte_len(sanitized(output@)) > self.max_bytes()) && !res.is_error
                && res.original_bytes == byte_len(sanitized(output@)) && res.duration_ms == millis_of(elapsed)
                && res.telemetry is None),
    {
        let clean = sanitize_tool_output(output);
        if is_error {
            return OutputStep::Done(ToolExecutionResult::error(clean, elapsed));
        }
        let bytes = clean.as_str().as_bytes().len();
        match self.scratchpad_threshold {
            Some(t) => {
                if bytes > t && !str_contains(clean.as_str(), "[Large Output Saved to Disk]") {
                    return OutputStep::Persist(clean);
                }
            },
            None => {},
        }
        OutputStep::Done(format_and_truncate(clean, false, elapsed, self.max_output_bytes))
    }

    /// The result once the scratchpad was asked to keep `saved` (the
    /// sanitized output): its handle stands in for the output, or, when
    /// saving failed, the output is kept within the byte ceiling.
    pub fn after_persist(&self, outcome: Result<String, String>, saved: String, elapsed: Duration) -> (r: ToolExecutionResult)
        ensures
            outcome is Ok ==> (r.output == outcome->Ok_0 && !r.is_error && r.truncated && r.original_bytes
                == byte_len(saved@) && r.duration_ms == millis_of(elapsed) && r.telemetry is None),
            outcome is Err ==> is_formatted(r, saved, false, elapsed, self.max_bytes()),
    {
        match outcome {
            Ok(handle) => {
                let bytes = saved.as_str().as_bytes().len();
                ToolExecutionResult {
                    output: handle,
                    is_error: false,
                    truncated: true,
                    original_bytes: bytes,
                    duration_ms: duration_millis(elapsed),
                    telemetry: None,
                }
            },
            Err(_) => format_and_truncate(saved, false, elapsed, self.max_output_bytes),
        }
    }
}

} // verus!
