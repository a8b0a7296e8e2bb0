//! Recognising provider errors that report a context-window overflow, and
//! reading the context limit they state.
use vstd::prelude::*;
use crate::types::message::opt_view;
use crate::text::{contains, lowercase, parse_usize, parse_usize_spec, str_contains, to_lowercase};

verus! {

/// Capture group 1 of the leftmost match of the regular expression `pattern`
/// in `text`, as the `regex` crate computes it; `None` when the pattern does
/// not compile, nothing matches, or the group takes no part in the match.
pub uninterp spec fn regex_group1(pattern: Seq<char>, text: Seq<char>) -> Option<Seq<char>>;

/// Compiles `pattern` with `regex::Regex::new`, runs `Regex::captures` on
/// `text` and reads group 1 with `Captures::get` and `Match::as_str`. The
/// contract claims only that the result is a function of the two texts.
#[verifier::external_body]
fn first_group(pattern: &str, text: &str) -> (r: Option<String>)
    ensures
        match r {
            Some(g) => regex_group1(pattern@, text@) == Some(g@),
            None => regex_group1(pattern@, text@) is None,
        },
{
    let re = regex::Regex::new(pattern).ok()?;
    let caps = re.captures(text)?;
    caps.get(1).map(|m| m.as_str().to_string())
}

/// OpenAI / DeepSeek: "maximum context length is N tokens".
pub open spec fn openai_pattern() -> Seq<char> {
    "(?i)maximum context length is (\\d+) tokens?"@
}

/// Anthropic: "... > N maximum".
pub open spec fn anthropic_pattern() -> Seq<char> {
    "(?i)>\\s*(\\d+)\\s*maximum"@
}

/// Range form: "should be [1, N]".
pub open spec fn range_pattern() -> Seq<char> {
    "(?i)should be \\[\\s*\\d+\\s*,\\s*(\\d+)\\s*\\]"@
}

/// Other wordings of a limit.
pub open spec fn generic_pattern() -> Seq<char> {
    "(?i)(?:maximum limit of|maximum context window of|maximum allowed (?:tokens )?is|limit of)\\s*(\\d+)"@
}

/// Whether a lower-cased error text uses one of the phrases by which
/// providers report a context overflow.
pub open spec fn overflow_phrase(lower: Seq<char>) -> bool {
    ||| contains(lower, "context length"@)
    ||| contains(lower, "context_length_exceeded"@)
    ||| contains(lower, "context window"@)
    ||| contains(lower, "prompt is too long"@)
    ||| contains(lower, "maximum context"@)
    ||| contains(lower, "exceeds the maximum"@)
    ||| contains(lower, "range of input length"@)
    ||| contains(lower, "too many tokens"@)
    ||| contains(lower, "token limit exceeded"@)
}

/// A captured number counts as a limit when it parses as a `usize` and is at
/// least 1000.
pub open spec fn plausible_limit(group: Option<Seq<char>>) -> Option<nat> {
    match group {
        Some(g) => match parse_usize_spec(g) {
            Some(v) => if v >= 1000 { Some(v) } else { None },
            None => None,
        },
        None => None,
    }
}

/// The limit reported by an error, given its lower-cased text and the groups
/// captured by the four patterns in order: `None` without an overflow phrase,
/// else the first plausible limit.
pub open spec fn overflow_limit_of(
    lower: Seq<char>,
    openai: Option<Seq<char>>,
    anthropic: Option<Seq<char>>,
    range: Option<Seq<char>>,
    generic: Option<Seq<char>>,
) -> Option<nat> {
    if !overflow_phrase(lower) {
        None
    } else if plausible_limit(openai) is Some {
        plausible_limit(openai)
    } else if plausible_limit(anthropic) is Some {
        plausible_limit(anthropic)
    } else if plausible_limit(range) is Some {
        plausible_limit(range)
    } else {
        plausible_limit(generic)
    }
}

/// Whether the lower-cased error text uses an overflow phrase.
pub fn mentions_overflow(lower: &str) -> (r: bool)
    ensures
        r == overflow_phrase(lower@),
{
    str_contains(lower, "context length") || str_contains(lower, "context_length_exceeded")
        || str_contains(lower, "context window") || str_contains(lower, "prompt is too long")
        || str_contains(lower, "maximum context") || str_contains(lower, "exceeds the maximum")
        || str_contains(lower, "range of input length") || str_contains(lower, "too many tokens")
        || str_contains(lower, "token limit exceeded")
}

fn plausible(group: &Option<String>) -> (r: Option<usize>)
    ensures
        match r {
            Some(v) => plausible_limit(opt_view(*group)) == Some(v as nat),
            None => plausible_limit(opt_view(*group)) is None,
        },
{
    match group {
        Some(g) => match parse_usize(g.as_str()) {
            Some(v) => if v >= 1000 { Some(v) } else { None },
            None => None,
        },
        None => None,
    }
}

/// The decision of `extract_context_overflow_limit`, from the lower-cased
/// text and the four captured groups.
pub fn overflow_limit_from_groups(
    lower: &str,
    openai: &Option<String>,
    anthropic: &Option<String>,
    range: &Option<String>,
    generic: &Option<String>,
) -> (r: Option<usize>)
    ensures
        match r {
            Some(v) => overflow_limit_of(
                lower@,
                opt_view(*openai),
                opt_view(*anthropic),
                opt_view(*range),
                opt_view(*generic),
            ) == Some(v as nat),
            None => overflow_limit_of(
                lower@,
                opt_view(*openai),
                opt_view(*anthropic),
                opt_view(*range),
                opt_view(*generic),
            ) is None,
        },
{
    if !mentions_overflow(lower) {
        return None;
    }
    if let Some(v) = plausible(openai) {
        return Some(v);
    }
    if let Some(v) = plausible(anthropic) {
        return Some(v);
    }
    if let Some(v) = plausible(range) {
        return Some(v);
    }
    plausible(generic)
}

/// The maximum context size stated by a provider's overflow error, or `None`
/// when the error is not an overflow or states no plausible limit.
pub fn extract_context_overflow_limit(err: &str) -> (r: Option<usize>)
    ensures
        match r {
            Some(v) => overflow_limit_of(
                lowercase(err@),
                regex_group1(openai_pattern(), err@),
                regex_group1(anthropic_pattern(), err@),
                regex_group1(range_pattern(), err@),
                regex_group1(generic_pattern(), err@),
            ) == Some(v as nat),
            None => overflow_limit_of(
                lowercase(err@),
                regex_group1(openai_pattern(), err@),
                regex_group1(anthropic_pattern(), err@),
                regex_group1(range_pattern(), err@),
                regex_group1(generic_pattern(), err@),
            ) is None,
        },
{
    let lower = to_lowercase(err);
    let openai = first_group("(?i)maximum context length is (\\d+) tokens?", err);
    let anthropic = first_group("(?i)>\\s*(\\d+)\\s*maximum", err);
    let range = first_group("(?i)should be \\[\\s*\\d+\\s*,\\s*(\\d+)\\s*\\]", err);
    let generic = first_group(
        "(?i)(?:maximum limit of|maximum context window of|maximum allowed (?:tokens )?is|limit of)\\s*(\\d+)",
        err,
    );
    overflow_limit_from_groups(lower.as_str(), &openai, &anthropic, &range, &generic)
}

/// Whether an error text reports a context-window overflow.
pub fn is_context_overflow_error(err: &str) -> (r: bool)
    ensures
        r == overflow_phrase(lowercase(err@)),
{
    let lower = to_lowercase(err);
    mentions_overflow(lower.as_str())
}

/// The phrases by which providers report a context overflow. An error text
/// is an overflow exactly when its lower-cased form contains one of them:
/// "context length", "context_length_exceeded", "context window", "prompt is
/// too long", "maximum context", "exceeds the maximum", "range of input
/// length", "too many tokens" or "token limit exceeded".
pub proof fn lemma_overflow_phrases(err: Seq<char>)
    ensures
        contains(lowercase(err), "context length"@) ==> overflow_phrase(lowercase(err)),
        contains(lowercase(err), "context_length_exceeded"@) ==> overflow_phrase(lowercase(err)),
        contains(lowercase(err), "context window"@) ==> overflow_phrase(lowercase(err)),
        contains(lowercase(err), "prompt is too long"@) ==> overflow_phrase(lowercase(err)),
        contains(lowercase(err), "maximum context"@) ==> overflow_phrase(lowercase(err)),
        contains(lowercase(err), "exceeds the maximum"@) ==> overflow_phrase(lowercase(err)),
        contains(lowercase(err), "range of input length"@) ==> overflow_phrase(lowercase(err)),
        contains(lowercase(err), "too many tokens"@) ==> overflow_phrase(lowercase(err)),
        contains(lowercase(err), "token limit exceeded"@) ==> overflow_phrase(lowercase(err)),
        overflow_phrase(lowercase(err)) ==> contains(lowercase(err), "context length"@) || contains(
            lowercase(err),
            "context_length_exceeded"@,
        ) || contains(lowercase(err), "context window"@) || contains(lowercase(err), "prompt is too long"@)
            || contains(lowercase(err), "maximum context"@) || contains(lowercase(err), "exceeds the maximum"@)
            || contains(lowercase(err), "range of input length"@) || contains(lowercase(err), "too many tokens"@)
            || contains(lowercase(err), "token limit exceeded"@),
{
}

/// Without an overflow phrase no limit is read, whatever numbers the error
/// holds; with one, the limit read is at least 1000.
pub proof fn lemma_limit_needs_overflow_phrase(
    lower: Seq<char>,
    openai: Option<Seq<char>>,
    anthropic: Option<Seq<char>>,
    range: Option<Seq<char>>,
    generic: Option<Seq<char>>,
)
    ensures
        !overflow_phrase(lower) ==> overflow_limit_of(lower, openai, anthropic, range, generic) is None,
        overflow_limit_of(lower, openai, anthropic, range, generic) matches Some(v) ==> v >= 1000,
{
}

} // verus!
