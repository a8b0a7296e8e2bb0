//! Conversation titles produced by a utility model: the prompt it gets, how
//! its streamed answer is gathered, and how the answer is cleaned.
use vstd::prelude::*;
use crate::stream::client::LLMStreamChunk;
use crate::text::{
    chars_of, in_class, is_ws, leading_ws, push_str, starts_with, string_from_chars, string_of, string_of_chars,
    strip_back, strip_both, strip_both_exec, strip_front, trailing_ws, trim, trim_string, CharClass,
};
use crate::types::message::{ChatMessage, MessageView};

verus! {

/// `s` with every leading copy of `p` removed (`trim_start_matches`).
pub open spec fn strip_prefixes(s: Seq<char>, p: Seq<char>) -> Seq<char>
    decreases s.len(),
{
    if p.len() > 0 && starts_with(s, p) {
        strip_prefixes(s.subrange(p.len() as int, s.len() as int), p)
    } else {
        s
    }
}

fn strip_prefixes_exec(s: &str, p: &str) -> (r: String)
    ensures
        r@ == strip_prefixes(s@, p@),
{
    let v = chars_of(s);
    let pv = chars_of(p);
    let mut at: usize = 0;
    assert(v@.subrange(0, v.len() as int) =~= v@);
    while pv.len() > 0 && pv.len() <= v.len() - at && crate::text::occurs_at_exec(&v, &pv, at)
        invariant
            at <= v.len(),
            v@ == s@,
            pv@ == p@,
            strip_prefixes(s@, p@) == strip_prefixes(v@.subrange(at as int, v.len() as int), p@),
        decreases v.len() - at,
    {
        proof {
            let rest = v@.subrange(at as int, v.len() as int);
            assert(rest.subrange(0, p@.len() as int) =~= v@.subrange(at as int, at + p@.len()));
            assert(starts_with(rest, p@));
            assert(rest.subrange(p@.len() as int, rest.len() as int) =~= v@.subrange(at + p@.len(), v.len() as int));
        }
        at = at + pv.len();
    }
    proof {
        let rest = v@.subrange(at as int, v.len() as int);
        if p@.len() > 0 && starts_with(rest, p@) {
            assert(rest.subrange(0, p@.len() as int) =~= v@.subrange(at as int, at + p@.len()));
        }
    }
    string_from_chars(&v, at, v.len())
}

/// A raw title with surrounding quotes and brackets, a leading `Title:` /
/// `标题:` / `标题：` and surrounding whitespace removed.
pub open spec fn cleaned_title(raw: Seq<char>) -> Seq<char> {
    trim(
        strip_prefixes(
            strip_prefixes(
                strip_prefixes(strip_both(trim(raw), CharClass::TitleQuote), "Title:"@),
                "标题:"@,
            ),
            "标题："@,
        ),
    )
}

/// A title the model prefixed with `标题:` loses the prefix: for a title `t`
/// that does not itself start with a title prefix and does not end in
/// whitespace or a quote, `标题:` followed by `t` cleans to `t` trimmed. The
/// same holds of `Title:` and `标题：`.
pub proof fn lemma_title_prefix_removed(p: Seq<char>, t: Seq<char>)
    requires
        p == "标题:"@ || p == "Title:"@ || p == "标题："@,
        t.len() == 0 || (!is_ws(t.last()) && !in_class(t.last(), CharClass::TitleQuote)),
        !starts_with(t, "Title:"@),
        !starts_with(t, "标题:"@),
        !starts_with(t, "标题："@),
    ensures
        cleaned_title(p + t) == trim(t),
{
    reveal_strlit("标题:");
    reveal_strlit("Title:");
    reveal_strlit("标题：");
    let raw = p + t;
    assert(raw[0] == p[0]);
    assert(!is_ws(raw[0]));
    assert(raw.last() == if t.len() == 0 { p.last() } else { t.last() });
    assert(!is_ws(raw.last()));
    assert(leading_ws(raw) == 0);
    assert(trailing_ws(raw) == 0);
    assert(trim(raw) =~= raw);
    assert(!in_class(raw[0], CharClass::TitleQuote));
    assert(strip_front(raw, CharClass::TitleQuote) == raw);
    assert(!in_class(raw.last(), CharClass::TitleQuote));
    assert(strip_back(raw, CharClass::TitleQuote) == raw);
    assert(raw.subrange(0, p.len() as int) =~= p);
    assert(raw.subrange(p.len() as int, raw.len() as int) =~= t);
    assert(strip_prefixes(t, "Title:"@) == t);
    assert(strip_prefixes(t, "标题:"@) == t);
    assert(strip_prefixes(t, "标题："@) == t);
    if p == "标题:"@ {
        assert(!starts_with(raw, "Title:"@)) by {
            if starts_with(raw, "Title:"@) {
                assert(raw.subrange(0, 6)[0] == raw[0]);
            }
        }
        assert(strip_prefixes(raw, "Title:"@) == raw);
        assert(starts_with(raw, "标题:"@));
        assert(strip_prefixes(raw, "标题:"@) == strip_prefixes(t, "标题:"@));
    } else if p == "Title:"@ {
        assert(starts_with(raw, "Title:"@));
        assert(strip_prefixes(raw, "Title:"@) == strip_prefixes(t, "Title:"@));
    } else {
        assert(!starts_with(raw, "Title:"@)) by {
            if starts_with(raw, "Title:"@) {
                assert(raw.subrange(0, 6)[0] == raw[0]);
            }
        }
        assert(strip_prefixes(raw, "Title:"@) == raw);
        assert(!starts_with(raw, "标题:"@)) by {
            if starts_with(raw, "标题:"@) {
                assert(raw.subrange(0, 3)[2] == raw[2]);
            }
        }
        assert(strip_prefixes(raw, "标题:"@) == raw);
        assert(starts_with(raw, "标题："@));
        assert(strip_prefixes(raw, "标题："@) == strip_prefixes(t, "标题："@));
    }
}

/// Removes quotes, brackets and title prefixes from a generated title.
pub fn clean_generated_title(raw: &str) -> (r: String)
    ensures
        r@ == cleaned_title(raw@),
{
    let t = trim_string(raw);
    let unquoted = string_of_chars(&strip_both_exec(&chars_of(t.as_str()), CharClass::TitleQuote));
    let a = strip_prefixes_exec(unquoted.as_str(), "Title:");
    let b = strip_prefixes_exec(a.as_str(), "标题:");
    let c = strip_prefixes_exec(b.as_str(), "标题：");
    trim_string(c.as_str())
}

/// The first `max` characters of `s`.
pub open spec fn first_chars(s: Seq<char>, max: nat) -> Seq<char> {
    if s.len() > max {
        s.take(max as int)
    } else {
        s
    }
}

/// The first `max` characters of `s`.
pub fn truncate_chars(s: &str, max: usize) -> (r: String)
    ensures
        r@ == first_chars(s@, max as nat),
{
    let v = chars_of(s);
    if v.len() > max {
        let r = string_from_chars(&v, 0, max);
        assert(v@.subrange(0, max as int) =~= v@.take(max as int));
        r
    } else {
        string_of(s)
    }
}

/// Keeps a title to at most 40 characters (counted as characters, not
/// bytes).
pub fn clamp_title(cleaned: String) -> (r: String)
    ensures
        r@ == first_chars(cleaned@, 40),
{
    truncate_chars(cleaned.as_str(), 40)
}

/// The text of the first user message (`want_user`), or of the first
/// assistant message when its content is present and not blank; `None`
/// when the first message of the wanted role has none.
pub open spec fn first_text(ms: Seq<MessageView>, want_user: bool) -> Option<Seq<char>>
    decreases ms.len(),
{
    if ms.len() == 0 {
        None
    } else {
        match ms[0] {
            MessageView::User { content, .. } => if want_user {
                Some(content)
            } else {
                first_text(ms.drop_first(), want_user)
            },
            MessageView::Assistant { content, .. } => if !want_user {
                match content {
                    Some(c) => if trim(c).len() > 0 {
                        Some(c)
                    } else {
                        None
                    },
                    None => None,
                }
            } else {
                first_text(ms.drop_first(), want_user)
            },
            _ => first_text(ms.drop_first(), want_user),
        }
    }
}

/// The first user message's text, or the first assistant message's text.
pub fn first_message_text(messages: &Vec<ChatMessage>, want_user: bool) -> (r: Option<String>)
    ensures
        match r {
            Some(t) => first_text(messages@.map_values(|m: ChatMessage| m@), want_user) == Some(t@),
            None => first_text(messages@.map_values(|m: ChatMessage| m@), want_user) is None,
        },
{
    let ghost ms = messages@.map_values(|m: ChatMessage| m@);
    let mut i: usize = 0;
    assert(ms.subrange(0, ms.len() as int) =~= ms);
    while i < messages.len()
        invariant
            i <= messages.len(),
            ms == messages@.map_values(|m: ChatMessage| m@),
            first_text(ms, want_user) == first_text(ms.subrange(i as int, ms.len() as int), want_user),
        decreases messages.len() - i,
    {
        let ghost rest = ms.subrange(i as int, ms.len() as int);
        proof {
            assert(rest[0] == messages@[i as int]@);
            assert(rest.drop_first() =~= ms.subrange(i + 1, ms.len() as int));
        }
        match &messages[i] {
            ChatMessage::User { content, .. } => {
                if want_user {
                    return Some(content.clone());
                }
            },
            ChatMessage::Assistant { content, .. } => {
                if !want_user {
                    return match content {
                        Some(c) => {
                            let t = trim_string(c.as_str());
                            if t.as_str().is_empty() {
                                None
                            } else {
                                Some(c.clone())
                            }
                        },
                        None => None,
                    };
                }
            },
            _ => {},
        }
        i += 1;
    }
    proof {
        assert(ms.subrange(i as int, ms.len() as int).len() == 0);
    }
    None
}

/// The instruction sent to the utility model: the first 300 characters of
/// the user's text and of the assistant's.
pub open spec fn title_prompt(user: Seq<char>, assistant: Option<Seq<char>>) -> Seq<char> {
    "You are a concise title generator. Generate a concise, descriptive conversation title (between 4 and 10 Chinese characters or 2 to 6 English words, no punctuation, no quotes, no explanations, no prefix like 'Title:') summarizing the exchange.\n\nUser: "@
        + first_chars(user, 300) + "\nAssistant: "@ + match assistant {
        Some(a) => first_chars(a, 300),
        None => Seq::empty(),
    }
}

pub fn naming_instruction(user: &str, assistant: &Option<String>) -> (r: String)
    ensures
        r@ == title_prompt(user@, crate::types::message::opt_view(*assistant)),
{
    let mut r = string_of(
        "You are a concise title generator. Generate a concise, descriptive conversation title (between 4 and 10 Chinese characters or 2 to 6 English words, no punctuation, no quotes, no explanations, no prefix like 'Title:') summarizing the exchange.\n\nUser: ",
    );
    let u = truncate_chars(user, 300);
    push_str(&mut r, u.as_str());
    push_str(&mut r, "\nAssistant: ");
    match assistant {
        Some(a) => {
            let t = truncate_chars(a.as_str(), 300);
            push_str(&mut r, t.as_str());
        },
        None => {
            assert(r@ =~= r@ + Seq::<char>::empty());
        },
    }
    r
}

/// The title text after one more stream item: tokens are appended; the
/// completed content replaces a title that is still blank.
pub open spec fn absorbed(title: Seq<char>, token: Option<Seq<char>>, completed: Option<Seq<char>>) -> Seq<char> {
    match token {
        Some(t) => title + t,
        None => match completed {
            Some(c) => if trim(title).len() == 0 {
                c
            } else {
                title
            },
            None => title,
        },
    }
}

/// Adds one stream item to the title being gathered.
pub fn absorb_title_chunk(title: &mut String, chunk: &LLMStreamChunk)
    ensures
        final(title)@ == match chunk {
            LLMStreamChunk::Token(t) => absorbed(old(title)@, Some(t@), None),
            LLMStreamChunk::Completed { content, .. } => absorbed(
                old(title)@,
                None,
                crate::types::message::opt_view(*content),
            ),
            _ => old(title)@,
        },
{
    match chunk {
        LLMStreamChunk::Token(t) => push_str(title, t.as_str()),
        LLMStreamChunk::Completed { content, .. } => {
            if let Some(c) = content {
                let t = trim_string(title.as_str());
                if t.as_str().is_empty() {
                    *title = c.clone();
                }
            }
        },
        _ => {},
    }
}

/// Why a title could not be produced: a machine-readable kind and a detail.
#[derive(Debug)]
pub struct TitleGenError {
    pub kind: String,
    pub detail: String,
}

impl TitleGenError {
    pub fn new(kind: &str, detail: String) -> (e: TitleGenError)
        ensures
            e.kind@ == kind@,
            e.detail == detail,
    {
        TitleGenError { kind: string_of(kind), detail }
    }

    /// `[kind] detail`.
    pub fn describe(&self) -> (s: String)
        ensures
            s@ == "["@ + self.kind@ + "] "@ + self.detail@,
    {
        let mut s = string_of("[");
        push_str(&mut s, self.kind.as_str());
        push_str(&mut s, "] ");
        push_str(&mut s, self.detail.as_str());
        s
    }
}

/// The title made of a model's raw answer: cleaned and clamped, or an
/// `empty_title` error naming the model when nothing usable is left.
pub fn finish_title(raw: &str, model_id: &str) -> (r: Result<String, TitleGenError>)
    ensures
        match r {
            Ok(t) => cleaned_title(raw@).len() > 0 && t@ == first_chars(cleaned_title(raw@), 40),
            Err(e) => cleaned_title(raw@).len() == 0 && e.kind@ == "empty_title"@ && e.detail@ == "utility model `"@
                + model_id@ + "` returned no usable content (raw output empty after cleaning)"@,
        },
{
    let cleaned = clean_generated_title(raw);
    if cleaned.as_str().is_empty() {
        let mut d = string_of("utility model `");
        push_str(&mut d, model_id);
        push_str(&mut d, "` returned no usable content (raw output empty after cleaning)");
        return Err(TitleGenError::new("empty_title", d));
    }
    Ok(clamp_title(cleaned))
}

/// A title set by hand: trimmed and cut to 40 characters, or an
/// `invalid_title` error when nothing but whitespace was given.
pub fn manual_title(raw: &str) -> (r: Result<String, TitleGenError>)
    ensures
        match r {
            Ok(t) => trim(raw@).len() > 0 && t@ == first_chars(trim(raw@), 40),
            Err(e) => trim(raw@).len() == 0 && e.kind@ == "invalid_title"@ && e.detail@
                == "title must not be empty"@,
        },
{
    let trimmed = trim_string(raw);
    if chars_of(trimmed.as_str()).len() == 0 {
        return Err(TitleGenError::new("invalid_title", string_of("title must not be empty")));
    }
    Ok(clamp_title(trimmed))
}

/// The error for a conversation the store does not hold.
pub fn conversation_not_found(session_id: &str) -> (e: TitleGenError)
    ensures
        e.kind@ == "not_found"@,
        e.detail@ == "conversation `"@ + session_id@ + "` not found"@,
{
    let mut d = string_of("conversation `");
    push_str(&mut d, session_id);
    push_str(&mut d, "` not found");
    TitleGenError::new("not_found", d)
}

/// The override when there is one, else the conversation's own text.
pub open spec fn chosen_text(over: Option<Seq<char>>, own: Option<Seq<char>>) -> Option<Seq<char>> {
    match over {
        Some(t) => Some(t),
        None => own,
    }
}

/// What the naming call works from: the prompt (the override, else the
/// conversation's first user message) and the assistant's text (the
/// override, else its first non-blank answer). A title set by hand stays
/// unless `force` is given (`manual_locked`), and a conversation with no
/// user message has nothing to name (`empty_title`).
pub fn title_inputs(
    title_is_manual: bool,
    force: bool,
    prompt_override: Option<String>,
    assistant_override: Option<String>,
    messages: &Vec<ChatMessage>,
) -> (r: Result<(String, Option<String>), TitleGenError>)
    ensures
        ({
            let ms = messages@.map_values(|m: ChatMessage| m@);
            let prompt = chosen_text(
                match prompt_override {
                    Some(t) => Some(t@),
                    None => None,
                },
                first_text(ms, true),
            );
            let answer = chosen_text(
                match assistant_override {
                    Some(t) => Some(t@),
                    None => None,
                },
                first_text(ms, false),
            );
            match r {
                Ok((p, a)) => !(title_is_manual && !force) && prompt == Some(p@) && answer == match a {
                    Some(t) => Some(t@),
                    None => None,
                },
                Err(e) => if title_is_manual && !force {
                    e.kind@ == "manual_locked"@ && e.detail@
                        == "title was set manually; pass force=true to override"@
                } else {
                    prompt is None && e.kind@ == "empty_title"@ && e.detail@
                        == "conversation has no user message to summarize"@
                },
            }
        }),
{
    if title_is_manual && !force {
        return Err(
            TitleGenError::new(
                "manual_locked",
                string_of("title was set manually; pass force=true to override"),
            ),
        );
    }
    let prompt = match prompt_override {
        Some(t) => t,
        None => match first_message_text(messages, true) {
            Some(t) => t,
            None => {
                return Err(
                    TitleGenError::new(
                        "empty_title",
                        string_of("conversation has no user message to summarize"),
                    ),
                );
            },
        },
    };
    let answer = match assistant_override {
        Some(t) => Some(t),
        None => first_message_text(messages, false),
    };
    Ok((prompt, answer))
}

/// The error when no usable utility model can name the conversation: the
/// one resolved (by its selection id) lacks credentials, or none resolves.
pub fn no_utility_model(resolved: Option<&str>) -> (e: TitleGenError)
    ensures
        e.kind@ == "no_utility_model"@,
        e.detail@ == match resolved {
            Some(id) => "utility model `"@ + id@ + "` is not available (missing API key or base URL)"@,
            None => "no utility model configured or heuristically resolvable; set `utilityModel` in models.json"@,
        },
{
    match resolved {
        Some(id) => {
            let mut d = string_of("utility model `");
            push_str(&mut d, id);
            push_str(&mut d, "` is not available (missing API key or base URL)");
            TitleGenError::new("no_utility_model", d)
        },
        None => TitleGenError::new(
            "no_utility_model",
            string_of("no utility model configured or heuristically resolvable; set `utilityModel` in models.json"),
        ),
    }
}

} // verus!
