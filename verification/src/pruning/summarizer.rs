//! The summarization request behind a checkpoint, and how its answer is
//! turned into the checkpoint text.
use vstd::prelude::*;
use crate::stream::client::LLMStreamChunk;
use crate::text::{join, join_strings, push_str, string_of, trim, trim_string, views};
use crate::types::message::opt_view;

verus! {

/// System prompt of a summarization request.
pub const SUMMARIZATION_SYSTEM_PROMPT: &'static str = "You are a context summarization assistant. Your task is to read a conversation between a user and an AI assistant, then produce a structured summary following the exact format specified.\n\nDo NOT continue the conversation. Do NOT respond to any questions in the conversation. ONLY output the structured summary.";

/// Instructions for a first summary.
pub const INITIAL_SUMMARIZATION_PROMPT: &'static str = "The messages above are a conversation to summarize. Create a structured context checkpoint summary that another LLM will use to continue the work.\n\nUse this EXACT format:\n\n## Goal\n[What is the user trying to accomplish? Can be multiple items if the session covers different tasks.]\n\n## Constraints & Preferences\n- [Any constraints, preferences, or requirements mentioned by user]\n- [Or \"(none)\" if none were mentioned]\n\n## Progress\n### Done\n- [x] [Completed tasks/changes]\n\n### In Progress\n- [ ] [Current work]\n\n### Blocked\n- [Issues preventing progress, if any]\n\n## Key Decisions\n- **[Decision]**: [Brief rationale]\n\n## Next Steps\n1. [Ordered list of what should happen next]\n\n## Critical Context\n- [Any data, examples, or references needed to continue]\n- [Or \"(none)\" if not applicable]\n\nKeep each section concise. Preserve exact file paths, function names, and error messages.";

/// Instructions for extending a previous summary.
pub const UPDATE_SUMMARIZATION_PROMPT: &'static str = "The messages above are NEW conversation messages to incorporate into the existing summary provided in <previous-summary> tags.\n\nUpdate the existing structured summary with new information. RULES:\n- PRESERVE all existing information from the previous summary\n- ADD new progress, decisions, and context from the new messages\n- UPDATE the Progress section: move items from \"In Progress\" to \"Done\" when completed\n- UPDATE \"Next Steps\" based on what was accomplished\n- PRESERVE exact file paths, function names, and error messages\n- If something is no longer relevant, you may remove it\n\nUse this EXACT format:\n\n## Goal\n[Preserve existing goals, add new ones if the task expanded]\n\n## Constraints & Preferences\n- [Preserve existing, add new ones discovered]\n\n## Progress\n### Done\n- [x] [Include previously done items AND newly completed items]\n\n### In Progress\n- [ ] [Current work - update based on progress]\n\n### Blocked\n- [Current blockers - remove if resolved]\n\n## Key Decisions\n- **[Decision]**: [Brief rationale] (preserve all previous, add new)\n\n## Next Steps\n1. [Update based on current state]\n\n## Critical Context\n- [Preserve important context, add new if needed]\n\nKeep each section concise. Preserve exact file paths, function names, and error messages.";

/// The user prompt of a summarization request: the region, after the
/// previous summary when there is one, then the instructions.
pub open spec fn summary_prompt(serialized: Seq<char>, previous: Option<Seq<char>>) -> Seq<char> {
    match previous {
        Some(prev) => "<previous-summary>\n"@ + prev + "\n</previous-summary>\n\n"@ + serialized + "\n\n"@
            + UPDATE_SUMMARIZATION_PROMPT@,
        None => serialized + "\n\n"@ + INITIAL_SUMMARIZATION_PROMPT@,
    }
}

pub fn summarization_prompt(serialized: &str, previous: Option<&str>) -> (r: String)
    ensures
        r@ == summary_prompt(serialized@, match previous {
            Some(p) => Some(p@),
            None => None,
        }),
{
    match previous {
        Some(prev) => {
            let mut r = string_of("<previous-summary>\n");
            push_str(&mut r, prev);
            push_str(&mut r, "\n</previous-summary>\n\n");
            push_str(&mut r, serialized);
            push_str(&mut r, "\n\n");
            push_str(&mut r, UPDATE_SUMMARIZATION_PROMPT);
            r
        },
        None => {
            let mut r = string_of(serialized);
            push_str(&mut r, "\n\n");
            push_str(&mut r, INITIAL_SUMMARIZATION_PROMPT);
            r
        },
    }
}

/// The tagged file lists appended to a checkpoint.
pub open spec fn file_sections(read: Seq<Seq<char>>, modified: Seq<Seq<char>>) -> Seq<char> {
    let r = "<read-files>\n"@ + join(read, "\n"@) + "\n</read-files>"@;
    let m = "<modified-files>\n"@ + join(modified, "\n"@) + "\n</modified-files>"@;
    if read.len() > 0 && modified.len() > 0 {
        "\n\n"@ + r + "\n\n"@ + m
    } else if read.len() > 0 {
        "\n\n"@ + r
    } else if modified.len() > 0 {
        "\n\n"@ + m
    } else {
        Seq::empty()
    }
}

pub fn format_file_sections(read_files: &Vec<String>, modified_files: &Vec<String>) -> (r: String)
    ensures
        r@ == file_sections(views(read_files@), views(modified_files@)),
{
    let mut r = String::new();
    assert(views(read_files@).len() == read_files.len());
    assert(views(modified_files@).len() == modified_files.len());
    if read_files.len() > 0 {
        push_str(&mut r, "\n\n");
        push_str(&mut r, "<read-files>\n");
        let j = join_strings(read_files, "\n");
        push_str(&mut r, j.as_str());
        push_str(&mut r, "\n</read-files>");
    }
    if modified_files.len() > 0 {
        push_str(&mut r, "\n\n");
        push_str(&mut r, "<modified-files>\n");
        let j = join_strings(modified_files, "\n");
        push_str(&mut r, j.as_str());
        push_str(&mut r, "\n</modified-files>");
    }
    assert(r@ =~= file_sections(views(read_files@), views(modified_files@)));
    r
}

/// The checkpoint text made of a summary and the region's file lists.
pub open spec fn checkpoint_text(summary: Seq<char>, read: Seq<Seq<char>>, modified: Seq<Seq<char>>) -> Seq<char> {
    "[CONTEXT CHECKPOINT — structured summary of earlier conversation]\n\n"@ + summary + file_sections(read, modified)
}

pub fn checkpoint_summary(summary: &str, read_files: &Vec<String>, modified_files: &Vec<String>) -> (r: String)
    ensures
        r@ == checkpoint_text(summary@, views(read_files@), views(modified_files@)),
{
    let mut r = string_of("[CONTEXT CHECKPOINT — structured summary of earlier conversation]\n\n");
    push_str(&mut r, summary);
    let sections = format_file_sections(read_files, modified_files);
    push_str(&mut r, sections.as_str());
    r
}

/// The summary text after one more stream item: tokens are appended; a
/// non-empty completed content replaces it; a completion cut at the token
/// cap is an error.
pub fn absorb_summary_chunk(content: &mut String, chunk: &LLMStreamChunk) -> (r: Result<(), String>)
    ensures
        match chunk {
            LLMStreamChunk::Token(t) => r is Ok && final(content)@ == old(content)@ + t@,
            LLMStreamChunk::Completed { content: c, finish_reason, .. } => {
                &&& final(content)@ == (match c {
                    Some(x) => if x@.len() > 0 {
                        x@
                    } else {
                        old(content)@
                    },
                    None => old(content)@,
                })
                &&& (finish_reason@ == "length"@ <==> r is Err)
                &&& r matches Err(e) ==> e@ == "summary generation hit the token cap"@
            },
            _ => r is Ok && final(content)@ == old(content)@,
        },
{
    match chunk {
        LLMStreamChunk::Token(t) => {
            push_str(content, t.as_str());
            Ok(())
        },
        LLMStreamChunk::Completed { content: c, finish_reason, .. } => {
            if let Some(x) = c {
                if !x.as_str().is_empty() {
                    *content = x.clone();
                }
            }
            if crate::text::str_eq(finish_reason.as_str(), "length") {
                Err(string_of("summary generation hit the token cap"))
            } else {
                Ok(())
            }
        },
        _ => Ok(()),
    }
}

/// The gathered summary, refused when blank.
pub fn finish_summary(content: String) -> (r: Result<String, String>)
    ensures
        match r {
            Ok(s) => trim(content@).len() > 0 && s == content,
            Err(e) => trim(content@).len() == 0 && e@ == "summarization produced no content"@,
        },
{
    let t = trim_string(content.as_str());
    if t.as_str().is_empty() {
        Err(string_of("summarization produced no content"))
    } else {
        Ok(content)
    }
}

} // verus!
