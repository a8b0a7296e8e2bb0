use thunder_agent::pruning::summarizer::{
    absorb_summary_chunk, checkpoint_summary, finish_summary, format_file_sections, summarization_prompt,
    INITIAL_SUMMARIZATION_PROMPT, SUMMARIZATION_SYSTEM_PROMPT, UPDATE_SUMMARIZATION_PROMPT,
};
use thunder_agent::stream::client::LLMStreamChunk;

fn completed(content: Option<&str>, finish: &str) -> LLMStreamChunk {
    LLMStreamChunk::Completed {
        content: content.map(String::from),
        tool_calls: vec![],
        finish_reason: finish.to_string(),
        prompt_tokens: None,
        completion_tokens: None,
        cached_tokens: None,
        reasoning_tokens: None,
    }
}

#[test]
fn prompts_frame_the_region() {
    assert!(SUMMARIZATION_SYSTEM_PROMPT.starts_with("You are a context summarization assistant. Your task is to read a conversation between"));
    assert!(SUMMARIZATION_SYSTEM_PROMPT.contains("format specified.\n\nDo NOT continue"));
    let first = summarization_prompt("REGION", None);
    assert_eq!(first, format!("REGION\n\n{}", INITIAL_SUMMARIZATION_PROMPT));
    let next = summarization_prompt("REGION", Some("OLD"));
    assert_eq!(next, format!("<previous-summary>\nOLD\n</previous-summary>\n\nREGION\n\n{}", UPDATE_SUMMARIZATION_PROMPT));
    assert!(INITIAL_SUMMARIZATION_PROMPT.contains("## Goal\n[What is the user trying to accomplish?"));
}

#[test]
fn checkpoint_text_lists_files() {
    let read = vec!["a.rs".to_string(), "b.rs".to_string()];
    let modified = vec!["c.rs".to_string()];
    assert_eq!(
        format_file_sections(&read, &modified),
        "\n\n<read-files>\na.rs\nb.rs\n</read-files>\n\n<modified-files>\nc.rs\n</modified-files>"
    );
    assert_eq!(format_file_sections(&vec![], &vec![]), "");
    assert_eq!(format_file_sections(&vec![], &modified), "\n\n<modified-files>\nc.rs\n</modified-files>");
    assert_eq!(
        checkpoint_summary("S", &read, &vec![]),
        "[CONTEXT CHECKPOINT — structured summary of earlier conversation]\n\nS\n\n<read-files>\na.rs\nb.rs\n</read-files>"
    );
}

#[test]
fn summary_stream_is_gathered_and_checked() {
    let mut c = String::new();
    assert!(absorb_summary_chunk(&mut c, &LLMStreamChunk::Token("part ".into())).is_ok());
    assert!(absorb_summary_chunk(&mut c, &LLMStreamChunk::ReasoningToken("x".into())).is_ok());
    assert_eq!(c, "part ");
    assert!(absorb_summary_chunk(&mut c, &completed(Some(""), "stop")).is_ok());
    assert_eq!(c, "part ");
    assert!(absorb_summary_chunk(&mut c, &completed(Some("whole"), "stop")).is_ok());
    assert_eq!(c, "whole");
    assert_eq!(
        absorb_summary_chunk(&mut c, &completed(None, "length")),
        Err("summary generation hit the token cap".to_string())
    );
    assert_eq!(finish_summary("  \n".to_string()), Err("summarization produced no content".to_string()));
    assert_eq!(finish_summary("ok".to_string()), Ok("ok".to_string()));
}
