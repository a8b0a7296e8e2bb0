use thunder_agent::stream::client::UnconfiguredLLMClient;
use thunder_agent::stream::sse::{ChoiceData, ChunkData, DeltaData, SSEStreamParser, ToolCallFragment, UsageData};

fn text_delta(content: Option<&str>, reasoning: Option<&str>) -> DeltaData {
    DeltaData {
        content: content.map(|s| s.to_string()),
        reasoning_content: reasoning.map(|s| s.to_string()),
        reasoning: None,
        text: None,
        tool_calls: None,
    }
}

#[test]
fn framing_splits_lines_and_keeps_partial_tail() {
    let mut p = SSEStreamParser::new();
    let out = p.feed_chunk(b": comment\n\ndata: {\"a\":1}\r\nevent: x\ndata: [DONE]\ndata: part");
    assert_eq!(out, vec!["{\"a\":1}".to_string()]);
    let out = p.feed_chunk(b"ial\n");
    assert_eq!(out, vec!["partial".to_string()]);
    assert!(p.flush().is_none());
    p.feed_chunk(b"data:  tail  ");
    assert_eq!(p.flush().as_deref(), Some("tail"));
    assert!(p.flush().is_none());
}

#[test]
fn undecodable_payloads_yield_nothing() {
    let mut p = SSEStreamParser::new();
    assert!(p.apply_data(None).is_none());
    assert!(p.get_completed_tool_calls().is_empty());
}

#[test]
fn deltas_separate_reasoning_and_content() {
    let mut p = SSEStreamParser::new();
    let d = p
        .apply_data(Some(ChunkData {
            choice: Some(ChoiceData { delta: Some(text_delta(Some("hi"), Some("think"))), message: None, finish_reason: None }),
            usage: Some(UsageData { prompt_tokens: Some(3), completion_tokens: None }),
        }))
        .unwrap();
    assert_eq!(d.content_delta.as_deref(), Some("hi"));
    assert_eq!(d.reasoning_delta.as_deref(), Some("think"));
    assert_eq!(d.prompt_tokens, Some(3));
    assert!(d.tool_calls_delta.is_none());

    // Empty text is not reported; the message is used when there is no delta.
    let d = p
        .apply_data(Some(ChunkData {
            choice: Some(ChoiceData { delta: None, message: Some(text_delta(Some(""), None)), finish_reason: Some("stop".into()) }),
            usage: None,
        }))
        .unwrap();
    assert!(d.content_delta.is_none());
    assert_eq!(d.finish_reason.as_deref(), Some("stop"));
}

#[test]
fn tool_call_fragments_accumulate_by_index() {
    let mut p = SSEStreamParser::new();
    let frag = |index: usize, id: Option<&str>, name: Option<&str>, args: Option<&str>| ToolCallFragment {
        index,
        id: id.map(String::from),
        name: name.map(String::from),
        arguments: args.map(String::from),
    };
    let chunk = |frags: Vec<ToolCallFragment>| ChunkData {
        choice: Some(ChoiceData {
            delta: Some(DeltaData { content: None, reasoning_content: None, reasoning: None, text: None, tool_calls: Some(frags) }),
            message: None,
            finish_reason: None,
        }),
        usage: None,
    };
    let d = p.apply_data(Some(chunk(vec![frag(1, Some("call_b"), Some("read_"), Some("{\"pa"))]))).unwrap();
    assert_eq!(d.tool_calls_delta.as_ref().unwrap().len(), 1);
    p.apply_data(Some(chunk(vec![frag(0, None, None, Some("{}")), frag(1, None, Some("file"), Some("th\":1}"))])));
    let calls = p.get_completed_tool_calls();
    assert_eq!(calls.len(), 2);
    assert_eq!(calls[0].id, "call_0");
    assert_eq!(calls[0].function.name, "unnamed_tool_0");
    assert_eq!(calls[0].function.arguments, "{}");
    assert_eq!(calls[1].id, "call_b");
    assert_eq!(calls[1].function.name, "read_file");
    assert_eq!(calls[1].function.arguments, "{\"path\":1}");
}

#[test]
fn unconfigured_client_refuses() {
    let err = UnconfiguredLLMClient.stream_chat().unwrap_err();
    assert!(err.starts_with("No LLM client configured."));
}
