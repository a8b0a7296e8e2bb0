use thunder_agent::daemon::ask_user::{parse_questions, Json};
use thunder_agent::daemon::mock::DaemonMockClient;
use thunder_agent::daemon::title::{
    absorb_title_chunk, clamp_title, clean_generated_title, finish_title, first_message_text, naming_instruction,
    no_utility_model, title_inputs, truncate_chars, TitleGenError,
};
use thunder_agent::stream::client::LLMStreamChunk;
use thunder_agent::types::message::ChatMessage;

fn obj(entries: Vec<(&str, Json)>) -> Json {
    Json::Object(entries.into_iter().map(|(k, v)| (k.to_string(), v)).collect())
}

fn s(text: &str) -> Json {
    Json::Str(text.to_string())
}

fn args(questions: Json) -> Json {
    obj(vec![("questions", questions)])
}

#[test]
fn parse_rejects_missing_or_empty_questions() {
    assert!(parse_questions(&obj(vec![])).is_err());
    assert!(parse_questions(&args(Json::Array(vec![]))).is_err());
}

#[test]
fn parse_requires_question_text_and_maps_fields() {
    assert!(parse_questions(&args(Json::Array(vec![obj(vec![])]))).is_err());

    let parsed = parse_questions(&args(Json::Array(vec![obj(vec![
        ("question", s("Which layer?")),
        ("header", s("Scope")),
        ("multiSelect", Json::Bool(true)),
        (
            "options",
            Json::Array(vec![
                obj(vec![("label", s("renderer")), ("description", s("UI only"))]),
                obj(vec![("label", s("main"))]),
            ]),
        ),
    ])])))
    .expect("valid payload");

    assert_eq!(parsed.len(), 1);
    assert_eq!(parsed[0].question, "Which layer?");
    assert_eq!(parsed[0].header.as_deref(), Some("Scope"));
    assert!(parsed[0].multi_select);
    assert_eq!(parsed[0].options.len(), 2);
    assert_eq!(parsed[0].options[0].label, "renderer");
    assert_eq!(parsed[0].options[0].description.as_deref(), Some("UI only"));
}

#[test]
fn parse_accepts_snake_case_multi_select() {
    let parsed = parse_questions(&args(Json::Array(vec![obj(vec![
        ("question", s("q")),
        ("multi_select", Json::Bool(true)),
    ])])))
    .unwrap();
    assert!(parsed[0].multi_select);
}

#[test]
fn parse_error_messages() {
    assert_eq!(
        parse_questions(&obj(vec![("questions", s("nope"))])).unwrap_err(),
        "Missing required field 'questions' (array)"
    );
    assert_eq!(parse_questions(&args(Json::Array(vec![]))).unwrap_err(), "'questions' must not be empty");
    let items = Json::Array(vec![obj(vec![("question", s("ok"))]), obj(vec![("question", Json::Number("1".into()))])]);
    assert_eq!(parse_questions(&args(items)).unwrap_err(), "questions[1] is missing 'question'");
    let odd = parse_questions(&args(Json::Array(vec![obj(vec![
        ("question", s("q")),
        ("multiSelect", Json::Null),
        ("multi_select", Json::Bool(true)),
        ("options", Json::Array(vec![obj(vec![("description", s("no label"))]), Json::Null])),
    ])])))
    .unwrap();
    assert!(!odd[0].multi_select);
    assert!(odd[0].options.is_empty());
}

#[test]
fn cleans_quotes_and_prefixes() {
    assert_eq!(clean_generated_title("  \"多平台总结\" "), "多平台总结");
    assert_eq!(clean_generated_title("《标题》"), "标题");
    assert_eq!(clean_generated_title("Title: News summary"), "News summary");
    assert_eq!(clean_generated_title("标题：新闻总结"), "新闻总结");
    assert_eq!(clean_generated_title("`git help`"), "git help");
}

#[test]
fn clamps_long_titles_by_chars_not_bytes() {
    assert_eq!(clamp_title("短标题".to_string()), "短标题");
    let long = "a".repeat(50);
    assert_eq!(clamp_title(long).chars().count(), 40);
    let cjk = "标".repeat(50);
    assert_eq!(clamp_title(cjk).chars().count(), 40);
}

#[test]
fn extracts_first_user_and_assistant_messages() {
    let messages = vec![
        ChatMessage::system("sys"),
        ChatMessage::user("帮我总结新闻"),
        ChatMessage::assistant_text("好的,总结如下"),
    ];
    assert_eq!(first_message_text(&messages, true).as_deref(), Some("帮我总结新闻"));
    assert_eq!(first_message_text(&messages, false).as_deref(), Some("好的,总结如下"));
    let blank = vec![ChatMessage::assistant_text("   "), ChatMessage::assistant_text("later")];
    assert_eq!(first_message_text(&blank, false), None);
    assert_eq!(first_message_text(&blank, true), None);
}

#[test]
fn title_pipeline_pieces() {
    assert_eq!(truncate_chars("abcdef", 3), "abc");
    let p = naming_instruction("hello", &Some("hi there".into()));
    assert!(p.ends_with("\n\nUser: hello\nAssistant: hi there"));
    assert!(naming_instruction("x", &None).ends_with("User: x\nAssistant: "));

    let mut t = String::new();
    absorb_title_chunk(&mut t, &LLMStreamChunk::Token("  ".into()));
    absorb_title_chunk(&mut t, &LLMStreamChunk::ReasoningToken("ignored".into()));
    absorb_title_chunk(
        &mut t,
        &LLMStreamChunk::Completed {
            content: Some("\"Final\"".into()),
            tool_calls: vec![],
            finish_reason: "stop".into(),
            prompt_tokens: None,
            completion_tokens: None,
            cached_tokens: None,
            reasoning_tokens: None,
        },
    );
    assert_eq!(t, "\"Final\"");
    assert_eq!(finish_title(&t, "m1").unwrap(), "Final");
    let e: TitleGenError = finish_title(" \"\" ", "m1").unwrap_err();
    assert_eq!(e.kind, "empty_title");
    assert_eq!(e.describe(), "[empty_title] utility model `m1` returned no usable content (raw output empty after cleaning)");
}

#[test]
fn daemon_mock_replies() {
    let m = DaemonMockClient;
    let greet = vec![ChatMessage::user("Hello there")];
    assert!(m.reply(&greet).starts_with("Hello! ⚡ I am Thunder Agent Daemon"));
    let other = vec![ChatMessage::user("list files"), ChatMessage::assistant_text("ok")];
    assert_eq!(
        m.reply(&other),
        "Received prompt: \"list files\". Thunder Daemon successfully executed this in Mock mode."
    );
    let words = m.reply_words(&other);
    assert_eq!(words[0], "Received ");
    assert_eq!(words.concat(), m.reply(&other));
    match m.cancelled() {
        LLMStreamChunk::Completed { content, finish_reason, .. } => {
            assert!(content.is_none());
            assert_eq!(finish_reason, "cancelled");
        }
        _ => panic!("expected completion"),
    }
    // No user message at all reads as a greeting.
    assert!(m.reply(&vec![]).starts_with("Hello!"));
}

#[test]
fn title_inputs_choose_overrides_then_history() {
    let history = vec![
        ChatMessage::system("sys"),
        ChatMessage::assistant_text("   "),
        ChatMessage::user("How do I sort?"),
        ChatMessage::assistant_text("Use sort()."),
    ];
    let (p, a) = title_inputs(false, false, None, None, &history).ok().unwrap();
    assert_eq!(p, "How do I sort?");
    assert_eq!(a, None);
    let (p, a) = title_inputs(true, true, Some("override".to_string()), Some("answer".to_string()), &history)
        .ok()
        .unwrap();
    assert_eq!(p, "override");
    assert_eq!(a.as_deref(), Some("answer"));
    let later = vec![ChatMessage::user("q"), ChatMessage::assistant_text("first answer")];
    let (_, a) = title_inputs(false, false, None, None, &later).ok().unwrap();
    assert_eq!(a.as_deref(), Some("first answer"));
}

#[test]
fn title_inputs_errors() {
    let history = vec![ChatMessage::user("q")];
    let e = title_inputs(true, false, None, None, &history).err().unwrap();
    assert_eq!(e.kind, "manual_locked");
    assert_eq!(e.detail, "title was set manually; pass force=true to override");
    let e = title_inputs(false, false, None, None, &Vec::new()).err().unwrap();
    assert_eq!(e.kind, "empty_title");
    assert_eq!(e.detail, "conversation has no user message to summarize");
    let e = no_utility_model(Some("openai/gpt-4o-mini"));
    assert_eq!(e.kind, "no_utility_model");
    assert_eq!(
        e.describe(),
        "[no_utility_model] utility model `openai/gpt-4o-mini` is not available (missing API key or base URL)"
    );
    let e = no_utility_model(None);
    assert_eq!(
        e.detail,
        "no utility model configured or heuristically resolvable; set `utilityModel` in models.json"
    );
}
