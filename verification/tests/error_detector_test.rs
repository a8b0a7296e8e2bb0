use thunder_agent::pruning::error_detector::{
    extract_context_overflow_limit, is_context_overflow_error, mentions_overflow, overflow_limit_from_groups,
};

#[test]
fn test_extract_openai_overflow() {
    let err = "This model's maximum context length is 128000 tokens. However, your messages resulted in 135000 tokens.";
    assert_eq!(extract_context_overflow_limit(err), Some(128000));

    let deepseek = "maximum context length is 65536 tokens";
    assert_eq!(extract_context_overflow_limit(deepseek), Some(65536));
}

#[test]
fn test_extract_anthropic_overflow() {
    let err = "prompt is too long: 215000 tokens > 200000 maximum";
    assert_eq!(extract_context_overflow_limit(err), Some(200000));
}

#[test]
fn test_extract_qwen_range_overflow() {
    let err = "Range of input length should be [1, 131072]";
    assert_eq!(extract_context_overflow_limit(err), Some(131072));
}

#[test]
fn test_unrelated_errors() {
    let rate_limit = "Rate limit exceeded (429): Too many requests.";
    assert_eq!(extract_context_overflow_limit(rate_limit), None);
    assert!(!is_context_overflow_error(rate_limit));

    let auth_err = "Unauthorized: Invalid API Key.";
    assert_eq!(extract_context_overflow_limit(auth_err), None);
    assert!(!is_context_overflow_error(auth_err));
}

#[test]
fn overflow_phrase_is_matched_case_insensitively() {
    assert!(is_context_overflow_error("CONTEXT_LENGTH_EXCEEDED"));
    assert!(is_context_overflow_error("Token Limit Exceeded for this model"));
    assert!(!mentions_overflow("Context Length"));
    assert!(mentions_overflow("context length"));
}

#[test]
fn generic_limit_wording_is_read() {
    let err = "Request exceeds the maximum limit of 32768 tokens";
    assert_eq!(extract_context_overflow_limit(err), Some(32768));
}

#[test]
fn small_numbers_are_not_limits() {
    let err = "maximum context length is 512 tokens";
    assert_eq!(extract_context_overflow_limit(err), None);
    assert!(is_context_overflow_error(err));
}

#[test]
fn first_plausible_group_wins() {
    let lower = "context window exceeded";
    let small = Some("12".to_string());
    let big = Some("4096".to_string());
    let bigger = Some("8192".to_string());
    assert_eq!(overflow_limit_from_groups(lower, &small, &big, &bigger, &None), Some(4096));
    assert_eq!(overflow_limit_from_groups(lower, &None, &None, &None, &bigger), Some(8192));
    assert_eq!(overflow_limit_from_groups("rate limited", &big, &None, &None, &None), None);
    let not_a_number = Some("99999999999999999999999".to_string());
    assert_eq!(overflow_limit_from_groups(lower, &not_a_number, &None, &None, &None), None);
}
