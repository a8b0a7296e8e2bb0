use thunder_agent::agent::token_estimator::estimate_token_count;

#[test]
fn test_estimate_tokens() {
    let eng = "Hello world! This is a test sentence for token counting.";
    let eng_tokens = estimate_token_count(eng);
    assert!((10..=20).contains(&eng_tokens));

    let cjk = "你好，世界！这是一个用于 Agent Loop 的测试。";
    let cjk_tokens = estimate_token_count(cjk);
    assert!((12..=25).contains(&cjk_tokens));
}

#[test]
fn estimate_of_empty_text_is_zero_and_short_text_at_least_one() {
    assert_eq!(estimate_token_count(""), 0);
    assert_eq!(estimate_token_count(" "), 1);
    // 4 ASCII letters: ceil(4*10/37) = 2.
    assert_eq!(estimate_token_count("abcd"), 2);
    // 5 CJK characters: ceil(5*8/10) = 4.
    assert_eq!(estimate_token_count("你好世界啊"), 4);
}
