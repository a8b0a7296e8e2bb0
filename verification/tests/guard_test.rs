use thunder_agent::loop_engine::guard::LoopGuard;

#[test]
fn test_loop_guard_repetition_detection_and_hard_limit() {
    let mut guard = LoopGuard::new(10, 3, 5, 5);

    assert!(guard.record_and_check_repetition("bash", "ls -la").is_none());
    assert!(guard.record_and_check_repetition("bash", "ls -la").is_none());
    let warning = guard.record_and_check_repetition("bash", "ls -la");
    assert!(warning.is_some());
    assert!(warning.unwrap().contains("executed the exact same tool"));
    assert!(!guard.is_repetition_limit_exceeded());

    guard.record_and_check_repetition("bash", "ls -la");
    guard.record_and_check_repetition("bash", "ls -la");
    assert!(guard.is_repetition_limit_exceeded());
}

#[test]
fn test_loop_guard_circuit_breaker() {
    let mut guard = LoopGuard::new(5, 3, 5, 3);
    assert!(!guard.is_circuit_broken());

    guard.record_tool_result(true);
    guard.record_tool_result(true);
    assert!(!guard.is_circuit_broken());

    guard.record_tool_result(true);
    assert!(guard.is_circuit_broken());

    guard.record_tool_result(false);
    assert!(!guard.is_circuit_broken());
}

#[test]
fn repetition_notice_names_tool_and_threshold_and_trims_arguments() {
    let mut guard = LoopGuard::new(10, 2, 5, 5);
    assert!(guard.record_and_check_repetition("grep", "  foo ").is_none());
    let msg = guard.record_and_check_repetition("grep", "foo").expect("trimmed args match");
    assert_eq!(
        msg,
        "[System Notice: You have executed the exact same tool 'grep' with identical arguments 2 times in a row without progress. Please verify the output, modify your strategy, or summarize your findings.]"
    );
    // A different call breaks the run.
    assert!(guard.record_and_check_repetition("grep", "bar").is_none());
}

#[test]
fn history_is_bounded_and_reset_clears() {
    let mut guard = LoopGuard::new(2, 3, 3, 5);
    guard.record_and_check_repetition("a", "1");
    guard.record_and_check_repetition("a", "1");
    // Only 2 actions are kept, so 3 in a row can never be seen.
    assert!(guard.record_and_check_repetition("a", "1").is_none());
    assert!(!guard.is_repetition_limit_exceeded());
    guard.record_tool_result(true);
    assert_eq!(guard.consecutive_errors(), 1);
    guard.reset();
    assert_eq!(guard.consecutive_errors(), 0);
}
