use std::time::Duration;
use thunder_agent::tools::middleware::telemetry::SystemNotice;
use thunder_agent::types::tool::ToolExecutionResult;

#[test]
fn test_system_notice_format() {
    let notice = SystemNotice::new(
        "Transaction",
        "Write operation aborted due to timeout",
        "Target file 'src/main.rs' untouched, shadow file deleted",
    )
    .with_guidance("You may safely retry or split your change.");

    let md = notice.format_markdown();
    assert!(md.contains("[System Telemetry: Transaction"));
    assert!(md.contains("• Action: Write operation aborted"));
    assert!(md.contains("• Ground Truth: Target file 'src/main.rs' untouched"));
    assert!(md.contains("• Guidance: You may safely retry"));
}

#[test]
fn notice_markdown_exact_layout() {
    let notice = SystemNotice::new("L", "A", "G").with_self_healed("H").with_guidance("X");
    assert_eq!(
        notice.format_markdown(),
        "[System Telemetry: L\n • Action: A\n • Ground Truth: G\n • Self-Healed: H\n • Guidance: X]"
    );
}

#[test]
fn telemetry_is_appended_to_tool_results() {
    let r = ToolExecutionResult::error("boom".to_string(), Duration::from_millis(7))
        .with_telemetry(SystemNotice::new("L", "A", "G"));
    assert!(r.is_error);
    assert_eq!(r.duration_ms, 7);
    assert_eq!(r.output, "boom\n\n[System Telemetry: L\n • Action: A\n • Ground Truth: G]");
    assert_eq!(r.original_bytes, r.output.len());
    let blank = ToolExecutionResult::success("  ".to_string(), Duration::from_millis(1))
        .with_telemetry(SystemNotice::new("L", "A", "G"));
    assert_eq!(blank.output, "[System Telemetry: L\n • Action: A\n • Ground Truth: G]");
    assert!(!blank.is_error);
}
