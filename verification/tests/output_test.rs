use std::time::Duration;
use thunder_agent::tools::middleware::output::{format_and_truncate, OutputPostProcessorMiddleware, OutputStep};

fn done(step: OutputStep) -> thunder_agent::types::tool::ToolExecutionResult {
    match step {
        OutputStep::Done(r) => r,
        OutputStep::Persist(_) => panic!("expected a finished result"),
    }
}

#[test]
fn test_output_middleware_truncation() {
    let long_output = "X".repeat(1000);
    let middleware = OutputPostProcessorMiddleware::new(100, None);
    let res = done(middleware.post_process(long_output, false, Duration::from_millis(5)));
    assert!(res.truncated);
    assert!(res.output.contains("Output truncated"));
    assert_eq!(res.original_bytes, 1000);
    assert_eq!(
        res.output,
        format!(
            "{}\n\n[... Output truncated: 920 bytes omitted (total: 1000 bytes) ...]\n\n{}",
            "X".repeat(40),
            "X".repeat(40)
        )
    );
    assert_eq!(res.duration_ms, 5);
    assert!(!res.is_error);
}

#[test]
fn output_within_the_limit_is_kept() {
    let r = format_and_truncate("short".to_string(), true, Duration::from_millis(7), 5);
    assert_eq!(r.output, "short");
    assert!(!r.truncated);
    assert!(r.is_error);
    assert_eq!(r.original_bytes, 5);
    assert_eq!(r.duration_ms, 7);
}

#[test]
fn cuts_fall_on_character_boundaries() {
    // Two-byte characters: 40 kept bytes hold exactly 20 of them.
    let r = format_and_truncate("é".repeat(60), false, Duration::from_millis(0), 100);
    assert_eq!(
        r.output,
        format!(
            "{}\n\n[... Output truncated: 40 bytes omitted (total: 120 bytes) ...]\n\n{}",
            "é".repeat(20),
            "é".repeat(20)
        )
    );
    // Three-byte characters: only 13 fit in 40 bytes on each side.
    let r = format_and_truncate("€".repeat(50), false, Duration::from_millis(0), 100);
    assert_eq!(
        r.output,
        format!(
            "{}\n\n[... Output truncated: 72 bytes omitted (total: 150 bytes) ...]\n\n{}",
            "€".repeat(13),
            "€".repeat(13)
        )
    );
    assert_eq!(r.original_bytes, 150);
    // A limit of 9 keeps 3 bytes a side.
    let r = format_and_truncate("abcdefghij".to_string(), false, Duration::from_millis(0), 9);
    assert_eq!(r.output, "abc\n\n[... Output truncated: 4 bytes omitted (total: 10 bytes) ...]\n\nhij");
}

#[test]
fn errors_come_back_sanitized_and_whole() {
    let mw = OutputPostProcessorMiddleware::new(10, Some(5));
    let r = done(mw.post_process("\x1b[31mthe command failed with a long message\x1b[0m".to_string(), true, Duration::from_millis(3)));
    assert_eq!(r.output, "the command failed with a long message");
    assert!(r.is_error);
    assert!(!r.truncated);
    assert_eq!(r.original_bytes, 38);
}

#[test]
fn oversized_output_goes_to_the_scratchpad() {
    let mw = OutputPostProcessorMiddleware::new(10, None).with_scratchpad(8);
    match mw.post_process("0123456789abcdef".to_string(), false, Duration::from_millis(1)) {
        OutputStep::Persist(p) => assert_eq!(p, "0123456789abcdef"),
        OutputStep::Done(_) => panic!("expected the scratchpad"),
    }
    let saved = "[Large Output Saved to Disk] see file".to_string();
    let r = done(mw.post_process(saved, false, Duration::from_millis(1)));
    assert!(r.truncated);
    let small = done(mw.post_process("tiny".to_string(), false, Duration::from_millis(1)));
    assert_eq!(small.output, "tiny");

    let ok = mw.after_persist(Ok("handle".to_string()), "0123456789abcdef".to_string(), Duration::from_millis(2));
    assert_eq!(ok.output, "handle");
    assert!(ok.truncated);
    assert_eq!(ok.original_bytes, 16);
    let failed = mw.after_persist(Err("disk full".to_string()), "0123456789abcdef".to_string(), Duration::from_millis(2));
    assert_eq!(failed.output, "0123\n\n[... Output truncated: 8 bytes omitted (total: 16 bytes) ...]\n\ncdef");
}

#[test]
fn binary_output_is_replaced() {
    let mw = OutputPostProcessorMiddleware::new(100, None);
    let r = done(mw.post_process("a\u{0}b".to_string(), false, Duration::from_millis(0)));
    assert_eq!(r.output, "[Binary data omitted: 3 bytes]");
}
