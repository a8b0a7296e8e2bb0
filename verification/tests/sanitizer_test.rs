use thunder_agent::tools::sanitizer::{is_binary_data, sanitize_tool_output, strip_ansi_escapes};

#[test]
fn test_strip_ansi_escapes() {
    let colored = "\x1b[31;1mError:\x1b[0m File not found \x1b[32m[OK]\x1b[0m";
    assert_eq!(strip_ansi_escapes(colored), "Error: File not found [OK]");

    let plain = "Clean text without ansi";
    assert_eq!(strip_ansi_escapes(plain), plain);
}

#[test]
fn test_binary_detection() {
    let binary_payload = vec![0x7f, b'E', b'L', b'F', 0, 1, 1, 0, 0, 0, 0];
    assert!(is_binary_data(&binary_payload));

    let text_payload = b"Hello, this is regular UTF-8 text.\nLine 2\tIndented\r\n";
    assert!(!is_binary_data(text_payload));
}

#[test]
fn test_sanitize_tool_output() {
    let colored = "\x1b[33mWarning:\x1b[0m check disk";
    assert_eq!(sanitize_tool_output(colored.to_string()), "Warning: check disk");

    let binary_str = String::from_utf8_lossy(&[0, 1, 2, 3, 0, 5]).to_string();
    let sanitized = sanitize_tool_output(binary_str);
    assert!(sanitized.contains("[Binary data omitted"));
}

#[test]
fn osc_and_charset_sequences_are_removed() {
    assert_eq!(strip_ansi_escapes("a\x1b]0;title\x07b"), "ab");
    assert_eq!(strip_ansi_escapes("a\x1b]0;title\x1b\\b"), "ab");
    assert_eq!(strip_ansi_escapes("a\x1b(Bb"), "ab");
    // A lone trailing ESC is kept.
    assert_eq!(strip_ansi_escapes("a\x1b"), "a\x1b");
}

#[test]
fn control_byte_ratio_threshold() {
    assert!(!is_binary_data(b""));
    // 2 control bytes in 25 is exactly 8%: not binary.
    let mut v = vec![b'a'; 23];
    v.extend_from_slice(&[1, 2]);
    assert!(!is_binary_data(&v));
    // 3 in 25 is above 8%.
    v[0] = 3;
    assert!(is_binary_data(&v));
    assert_eq!(sanitize_tool_output("\u{0}\u{0}".to_string()), "[Binary data omitted: 2 bytes]");
}
