use std::time::Duration;
use thunder_agent::tools::middleware::security::{
    extract_write_targets, normalize_path, PathResolutions, SecurityGuardMiddleware,
};
use thunder_agent::types::message::ToolCall;

fn strings(v: &[&str]) -> Vec<String> {
    v.iter().map(|s| s.to_string()).collect()
}

#[test]
fn test_extract_write_targets_shapes() {
    let targets = extract_write_targets("echo a > /tmp/x && cp /tmp/x /etc/y");
    assert!(targets.contains(&"/tmp/x".to_string()));
    assert!(targets.contains(&"/etc/y".to_string()));

    // Last-operand semantics: only the destination of cp is a target.
    let targets = extract_write_targets("cp /a/b c.txt");
    assert_eq!(targets, vec!["c.txt".to_string()]);

    // Write-command keywords are only verbs, never echo operands.
    let targets = extract_write_targets("echo cp /etc/x");
    assert!(targets.is_empty(), "echo operands must not be targets: {targets:?}");

    // chmod: mode operand is skipped, targets follow.
    let targets = extract_write_targets("chmod 644 /etc/hosts /etc/passwd");
    assert_eq!(targets, vec!["/etc/hosts".to_string(), "/etc/passwd".to_string()]);

    // Option tokens never count as operands.
    let targets = extract_write_targets("rm -rf subdir");
    assert_eq!(targets, vec!["subdir".to_string()]);
}

#[test]
fn redirections_fused_and_numbered() {
    assert_eq!(extract_write_targets("echo x 2>>/var/log/a"), strings(&["/var/log/a"]));
    assert_eq!(extract_write_targets("cmd &> '/tmp/o'"), strings(&["/tmp/o"]));
    assert_eq!(extract_write_targets("sed -i 's/a/b/' /etc/hosts"), strings(&["/etc/hosts"]));
    assert_eq!(extract_write_targets("ls && rm a, b;"), strings(&["a", "b"]));
    assert!(extract_write_targets("ls; rm a").is_empty());
    assert!(extract_write_targets("ls ; rm a").is_empty());
}

#[test]
fn normalization_resolves_dots_logically() {
    let p = normalize_path("/a/./b/../c//d/");
    assert!(p.absolute);
    assert_eq!(p.components, strings(&["a", "c", "d"]));
    assert_eq!(p.display(), "/a/c/d");
    let q = normalize_path("../x/..");
    assert!(!q.absolute);
    assert!(q.components.is_empty());
    assert_eq!(normalize_path("/..").display(), "/");
}

#[test]
fn check_path_judges_the_resolved_path() {
    let guard = SecurityGuardMiddleware::new("/work/ws");
    assert_eq!(guard.candidate_path("src/main.rs"), "/work/ws/src/main.rs");
    assert_eq!(guard.candidate_path("/etc/shadow"), "/etc/shadow");
    let ok = guard.check_path("src/main.rs", "/work/ws/src/main.rs").unwrap();
    assert_eq!(ok.display(), "/work/ws/src/main.rs");
    let err = guard.check_path("../../etc/shadow", "/work/ws/../../etc/shadow").unwrap_err();
    assert_eq!(
        err,
        "Path traversal detected! Path '../../etc/shadow' escapes all allowed workspace roots [/work/ws]"
    );
    // A sibling sharing a name prefix is not inside the root.
    assert!(guard.check_path("/work/wsx", "/work/wsx").is_err());
}

#[test]
fn extra_roots_are_deduplicated_and_listed() {
    let guard = SecurityGuardMiddleware::new("/work/ws")
        .with_extra_roots(strings(&["/repo", "/work/ws", "/repo/./"]));
    let roots: Vec<String> = guard.allowed_roots().iter().map(|r| r.display()).collect();
    assert_eq!(roots, strings(&["/work/ws", "/repo"]));
    assert_eq!(guard.workspace_root().display(), "/work/ws");
    assert!(guard.check_path("/repo/src/main.rs", "/repo/src/main.rs").is_ok());
    let err = guard.check_path("/etc/shadow", "/etc/shadow").unwrap_err();
    assert!(err.ends_with("[/work/ws, /repo]"));
}

#[test]
fn commands_are_checked_for_patterns_then_targets() {
    let guard = SecurityGuardMiddleware::new("/work/ws");
    assert_eq!(
        guard.check_command("sudo rm -rf /", &vec![]),
        Err("Forbidden high-risk command pattern detected: 'rm -rf /'".to_string())
    );
    let targets = guard.judged_command_targets("echo hacked > /etc/hosts");
    assert_eq!(targets, strings(&["/etc/hosts"]));
    assert_eq!(
        guard.check_command("echo hacked > /etc/hosts", &targets),
        Err("Shell write target '/etc/hosts' escapes all allowed workspace roots [/work/ws]".to_string())
    );
    assert!(guard.judged_command_targets("echo x > /dev/null").is_empty());
    assert!(guard.judged_command_targets("echo x > out.txt").is_empty());
    assert!(guard.judged_command_targets("echo x > $HOME/a").is_empty());
    assert!(guard.check_command("ls /etc | head -5", &vec![]).is_ok());
    assert!(guard.check_command("echo data > /work/ws/out.txt", &vec![]).is_ok());
    let guard = guard.with_forbidden_command("shutdown");
    assert!(guard.check_command("shutdown now", &vec![]).is_err());
}

#[test]
fn screening_blocks_with_telemetry() {
    let guard = SecurityGuardMiddleware::new("/work/ws");
    let call = ToolCall::new_function("c1", "write_file", "{\"path\": \"../../etc/shadow\", \"content\": \"x\"}");
    let queries = guard.resolution_queries(&call);
    assert_eq!(queries.path.as_deref(), Some("/work/ws/../../etc/shadow"));
    let res = guard.screen(&call, &queries, Duration::from_millis(3)).unwrap();
    assert!(res.is_error);
    assert_eq!(res.duration_ms, 3);
    assert!(res.output.starts_with("Access Denied: Path traversal detected!"));
    assert!(res.output.contains("[System Telemetry: SecurityGuard"));
    assert!(res.output.contains("Path traversal attack blocked"));
    assert!(res.output.contains("[/work/ws]"));

    let ok = ToolCall::new_function("c2", "write_file", "{\"path\": \"src/main.rs\"}");
    let queries = guard.resolution_queries(&ok);
    assert!(guard.screen(&ok, &queries, Duration::from_millis(1)).is_none());

    let bash = ToolCall::new_function("c3", "bash", "{\"command\": \"sudo rm -rf /\"}");
    let queries = guard.resolution_queries(&bash);
    let res = guard.screen(&bash, &queries, Duration::from_millis(1)).unwrap();
    assert!(res.output.contains("Forbidden high-risk command pattern"));
    assert!(res.output.contains("Dangerous destructive shell operations are disabled"));

    let escape = ToolCall::new_function("c4", "bash", "{\"command\": \"tee /etc/hosts\"}");
    let queries = guard.resolution_queries(&escape);
    assert_eq!(queries.command_targets, strings(&["/etc/hosts"]));
    let res = guard.screen(&escape, &queries, Duration::from_millis(1)).unwrap();
    assert!(res.output.contains("Shell write target"));
    assert!(res.output.contains("Out-of-jail shell write blocked"));

    let cwd = ToolCall::new_function("c5", "bash", "{\"command\": \"ls\", \"cwd\": \"/tmp\"}");
    let resolved = PathResolutions { path: None, cwd: Some("/tmp".to_string()), command_targets: vec![] };
    let res = guard.screen(&cwd, &resolved, Duration::from_millis(1)).unwrap();
    assert!(res.output.contains("Working directory traversal blocked"));
}
