use std::time::Duration;
use thunder_agent::tools::builtin::{BashTool, FindTool, GrepTool, ListDirTool, ReadFileTool, WriteFileTool};
use thunder_agent::tools::middleware::permission_guard::PermissionGuardMiddleware;
use thunder_agent::tools::middleware::resource::ResourceGuardMiddleware;
use thunder_agent::tools::middleware::transaction::{TempFileGuard, TransactionMiddleware, WritePlan};
use thunder_agent::tools::middleware::pipeline::{configured_layers, Layer};
use thunder_agent::types::config::{env_flag_set, MiddlewareConfig, Permission};
use thunder_agent::types::message::ToolCall;
use thunder_agent::types::tool::ToolExecutionResult;

#[test]
fn read_role_allows_read_file_and_blocks_the_rest() {
    let guard = PermissionGuardMiddleware::new(Permission::Read);
    assert_eq!(guard.permission(), Permission::Read);
    assert!(guard.screen("read_file", Duration::from_millis(1)).is_none());
    let res = guard.screen("write_file", Duration::from_millis(2)).unwrap();
    assert!(res.is_error);
    assert!(res.output.starts_with("Error: tool 'write_file' is not available in the current role"));
    assert!(res.output.contains("No filesystem write occurred"));
    assert!(!res.output.contains("Reads inside"));
    let res = guard.screen("bash", Duration::from_millis(2)).unwrap();
    assert!(res.output.contains("No shell execution occurred"));
}

#[test]
fn write_role_and_bash_role_and_unknown_tools() {
    let w = PermissionGuardMiddleware::new(Permission::Write).with_workspace_roots(vec!["/a".into(), "/b".into()]);
    assert!(w.screen("write_file", Duration::from_millis(1)).is_none());
    let res = w.screen("bash", Duration::from_millis(1)).unwrap();
    assert!(res.output.contains("Reads inside the allowed workspace roots are still available: [/a, /b]."));
    let b = PermissionGuardMiddleware::new(Permission::Bash);
    assert!(b.screen("bash", Duration::from_millis(1)).is_none());
    let r = PermissionGuardMiddleware::new(Permission::Read);
    assert!(r.screen("grep", Duration::from_millis(1)).is_none());
}

#[test]
fn resource_guard_decisions() {
    let g = ResourceGuardMiddleware::new("/ws");
    assert_eq!(g.max_read_bytes(), 10 * 1024 * 1024);
    let g = g.with_max_read_bytes(100);
    let call = ToolCall::new_function("c", "read_file", "{\"path\": \"big.log\"}");
    let q = g.read_size_query(&call).unwrap();
    assert_eq!(q.path, "/ws/big.log");
    assert!(!q.limited);
    assert!(g.is_oversized(101, q.limited));
    assert!(!g.is_oversized(100, q.limited));
    let limited = ToolCall::new_function("c", "read_file", "{\"path\": \"/abs\", \"limit\": 200}");
    let q = g.read_size_query(&limited).unwrap();
    assert_eq!(q.path, "/abs");
    assert!(q.limited);
    assert!(!g.is_oversized(1_000_000, q.limited));
    assert!(g.read_size_query(&ToolCall::new_function("c", "bash", "{}")).is_none());

    let c = g.cancelled_result(Duration::from_millis(4));
    assert!(c.is_error);
    assert!(c.output.starts_with("Tool execution cancelled by user signal"));
    assert!(c.output.contains("Tool execution cancelled before launch"));

    let ok = ToolExecutionResult::success("fine".into(), Duration::from_millis(1));
    assert_eq!(g.after_execution(ok).output, "fine");
    let cancelled = ToolExecutionResult::error("Tool execution cancelled by user".into(), Duration::from_millis(1));
    let r = g.after_execution(cancelled);
    assert!(r.output.contains("Tool execution interrupted by cancellation signal"));
    assert!(r.telemetry.is_some());
}

#[test]
fn transaction_names_plans_and_reports() {
    let t = TransactionMiddleware::new("/ws");
    assert_eq!(t.temp_dir(), "/ws/.arp/tmp");
    assert_eq!(t.temp_path("/ws/src/my file.rs", 123, 45, 6), "/ws/.arp/tmp/my_file.rs.123_45_6.tmp");
    assert_eq!(t.temp_path("/", 1, 2, 3), "/ws/.arp/tmp/file.1_2_3.tmp");
    assert_eq!(t.temp_path("a/..", 1, 2, 3), "/ws/.arp/tmp/file.1_2_3.tmp");

    let call = ToolCall::new_function("c", "write_file", "{\"path\": \"test.txt\", \"content\": \"Hello\"}");
    match t.plan(&call) {
        WritePlan::Write { target, content } => {
            assert_eq!(target, "/ws/test.txt");
            assert_eq!(content, "Hello");
        }
        other => panic!("unexpected plan {other:?}"),
    }
    assert!(matches!(t.plan(&ToolCall::new_function("c", "write_file", "{\"path\": \"x\"}")), WritePlan::PassThrough));
    assert!(matches!(t.plan(&ToolCall::new_function("c", "bash", "{}")), WritePlan::PassThrough));
    match t.plan(&ToolCall::new_function("c", "write_file", "not json")) {
        WritePlan::Refuse(m) => assert!(m.starts_with("Error parsing arguments for write_file: ")),
        other => panic!("unexpected plan {other:?}"),
    }

    let ok = t.report(false, "/ws/test.txt", &"Hello Atomic Thunder!".to_string(), Ok(()), Duration::from_millis(2));
    assert!(!ok.is_error);
    assert!(ok.output.starts_with("Created new file '/ws/test.txt' with 21 bytes via atomic shadow staging."));
    assert!(ok.output.contains("Atomic shadow write & rename completed"));
    let bad = t.report(true, "/ws/test.txt", &"x".to_string(), Err("cancelled".into()), Duration::from_millis(2));
    assert!(bad.is_error);
    assert!(bad.output.starts_with("cancelled"));
    assert!(bad.output.contains("remains 100% UNTOUCHED"));

    let mut g = TempFileGuard::new("/tmp/x.tmp".into());
    assert!(g.discard_on_drop());
    g.commit();
    assert!(!g.discard_on_drop());
    assert_eq!(g.path(), "/tmp/x.tmp");
}

#[test]
fn builtin_tools_resolve_and_report() {
    let bash = BashTool::default();
    assert_eq!(bash.max_buffer_bytes(), 1024 * 1024);
    assert_eq!(BashTool::new(7).max_buffer_bytes(), 7);
    assert_eq!(bash.report("out".into(), "err".into(), true, Some(0)), Ok("out\nerr".to_string()));
    assert_eq!(bash.report(String::new(), String::new(), true, Some(0)), Ok("(Command executed successfully with no output)".to_string()));
    assert_eq!(
        bash.report(String::new(), String::new(), false, Some(2)),
        Err("Process exit error (Some(2)):\n(Command exited with status Some(2) and no output)".to_string())
    );
    assert_eq!(bash.report(String::new(), "boom".into(), false, None), Err("Process exit error (None):\nboom".to_string()));
    assert_eq!(bash.report("x".into(), String::new(), false, Some(-1)), Err("Process exit error (Some(-1)):\nx".to_string()));

    let read = ReadFileTool::new().with_default_cwd("/ws".into());
    assert_eq!(read.target_path("a.txt"), "/ws/a.txt");
    assert_eq!(read.target_path("/etc/a"), "/etc/a");
    assert_eq!(ReadFileTool::new().target_path("a.txt"), "a.txt");
    let content = "l1\nl2\r\nl3\nl4\n";
    assert_eq!(read.select_lines(content, 1, None), content);
    assert_eq!(read.select_lines(content, 2, Some(2)), "l2\nl3");
    assert_eq!(read.select_lines(content, 3, None), "l3\nl4");
    assert_eq!(read.select_lines(content, 9, None), "");
    assert_eq!(read.select_lines(content, 0, Some(1)), "l1");

    assert_eq!(WriteFileTool::new().with_default_cwd("/w".into()).target_path("b"), "/w/b");
    assert_eq!(FindTool::new().with_default_cwd("/w".into()).root_path("."), "/w/.");
    assert_eq!(ListDirTool::new().root_path("src"), "src");
    assert_eq!(GrepTool::new().with_default_cwd("/w/".into()).root_path("/abs"), "/abs");
}

#[test]
fn configured_pipeline_stacks_enabled_layers_in_order() {
    let all_on = MiddlewareConfig::with_disabled(false, false);
    assert_eq!(
        configured_layers(&all_on),
        vec![
            Layer::PermissionGuard,
            Layer::SecurityGuard,
            Layer::ResourceGuard,
            Layer::Transaction,
            Layer::OutputPostProcessor,
        ]
    );
    let no_tx_no_sec = MiddlewareConfig::with_disabled(true, true);
    assert_eq!(
        configured_layers(&no_tx_no_sec),
        vec![Layer::PermissionGuard, Layer::ResourceGuard, Layer::OutputPostProcessor]
    );
    let bare = MiddlewareConfig {
        enable_security_guard: false,
        enable_resource_guard: false,
        enable_transaction: false,
        enable_output_post_processor: false,
    };
    assert_eq!(configured_layers(&bare), vec![Layer::PermissionGuard]);
}

#[test]
fn environment_flag_values_that_disable_a_layer() {
    assert!(env_flag_set("1"));
    assert!(env_flag_set("true"));
    assert!(env_flag_set("TRUE"));
    assert!(env_flag_set("True"));
    assert!(!env_flag_set("0"));
    assert!(!env_flag_set("yes"));
    assert!(!env_flag_set(""));
    assert!(!env_flag_set(" true"));
}

#[test]
fn bash_output_buffers_and_reports() {
    let tool = BashTool::new(8);
    let mut buf = Vec::new();
    tool.absorb(&mut buf, b"12345");
    tool.absorb(&mut buf, b"6789");
    assert_eq!(buf, b"123456789".to_vec());
    tool.absorb(&mut buf, b"more");
    assert_eq!(buf, b"123456789".to_vec());
    assert_eq!(tool.finish(b"out", b"err", true, Some(0)), Ok("out\nerr".to_string()));
    assert_eq!(tool.finish(b"", b"", false, Some(2)), Err("Process exit error (Some(2)):\n(Command exited with status Some(2) and no output)".to_string()));
    assert_eq!(tool.finish(&[0xff, b'a'], b"", true, Some(0)), Ok("\u{fffd}a".to_string()));
}

#[test]
fn write_tool_names_and_messages() {
    assert_eq!(WriteFileTool::staging_name(Some("main.rs"), 42, 1234567890123456789012), ".main.rs_42_1234567890123456789012.tmp");
    assert_eq!(WriteFileTool::staging_name(None, 7, 0), ".file_7_0.tmp");
    assert_eq!(WriteFileTool::written_message("héllo", "/ws/a.txt"), "Successfully wrote 6 bytes to /ws/a.txt");
}
