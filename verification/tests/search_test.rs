use thunder_agent::tools::listing::{list_report, sort_entries, EntryInfo};
use thunder_agent::tools::search::{
    admits_file, find_pattern_arg, glob_filter, grep_matcher, grep_pattern_arg, result_limit, search_expression,
    FileSink, FindCollector, GrepCollector, DEFAULT_FIND_LIMIT, DEFAULT_MATCH_LIMIT,
};

#[test]
fn search_arguments() {
    assert_eq!(result_limit(None, DEFAULT_MATCH_LIMIT), 100);
    assert_eq!(result_limit(Some(0), DEFAULT_MATCH_LIMIT), 1);
    assert_eq!(result_limit(Some(7), DEFAULT_FIND_LIMIT), 7);
    assert_eq!(grep_pattern_arg(None), Err("Missing required parameter 'pattern'".to_string()));
    assert_eq!(grep_pattern_arg(Some(String::new())), Err("Pattern must not be empty".to_string()));
    assert_eq!(grep_pattern_arg(Some(" ".to_string())), Ok(" ".to_string()));
    assert_eq!(find_pattern_arg(Some("  ".to_string())), Err("Pattern must not be empty".to_string()));
    assert_eq!(find_pattern_arg(Some("*.rs".to_string())), Ok("*.rs".to_string()));
    assert_eq!(search_expression("a.b*c(d)", true), "a\\.b\\*c\\(d\\)");
    assert_eq!(search_expression("a.b*c", false), "a.b*c");
    assert_eq!(search_expression("x-y~z#&", true), "x\\-y\\~z\\#\\&");
}

#[test]
fn glob_filters_match_at_any_depth_unless_anchored() {
    assert!(glob_filter("   ").unwrap().is_none());
    let rs = glob_filter("*.rs").unwrap();
    assert!(admits_file(&rs, "src/main.rs"));
    assert!(admits_file(&rs, "/abs/deep/dir/lib.rs"));
    assert!(!admits_file(&rs, "src/main.ts"));
    assert!(admits_file(&None, "anything"));
    let anchored = glob_filter(" src/*.rs ").unwrap();
    assert!(admits_file(&anchored, "src/main.rs"));
    assert!(!admits_file(&anchored, "other/main.rs"));
    let err = glob_filter("*.[").err().unwrap();
    assert!(err.starts_with("Invalid glob '*.[': "), "{err}");
}

#[test]
fn grep_lines_groups_and_report() {
    let mut c = GrepCollector::new(10);
    let mut sink = FileSink::new("src/a.rs".to_string(), 1);
    assert!(sink.context(&mut c, 1, b"before\n", true));
    assert!(sink.matched(&mut c, 2, &vec![b"fn main() {\r\n".to_vec()]));
    assert!(sink.context(&mut c, 3, b"after\n", true));
    // A later group is separated by `--`.
    assert!(sink.matched(&mut c, 10, &vec![b"fn other()".to_vec()]));
    // Other context kinds are ignored.
    assert!(sink.context(&mut c, 11, b"ignored\n", false));
    let report = c.report("fn");
    assert_eq!(
        report,
        "src/a.rs-1:before\nsrc/a.rs:2:fn main() {\nsrc/a.rs-3:after\n--\nsrc/a.rs:10:fn other()"
    );

    let mut plain = GrepCollector::new(10);
    let mut s2 = FileSink::new("b.txt".to_string(), 0);
    assert!(s2.matched(&mut plain, 1, &vec![b"x".to_vec()]));
    assert!(s2.matched(&mut plain, 5, &vec![b"x".to_vec()]));
    assert_eq!(plain.report("x"), "b.txt:1:x\nb.txt:5:x");

    assert_eq!(GrepCollector::new(5).report("nothing"), "No matches found for pattern 'nothing'");
}

#[test]
fn grep_limits_and_long_lines() {
    let mut c = GrepCollector::new(2);
    let mut sink = FileSink::new("f".to_string(), 0);
    assert!(sink.matched(&mut c, 1, &vec![b"one".to_vec()]));
    assert!(!sink.matched(&mut c, 2, &vec![b"two".to_vec()]));
    assert!(c.at_capacity());
    assert!(!sink.matched(&mut c, 3, &vec![b"three".to_vec()]));
    let r = c.report("o");
    assert_eq!(r, "f:1:one\nf:2:two\n\n[Output truncated — narrow the pattern/path or pass a smaller 'limit']");

    let mut c = GrepCollector::new(10);
    let mut sink = FileSink::new("g".to_string(), 0);
    let long = "é".repeat(600);
    sink.matched(&mut c, 7, &vec![long.as_bytes().to_vec()]);
    let r = c.report("é");
    assert_eq!(r, format!("g:7:{}… (line truncated)", "é".repeat(482)));

    let mut c = GrepCollector::new(1000);
    let mut sink = FileSink::new("h".to_string(), 0);
    let mut n = 0u64;
    while !c.at_capacity() {
        n += 1;
        sink.matched(&mut c, n, &vec![vec![b'x'; 400]]);
    }
    assert!(c.report("x").ends_with("pass a smaller 'limit']"));
}

#[test]
fn find_sorts_and_bounds_results() {
    let filter = glob_filter("*.rs").unwrap().unwrap();
    let mut c = FindCollector::new(3);
    for p in ["src/z.rs", "README.md", "src/a.rs", "b.rs", "c.rs"] {
        c.offer(&filter, p, p.to_string());
    }
    assert!(c.at_capacity());
    assert_eq!(c.report("*.rs"), "b.rs\nsrc/a.rs\nsrc/z.rs");
    c.mark_truncated();
    assert!(c.report("*.rs").ends_with("\n\n[Output truncated — narrow the pattern or pass a smaller 'limit']"));
    assert_eq!(FindCollector::new(5).report("*.zz"), "No files found matching '*.zz'");
}

fn info(name: &str, is_dir: bool, size: u64) -> Option<EntryInfo> {
    Some(EntryInfo { name: name.to_string(), is_dir, size })
}

#[test]
fn listings_put_directories_first_in_order() {
    let entries = vec![
        info("zeta.txt", false, 12),
        info("src", true, 0),
        None,
        info("alpha.md", false, 3),
        info(".git", true, 0),
    ];
    assert_eq!(list_report(&entries, "/ws"), ".git/\nsrc/\nalpha.md (3 bytes)\nzeta.txt (12 bytes)");
    assert_eq!(list_report(&Vec::new(), "/ws/empty"), "Directory is empty: /ws/empty");
    assert_eq!(list_report(&vec![None], "/ws/x"), "Directory is empty: /ws/x");

    let mut many: Vec<Option<EntryInfo>> = (0..1001).map(|i| info(&format!("f{i:04}"), false, 1)).collect();
    many.push(info("late", false, 1));
    let r = list_report(&many, "/big");
    assert!(r.ends_with("f0999 (1 bytes)\n\n[Output truncated at 1000 entries]"), "{}", &r[r.len() - 80..]);
    assert!(!r.contains("f1000"));
    assert!(!r.contains("late"));
}

#[test]
fn entries_sort_by_name_then_number() {
    let v = vec![
        ("b".to_string(), 2),
        ("a".to_string(), 9),
        ("b".to_string(), 1),
        ("ä".to_string(), 0),
        ("A".to_string(), 5),
        ("a".to_string(), 9),
    ];
    let mut expected = v.clone();
    expected.sort();
    assert_eq!(sort_entries(v), expected);
}

#[test]
fn grep_matcher_reports_invalid_patterns() {
    let err = grep_matcher("(unclosed", false, false).err().unwrap();
    assert!(err.starts_with("Invalid pattern '(unclosed': "));
    assert!(err.len() > "Invalid pattern '(unclosed': ".len());
    assert!(grep_matcher("(unclosed", true, false).is_ok());
    assert!(grep_matcher("fn\\s+main", false, true).is_ok());
}
