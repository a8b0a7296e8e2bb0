use thunder_agent::daemon::traces::{
    is_stale_temp, is_trace_file, latest_trace, path_extension, trace_file_name, trace_order,
};

#[test]
fn extensions_follow_the_last_dot_of_the_file_name() {
    assert_eq!(path_extension("/s/traces/t1.json").as_deref(), Some("json"));
    assert_eq!(path_extension("a.b.tmp").as_deref(), Some("tmp"));
    assert_eq!(path_extension(".tmp"), None);
    assert_eq!(path_extension("..tmp").as_deref(), Some("tmp"));
    assert_eq!(path_extension("noext"), None);
    assert_eq!(path_extension("dir.d/noext"), None);
    assert_eq!(path_extension("trail."), Some(String::new()));
    assert_eq!(path_extension("/a/b/.."), None);
    assert!(is_trace_file("/x/traces/task_9.json"));
    assert!(!is_trace_file("/x/traces/task_9.json.bak"));
    assert_eq!(trace_file_name("task_9"), "task_9.json");
}

#[test]
fn only_old_shadow_files_are_stale() {
    let day: u128 = 86_400_000_000_000;
    assert!(is_stale_temp("/w/.arp/tmp/a.rs.1_2_3.tmp", true, Some(day + 1), day));
    assert!(!is_stale_temp("/w/.arp/tmp/a.rs.1_2_3.tmp", true, Some(day), day));
    assert!(!is_stale_temp("/w/.arp/tmp/a.rs.1_2_3.tmp", false, Some(day + 1), day));
    assert!(!is_stale_temp("/w/.arp/tmp/a.rs.1_2_3.tmp", true, None, day));
    assert!(!is_stale_temp("/w/.arp/tmp/notes.txt", true, Some(day + 1), day));
}

#[test]
fn latest_trace_is_the_first_newest() {
    assert_eq!(latest_trace(&vec![Some(5), None, Some(9), Some(9), Some(1)]), Some(2));
    assert_eq!(latest_trace(&vec![None, Some(0)]), None);
    assert_eq!(latest_trace(&Vec::new()), None);
    assert_eq!(latest_trace(&vec![Some(0), Some(3)]), Some(1));
}

#[test]
fn traces_list_newest_first_and_keep_ties_in_order() {
    let order = trace_order(&vec![Some(10), None, Some(30), Some(10), Some(20), Some(0)]);
    assert_eq!(order, vec![2, 4, 0, 3, 1, 5]);
    assert!(trace_order(&Vec::new()).is_empty());
}
