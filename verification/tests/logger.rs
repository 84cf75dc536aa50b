use framework::support::logger::{exceeds_size_limit, log_file_pattern, log_line, plan_log_files, Logger};
use std::path::PathBuf;

fn names(v: &[&str]) -> Vec<String> {
    v.iter().map(|s| s.to_string()).collect()
}

#[test]
fn plan_with_no_log_files_starts_one() {
    let pattern = log_file_pattern().unwrap();
    let plan = plan_log_files(&pattern, &names(&["other.txt", "app.log", "app.123.log"]));
    assert_eq!(plan.append_to, None);
    assert_eq!(plan.remove, None);
}

#[test]
fn plan_appends_to_latest() {
    let pattern = log_file_pattern().unwrap();
    let plan = plan_log_files(
        &pattern,
        &names(&["app.1700000002.log", "notes.md", "app.1700000001.log", "app.1700000003xlog"]),
    );
    assert_eq!(plan.append_to.as_deref(), Some("app.1700000003xlog"));
    assert_eq!(plan.remove, None);
}

#[test]
fn plan_removes_earliest_at_ten_files() {
    let pattern = log_file_pattern().unwrap();
    let mut v: Vec<String> = (0..10).map(|i| format!("app.17000000{:02}.log", 19 - i)).collect();
    v.push("app.1700000000.txt".to_string());
    let plan = plan_log_files(&pattern, &v);
    assert_eq!(plan.append_to.as_deref(), Some("app.1700000019.log"));
    assert_eq!(plan.remove.as_deref(), Some("app.1700000010.log"));
    v.truncate(9);
    let plan = plan_log_files(&pattern, &v);
    assert_eq!(plan.remove, None);
}

#[test]
fn size_limit() {
    assert!(!exceeds_size_limit(25 * 1024 * 1024 - 1));
    assert!(exceeds_size_limit(25 * 1024 * 1024));
    assert!(!exceeds_size_limit(0));
}

#[test]
fn log_lines() {
    assert_eq!(log_line("2024-01-01 00:00:00", "src/x.rs:1:2", "hello"), "[2024-01-01 00:00:00] src/x.rs:1:2: hello\n");
}

#[test]
fn logger_keeps_root() {
    let logger = Logger::new(PathBuf::from("/tmp/app"));
    assert_eq!(logger.root(), &PathBuf::from("/tmp/app"));
    let copy = logger.clone();
    assert_eq!(copy.root(), &PathBuf::from("/tmp/app"));
}
