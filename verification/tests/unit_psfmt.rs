//! Tests for the container table formatting.

use craterun::format_created;
use craterun::format_ps_header;
use craterun::format_ps_row;
use craterun::join_cmd;
use craterun::ContainerMeta;
use craterun::ContainerStatus;

fn row_meta() -> ContainerMeta {
    ContainerMeta {
        id: "abcdef0123456789".to_string(),
        rootfs: "/srv/rootfs".to_string(),
        cmd: vec!["/bin/sh".to_string(), "-c".to_string(), "echo hi".to_string()],
        pid: 0,
        exit_code: Some(0),
        created_at: "2025-01-02T03:04:05Z".to_string(),
        status: ContainerStatus::Stopped,
        hostname: "craterun".to_string(),
        memory_limit: None,
        cpu_limit: None,
        pids_limit: None,
    }
}

#[test]
fn header_has_all_columns() {
    let h = format_ps_header();
    assert!(h.starts_with("CONTAINER ID"));
    assert!(h.contains("PID"));
    assert!(h.contains("STATUS"));
    assert!(h.contains("CREATED"));
    assert!(h.ends_with("COMMAND"));
}

#[test]
fn row_is_exact() {
    let row = format_ps_row(&row_meta());
    assert_eq!(
        row,
        "abcdef0123456789   -        stopped    2025-01-02 03:04:05 UTC  /bin/sh -c echo hi"
    );
}

#[test]
fn row_shows_pid_when_running() {
    let mut meta = row_meta();
    meta.pid = 4321;
    meta.status = ContainerStatus::Running;
    let row = format_ps_row(&meta);
    assert!(row.contains("4321"));
    assert!(row.contains("running"));
}

#[test]
fn long_commands_are_truncated() {
    let mut meta = row_meta();
    meta.cmd = vec!["/bin/sh".to_string(), "-c".to_string(), "x".repeat(60)];
    let row = format_ps_row(&meta);
    assert!(row.ends_with("..."));
    let tail = row.split("UTC  ").last().unwrap();
    assert_eq!(tail.chars().count(), 40);
}

#[test]
fn created_timestamp_is_reformatted() {
    assert_eq!(
        format_created("2025-01-02T03:04:05Z"),
        "2025-01-02 03:04:05 UTC"
    );
    assert_eq!(format_created("odd"), "odd");
}

#[test]
fn commands_join_with_spaces() {
    assert_eq!(
        join_cmd(&vec!["a".to_string(), "bb".to_string(), "c".to_string()]),
        "a bb c"
    );
    assert_eq!(join_cmd(&Vec::new()), "");
}
