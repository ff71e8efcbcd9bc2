//! Tests for the metadata codec: the canonical document, the status
//! wire form, and the serialize/parse round trip.

use craterun::parse_meta;
use craterun::serialize_meta;
use craterun::ContainerMeta;
use craterun::ContainerStatus;

fn sample_meta() -> ContainerMeta {
    ContainerMeta {
        id: "abcdef0123456789".to_string(),
        rootfs: "/tmp/rootfs".to_string(),
        cmd: vec!["/bin/sh".to_string(), "-c".to_string(), "echo hi".to_string()],
        pid: 12345,
        exit_code: None,
        created_at: "2025-06-01T12:00:00Z".to_string(),
        status: ContainerStatus::Running,
        hostname: "craterun".to_string(),
        memory_limit: Some(67108864),
        cpu_limit: None,
        pids_limit: Some(100),
    }
}

#[test]
fn status_display() {
    assert_eq!(ContainerStatus::Running.status_string(), "running");
    assert_eq!(ContainerStatus::Stopped.status_string(), "stopped");
    assert_eq!(ContainerStatus::Created.status_string(), "created");
}

#[test]
fn meta_serialization_round_trip() {
    let meta = sample_meta();
    let json = serialize_meta(&meta);
    let back = parse_meta(&json).expect("deserialize");
    assert_eq!(back.id, meta.id);
    assert_eq!(back.rootfs, meta.rootfs);
    assert_eq!(back.cmd, meta.cmd);
    assert_eq!(back.pid, meta.pid);
    assert_eq!(back.status, meta.status);
    assert_eq!(back.memory_limit, Some(67108864));
}

#[test]
fn metadata_json_round_trip() {
    let meta = ContainerMeta {
        id: "aabbccdd11223344".to_string(),
        rootfs: "/tmp/rootfs".to_string(),
        cmd: vec!["/bin/sh".to_string(), "-c".to_string(), "echo hello".to_string()],
        pid: 0,
        exit_code: Some(0),
        created_at: "2025-01-01T00:00:00Z".to_string(),
        status: ContainerStatus::Stopped,
        hostname: "craterun".to_string(),
        memory_limit: Some(1024 * 1024 * 64),
        cpu_limit: None,
        pids_limit: None,
    };

    let json = serialize_meta(&meta);
    let back = parse_meta(&json).unwrap();

    assert_eq!(back.id, "aabbccdd11223344");
    assert_eq!(back.rootfs, "/tmp/rootfs");
    assert_eq!(back.cmd, vec!["/bin/sh", "-c", "echo hello"]);
    assert_eq!(back.exit_code, Some(0));
    assert_eq!(back.status.status_string(), "stopped");
    assert_eq!(back.memory_limit, Some(67108864));
}

#[test]
fn metadata_handles_all_statuses() {
    for status in [
        ContainerStatus::Running,
        ContainerStatus::Stopped,
        ContainerStatus::Created,
    ] {
        let mut meta = sample_meta();
        meta.status = status;
        let json = serialize_meta(&meta);
        let back = parse_meta(&json).unwrap();
        assert_eq!(back.status, status);
    }
}

#[test]
fn status_serializes_lowercase() {
    let mut meta = sample_meta();
    meta.status = ContainerStatus::Running;
    assert!(serialize_meta(&meta).contains("\"status\": \"running\""));
    meta.status = ContainerStatus::Stopped;
    assert!(serialize_meta(&meta).contains("\"status\": \"stopped\""));
    meta.status = ContainerStatus::Created;
    assert!(serialize_meta(&meta).contains("\"status\": \"created\""));
}

#[test]
fn serialized_document_is_exact() {
    let meta = ContainerMeta {
        id: "ab".to_string(),
        rootfs: "/r".to_string(),
        cmd: vec!["/bin/sh".to_string()],
        pid: 7,
        exit_code: None,
        created_at: "2025-01-01T00:00:00Z".to_string(),
        status: ContainerStatus::Running,
        hostname: "h".to_string(),
        memory_limit: Some(64),
        cpu_limit: None,
        pids_limit: None,
    };
    let expected = "{\n  \"id\": \"ab\",\n  \"rootfs\": \"/r\",\n  \"cmd\": [\n    \"/bin/sh\"\n  ],\n  \"pid\": 7,\n  \"exit_code\": null,\n  \"created_at\": \"2025-01-01T00:00:00Z\",\n  \"status\": \"running\",\n  \"hostname\": \"h\",\n  \"memory_limit\": 64,\n  \"cpu_limit\": null,\n  \"pids_limit\": null\n}";
    assert_eq!(serialize_meta(&meta), expected);
}

#[test]
fn escaped_characters_round_trip() {
    let mut meta = sample_meta();
    meta.hostname = "a\"b\\c\nd\te\u{1}f".to_string();
    meta.cmd = vec!["echo \"quoted\"".to_string(), "tab\there".to_string()];
    meta.cpu_limit = Some("100000 100000".to_string());
    let json = serialize_meta(&meta);
    let back = parse_meta(&json).unwrap();
    assert_eq!(back.hostname, meta.hostname);
    assert_eq!(back.cmd, meta.cmd);
    assert_eq!(back.cpu_limit, meta.cpu_limit);
}

#[test]
fn control_characters_are_escaped() {
    let mut meta = sample_meta();
    meta.hostname = "a\nb".to_string();
    let json = serialize_meta(&meta);
    assert!(json.contains("a\\u000ab"));
}

#[test]
fn empty_command_round_trips() {
    let mut meta = sample_meta();
    meta.cmd = vec![];
    let json = serialize_meta(&meta);
    assert!(json.contains("\"cmd\": []"));
    let back = parse_meta(&json).unwrap();
    assert_eq!(back.cmd, Vec::<String>::new());
}

#[test]
fn negative_exit_code_round_trips() {
    let mut meta = sample_meta();
    meta.exit_code = Some(-5);
    let back = parse_meta(&serialize_meta(&meta)).unwrap();
    assert_eq!(back.exit_code, Some(-5));
}

#[test]
fn all_limits_round_trip() {
    let mut meta = sample_meta();
    meta.memory_limit = Some(u64::MAX);
    meta.cpu_limit = Some("100000 100000".to_string());
    meta.pids_limit = Some(0);
    let back = parse_meta(&serialize_meta(&meta)).unwrap();
    assert_eq!(back.memory_limit, Some(u64::MAX));
    assert_eq!(back.cpu_limit.as_deref(), Some("100000 100000"));
    assert_eq!(back.pids_limit, Some(0));

    meta.memory_limit = None;
    meta.cpu_limit = None;
    meta.pids_limit = None;
    let back = parse_meta(&serialize_meta(&meta)).unwrap();
    assert_eq!(back.memory_limit, None);
    assert_eq!(back.cpu_limit, None);
    assert_eq!(back.pids_limit, None);
}

#[test]
fn parse_rejects_malformed() {
    assert!(parse_meta("").is_none());
    assert!(parse_meta("{}").is_none());
    assert!(parse_meta("not json at all").is_none());
    let good = serialize_meta(&sample_meta());
    let truncated = &good[..good.len() - 2];
    assert!(parse_meta(truncated).is_none());
    let mut padded = good.clone();
    padded.push(' ');
    assert!(parse_meta(&padded).is_none());
}

#[test]
fn parse_accepts_only_canonical_numerals() {
    let good = serialize_meta(&sample_meta());
    assert!(good.contains("\"pid\": 12345"));
    let zero_padded = good.replace("\"pid\": 12345", "\"pid\": 012345");
    assert!(parse_meta(&zero_padded).is_none());
}
