//! Tests for the registry logic: the state root, paths, listing,
//! prefix resolution, and status refresh.

use craterun::can_remove;
use craterun::container_dir;
use craterun::list_containers;
use craterun::log_path;
use craterun::meta_path;
use craterun::pid_alive;
use craterun::refresh_status;
use craterun::resolve_id;
use craterun::state_dir;
use craterun::str_le;
use craterun::str_starts_with;
use craterun::ContainerMeta;
use craterun::ContainerStatus;
use craterun::EntryProbe;
use craterun::ResolveError;

fn sample_meta(id: &str) -> ContainerMeta {
    ContainerMeta {
        id: id.to_string(),
        rootfs: "/tmp/rootfs".to_string(),
        cmd: vec!["/bin/sh".to_string()],
        pid: 0,
        exit_code: None,
        created_at: "2025-01-01T00:00:00Z".to_string(),
        status: ContainerStatus::Stopped,
        hostname: "craterun".to_string(),
        memory_limit: None,
        cpu_limit: None,
        pids_limit: None,
    }
}

fn probe(name: &str, has_meta: bool) -> EntryProbe {
    EntryProbe { name: name.to_string(), has_meta }
}

#[test]
fn state_directory_uses_home() {
    let dir = state_dir(false, Some("/home/someone")).unwrap();
    assert!(dir.contains(".craterun"));
    assert_eq!(dir, "/home/someone/.craterun");
}

#[test]
fn state_directory_for_root() {
    assert_eq!(state_dir(true, None).unwrap(), "/var/lib/craterun");
    assert_eq!(state_dir(true, Some("/home/x")).unwrap(), "/var/lib/craterun");
}

#[test]
fn state_directory_needs_home() {
    assert!(state_dir(false, None).is_none());
}

#[test]
fn paths_are_exact() {
    assert_eq!(container_dir("/var/lib/craterun", "ab12"), "/var/lib/craterun/ab12");
    assert_eq!(
        meta_path("/var/lib/craterun", "ab12"),
        "/var/lib/craterun/ab12/metadata.json"
    );
    assert_eq!(
        log_path("/var/lib/craterun", "ab12", "stdout.log"),
        "/var/lib/craterun/ab12/stdout.log"
    );
    assert_eq!(
        log_path("/var/lib/craterun", "ab12", "stderr.log"),
        "/var/lib/craterun/ab12/stderr.log"
    );
}

#[test]
fn list_and_resolve_containers() {
    let entries = vec![
        probe("aabbccdd11223344", true),
        probe("aabbccdd55667788", true),
        probe("11223344aabbccdd", true),
    ];
    let all = list_containers(&entries);
    assert_eq!(all.len(), 3);

    // Exact match prefix
    let id = resolve_id(&all, "11223344aabbccdd").unwrap();
    assert_eq!(id, "11223344aabbccdd");

    // Unique prefix
    let id = resolve_id(&all, "1122").unwrap();
    assert_eq!(id, "11223344aabbccdd");

    // Ambiguous prefix
    assert!(resolve_id(&all, "aabb").is_err());

    // No match
    assert!(resolve_id(&all, "ffff").is_err());
}

#[test]
fn resolve_errors_say_which() {
    let ids = vec!["aa11".to_string(), "aa22".to_string(), "bb33".to_string()];
    match resolve_id(&ids, "aa") {
        Err(ResolveError::Ambiguous(v)) => {
            assert_eq!(v, vec!["aa11".to_string(), "aa22".to_string()]);
        }
        other => panic!("expected ambiguous, got {:?}", other.is_ok()),
    }
    assert!(matches!(resolve_id(&ids, "cc"), Err(ResolveError::NoMatch)));
    assert_eq!(resolve_id(&ids, "bb").unwrap(), "bb33");
}

#[test]
fn resolve_messages_are_exact() {
    let err = resolve_id(&Vec::new(), "dead").unwrap_err();
    assert_eq!(err.message("dead"), "no container found with ID prefix 'dead'");

    let ids: Vec<String> = (0..7).map(|i| format!("aa{i}{i}")).collect();
    let err = resolve_id(&ids, "aa").unwrap_err();
    assert_eq!(
        err.message("aa"),
        "ambiguous container ID prefix 'aa': 7 matches (aa00, aa11, aa22, aa33, aa44)"
    );
}

#[test]
fn listing_is_sorted_and_filtered() {
    let entries = vec![
        probe("zz", true),
        probe("aa", true),
        probe("stray-dir", false),
        probe("mm", true),
    ];
    let all = list_containers(&entries);
    assert_eq!(all, vec!["aa".to_string(), "mm".to_string(), "zz".to_string()]);
}

#[test]
fn listing_empty_when_nothing_has_metadata() {
    let entries = vec![probe("a", false), probe("b", false)];
    assert!(list_containers(&entries).is_empty());
    assert!(list_containers(&Vec::new()).is_empty());
}

#[test]
fn pid_zero_is_never_alive() {
    assert!(!pid_alive(0));
    assert!(!pid_alive(4_000_000_000));
}

#[test]
fn refresh_marks_stale_running_as_stopped() {
    let mut meta = sample_meta("aabbccdd11223344");
    meta.status = ContainerStatus::Running;
    meta.pid = 0;
    let changed = refresh_status(&mut meta);
    assert!(changed);
    assert_eq!(meta.status, ContainerStatus::Stopped);
    assert_eq!(meta.exit_code, None);
}

#[test]
fn refresh_leaves_stopped_alone() {
    let mut meta = sample_meta("aabbccdd11223344");
    let changed = refresh_status(&mut meta);
    assert!(!changed);
    assert_eq!(meta.status, ContainerStatus::Stopped);
}

#[test]
fn string_order_and_prefixes() {
    assert!(str_le("a", "b"));
    assert!(!str_le("b", "a"));
    assert!(str_le("a", "a"));
    assert!(str_le("a", "ab"));
    assert!(!str_le("ab", "a"));
    assert!(str_le("", "a"));
    assert!(str_starts_with("aabb", "aa"));
    assert!(str_starts_with("aabb", ""));
    assert!(str_starts_with("aabb", "aabb"));
    assert!(!str_starts_with("aabb", "bb"));
    assert!(!str_starts_with("a", "aa"));
}

#[test]
fn removal_rules() {
    assert!(!can_remove(ContainerStatus::Running, false));
    assert!(can_remove(ContainerStatus::Running, true));
    assert!(can_remove(ContainerStatus::Stopped, false));
    assert!(can_remove(ContainerStatus::Created, false));
}
