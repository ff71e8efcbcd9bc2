//! Tests for the launch decisions: rootfs and command validation, the
//! namespace and mount plan, cgroup payloads, exit codes, and the
//! metadata lifecycle.

use craterun::cgroup_path;
use craterun::cgroup_root_path;
use craterun::container_namespaces;
use craterun::enable_payload;
use craterun::exec_env;
use craterun::exit_code_of;
use craterun::init_env;
use craterun::init_plan;
use craterun::limit_writes;
use craterun::meta_for_start;
use craterun::meta_on_exit;
use craterun::ns_paths;
use craterun::proc_root_path;
use craterun::validate_cmd;
use craterun::validate_rootfs;
use craterun::ContainerConfig;
use craterun::ContainerStatus;
use craterun::InitStep;
use craterun::LaunchError;
use craterun::NamespaceKind;
use craterun::RootfsProbe;
use craterun::WaitOutcome;

fn good_probe() -> RootfsProbe {
    RootfsProbe {
        exists: true,
        canonical: "/srv/rootfs".to_string(),
        has_bin: true,
        has_usr: false,
        has_etc: false,
    }
}

fn sample_config() -> ContainerConfig {
    ContainerConfig {
        rootfs: "/srv/rootfs".to_string(),
        cmd: vec!["/bin/true".to_string()],
        hostname: "craterun".to_string(),
        memory: Some(67108864),
        cpu: None,
        pids: Some(100),
        uid: None,
        gid: None,
    }
}

#[test]
fn rootfs_accepted_when_root_like() {
    let canon = validate_rootfs("/srv/rootfs", &good_probe()).unwrap();
    assert_eq!(canon, "/srv/rootfs");
}

#[test]
fn rootfs_rejected_when_empty() {
    let err = validate_rootfs("", &good_probe()).unwrap_err();
    assert!(matches!(err, LaunchError::EmptyRootfs));
    assert_eq!(err.message(), "rootfs path must not be empty");
}

#[test]
fn rootfs_rejected_when_missing() {
    let mut probe = good_probe();
    probe.exists = false;
    let err = validate_rootfs("/nonexistent", &probe).unwrap_err();
    assert!(matches!(err, LaunchError::RootfsMissing(_)));
    assert!(err.message().contains("does not exist"));
}

#[test]
fn rootfs_rejected_when_host_root() {
    let probe = RootfsProbe {
        exists: true,
        canonical: "/".to_string(),
        has_bin: true,
        has_usr: true,
        has_etc: true,
    };
    let err = validate_rootfs("/", &probe).unwrap_err();
    assert!(matches!(err, LaunchError::RootfsIsHostRoot));
    let msg = err.message();
    assert!(msg.contains("refusing") || msg.contains("destroy"));
}

#[test]
fn rootfs_rejected_when_not_root_like() {
    let mut probe = good_probe();
    probe.has_bin = false;
    probe.has_usr = false;
    probe.has_etc = false;
    let err = validate_rootfs("/srv/rootfs", &probe).unwrap_err();
    assert!(matches!(err, LaunchError::RootfsNotRootLike(_)));
    assert!(err.message().contains("does not look like a filesystem root"));
}

#[test]
fn command_must_be_present_and_clean() {
    assert!(matches!(
        validate_cmd(&Vec::new()),
        Err(LaunchError::EmptyCommand)
    ));
    let bad = vec!["/bin/sh".to_string(), "a\0b".to_string()];
    assert!(matches!(
        validate_cmd(&bad),
        Err(LaunchError::NulInCommand(_))
    ));
    let good = vec!["/bin/sh".to_string(), "-c".to_string(), "echo hi".to_string()];
    assert!(validate_cmd(&good).is_ok());
}

#[test]
fn namespaces_in_order() {
    let ns = container_namespaces();
    assert_eq!(
        ns,
        vec![
            NamespaceKind::Mount,
            NamespaceKind::Pid,
            NamespaceKind::Uts,
            NamespaceKind::Ipc,
            NamespaceKind::Net,
        ]
    );
}

#[test]
fn exit_codes_translate() {
    assert_eq!(exit_code_of(&WaitOutcome::Exited(0)), Some(0));
    assert_eq!(exit_code_of(&WaitOutcome::Exited(42)), Some(42));
    assert_eq!(exit_code_of(&WaitOutcome::Signaled(9)), Some(137));
    assert_eq!(exit_code_of(&WaitOutcome::Signaled(15)), Some(143));
    assert_eq!(exit_code_of(&WaitOutcome::Other), None);
}

#[test]
fn environments_are_exact() {
    assert_eq!(
        init_env("myhost"),
        vec![
            "PATH=/usr/local/sbin:/usr/local/bin:/usr/sbin:/usr/bin:/sbin:/bin".to_string(),
            "HOSTNAME=myhost".to_string(),
            "TERM=xterm".to_string(),
            "HOME=/root".to_string(),
        ]
    );
    assert_eq!(
        exec_env(),
        vec![
            "PATH=/usr/local/sbin:/usr/local/bin:/usr/sbin:/usr/bin:/sbin:/bin".to_string(),
            "TERM=xterm".to_string(),
        ]
    );
}

#[test]
fn init_plan_is_ordered() {
    let plan = init_plan("myhost", "/srv/rootfs");
    assert_eq!(
        plan,
        vec![
            InitStep::SetHostname("myhost".to_string()),
            InitStep::MakeMountPrivate,
            InitStep::BindMountRootfs("/srv/rootfs".to_string()),
            InitStep::EnsureDir("/srv/rootfs/proc".to_string()),
            InitStep::MountProc("/srv/rootfs/proc".to_string()),
            InitStep::EnsureDir("/srv/rootfs/.pivot_old".to_string()),
            InitStep::PivotRoot(
                "/srv/rootfs".to_string(),
                "/srv/rootfs/.pivot_old".to_string()
            ),
            InitStep::Chdir("/".to_string()),
            InitStep::UmountDetach("/.pivot_old".to_string()),
            InitStep::RemoveDir("/.pivot_old".to_string()),
            InitStep::EnsureDir("/proc".to_string()),
            InitStep::MountProc("/proc".to_string()),
            InitStep::EnsureDir("/dev".to_string()),
            InitStep::MountDevTmpfs("/dev".to_string()),
            InitStep::MakeDevNode("/dev/null".to_string(), 1, 3),
            InitStep::MakeDevNode("/dev/zero".to_string(), 1, 5),
            InitStep::MakeDevNode("/dev/urandom".to_string(), 1, 9),
            InitStep::MakeDevNode("/dev/tty".to_string(), 5, 0),
        ]
    );
}

#[test]
fn namespace_paths_in_order() {
    assert_eq!(
        ns_paths(1234),
        vec![
            "/proc/1234/ns/mnt".to_string(),
            "/proc/1234/ns/pid".to_string(),
            "/proc/1234/ns/uts".to_string(),
            "/proc/1234/ns/ipc".to_string(),
            "/proc/1234/ns/net".to_string(),
        ]
    );
    assert_eq!(proc_root_path(1234), "/proc/1234/root");
}

#[test]
fn cgroup_paths_are_exact() {
    assert_eq!(cgroup_root_path(), "/sys/fs/cgroup/craterun");
    assert_eq!(
        cgroup_path("aabbccdd11223344"),
        "/sys/fs/cgroup/craterun/aabbccdd11223344"
    );
}

#[test]
fn controller_payload_is_built() {
    assert_eq!(enable_payload("cpu memory pids"), "+cpu +memory +pids");
    assert_eq!(enable_payload("cpu memory pids\n"), "+cpu +memory +pids");
    assert_eq!(enable_payload("  cpu   io "), "+cpu +io");
    assert_eq!(enable_payload(""), "");
    assert_eq!(enable_payload("   \n"), "");
}

#[test]
fn limit_writes_are_exact() {
    let cpu = "100000 100000".to_string();
    let writes = limit_writes(Some(67108864), Some(&cpu), Some(100));
    assert_eq!(writes.len(), 3);
    assert_eq!(writes[0].file, "memory.max");
    assert_eq!(writes[0].value, "67108864");
    assert_eq!(writes[1].file, "cpu.max");
    assert_eq!(writes[1].value, "100000 100000");
    assert_eq!(writes[2].file, "pids.max");
    assert_eq!(writes[2].value, "100");

    assert!(limit_writes(None, None, None).is_empty());

    let only_mem = limit_writes(Some(1), None, None);
    assert_eq!(only_mem.len(), 1);
    assert_eq!(only_mem[0].file, "memory.max");
    assert_eq!(only_mem[0].value, "1");
}

#[test]
fn start_metadata_reflects_config() {
    let config = sample_config();
    let meta = meta_for_start(&config, "/srv/rootfs-canonical", "abcdef0123456789", 4321);
    assert_eq!(meta.id, "abcdef0123456789");
    assert_eq!(meta.rootfs, "/srv/rootfs-canonical");
    assert_eq!(meta.cmd, vec!["/bin/true".to_string()]);
    assert_eq!(meta.pid, 4321);
    assert_eq!(meta.exit_code, None);
    assert_eq!(meta.status, ContainerStatus::Running);
    assert_eq!(meta.hostname, "craterun");
    assert_eq!(meta.memory_limit, Some(67108864));
    assert_eq!(meta.cpu_limit, None);
    assert_eq!(meta.pids_limit, Some(100));
}

#[test]
fn exit_metadata_records_outcome() {
    let config = sample_config();
    let mut meta = meta_for_start(&config, "/srv/rootfs", "abcdef0123456789", 4321);
    meta_on_exit(&mut meta, 42);
    assert_eq!(meta.status, ContainerStatus::Stopped);
    assert_eq!(meta.exit_code, Some(42));
    assert_eq!(meta.pid, 0);
    assert_eq!(meta.id, "abcdef0123456789");
    assert_eq!(meta.memory_limit, Some(67108864));
}
