//! The launch pipeline's decisions: rootfs validation, command
//! validation, the ordered namespace and mount plan, exit-code
//! translation, and the metadata lifecycle around a run.
//!
//! The surrounding program performs the forks and syscalls; it asks
//! these functions what to do and in which order, and hands back what
//! the kernel answered.

use vstd::prelude::*;

use crate::model::ContainerConfig;
use crate::model::ContainerMeta;
use crate::model::ContainerStatus;
use crate::model::MetaModel;
use crate::text::push_str;

verus! {

/// Why a launch request was rejected before any fork.
#[derive(Debug)]
pub enum LaunchError {
    /// The rootfs path is empty.
    EmptyRootfs,
    /// The rootfs path does not exist; carries the path.
    RootfsMissing(String),
    /// The rootfs canonicalizes to `/`.
    RootfsIsHostRoot,
    /// The rootfs has none of `bin/`, `usr/`, `etc/`; carries the
    /// canonical path.
    RootfsNotRootLike(String),
    /// The command is empty.
    EmptyCommand,
    /// A command string contains a NUL byte; carries the string.
    NulInCommand(String),
}

impl LaunchError {
    /// The user-visible message for this rejection.
    pub fn message(&self) -> (r: String)
        ensures
            *self matches LaunchError::EmptyRootfs ==> r@ == "rootfs path must not be empty"@,
            (forall|p: String| *self == LaunchError::RootfsMissing(p) ==> r@ == "rootfs path '"@
                + p@ + "' does not exist"@),
            *self matches LaunchError::RootfsIsHostRoot ==> r@
                == "refusing to use '/' as rootfs - this would destroy the host"@,
            (forall|p: String| *self == LaunchError::RootfsNotRootLike(p) ==> r@ == "rootfs '"@
                + p@ + "' does not look like a filesystem root (no bin/, usr/, or etc/ found)"@),
            *self matches LaunchError::EmptyCommand ==> r@ == "no command specified"@,
            (forall|p: String| *self == LaunchError::NulInCommand(p) ==> r@
                == "invalid command: '"@ + p@ + "'"@),
    {
        match self {
            LaunchError::EmptyRootfs => "rootfs path must not be empty".to_owned(),
            LaunchError::RootfsMissing(p) => {
                let mut s = "rootfs path '".to_owned();
                push_str(&mut s, p.as_str());
                push_str(&mut s, "' does not exist");
                s
            },
            LaunchError::RootfsIsHostRoot => {
                "refusing to use '/' as rootfs - this would destroy the host".to_owned()
            },
            LaunchError::RootfsNotRootLike(p) => {
                let mut s = "rootfs '".to_owned();
                push_str(&mut s, p.as_str());
                push_str(&mut s, "' does not look like a filesystem root (no bin/, usr/, or etc/ found)");
                s
            },
            LaunchError::EmptyCommand => "no command specified".to_owned(),
            LaunchError::NulInCommand(p) => {
                let mut s = "invalid command: '".to_owned();
                push_str(&mut s, p.as_str());
                push_str(&mut s, "'");
                s
            },
        }
    }
}

/// What the surrounding program found out about the requested rootfs on
/// disk: whether the path exists, what it canonicalizes to, and which
/// of the telltale subdirectories it holds.
pub struct RootfsProbe {
    pub exists: bool,
    pub canonical: String,
    pub has_bin: bool,
    pub has_usr: bool,
    pub has_etc: bool,
}

/// Validate the requested rootfs against what was found on disk.
///
/// Rejects, in this order: an empty path, a missing path, a path that
/// canonicalizes to `/`, and a directory without any of `bin/`, `usr/`
/// or `etc/`. Otherwise returns the canonical path to use.
pub fn validate_rootfs(rootfs: &str, probe: &RootfsProbe) -> (r: Result<String, LaunchError>)
    ensures
        rootfs@.len() == 0 <==> r matches Err(LaunchError::EmptyRootfs),
        rootfs@.len() > 0 && !probe.exists <==> (r matches Err(LaunchError::RootfsMissing(p))
            && p@ == rootfs@),
        rootfs@.len() > 0 && probe.exists && probe.canonical@ == "/"@ <==> r matches Err(
            LaunchError::RootfsIsHostRoot,
        ),
        rootfs@.len() > 0 && probe.exists && probe.canonical@ != "/"@ && !(probe.has_bin
            || probe.has_usr || probe.has_etc) <==> (r matches Err(
            LaunchError::RootfsNotRootLike(p),
        ) && p@ == probe.canonical@),
        r matches Ok(c) <==> rootfs@.len() > 0 && probe.exists && probe.canonical@ != "/"@ && (
        probe.has_bin || probe.has_usr || probe.has_etc),
        r matches Ok(c) ==> c@ == probe.canonical@,
{
    if rootfs.unicode_len() == 0 {
        return Err(LaunchError::EmptyRootfs);
    }
    if !probe.exists {
        return Err(LaunchError::RootfsMissing(rootfs.to_owned()));
    }
    let slash = "/".to_owned();
    if probe.canonical == slash {
        return Err(LaunchError::RootfsIsHostRoot);
    }
    if !(probe.has_bin || probe.has_usr || probe.has_etc) {
        return Err(LaunchError::RootfsNotRootLike(probe.canonical.clone()));
    }
    Ok(probe.canonical.clone())
}

/// Whether a character sequence contains a NUL.
pub open spec fn has_nul(s: Seq<char>) -> bool {
    exists|i: int| 0 <= i < s.len() && s[i] == '\u{0}'
}

/// Check one string for a NUL character.
fn str_has_nul(s: &str) -> (r: bool)
    ensures
        r == has_nul(s@),
{
    let n = s.unicode_len();
    let mut i: usize = 0;
    while i < n
        invariant
            n == s@.len(),
            0 <= i <= n,
            forall|t: int| 0 <= t < i ==> s@[t] != '\u{0}',
        decreases n - i,
    {
        if s.get_char(i) as u32 == 0 {
            return true;
        }
        i += 1;
    }
    false
}

/// Validate the command list: it must be non-empty and free of NUL
/// characters (which could not survive the `execve` boundary).
pub fn validate_cmd(cmd: &Vec<String>) -> (r: Result<(), LaunchError>)
    ensures
        cmd.deep_view().len() == 0 <==> r matches Err(LaunchError::EmptyCommand),
        r matches Err(LaunchError::NulInCommand(p)) ==> exists|i: int|
            0 <= i < cmd.deep_view().len() && has_nul(#[trigger] cmd.deep_view()[i]) && p@
                == cmd.deep_view()[i],
        r is Ok <==> cmd.deep_view().len() > 0 && (forall|i: int|
            0 <= i < cmd.deep_view().len() ==> !has_nul(#[trigger] cmd.deep_view()[i])),
{
    if cmd.len() == 0 {
        return Err(LaunchError::EmptyCommand);
    }
    let mut i: usize = 0;
    while i < cmd.len()
        invariant
            0 <= i <= cmd@.len(),
            forall|t: int| 0 <= t < i ==> !has_nul(#[trigger] cmd.deep_view()[t]),
        decreases cmd@.len() - i,
    {
        if str_has_nul(cmd[i].as_str()) {
            proof {
                assert(cmd.deep_view()[i as int] == cmd@[i as int]@);
            }
            return Err(LaunchError::NulInCommand(cmd[i].clone()));
        }
        i += 1;
    }
    Ok(())
}

/// The namespaces a container is isolated in, in the order they are
/// unshared and joined: mount, PID, UTS, IPC, network.
#[derive(Debug, Clone, Copy, PartialEq, Eq, Structural)]
pub enum NamespaceKind {
    Mount,
    Pid,
    Uts,
    Ipc,
    Net,
}

/// The container's namespace set, in order.
pub fn container_namespaces() -> (r: Vec<NamespaceKind>)
    ensures
        r@ == seq![
            NamespaceKind::Mount,
            NamespaceKind::Pid,
            NamespaceKind::Uts,
            NamespaceKind::Ipc,
            NamespaceKind::Net,
        ],
{
    let mut v: Vec<NamespaceKind> = Vec::new();
    v.push(NamespaceKind::Mount);
    v.push(NamespaceKind::Pid);
    v.push(NamespaceKind::Uts);
    v.push(NamespaceKind::Ipc);
    v.push(NamespaceKind::Net);
    proof {
        assert(v@ =~= seq![
            NamespaceKind::Mount,
            NamespaceKind::Pid,
            NamespaceKind::Uts,
            NamespaceKind::Ipc,
            NamespaceKind::Net,
        ]);
    }
    v
}

/// The `/proc/<pid>/ns/` file name of a namespace kind.
pub open spec fn ns_file_seq(k: NamespaceKind) -> Seq<char> {
    match k {
        NamespaceKind::Mount => "mnt"@,
        NamespaceKind::Pid => "pid"@,
        NamespaceKind::Uts => "uts"@,
        NamespaceKind::Ipc => "ipc"@,
        NamespaceKind::Net => "net"@,
    }
}

/// The `/proc/<pid>/ns/` file name of a namespace kind.
pub fn ns_file_name(k: NamespaceKind) -> (r: String)
    ensures
        r@ == ns_file_seq(k),
{
    match k {
        NamespaceKind::Mount => "mnt".to_owned(),
        NamespaceKind::Pid => "pid".to_owned(),
        NamespaceKind::Uts => "uts".to_owned(),
        NamespaceKind::Ipc => "ipc".to_owned(),
        NamespaceKind::Net => "net".to_owned(),
    }
}

/// The outcome of waiting on a child process, as far as the exit-code
/// translation cares: a normal exit with a code, death by a signal, or
/// any other (transient) wait state.
#[derive(Debug, Clone, Copy, PartialEq, Eq, Structural)]
pub enum WaitOutcome {
    Exited(i32),
    Signaled(i32),
    Other,
}

/// Translate a wait outcome to an exit code: a normal exit keeps its
/// code, death by signal `s` becomes `128 + s`, and any other state
/// yields nothing — the caller must wait again.
pub fn exit_code_of(w: &WaitOutcome) -> (r: Option<i32>)
    requires
        *w matches WaitOutcome::Signaled(s) ==> 0 <= s < 128,
    ensures
        (forall|c: i32| *w == WaitOutcome::Exited(c) ==> r == Some(c)),
        (forall|s: i32| *w == WaitOutcome::Signaled(s) ==> r == Some((128 + s) as i32)),
        *w matches WaitOutcome::Other ==> r is None,
{
    match w {
        WaitOutcome::Exited(c) => Some(*c),
        WaitOutcome::Signaled(s) => Some(128 + *s),
        WaitOutcome::Other => None,
    }
}

/// Relies on chrono's Utc::now and DateTime::format: the current UTC
/// time, rendered `YYYY-MM-DDTHH:MM:SSZ`. The value depends on the
/// clock, so nothing is promised of it.
#[verifier::external_body]
fn now_timestamp() -> String {
    format!("{}", chrono::Utc::now().format("%Y-%m-%dT%H:%M:%SZ"))
}

/// The metadata record persisted right after the outer fork: the
/// container counts as `Running` under the child's PID, with no exit
/// code yet, carrying the requested configuration and the canonical
/// rootfs path. The creation time is read from the clock.
pub fn meta_for_start(config: &ContainerConfig, rootfs: &str, id: &str, pid: u32) -> (r:
    ContainerMeta)
    requires
        pid > 0,
    ensures
        crate::model::meta_pid_wf(r@),
        r.id@ == id@,
        r.rootfs@ == rootfs@,
        r.cmd.deep_view() == config.cmd.deep_view(),
        r.pid == pid,
        r.exit_code is None,
        r.status == ContainerStatus::Running,
        r.hostname@ == config.hostname@,
        r.memory_limit == config.memory,
        (match (r.cpu_limit, config.cpu) {
            (Some(a), Some(b)) => a@ == b@,
            (None, None) => true,
            _ => false,
        }),
        r.pids_limit == config.pids,
{
    ContainerMeta {
        id: id.to_owned(),
        rootfs: rootfs.to_owned(),
        cmd: clone_strings(&config.cmd),
        pid,
        exit_code: None,
        created_at: now_timestamp(),
        status: ContainerStatus::Running,
        hostname: config.hostname.clone(),
        memory_limit: config.memory,
        cpu_limit: match &config.cpu {
            Some(s) => Some(s.clone()),
            None => None,
        },
        pids_limit: config.pids,
    }
}

/// Clone a list of strings.
pub fn clone_strings(v: &Vec<String>) -> (r: Vec<String>)
    ensures
        r.deep_view() == v.deep_view(),
{
    let mut r: Vec<String> = Vec::new();
    let mut i: usize = 0;
    while i < v.len()
        invariant
            0 <= i <= v@.len(),
            r.deep_view() == v.deep_view().take(i as int),
        decreases v@.len() - i,
    {
        let ghost prev = r.deep_view();
        r.push(v[i].clone());
        i += 1;
        proof {
            assert(r.deep_view() =~= prev.push(v@[i - 1]@));
            assert(r.deep_view() =~= v.deep_view().take(i as int));
        }
    }
    proof {
        assert(v.deep_view().take(v@.len() as int) =~= v.deep_view());
    }
    r
}

/// Update metadata after the container exited: `Stopped`, the exit code
/// recorded, the PID cleared. Everything else is kept.
pub fn meta_on_exit(meta: &mut ContainerMeta, exit_code: i32)
    ensures
        crate::model::meta_pid_wf(final(meta)@),
        final(meta)@ == (MetaModel {
            status: ContainerStatus::Stopped,
            exit_code: Some(exit_code),
            pid: 0,
            ..old(meta)@
        }),
{
    meta.status = ContainerStatus::Stopped;
    meta.exit_code = Some(exit_code);
    meta.pid = 0;
}

/// The environment handed to the container's init process.
pub fn init_env(hostname: &str) -> (r: Vec<String>)
    ensures
        r.deep_view() == seq![
            "PATH=/usr/local/sbin:/usr/local/bin:/usr/sbin:/usr/bin:/sbin:/bin"@,
            "HOSTNAME="@ + hostname@,
            "TERM=xterm"@,
            "HOME=/root"@,
        ],
{
    let mut v: Vec<String> = Vec::new();
    v.push("PATH=/usr/local/sbin:/usr/local/bin:/usr/sbin:/usr/bin:/sbin:/bin".to_owned());
    let mut h = "HOSTNAME=".to_owned();
    push_str(&mut h, hostname);
    v.push(h);
    v.push("TERM=xterm".to_owned());
    v.push("HOME=/root".to_owned());
    proof {
        assert(v.deep_view() =~= seq![
            "PATH=/usr/local/sbin:/usr/local/bin:/usr/sbin:/usr/bin:/sbin:/bin"@,
            "HOSTNAME="@ + hostname@,
            "TERM=xterm"@,
            "HOME=/root"@,
        ]);
    }
    v
}

/// The environment handed to a command executed inside a running
/// container.
pub fn exec_env() -> (r: Vec<String>)
    ensures
        r.deep_view() == seq![
            "PATH=/usr/local/sbin:/usr/local/bin:/usr/sbin:/usr/bin:/sbin:/bin"@,
            "TERM=xterm"@,
        ],
{
    let mut v: Vec<String> = Vec::new();
    v.push("PATH=/usr/local/sbin:/usr/local/bin:/usr/sbin:/usr/bin:/sbin:/bin".to_owned());
    v.push("TERM=xterm".to_owned());
    proof {
        assert(v.deep_view() =~= seq![
            "PATH=/usr/local/sbin:/usr/local/bin:/usr/sbin:/usr/bin:/sbin:/bin"@,
            "TERM=xterm"@,
        ]);
    }
    v
}

} // verus!
