//! The data model: container status, persisted metadata, and launch
//! configuration.

use vstd::prelude::*;

verus! {

/// Status of a container in the runtime.
#[derive(Debug, Clone, Copy, PartialEq, Eq, Structural)]
pub enum ContainerStatus {
    /// The container process is believed to be running.
    Running,
    /// The container process has exited.
    Stopped,
    /// The container was created but never started (should not normally
    /// persist).
    Created,
}

/// The lowercase wire form of a status: `running`, `stopped` or `created`.
pub open spec fn status_seq(s: ContainerStatus) -> Seq<char> {
    match s {
        ContainerStatus::Running => "running"@,
        ContainerStatus::Stopped => "stopped"@,
        ContainerStatus::Created => "created"@,
    }
}

impl ContainerStatus {
    /// The lowercase name of this status, as it appears on the wire and
    /// in tables.
    pub fn status_string(&self) -> (r: String)
        ensures
            r@ == status_seq(*self),
    {
        match self {
            ContainerStatus::Running => "running".to_owned(),
            ContainerStatus::Stopped => "stopped".to_owned(),
            ContainerStatus::Created => "created".to_owned(),
        }
    }
}

/// Persisted metadata for a single container.
#[derive(Debug, Clone)]
pub struct ContainerMeta {
    /// Unique hex container ID.
    pub id: String,
    /// Absolute path to the root filesystem.
    pub rootfs: String,
    /// The command (and arguments) the container was started with.
    pub cmd: Vec<String>,
    /// PID of the container init process on the host (0 if not running).
    pub pid: u32,
    /// Exit code of the container process, if exited.
    pub exit_code: Option<i32>,
    /// When the container was created, as an RFC 3339 UTC timestamp.
    pub created_at: String,
    /// Current status.
    pub status: ContainerStatus,
    /// Hostname set inside the container.
    pub hostname: String,
    /// Memory limit in bytes, if set.
    pub memory_limit: Option<u64>,
    /// CPU limit string for cpu.max, if set.
    pub cpu_limit: Option<String>,
    /// PID limit, if set.
    pub pids_limit: Option<u64>,
}

/// The mathematical value of a `ContainerMeta`: every field as a plain
/// sequence or number.
pub struct MetaModel {
    pub id: Seq<char>,
    pub rootfs: Seq<char>,
    pub cmd: Seq<Seq<char>>,
    pub pid: u32,
    pub exit_code: Option<i32>,
    pub created_at: Seq<char>,
    pub status: ContainerStatus,
    pub hostname: Seq<char>,
    pub memory_limit: Option<u64>,
    pub cpu_limit: Option<Seq<char>>,
    pub pids_limit: Option<u64>,
}

impl View for ContainerMeta {
    type V = MetaModel;

    open spec fn view(&self) -> MetaModel {
        MetaModel {
            id: self.id@,
            rootfs: self.rootfs@,
            cmd: self.cmd.deep_view(),
            pid: self.pid,
            exit_code: self.exit_code,
            created_at: self.created_at@,
            status: self.status,
            hostname: self.hostname@,
            memory_limit: self.memory_limit,
            cpu_limit: match self.cpu_limit {
                Some(ref s) => Some(s@),
                None => None,
            },
            pids_limit: self.pids_limit,
        }
    }
}

/// A metadata record never claims to be running without a PID: at the
/// moment a `Running` record is written, the container init's host PID
/// is known and positive. (A stale record may later be downgraded to
/// `Stopped` by a status refresh, which keeps this invariant.)
pub open spec fn meta_pid_wf(m: MetaModel) -> bool {
    m.status == ContainerStatus::Running ==> m.pid > 0
}

/// Configuration for launching a new container. Built from the command
/// line by the surrounding program.
#[derive(Debug, Clone)]
pub struct ContainerConfig {
    pub rootfs: String,
    pub cmd: Vec<String>,
    pub hostname: String,
    pub memory: Option<u64>,
    pub cpu: Option<String>,
    pub pids: Option<u64>,
    pub uid: Option<u32>,
    pub gid: Option<u32>,
}

/// Outcome of running a container.
pub struct RunResult {
    /// The container's assigned ID.
    pub container_id: String,
    /// The exit code of the container's init process (or 128+signal for
    /// signal death).
    pub exit_code: i32,
}

} // verus!
