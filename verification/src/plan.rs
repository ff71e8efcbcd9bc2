//! The ordered plans the surrounding program executes: the container
//! init sequence (hostname, mounts, pivot, device nodes) and the paths
//! used to join a running container's namespaces.
//!
//! The order of these steps is kernel-enforced: the tree must be made
//! private before the rootfs bind-mount, procfs must exist on the new
//! root before the pivot, and the old root is detached only after the
//! `chdir` to the new one. The plan's contract pins that order down.

use vstd::prelude::*;

use crate::dec::dec_nat;
use crate::dec::u64_string;
use crate::launch::ns_file_name;
use crate::launch::ns_file_seq;
use crate::launch::NamespaceKind;
use crate::text::push_str;

verus! {

/// One step of the container init sequence. The mount steps carry the
/// flags the kernel interface wants:
/// - `MakeMountPrivate` is `mount("/", "/", MS_REC | MS_PRIVATE)`;
/// - `BindMountRootfs` binds the path onto itself with
///   `MS_BIND | MS_REC`;
/// - `MountProc` mounts `proc` at the path with
///   `MS_NOSUID | MS_NODEV | MS_NOEXEC`;
/// - `MountDevTmpfs` mounts a tmpfs at the path with `MS_NOSUID` and
///   options `mode=0755,size=65536k`;
/// - `MakeDevNode` creates a character device (major, minor) with mode
///   `0666`, best effort;
/// - `UmountDetach` unmounts with `MNT_DETACH`.
#[derive(Debug, PartialEq, Eq)]
pub enum InitStep {
    SetHostname(String),
    MakeMountPrivate,
    BindMountRootfs(String),
    EnsureDir(String),
    MountProc(String),
    PivotRoot(String, String),
    Chdir(String),
    UmountDetach(String),
    RemoveDir(String),
    MountDevTmpfs(String),
    MakeDevNode(String, u64, u64),
}

/// The mathematical value of an `InitStep`.
pub enum StepModel {
    SetHostname(Seq<char>),
    MakeMountPrivate,
    BindMountRootfs(Seq<char>),
    EnsureDir(Seq<char>),
    MountProc(Seq<char>),
    PivotRoot(Seq<char>, Seq<char>),
    Chdir(Seq<char>),
    UmountDetach(Seq<char>),
    RemoveDir(Seq<char>),
    MountDevTmpfs(Seq<char>),
    MakeDevNode(Seq<char>, u64, u64),
}

impl View for InitStep {
    type V = StepModel;

    open spec fn view(&self) -> StepModel {
        match self {
            InitStep::SetHostname(s) => StepModel::SetHostname(s@),
            InitStep::MakeMountPrivate => StepModel::MakeMountPrivate,
            InitStep::BindMountRootfs(s) => StepModel::BindMountRootfs(s@),
            InitStep::EnsureDir(s) => StepModel::EnsureDir(s@),
            InitStep::MountProc(s) => StepModel::MountProc(s@),
            InitStep::PivotRoot(a, b) => StepModel::PivotRoot(a@, b@),
            InitStep::Chdir(s) => StepModel::Chdir(s@),
            InitStep::UmountDetach(s) => StepModel::UmountDetach(s@),
            InitStep::RemoveDir(s) => StepModel::RemoveDir(s@),
            InitStep::MountDevTmpfs(s) => StepModel::MountDevTmpfs(s@),
            InitStep::MakeDevNode(s, ma, mi) => StepModel::MakeDevNode(s@, *ma, *mi),
        }
    }
}

impl DeepView for InitStep {
    type V = StepModel;

    open spec fn deep_view(&self) -> StepModel {
        self.view()
    }
}

/// The init sequence of a container whose rootfs is at `rootfs`
/// (canonical, without a trailing slash): set the hostname inside the
/// new UTS namespace, make the mount tree private, turn the rootfs
/// into a mount point, put procfs on it, pivot into it, drop the old
/// root, remount procfs, and populate a minimal `/dev`.
pub open spec fn init_plan_model(hostname: Seq<char>, rootfs: Seq<char>) -> Seq<StepModel> {
    seq![
        StepModel::SetHostname(hostname),
        StepModel::MakeMountPrivate,
        StepModel::BindMountRootfs(rootfs),
        StepModel::EnsureDir(rootfs + "/proc"@),
        StepModel::MountProc(rootfs + "/proc"@),
        StepModel::EnsureDir(rootfs + "/.pivot_old"@),
        StepModel::PivotRoot(rootfs, rootfs + "/.pivot_old"@),
        StepModel::Chdir("/"@),
        StepModel::UmountDetach("/.pivot_old"@),
        StepModel::RemoveDir("/.pivot_old"@),
        StepModel::EnsureDir("/proc"@),
        StepModel::MountProc("/proc"@),
        StepModel::EnsureDir("/dev"@),
        StepModel::MountDevTmpfs("/dev"@),
        StepModel::MakeDevNode("/dev/null"@, 1, 3),
        StepModel::MakeDevNode("/dev/zero"@, 1, 5),
        StepModel::MakeDevNode("/dev/urandom"@, 1, 9),
        StepModel::MakeDevNode("/dev/tty"@, 5, 0),
    ]
}

/// Build the init sequence for a container.
pub fn init_plan(hostname: &str, rootfs: &str) -> (r: Vec<InitStep>)
    ensures
        r.deep_view() == init_plan_model(hostname@, rootfs@),
{
    let mut v: Vec<InitStep> = Vec::new();
    v.push(InitStep::SetHostname(hostname.to_owned()));
    v.push(InitStep::MakeMountPrivate);
    v.push(InitStep::BindMountRootfs(rootfs.to_owned()));
    let mut proc_dir = rootfs.to_owned();
    push_str(&mut proc_dir, "/proc");
    v.push(InitStep::EnsureDir(proc_dir.clone()));
    v.push(InitStep::MountProc(proc_dir));
    let mut put_old = rootfs.to_owned();
    push_str(&mut put_old, "/.pivot_old");
    v.push(InitStep::EnsureDir(put_old.clone()));
    v.push(InitStep::PivotRoot(rootfs.to_owned(), put_old));
    v.push(InitStep::Chdir("/".to_owned()));
    v.push(InitStep::UmountDetach("/.pivot_old".to_owned()));
    v.push(InitStep::RemoveDir("/.pivot_old".to_owned()));
    v.push(InitStep::EnsureDir("/proc".to_owned()));
    v.push(InitStep::MountProc("/proc".to_owned()));
    v.push(InitStep::EnsureDir("/dev".to_owned()));
    v.push(InitStep::MountDevTmpfs("/dev".to_owned()));
    v.push(InitStep::MakeDevNode("/dev/null".to_owned(), 1, 3));
    v.push(InitStep::MakeDevNode("/dev/zero".to_owned(), 1, 5));
    v.push(InitStep::MakeDevNode("/dev/urandom".to_owned(), 1, 9));
    v.push(InitStep::MakeDevNode("/dev/tty".to_owned(), 5, 0));
    proof {
        assert(v.deep_view() =~= init_plan_model(hostname@, rootfs@));
    }
    v
}

/// The namespace file of a process: `/proc/<pid>/ns/<name>`.
pub open spec fn ns_path_seq(pid: u32, k: NamespaceKind) -> Seq<char> {
    "/proc/"@ + dec_nat(pid as nat) + "/ns/"@ + ns_file_seq(k)
}

/// The namespace files of a running container's init process, in the
/// order they are opened and joined: mount, PID, UTS, IPC, network.
pub fn ns_paths(pid: u32) -> (r: Vec<String>)
    ensures
        r.deep_view() == seq![
            ns_path_seq(pid, NamespaceKind::Mount),
            ns_path_seq(pid, NamespaceKind::Pid),
            ns_path_seq(pid, NamespaceKind::Uts),
            ns_path_seq(pid, NamespaceKind::Ipc),
            ns_path_seq(pid, NamespaceKind::Net),
        ],
{
    let mut prefix = "/proc/".to_owned();
    let pid_str = u64_string(pid as u64);
    push_str(&mut prefix, pid_str.as_str());
    push_str(&mut prefix, "/ns/");
    let mut v: Vec<String> = Vec::new();
    let mut p0 = prefix.clone();
    push_str(&mut p0, ns_file_name(NamespaceKind::Mount).as_str());
    v.push(p0);
    let mut p1 = prefix.clone();
    push_str(&mut p1, ns_file_name(NamespaceKind::Pid).as_str());
    v.push(p1);
    let mut p2 = prefix.clone();
    push_str(&mut p2, ns_file_name(NamespaceKind::Uts).as_str());
    v.push(p2);
    let mut p3 = prefix.clone();
    push_str(&mut p3, ns_file_name(NamespaceKind::Ipc).as_str());
    v.push(p3);
    let mut p4 = prefix.clone();
    push_str(&mut p4, ns_file_name(NamespaceKind::Net).as_str());
    v.push(p4);
    proof {
        assert(v.deep_view() =~= seq![
            ns_path_seq(pid, NamespaceKind::Mount),
            ns_path_seq(pid, NamespaceKind::Pid),
            ns_path_seq(pid, NamespaceKind::Uts),
            ns_path_seq(pid, NamespaceKind::Ipc),
            ns_path_seq(pid, NamespaceKind::Net),
        ]);
    }
    v
}

/// The root directory of a running container as seen through procfs:
/// `/proc/<pid>/root`.
pub fn proc_root_path(pid: u32) -> (r: String)
    ensures
        r@ == "/proc/"@ + dec_nat(pid as nat) + "/root"@,
{
    let mut p = "/proc/".to_owned();
    let pid_str = u64_string(pid as u64);
    push_str(&mut p, pid_str.as_str());
    push_str(&mut p, "/root");
    p
}

} // verus!
