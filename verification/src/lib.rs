//! A minimal Linux container runtime's verified core.
//!
//! The crate holds the runtime's logic: container identity, the
//! persisted metadata and its document codec, the state registry's
//! listing and resolution, cgroup paths and payloads, the ordered
//! launch and exec plans, and the exit-code rules. The surrounding
//! program performs the forks, syscalls and file I/O these decisions
//! call for.

use vstd::prelude::*;

pub mod cgroup;
pub mod codec;
pub mod dec;
pub mod esc;
pub mod id;
pub mod launch;
pub mod model;
pub mod parse;
pub mod plan;
pub mod psfmt;
pub mod registry;
mod text;

pub use cgroup::cgroup_path;
pub use cgroup::cgroup_root_path;
pub use cgroup::enable_payload;
pub use cgroup::limit_writes;
pub use cgroup::CgroupWrite;
pub use codec::lemma_meta_parse_sound;
pub use codec::lemma_meta_round_trip;
pub use codec::parse_meta;
pub use codec::serialize_meta;
pub use dec::u64_string;
pub use id::generate_id;
pub use id::hex_encode;
pub use id::validate_id_prefix;
pub use id::ID_LEN;
pub use launch::clone_strings;
pub use launch::container_namespaces;
pub use launch::exec_env;
pub use launch::exit_code_of;
pub use launch::init_env;
pub use launch::meta_for_start;
pub use launch::meta_on_exit;
pub use launch::ns_file_name;
pub use launch::validate_cmd;
pub use launch::validate_rootfs;
pub use launch::LaunchError;
pub use launch::NamespaceKind;
pub use launch::RootfsProbe;
pub use launch::WaitOutcome;
pub use model::ContainerConfig;
pub use model::ContainerMeta;
pub use model::ContainerStatus;
pub use model::RunResult;
pub use plan::init_plan;
pub use plan::ns_paths;
pub use plan::proc_root_path;
pub use plan::InitStep;
pub use psfmt::format_created;
pub use psfmt::format_ps_header;
pub use psfmt::format_ps_row;
pub use psfmt::join_cmd;
pub use registry::can_remove;
pub use registry::container_dir;
pub use registry::list_containers;
pub use registry::log_path;
pub use registry::meta_path;
pub use registry::pid_alive;
pub use registry::refresh_status;
pub use registry::resolve_id;
pub use registry::state_dir;
pub use registry::str_le;
pub use registry::str_starts_with;
pub use registry::EntryProbe;
pub use registry::ResolveError;

verus! {

} // verus!
