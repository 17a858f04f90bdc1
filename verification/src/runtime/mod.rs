//! The microVM lifecycle: what a runtime is asked to do and what it reports.
//!
//! The boot path a create takes (hot pool, snapshot restore or cold boot) is
//! reported honestly, so that benchmarks never hide cold starts behind hot-pool
//! numbers.

pub mod answer;
pub mod features;
pub mod firecracker;
pub mod mock;
pub mod parking;
pub mod plan;
pub mod restart;
pub mod siblings;
pub mod steps;
pub mod vm;
pub mod wire;
pub mod workspace;

use crate::envmap::EnvMap;
use crate::knobs::Resources;
use crate::model::{
    BootPath, BrowserConfig, CodingAgentConfig, MountSpec, NetworkPolicy, VolumeAttach,
};
use vstd::prelude::*;
use vstd::string::*;

verus! {

/// Everything a runtime needs to boot one microVM.
#[derive(Debug)]
pub struct VmSpec {
    pub sandbox_id: String,
    pub org_id: String,
    /// Curated image family key (`base`, `browser`, …) or `custom`.
    pub image_key: String,
    /// Full image reference (curated name or `custom/<org>/<name>:<version>`).
    pub image_ref: String,
    pub resources: Resources,
    pub env: EnvMap,
    /// Secret values, injected late and kept apart from `env`, so that they are
    /// never written to the guest's environment file or captured in snapshots.
    pub secret_env: EnvMap,
    pub browser: Option<BrowserConfig>,
    /// Run dockerd inside the guest.
    pub docker: bool,
    /// Install a coding-agent tool into the guest after boot.
    pub coding_agent: Option<CodingAgentConfig>,
    /// Bucket mounts to set up after boot.
    pub mounts: Vec<MountSpec>,
    /// Persistent volumes to attach as block devices and mount in the guest.
    pub volumes: Vec<VolumeAttach>,
    /// Inline files to write into the workspace before startup commands run.
    pub files: Vec<(String, Vec<u8>)>,
    /// Host-enforced network policy for the sandbox's lifetime.
    pub network: NetworkPolicy,
}

/// A pre-booted warm microVM waiting in a hot pool.
#[derive(Debug)]
pub struct WarmVm {
    pub handle: String,
    pub image_key: String,
    pub resources: Resources,
}

/// A live microVM, with the timings its boot incurred.
#[derive(Debug)]
pub struct VmInstance {
    pub handle: String,
    pub boot_path: BootPath,
    pub boot_ms: u64,
    pub image_cache_ms: u64,
    pub browser_ready_ms: u64,
    /// Time spent installing the opt-in coding agent (0 if not requested).
    pub agent_ms: u64,
}

#[derive(Debug)]
pub struct ExecRequest {
    pub cmd: String,
    pub cwd: Option<String>,
    pub env: EnvMap,
    pub background: bool,
}

#[derive(Debug)]
pub struct ExecResult {
    pub exit_code: i32,
    pub stdout: String,
    pub stderr: String,
}

/// What a command that ran to its end comes to. One that a signal ended has no
/// exit code and counts as failed.
pub fn finished(exit_code: Option<i32>, stdout: String, stderr: String) -> (r: ExecResult)
    ensures
        r.exit_code == (match exit_code {
            Some(c) => c,
            None => -1i32,
        }),
        r.stdout == stdout,
        r.stderr == stderr,
{
    let exit_code: i32 = match exit_code {
        Some(c) => c,
        None => -1,
    };
    ExecResult { exit_code, stdout, stderr }
}

/// What a command that was started in the background comes to: it is not waited
/// for, and what is said of it stands in its output.
pub fn started(said: String) -> (r: ExecResult)
    ensures
        r.exit_code == 0,
        r.stdout == said,
        r.stderr@.len() == 0,
{
    ExecResult { exit_code: 0, stdout: said, stderr: String::new() }
}

#[derive(Debug)]
pub struct DirEntry {
    pub name: String,
    pub dir: bool,
}

/// Network byte counters of a VM, by which abuse monitoring finds miners and
/// scanners.
#[derive(Debug, Clone, Copy, PartialEq, Eq, Structural)]
pub struct NetStats {
    pub rx_bytes: u64,
    pub tx_bytes: u64,
}

#[derive(Debug)]
pub struct SnapshotArtifact {
    pub handle: String,
    pub storage_bytes: u64,
}

/// What a sandbox actually costs the node right now.
#[derive(Debug, Clone, Copy, PartialEq, Eq, Structural)]
pub struct VmMetrics {
    /// Host-resident bytes of the VM process: the real footprint.
    pub host_rss_bytes: Option<u64>,
    /// Current balloon target (MiB reclaimed from the guest), if ballooned.
    pub balloon_target_mib: Option<u32>,
    pub net: Option<NetStats>,
}

} // verus!
