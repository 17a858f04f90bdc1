//! Configuration: the defaults, the overrides that the environment brings, and
//! what is derived from them.

use crate::capacity::{
    CapacityRule, Fraction, DEFAULT_HOST_RESERVE_KB, DERATE_PARTS, DERATE_WHOLE,
};
use crate::numeral::{decimal, parse_max, parsed, to_decimal};
use crate::paths::{path_join, under};
use crate::pricing::PricingConfig;
use crate::runtime::vm::Settings;
use crate::text::{concat3, replace_char, same, trim, trimmed, with_char};
use vstd::prelude::*;
use vstd::string::*;

verus! {

#[derive(Debug)]
pub struct ServerConfig {
    /// Address the control-plane API binds to.
    pub bind: String,
    /// Public wildcard domain for preview URLs.
    pub public_domain: String,
    /// Whether preview URLs use https in their public form.
    pub public_https: bool,
    /// Public port to name in preview URLs when it is not the scheme's default.
    pub public_port: Option<u16>,
    /// Text appended to errors about missing capacity.
    pub capacity_exhausted_message: String,
    /// Directory for the database and the runtime's state.
    pub data_dir: String,
}

#[derive(Debug)]
pub struct NodeConfig {
    /// "all-in-one" runs control plane and data plane; "worker" the data plane.
    pub role: String,
    /// Stable node id; generated and stored if empty.
    pub node_id: String,
    /// Address at which other nodes reach this node's agent.
    pub advertise_addr: String,
    /// Total memory in KiB. Detected at boot when 0.
    pub total_memory_kb: u64,
    /// For workers: the control plane to join.
    pub control_plane_url: String,
    pub join_token: String,
    /// Shared secret of control plane and workers; their channel is closed
    /// without one.
    pub rpc_token: String,
}

#[derive(Debug)]
pub struct RuntimeConfig {
    /// "mock" or "firecracker".
    pub kind: String,
    pub firecracker_bin: String,
    pub jailer_bin: String,
    /// Run Firecracker under the jailer, which needs root.
    pub use_jailer: bool,
    /// First uid and gid for per-VM isolation.
    pub jailer_uid_base: u32,
    pub kernel_image: String,
    /// Root filesystems and snapshots.
    pub images_dir: String,
    /// Per-sandbox writable areas.
    pub workspace_dir: String,
    /// Backing images of persistent volumes.
    pub volumes_dir: String,
    /// Memory backend of a restore: "file" or "uffd".
    pub restore_mem_backend: String,
    /// Bring a snapshot's memory file into the page cache before a restore.
    pub prewarm_mem_cache: bool,
    /// Share one read-only root disk across sandboxes.
    pub shared_rootfs: bool,
    /// CPU template for portable snapshots; empty for none.
    pub cpu_template: String,
    /// Attach a balloon to every VM.
    pub balloon: bool,
    /// Idle jailer processes to keep ready; 0 for none.
    pub jailer_pool_size: u32,
    /// Keep the guest kernel from logging its boot on the serial line.
    pub quiet_guest_boot: bool,
    /// Run Firecracker without its seccomp filter.
    pub firecracker_no_seccomp: bool,
    /// Refuse to fork or to stage a private disk where the data file system
    /// cannot share blocks between copies.
    pub require_reflink: bool,
}

#[derive(Debug, Clone, Copy, PartialEq, Eq, Structural)]
pub struct HotPoolConfig {
    pub enabled: bool,
    /// Seconds between two rounds of the warmer.
    pub warm_interval_seconds: u64,
    /// Target of the base pool.
    pub base_target: u32,
}

#[derive(Debug, Clone, Copy, PartialEq, Eq, Structural)]
pub struct StandbyConfig {
    /// Park idle sandboxes instead of stopping them.
    pub enabled: bool,
    /// Idle seconds after which a guest's free memory is reclaimed; 0 for never.
    pub balloon_idle_seconds: u64,
}

#[derive(Debug, Clone, Copy, PartialEq, Eq, Structural)]
pub struct CapacityConfig {
    /// Memory reserved for the host and never sold to sandboxes, in KiB.
    pub host_reserve_kb: u64,
    /// Fraction of the theoretical memory slots that are admitted.
    pub practical_derate: Fraction,
    /// Admit on measured memory too: past the ceiling, while what the host measures
    /// as available clears the headroom beyond the request.
    pub overcommit: bool,
    /// Memory kept free when overcommitting, in MiB.
    pub overcommit_headroom_mb: u64,
    /// Memory pressure, in thousandths of a percent, beyond which a sandbox is
    /// parked ahead of its window; 0 for never.
    pub psi_standby_threshold_milli: u64,
}

#[derive(Debug)]
pub struct AuthConfig {
    /// Seeded as an admin key on first boot; generated if empty.
    pub bootstrap_admin_key: String,
    /// Org of the admin key.
    pub bootstrap_org: String,
}

#[derive(Debug)]
pub struct Config {
    pub server: ServerConfig,
    pub node: NodeConfig,
    pub runtime: RuntimeConfig,
    pub pricing: PricingConfig,
    pub hotpool: HotPoolConfig,
    pub auth: AuthConfig,
    pub standby: StandbyConfig,
    pub capacity: CapacityConfig,
}

// ---------------------------------------------------------------------------
// Defaults
// ---------------------------------------------------------------------------

impl Default for ServerConfig {
    fn default() -> (r: Self)
        ensures
            r.bind@ == "0.0.0.0:8080"@,
            r.public_domain@ == "sandboxes.local"@,
            r.public_https,
            r.public_port is None,
            r.capacity_exhausted_message@ == ""@,
            r.data_dir@ == "/var/lib/workdir"@,
    {
        ServerConfig {
            bind: String::from_str("0.0.0.0:8080"),
            public_domain: String::from_str("sandboxes.local"),
            public_https: true,
            public_port: None,
            capacity_exhausted_message: String::from_str(""),
            data_dir: String::from_str("/var/lib/workdir"),
        }
    }
}

impl Default for NodeConfig {
    fn default() -> (r: Self)
        ensures
            r.role@ == "all-in-one"@,
            r.node_id@ == ""@,
            r.advertise_addr@ == ""@,
            r.total_memory_kb == 0,
            r.control_plane_url@ == ""@,
            r.join_token@ == ""@,
            r.rpc_token@ == ""@,
    {
        NodeConfig {
            role: String::from_str("all-in-one"),
            node_id: String::from_str(""),
            advertise_addr: String::from_str(""),
            total_memory_kb: 0,
            control_plane_url: String::from_str(""),
            join_token: String::from_str(""),
            rpc_token: String::from_str(""),
        }
    }
}

impl RuntimeConfig {
    /// The defaults, with this kind of runtime.
    pub open spec fn plain(self, kind: Seq<char>) -> bool {
        &&& self.kind@ == kind
        &&& self.firecracker_bin@ == "/usr/local/bin/firecracker"@
        &&& self.jailer_bin@ == "/usr/local/bin/jailer"@
        &&& !self.use_jailer
        &&& self.jailer_uid_base == 100_000
        &&& self.kernel_image@ == ""@
        &&& self.images_dir@ == ""@
        &&& self.workspace_dir@ == ""@
        &&& self.volumes_dir@ == ""@
        &&& self.restore_mem_backend@ == "file"@
        &&& self.prewarm_mem_cache
        &&& !self.shared_rootfs
        &&& self.cpu_template@ == ""@
        &&& !self.balloon
        &&& self.jailer_pool_size == 0
        &&& self.quiet_guest_boot
        &&& !self.firecracker_no_seccomp
        &&& !self.require_reflink
    }

    /// The defaults on a host: only Linux can run microVMs, elsewhere they are
    /// simulated.
    pub fn of_host(linux: bool) -> (r: RuntimeConfig)
        ensures
            r.plain(
                if linux {
                    "firecracker"@
                } else {
                    "mock"@
                },
            ),
    {
        let kind = if linux {
            "firecracker"
        } else {
            "mock"
        };
        RuntimeConfig {
            kind: String::from_str(kind),
            firecracker_bin: String::from_str("/usr/local/bin/firecracker"),
            jailer_bin: String::from_str("/usr/local/bin/jailer"),
            use_jailer: false,
            jailer_uid_base: 100_000,
            kernel_image: String::from_str(""),
            images_dir: String::from_str(""),
            workspace_dir: String::from_str(""),
            volumes_dir: String::from_str(""),
            restore_mem_backend: String::from_str("file"),
            prewarm_mem_cache: true,
            shared_rootfs: false,
            cpu_template: String::from_str(""),
            balloon: false,
            jailer_pool_size: 0,
            quiet_guest_boot: true,
            firecracker_no_seccomp: false,
            require_reflink: false,
        }
    }
}

impl Default for RuntimeConfig {
    fn default() -> (r: Self)
        ensures
            r.plain("firecracker"@),
    {
        RuntimeConfig::of_host(true)
    }
}

impl Default for HotPoolConfig {
    fn default() -> (r: Self)
        ensures
            r == (HotPoolConfig { enabled: true, warm_interval_seconds: 5, base_target: 2 }),
    {
        HotPoolConfig { enabled: true, warm_interval_seconds: 5, base_target: 2 }
    }
}

impl Default for StandbyConfig {
    fn default() -> (r: Self)
        ensures
            r == (StandbyConfig { enabled: false, balloon_idle_seconds: 0 }),
    {
        StandbyConfig { enabled: false, balloon_idle_seconds: 0 }
    }
}

impl Default for CapacityConfig {
    fn default() -> (r: Self)
        ensures
            r == (CapacityConfig {
                host_reserve_kb: DEFAULT_HOST_RESERVE_KB,
                practical_derate: Fraction { parts: DERATE_PARTS, whole: DERATE_WHOLE },
                overcommit: false,
                overcommit_headroom_mb: 8192,
                psi_standby_threshold_milli: 0,
            }),
    {
        CapacityConfig {
            host_reserve_kb: DEFAULT_HOST_RESERVE_KB,
            practical_derate: Fraction { parts: DERATE_PARTS, whole: DERATE_WHOLE },
            overcommit: false,
            overcommit_headroom_mb: 8192,
            psi_standby_threshold_milli: 0,
        }
    }
}

impl CapacityConfig {
    /// How static admission counts a node's memory.
    pub open spec fn static_rule(self) -> CapacityRule {
        CapacityRule {
            host_reserve_kb: self.host_reserve_kb,
            practical_derate: self.practical_derate,
        }
    }

    /// How static admission counts a node's memory.
    pub fn rule(&self) -> (r: CapacityRule)
        ensures
            r == self.static_rule(),
    {
        CapacityRule {
            host_reserve_kb: self.host_reserve_kb,
            practical_derate: self.practical_derate,
        }
    }

    /// The measured memory that may be handed out past the ceiling, in KiB: what is
    /// available beyond the headroom, where overcommitting is on and the memory was
    /// measured.
    pub open spec fn spare_kb(self, available_kb: Option<u64>) -> Option<u64> {
        match available_kb {
            Some(a) if self.overcommit && a >= self.overcommit_headroom_mb * 1024 => Some(
                (a - self.overcommit_headroom_mb * 1024) as u64,
            ),
            _ => None,
        }
    }

    /// The measured memory that may be handed out past the ceiling, in KiB.
    pub fn measured_spare_kb(&self, available_kb: Option<u64>) -> (r: Option<u64>)
        ensures
            r == self.spare_kb(available_kb),
    {
        match available_kb {
            Some(a) => {
                let headroom: u128 = self.overcommit_headroom_mb as u128 * 1024;
                if self.overcommit && a as u128 >= headroom {
                    Some(a - headroom as u64)
                } else {
                    None
                }
            },
            None => None,
        }
    }
}

impl Default for AuthConfig {
    fn default() -> (r: Self)
        ensures
            r.bootstrap_admin_key@ == ""@,
            r.bootstrap_org@ == "org_admin"@,
    {
        AuthConfig {
            bootstrap_admin_key: String::from_str(""),
            bootstrap_org: String::from_str("org_admin"),
        }
    }
}

// ---------------------------------------------------------------------------
// Overrides and derived paths
// ---------------------------------------------------------------------------

/// What the environment says, where it says anything.
#[derive(Debug)]
pub struct Overrides {
    pub bind: Option<String>,
    pub data_dir: Option<String>,
    pub public_domain: Option<String>,
    pub public_https: Option<String>,
    pub public_port: Option<String>,
    pub capacity_exhausted_message: Option<String>,
    pub runtime: Option<String>,
    pub admin_key: Option<String>,
    pub rpc_token: Option<String>,
    pub standby: Option<String>,
    pub no_seccomp: Option<String>,
}

/// A variable that is set to yes.
pub open spec fn says_yes(v: Seq<char>) -> bool {
    v == "1"@ || v == "true"@ || v == "yes"@
}

fn is_yes(v: &str) -> (r: bool)
    ensures
        r == says_yes(v@),
{
    same(v, "1") || same(v, "true") || same(v, "yes")
}

/// The text that counts: the override, or what was there.
pub open spec fn text_of(over: Option<String>, was: String) -> String {
    match over {
        Some(v) => v,
        None => was,
    }
}

/// The switch that counts.
pub open spec fn switch_of(over: Option<String>, was: bool) -> bool {
    match over {
        Some(v) => says_yes(v@),
        None => was,
    }
}

/// The port that counts: an override that is no port number leaves none.
pub open spec fn port_of(over: Option<String>, was: Option<u16>) -> Option<u16> {
    match over {
        Some(v) => match parsed(v@, 65535) {
            Some(p) => Some(p as u16),
            None => None,
        },
        None => was,
    }
}

fn switch(over: &Option<String>, was: bool) -> (r: bool)
    ensures
        r == switch_of(*over, was),
{
    match over {
        Some(v) => is_yes(v.as_str()),
        None => was,
    }
}

fn text(over: Option<String>, was: String) -> (r: String)
    ensures
        r == text_of(over, was),
{
    match over {
        Some(v) => v,
        None => was,
    }
}

fn port(over: &Option<String>, was: Option<u16>) -> (r: Option<u16>)
    ensures
        r == port_of(*over, was),
{
    match over {
        Some(v) => match parse_max(v.as_str(), 65535) {
            Some(p) => Some(p as u16),
            None => None,
        },
        None => was,
    }
}

/// A path that is set, or its place in the data directory.
pub open spec fn path_or(set: Seq<char>, data_dir: Seq<char>, name: Seq<char>) -> Seq<char> {
    if set.len() == 0 {
        under(data_dir, name)
    } else {
        set
    }
}

fn or_in(set: String, data_dir: &str, name: &str) -> (r: String)
    ensures
        r@ == path_or(set@, data_dir@, name@),
{
    if set.as_str().is_empty() {
        path_join(data_dir, name)
    } else {
        set
    }
}

impl Config {
    /// Apply what the environment says, and fill in the paths that are not set, so
    /// that a data directory is enough to run anywhere.
    pub fn settle(self, over: Overrides) -> (r: Config)
        ensures
            r.server == (ServerConfig {
                bind: text_of(over.bind, self.server.bind),
                public_domain: text_of(over.public_domain, self.server.public_domain),
                public_https: switch_of(over.public_https, self.server.public_https),
                public_port: port_of(over.public_port, self.server.public_port),
                capacity_exhausted_message: text_of(
                    over.capacity_exhausted_message,
                    self.server.capacity_exhausted_message,
                ),
                data_dir: text_of(over.data_dir, self.server.data_dir),
            }),
            r.node == (NodeConfig {
                rpc_token: text_of(over.rpc_token, self.node.rpc_token),
                ..self.node
            }),
            r.runtime == (RuntimeConfig {
                kind: text_of(over.runtime, self.runtime.kind),
                firecracker_no_seccomp: switch_of(
                    over.no_seccomp,
                    self.runtime.firecracker_no_seccomp,
                ),
                workspace_dir: r.runtime.workspace_dir,
                images_dir: r.runtime.images_dir,
                volumes_dir: r.runtime.volumes_dir,
                kernel_image: r.runtime.kernel_image,
                ..self.runtime
            }),
            r.runtime.workspace_dir@ == path_or(
                self.runtime.workspace_dir@,
                r.server.data_dir@,
                "workspaces"@,
            ),
            r.runtime.images_dir@ == path_or(
                self.runtime.images_dir@,
                r.server.data_dir@,
                "images"@,
            ),
            r.runtime.volumes_dir@ == path_or(
                self.runtime.volumes_dir@,
                r.server.data_dir@,
                "volumes"@,
            ),
            r.runtime.kernel_image@ == path_or(
                self.runtime.kernel_image@,
                r.server.data_dir@,
                "kernel/vmlinux"@,
            ),
            r.pricing == self.pricing,
            r.hotpool == self.hotpool,
            r.auth == (AuthConfig {
                bootstrap_admin_key: text_of(over.admin_key, self.auth.bootstrap_admin_key),
                ..self.auth
            }),
            r.standby == (StandbyConfig {
                enabled: switch_of(over.standby, self.standby.enabled),
                ..self.standby
            }),
            r.capacity == self.capacity,
    {
        let server = ServerConfig {
            public_https: switch(&over.public_https, self.server.public_https),
            public_port: port(&over.public_port, self.server.public_port),
            bind: text(over.bind, self.server.bind),
            public_domain: text(over.public_domain, self.server.public_domain),
            capacity_exhausted_message: text(
                over.capacity_exhausted_message,
                self.server.capacity_exhausted_message,
            ),
            data_dir: text(over.data_dir, self.server.data_dir),
        };
        let data = server.data_dir.clone();
        let mut node = self.node;
        node.rpc_token = text(over.rpc_token, node.rpc_token);
        let mut runtime = self.runtime;
        runtime.kind = text(over.runtime, runtime.kind);
        runtime.firecracker_no_seccomp = switch(&over.no_seccomp, runtime.firecracker_no_seccomp);
        runtime.workspace_dir = or_in(runtime.workspace_dir, data.as_str(), "workspaces");
        runtime.images_dir = or_in(runtime.images_dir, data.as_str(), "images");
        runtime.volumes_dir = or_in(runtime.volumes_dir, data.as_str(), "volumes");
        runtime.kernel_image = or_in(runtime.kernel_image, data.as_str(), "kernel/vmlinux");
        let mut auth = self.auth;
        auth.bootstrap_admin_key = text(over.admin_key, auth.bootstrap_admin_key);
        let standby = StandbyConfig {
            enabled: switch(&over.standby, self.standby.enabled),
            balloon_idle_seconds: self.standby.balloon_idle_seconds,
        };
        Config {
            server,
            node,
            runtime,
            pricing: self.pricing,
            hotpool: self.hotpool,
            auth,
            standby,
            capacity: self.capacity,
        }
    }

    /// The database.
    pub fn db_path(&self) -> (r: String)
        ensures
            r@ == under(self.server.data_dir@, "workdir.db"@),
    {
        path_join(self.server.data_dir.as_str(), "workdir.db")
    }

    /// The port that the control plane itself listens on; 0 where the address
    /// names none.
    pub fn control_plane_port(&self) -> (r: u16)
        ensures
            r == control_port(self.server.bind@),
    {
        let parts = crate::text::split(self.server.bind.as_str(), ':');
        proof {
            crate::text::lemma_pieces_nonempty(self.server.bind@, ':');
            let p = crate::text::pieces(self.server.bind@, ':');
            assert(p.last() == parts@[parts@.len() - 1]@);
        }
        match parse_max(parts[parts.len() - 1].as_str(), 65535) {
            Some(p) => p as u16,
            None => 0,
        }
    }
}

/// The port in a bind address: what follows its last colon.
pub open spec fn control_port(bind: Seq<char>) -> u16 {
    match parsed(crate::text::pieces(bind, ':').last(), 65535) {
        Some(p) => p as u16,
        None => 0,
    }
}

impl RuntimeConfig {
    /// What the Firecracker runtime takes from the configuration, and whether the data
    /// file system was found to share blocks between copies.
    pub fn settings(&self, shares_blocks: bool) -> (r: Settings)
        ensures
            r == (Settings {
                firecracker_bin: self.firecracker_bin,
                jailer_bin: self.jailer_bin,
                kernel_image: self.kernel_image,
                images_dir: self.images_dir,
                volumes_dir: self.volumes_dir,
                workspace_dir: self.workspace_dir,
                use_jailer: self.use_jailer,
                jailer_uid_base: self.jailer_uid_base,
                prewarm_mem_cache: self.prewarm_mem_cache,
                cpu_template: self.cpu_template,
                shared_rootfs: self.shared_rootfs,
                balloon: self.balloon,
                quiet_boot: self.quiet_guest_boot,
                no_seccomp: self.firecracker_no_seccomp,
                jailer_pool_size: self.jailer_pool_size,
                require_reflink: self.require_reflink,
                shares_blocks,
            }),
    {
        Settings {
            firecracker_bin: self.firecracker_bin.clone(),
            jailer_bin: self.jailer_bin.clone(),
            kernel_image: self.kernel_image.clone(),
            images_dir: self.images_dir.clone(),
            volumes_dir: self.volumes_dir.clone(),
            workspace_dir: self.workspace_dir.clone(),
            use_jailer: self.use_jailer,
            jailer_uid_base: self.jailer_uid_base,
            prewarm_mem_cache: self.prewarm_mem_cache,
            cpu_template: self.cpu_template.clone(),
            shared_rootfs: self.shared_rootfs,
            balloon: self.balloon,
            quiet_boot: self.quiet_guest_boot,
            no_seccomp: self.firecracker_no_seccomp,
            jailer_pool_size: self.jailer_pool_size,
            require_reflink: self.require_reflink,
            shares_blocks,
        }
    }
}

// ---------------------------------------------------------------------------
// Starting up
// ---------------------------------------------------------------------------

/// Which data plane runs.
#[derive(Debug, Clone, Copy, PartialEq, Eq, Structural)]
pub enum RuntimeKind {
    Firecracker,
    Mock,
}

/// The runtime to start. The development runtime isolates nothing, so it starts
/// only where that was acknowledged.
pub fn runtime_kind(kind: &str, insecure_acknowledged: bool) -> (r: Result<RuntimeKind, String>)
    ensures
        match r {
            Ok(RuntimeKind::Firecracker) => kind@ == "firecracker"@,
            Ok(RuntimeKind::Mock) => kind@ == "mock"@ && insecure_acknowledged && kind@
                != "firecracker"@,
            Err(m) => kind@ != "firecracker"@ && (if kind@ == "mock"@ {
                !insecure_acknowledged && m@
                    == "runtime.kind = 'mock' runs untrusted code on the HOST with no isolation and is for local development only. Refusing to start. Set WORKDIR_ALLOW_INSECURE_RUNTIME=1 to acknowledge this (dev only); use 'firecracker' in production."@
            } else {
                m@ == "unknown runtime kind '"@ + kind@ + "' (use 'mock' or 'firecracker')"@
            }),
        },
{
    if same(kind, "firecracker") {
        return Ok(RuntimeKind::Firecracker);
    }
    if same(kind, "mock") {
        if !insecure_acknowledged {
            return Err(
                String::from_str(
                    "runtime.kind = 'mock' runs untrusted code on the HOST with no isolation and is for local development only. Refusing to start. Set WORKDIR_ALLOW_INSECURE_RUNTIME=1 to acknowledge this (dev only); use 'firecracker' in production.",
                ),
            );
        }
        return Ok(RuntimeKind::Mock);
    }
    Err(concat3("unknown runtime kind '", kind, "' (use 'mock' or 'firecracker')"))
}

/// The first text of two that is not empty.
pub fn first_nonempty(a: &str, b: &str) -> (r: String)
    ensures
        r@ == (if a@.len() > 0 {
            a@
        } else {
            b@
        }),
{
    if a.is_empty() {
        String::from_str(b)
    } else {
        String::from_str(a)
    }
}

/// The name of this host: what the environment says, else what the system
/// reports, else `localhost`. An empty name is none.
pub fn host_name(environment: Option<&str>, reported: Option<&str>) -> (r: String)
    ensures
        r@ == (match environment {
            Some(e) if e@.len() > 0 => e@,
            _ => match reported {
                Some(s) if trimmed(s@).len() > 0 => trimmed(s@),
                _ => "localhost"@,
            },
        }),
{
    if let Some(e) = environment {
        if !e.is_empty() {
            return String::from_str(e);
        }
    }
    if let Some(s) = reported {
        let name = trim(s);
        if !name.as_str().is_empty() {
            return name;
        }
    }
    String::from_str("localhost")
}

/// The memory of a node whose memory cannot be read: 64 GiB, in KiB.
pub const FALLBACK_MEMORY_KB: u64 = 67_108_864;

/// The number in a line of `/proc/meminfo` that begins with a key, in KiB.
pub open spec fn meminfo_line(line: Seq<char>, key: Seq<char>) -> Option<nat> {
    match crate::text::without_prefix(line, key) {
        Some(rest) => {
            let w = crate::text::word_list(rest);
            if w.len() > 0 {
                parsed(w[0], u64::MAX as nat)
            } else {
                None
            }
        },
        None => None,
    }
}

/// The value of an entry by the first line among those from `i` on that gives it.
pub open spec fn meminfo_value(lines: Seq<Seq<char>>, key: Seq<char>, i: int) -> Option<nat>
    decreases lines.len() - i,
{
    if i < 0 || i >= lines.len() {
        None
    } else {
        match meminfo_line(lines[i], key) {
            Some(n) => Some(n),
            None => meminfo_value(lines, key, i + 1),
        }
    }
}

/// The total memory by the lines from `i` on.
pub open spec fn meminfo_total(lines: Seq<Seq<char>>, i: int) -> Option<nat> {
    meminfo_value(lines, "MemTotal:"@, i)
}

fn line_value(line: &str, key: &str) -> (r: Option<u64>)
    ensures
        (match r {
            Some(n) => Some(n as nat),
            None => None,
        }) == meminfo_line(line@, key@),
{
    match crate::text::strip_prefix(line, key) {
        Some(rest) => {
            let w = crate::text::words(rest.as_str());
            let ghost all = crate::text::word_list(rest@);
            assert(crate::text::views(w@).len() == all.len());
            if w.len() > 0 {
                assert(all[0] == w@[0]@);
                parse_max(w[0].as_str(), u64::MAX)
            } else {
                None
            }
        },
        None => None,
    }
}

fn entry_of(meminfo: &str, key: &str) -> (r: Option<u64>)
    ensures
        (match r {
            Some(n) => Some(n as nat),
            None => None,
        }) == meminfo_value(crate::text::line_list(meminfo@), key@, 0),
{
    let l = crate::text::lines(meminfo);
    let ghost all = crate::text::line_list(meminfo@);
    let mut i: usize = 0;
    while i < l.len()
        invariant
            i <= l@.len(),
            crate::text::views(l@) == all,
            all == crate::text::line_list(meminfo@),
            meminfo_value(all, key@, 0) == meminfo_value(all, key@, i as int),
        decreases l@.len() - i,
    {
        assert(all[i as int] == l@[i as int]@);
        if let Some(n) = line_value(l[i].as_str(), key) {
            return Some(n);
        }
        i = i + 1;
    }
    None
}

/// The total memory of a node in KiB: what is configured, else what
/// `/proc/meminfo` says, else the fallback.
pub fn total_memory_kb(configured: u64, meminfo: &str) -> (r: u64)
    ensures
        r == (if configured > 0 {
            configured as int
        } else {
            match meminfo_total(crate::text::line_list(meminfo@), 0) {
                Some(n) => n as int,
                None => FALLBACK_MEMORY_KB as int,
            }
        }),
{
    if configured > 0 {
        return configured;
    }
    match entry_of(meminfo, "MemTotal:") {
        Some(n) => n,
        None => FALLBACK_MEMORY_KB,
    }
}

/// The memory that a node can hand out without swapping, in KiB, as `/proc/meminfo`
/// measures it.
pub fn available_memory_kb(meminfo: &str) -> (r: Option<u64>)
    ensures
        (match r {
            Some(n) => Some(n as nat),
            None => None,
        }) == meminfo_value(crate::text::line_list(meminfo@), "MemAvailable:"@, 0),
{
    entry_of(meminfo, "MemAvailable:")
}

// ---------------------------------------------------------------------------
// Preview URLs
// ---------------------------------------------------------------------------

/// The public host of a sandbox's port. An underscore is no part of a DNS label,
/// so it is written as a dash.
pub open spec fn preview_host(id: Seq<char>, port: u16, domain: Seq<char>) -> Seq<char> {
    with_char(id, '_', '-') + "-"@ + decimal(port as nat) + "."@ + domain
}

/// The public URL of a sandbox's port.
pub open spec fn preview_text(s: ServerConfig, id: Seq<char>, port: u16) -> Seq<char> {
    let scheme = if s.public_https {
        "https://"@
    } else {
        "http://"@
    };
    let usual = if s.public_https {
        443u16
    } else {
        80u16
    };
    let host = scheme + preview_host(id, port, s.public_domain@);
    match s.public_port {
        Some(p) if p != usual => host + ":"@ + decimal(p as nat),
        _ => host,
    }
}

impl ServerConfig {
    /// The public URL of a sandbox's port. The public port is named when it is not
    /// the scheme's default.
    pub fn preview_url(&self, sandbox_id: &str, port: u16) -> (r: String)
        ensures
            r@ == preview_text(*self, sandbox_id@, port),
    {
        let mut url = if self.public_https {
            String::from_str("https://")
        } else {
            String::from_str("http://")
        };
        let mut host = replace_char(sandbox_id, '_', '-');
        host.append("-");
        host.append(to_decimal(port as u64).as_str());
        host.append(".");
        host.append(self.public_domain.as_str());
        url.append(host.as_str());
        let usual: u16 = if self.public_https {
            443
        } else {
            80
        };
        if let Some(p) = self.public_port {
            if p != usual {
                url.append(":");
                url.append(to_decimal(p as u64).as_str());
            }
        }
        url
    }
}

} // verus!
