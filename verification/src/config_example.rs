//! An example configuration.

use vstd::prelude::*;

verus! {

/// The configuration that `gen-config` prints.
pub const EXAMPLE_CONFIG: &'static str = r#"# sandboxd configuration

[server]
bind = "0.0.0.0:8080"
public_domain = "sandboxes.example.com"
public_https = true
# public_port = 8080   # include in preview URLs when not behind 443/80 (e.g. a LAN)
# capacity_exhausted_message = "Please self-host. This hosted endpoint is a capacity-limited demo."
data_dir = "/var/lib/workdir"

[node]
role = "all-in-one"        # "all-in-one" or "worker"
node_id = ""                # generated + persisted if empty
advertise_addr = ""         # internal address other nodes use; defaults to bind
total_memory_gb = 0.0       # auto-detected when 0
control_plane_url = ""      # workers only
join_token = ""             # workers only
rpc_token = ""              # shared control-plane/worker token for /internal RPC

[runtime]
kind = "firecracker"        # "firecracker" (Linux + /dev/kvm) or "mock" (dev)
firecracker_bin = "/usr/local/bin/firecracker"
jailer_bin = "/usr/local/bin/jailer"
use_jailer = false          # true = run VMMs under jailer; requires root daemon
jailer_uid_base = 100000    # first uid/gid used for per-VM jailer isolation
kernel_image = "/var/lib/workdir/kernel/vmlinux"
images_dir = "/var/lib/workdir/images"
workspace_dir = "/var/lib/workdir/workspaces"
volumes_dir = "/var/lib/workdir/volumes"   # persistent-volume backing images
# Resume-latency tuning:
restore_mem_backend = "file"   # "file" (page-cache-prewarmed) or "uffd" (lazy demand paging)
prewarm_mem_cache = true       # warm the snapshot mem file into page cache just before a restore
cpu_template = ""              # e.g. "T2"/"C3" for snapshot portability across heterogeneous hosts
quiet_guest_boot = true        # skip serial boot logging; disable when debugging guest boots
jailer_pool_size = 0           # pre-spawned idle jailer+Firecracker processes (0 = off)
# Density:
shared_rootfs = false          # share one read-only base rootfs across all VMs
balloon = false                # virtio-balloon on every VM: soft standby and guest memory stats
firecracker_no_seccomp = false # true adds --no-seccomp for snapshot/restore troubleshooting
require_reflink = false        # true = refuse to fork or stage private disks without reflink

[pricing]
default_unit_price_usd_hr = 0.009
monthly_node_cost_usd = 48.0
node_practical_units = 20

[pricing.image_multipliers]
base = 1.0
"node-python" = 1.1
browser = 2.5
"heavy-build" = 2.0
custom = 1.2

[hotpool]
enabled = true
warm_interval_seconds = 5
base_target = 2

[standby]
# When true, idle sandboxes are parked in standby (snapshot + free RAM + $0,
# auto-resume on next request) instead of stopped.
enabled = false
# Soft standby: after this many idle seconds, inflate the guest balloon so free
# guest memory returns to the host. 0 = off; requires runtime.balloon.
balloon_idle_seconds = 0

[capacity]
# Memory reserved for the host, and the fraction of theoretical slots admitted.
host_reserve_gb = 12.0
practical_derate = 0.7692
# Admit past the static ceiling while the host measures at least
# overcommit_headroom_gb free beyond the request.
overcommit = false
overcommit_headroom_gb = 8.0
# When memory PSI (some avg10) exceeds this percentage, park the least-recently-
# active running sandbox in standby ahead of its idle window. 0 = off.
psi_standby_threshold = 0.0

[auth]
bootstrap_admin_key = ""    # set for reproducible installs; else generated once
bootstrap_org = "org_admin"
"#;

} // verus!
