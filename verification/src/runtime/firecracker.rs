//! Production runtime: Firecracker microVMs, started directly or under the
//! jailer.
//!
//! This module decides. It hands out plans for booting, restoring, forking,
//! parking and deleting VMs, keeps the table of VMs and the counters from which
//! taps, CIDs and jail ids are drawn, and says what a refused request is
//! answered. Running programs, calling sockets and touching files is left to
//! whoever carries the plans out.

use crate::envmap::EnvMap;
use crate::numeral::{decimal, to_decimal};
use crate::paths::{path_join, under};
use crate::registry::Registry;
use crate::runtime::plan::{
    attempt, need, need_or_reclaim, or_else, reclaims_from, Action, ApiBody, Flow, PlanBuilder,
    StepView,
};
use crate::runtime::steps::{
    add_chown, add_dirs, add_tap, argv3, chown_step, dir_steps, direct_argv, direct_command,
    jailer_argv, jailer_command, owner_of, owner_text, reflink, reflink_command, tap_steps, text,
};
use crate::runtime::vm::{
    copy_stages, guest_ip, guest_mac, handle_of, handle_text, ip_text, jail_id, jail_id_of,
    labelled, mac_text, stage_views, stage_volumes, stages, tap_name, tap_text, RecordView,
    Settings, StageView, VmRecord, VolumeStage, NET_DNS, NET_GATEWAY,
};
use crate::runtime::VmSpec;
use crate::text::concat2;
use vstd::prelude::*;
use vstd::string::*;

verus! {

/// A pre-spawned jailer with Firecracker in it, not configured until a snapshot
/// load claims it.
#[derive(Debug)]
pub struct PooledJail {
    /// `pool-N`.
    pub jail_id: String,
    pub uid: u32,
    pub pid: Option<u32>,
}

/// The state of the runtime.
#[derive(Debug)]
pub struct FirecrackerRuntime {
    pub settings: Settings,
    pub next_cid: u32,
    pub next_tap: u32,
    /// Suffix of the next restore's jail id: the jailer refuses a directory that
    /// exists, so that each restore gets a fresh one.
    pub next_restore: u32,
    pub next_pool: u32,
    /// Pre-spawned jailers that wait to be claimed.
    pub pool: Vec<PooledJail>,
    pub vms: Registry<VmRecord>,
}

/// No VM in the table holds a tap, or a CID, that is still to be handed out.
pub open spec fn counters_clear(rt: FirecrackerRuntime) -> bool {
    forall|h: Seq<char>| #[trigger]
        rt.vms@.contains_key(h) ==> below_counters(rt, rt.vms@[h])
}

/// The record's tap and CID were handed out before.
pub open spec fn below_counters(rt: FirecrackerRuntime, rec: VmRecord) -> bool {
    &&& rec.cid < rt.next_cid
    &&& rec.tap_idx matches Some(i) ==> i < rt.next_tap
}

// ---------------------------------------------------------------------------
// Cold boot
// ---------------------------------------------------------------------------

/// Where a VM's sockets and disks are, for the host and for Firecracker itself,
/// which under the jailer sees its own root.
pub struct Layout {
    pub api_sock: Seq<char>,
    pub vsock_uds: Seq<char>,
    pub kernel: Seq<char>,
    pub root_disk: Seq<char>,
    pub vsock: Seq<char>,
}

/// The layout of a fresh VM.
pub open spec fn layout(s: Settings, spec: VmSpec) -> Layout {
    let handle = handle_text(spec.sandbox_id@);
    if s.use_jailer {
        let root = s.chroot_root(jail_id(handle));
        Layout {
            api_sock: under(root, "api.sock"@),
            vsock_uds: under(root, "vsock.sock"@),
            kernel: "vmlinux"@,
            root_disk: "rootfs.ext4"@,
            vsock: "vsock.sock"@,
        }
    } else {
        let jail = s.jail(handle);
        Layout {
            api_sock: under(jail, "api.sock"@),
            vsock_uds: under(jail, "vsock.sock"@),
            kernel: s.kernel_image@,
            root_disk: if s.shares(spec.image_key@) {
                s.rootfs(spec.image_key@, spec.image_ref@)
            } else {
                under(jail, "overlay.ext4"@)
            },
            vsock: under(jail, "vsock.sock"@),
        }
    }
}

/// The backing images of the volumes must be there before anything is
/// allocated.
pub open spec fn volume_checks(v: Seq<StageView>) -> Seq<StepView> {
    Seq::new(v.len(), |i: int| need(Action::RequireFile(v[i].host_path)))
}

/// What is done before a tap is allocated.
pub open spec fn boot_prelude(s: Settings, spec: VmSpec) -> Seq<StepView> {
    dir_steps(s, handle_text(spec.sandbox_id@)) + volume_checks(stages(s, spec.volumes@))
}

/// Stage the first `n` volumes in a chroot: linked, never copied, so that the
/// guest's writes reach the one image.
pub open spec fn volume_links(v: Seq<StageView>, n: int, root: Seq<char>, owner: Seq<char>) -> Seq<
    StepView,
>
    decreases n,
{
    if n <= 0 {
        Seq::<StepView>::empty()
    } else {
        let to = under(root, v[n - 1].file);
        volume_links(v, n - 1, root, owner) + seq![
            attempt(Action::RemoveFile(to)),
            need(Action::HardLink(v[n - 1].host_path, to)),
            chown_step(owner, to),
        ]
    }
}

/// Start a jailed Firecracker and stage kernel, root disk and volumes in its
/// chroot. Where copies are refused, the disk is a shared one and linked or nothing.
pub open spec fn jailed_launch(s: Settings, spec: VmSpec, tap_idx: u32) -> Seq<StepView> {
    let handle = handle_text(spec.sandbox_id@);
    let id = jail_id(handle);
    let root = s.chroot_root(id);
    let uid = s.jailer_uid_base + tap_idx;
    let owner = owner_text(uid);
    let rootfs = s.rootfs(spec.image_key@, spec.image_ref@);
    let kernel_to = under(root, "vmlinux"@);
    let disk_to = under(root, "rootfs.ext4"@);
    let v = stages(s, spec.volumes@);
    seq![
        need(Action::Spawn(jailer_argv(s, id, uid), under(s.jail(handle), "firecracker.log"@))),
        attempt(Action::WaitFor(root, 4)),
        need(Action::Run(seq!["cp"@, s.kernel_image@, kernel_to])),
        chown_step(owner, kernel_to),
    ] + (if s.refuses_copies() {
        seq![need(Action::HardLink(rootfs, disk_to))]
    } else {
        (if s.shares(spec.image_key@) {
            // One inode, one copy in the page cache for all VMs. It keeps its owner.
            seq![or_else(Action::HardLink(rootfs, disk_to), 2)]
        } else {
            Seq::<StepView>::empty()
        }) + seq![need(Action::Run(reflink(rootfs, disk_to))), chown_step(owner, disk_to)]
    }) + volume_links(v, v.len() as int, root, owner)
}

/// Start Firecracker on its own, on a private copy of the root disk unless the
/// image is shared.
pub open spec fn direct_launch(s: Settings, spec: VmSpec) -> Seq<StepView> {
    let handle = handle_text(spec.sandbox_id@);
    let l = layout(s, spec);
    (if s.shares(spec.image_key@) {
        Seq::<StepView>::empty()
    } else {
        seq![
            need(
                Action::Run(
                    reflink(
                        s.rootfs(spec.image_key@, spec.image_ref@),
                        under(s.jail(handle), "overlay.ext4"@),
                    ),
                ),
            ),
        ]
    }) + seq![
        attempt(Action::RemoveFile(l.api_sock)),
        need(
            Action::Spawn(
                direct_argv(s, l.api_sock),
                under(s.jail(handle), "firecracker.log"@),
            ),
        ),
    ]
}

/// Processors of a VM: the share rounded up, at least one.
pub open spec fn vcpus(cpu_milli: u32) -> int {
    if cpu_milli <= 1000 {
        1
    } else {
        (cpu_milli + 999) / 1000
    }
}

/// The guest kernel's command line. The guest configures its network from it. A
/// shared root disk is mounted read-only, and the guest keeps its writes in
/// memory.
pub open spec fn boot_args(s: Settings, shared: bool, ip: Seq<char>) -> Seq<char> {
    "console=ttyS0 reboot=k panic=1 pci=off root=/dev/vda "@ + (if shared {
        "ro"@
    } else {
        "rw"@
    }) + (if s.quiet_boot {
        " quiet loglevel=1"@
    } else {
        ""@
    }) + " wd.ip="@ + ip + " wd.gw="@ + NET_GATEWAY@ + " wd.dns="@ + NET_DNS@ + (if shared {
        " wd.overlay=tmpfs"@
    } else {
        ""@
    }) + " init=/sbin/sandbox-init"@
}

/// The name of the drive of the volume at `i`.
pub open spec fn drive_name(i: int) -> Seq<char> {
    "vol"@ + decimal(i as nat)
}

/// Configure the volumes as further drives, in order.
pub open spec fn volume_drives(s: Settings, sock: Seq<char>, v: Seq<StageView>) -> Seq<StepView> {
    Seq::new(
        v.len(),
        |i: int|
            need_or_reclaim(
                Action::Api(
                    sock,
                    "PUT"@,
                    "/drives/"@ + drive_name(i),
                    ApiBody::Drive {
                        drive_id: drive_name(i),
                        path_on_host: if s.use_jailer {
                            v[i].file
                        } else {
                            v[i].host_path
                        },
                        is_root_device: false,
                        is_read_only: false,
                    },
                    10,
                ),
            ),
    )
}

/// An API call without which the boot fails and the VM is reclaimed.
pub open spec fn put(sock: Seq<char>, path: Seq<char>, body: ApiBody<Seq<char>>) -> StepView {
    need_or_reclaim(Action::Api(sock, "PUT"@, path, body, 10))
}

/// The machine's shape.
pub open spec fn machine(s: Settings, spec: VmSpec) -> ApiBody<Seq<char>> {
    ApiBody::Machine {
        vcpu_count: vcpus(spec.resources.cpu_milli) as u32,
        mem_size_mib: spec.resources.memory_mb,
        smt: false,
        track_dirty_pages: true,
        cpu_template: if s.cpu_template@.len() == 0 {
            None
        } else {
            Some(s.cpu_template@)
        },
    }
}

/// Configure the VM, start it and wait for its agent.
pub open spec fn boot_config(s: Settings, spec: VmSpec, cid: u32, tap_idx: u32) -> Seq<StepView> {
    let l = layout(s, spec);
    let sock = l.api_sock;
    let shared = s.shares(spec.image_key@);
    seq![
        attempt(Action::WaitFor(sock, 4)),
        put(sock, "/vsock"@, ApiBody::Vsock { guest_cid: cid, uds_path: l.vsock }),
        attempt(Action::StartClock),
        put(sock, "/machine-config"@, machine(s, spec)),
    ] + (if s.balloon {
        seq![
            put(
                sock,
                "/balloon"@,
                ApiBody::Balloon {
                    amount_mib: 0,
                    deflate_on_oom: true,
                    stats_polling_interval_s: 1,
                },
            ),
        ]
    } else {
        Seq::<StepView>::empty()
    }) + seq![
        put(
            sock,
            "/boot-source"@,
            ApiBody::BootSource {
                kernel_image_path: l.kernel,
                boot_args: boot_args(s, shared, ip_text(tap_idx)),
            },
        ),
        put(
            sock,
            "/drives/rootfs"@,
            ApiBody::Drive {
                drive_id: "rootfs"@,
                path_on_host: l.root_disk,
                is_root_device: true,
                is_read_only: shared,
            },
        ),
    ] + volume_drives(s, sock, stages(s, spec.volumes@)) + seq![
        put(
            sock,
            "/network-interfaces/eth0"@,
            ApiBody::Network {
                iface_id: "eth0"@,
                host_dev_name: tap_text(tap_idx),
                guest_mac: mac_text(tap_idx),
            },
        ),
        put(sock, "/actions"@, ApiBody::Act { action_type: "InstanceStart"@ }),
        need_or_reclaim(Action::AwaitAgent(10)),
    ]
}

/// What is done once a tap is allocated, up to the point where the VM is entered
/// into the table.
pub open spec fn boot_launch(s: Settings, spec: VmSpec, tap_idx: u32) -> Seq<StepView> {
    tap_steps(tap_text(tap_idx)) + (if s.use_jailer {
        jailed_launch(s, spec, tap_idx)
    } else {
        direct_launch(s, spec)
    })
}

/// All that is done once a tap is allocated.
pub open spec fn boot_steps(s: Settings, spec: VmSpec, cid: u32, tap_idx: u32) -> Seq<StepView> {
    boot_launch(s, spec, tap_idx).push(attempt(Action::Record)) + boot_config(s, spec, cid, tap_idx)
}

/// The record of a fresh VM, before its process id is known.
pub open spec fn boot_record(s: Settings, spec: VmSpec, cid: u32, tap_idx: u32) -> RecordView {
    let l = layout(s, spec);
    RecordView {
        api_sock: l.api_sock,
        vsock_uds: l.vsock_uds,
        vsock_fc: l.vsock,
        cid,
        pid: None,
        image_key: spec.image_key@,
        tap: Some(tap_text(tap_idx)),
        tap_idx: Some(tap_idx),
        guest_ip: Some(ip_text(tap_idx)),
        resident_env: Map::<Seq<char>, Seq<char>>::empty(),
        has_secrets: false,
        standby: false,
        snapshotted: false,
        volumes: stages(s, spec.volumes@),
        ballooned_mib: 0,
    }
}

/// What a boot begins with.
#[derive(Debug)]
pub struct BootTicket {
    pub handle: String,
    pub cid: u32,
    pub plan: PlanBuilder,
}

/// A plan, the process it takes over, and the record that its `Record` step
/// enters into the table.
#[derive(Debug)]
pub struct Launch {
    pub handle: String,
    pub plan: PlanBuilder,
    pub pid: Option<u32>,
    pub record: VmRecord,
}

fn add_volume_checks(p: &mut PlanBuilder, v: &Vec<VolumeStage>)
    ensures
        final(p)@ == old(p)@ + volume_checks(stage_views(v@)),
{
    let ghost start = p@;
    let ghost all = volume_checks(stage_views(v@));
    let mut i: usize = 0;
    assert(p@ =~= start + all.subrange(0, 0));
    while i < v.len()
        invariant
            i <= v@.len(),
            all == volume_checks(stage_views(v@)),
            p@ == start + all.subrange(0, i as int),
        decreases v@.len() - i,
    {
        p.need(Action::RequireFile(v[i].host_path.clone()));
        i = i + 1;
        assert(p@ =~= start + all.subrange(0, i as int));
    }
    assert(all.subrange(0, i as int) =~= all);
}

fn add_volume_links(p: &mut PlanBuilder, v: &Vec<VolumeStage>, root: &str, owner: &str)
    ensures
        final(p)@ == old(p)@ + volume_links(
            stage_views(v@),
            v@.len() as int,
            root@,
            owner@,
        ),
{
    let ghost start = p@;
    let ghost sv = stage_views(v@);
    let mut i: usize = 0;
    assert(p@ =~= start + volume_links(sv, 0, root@, owner@));
    while i < v.len()
        invariant
            i <= v@.len(),
            sv == stage_views(v@),
            p@ == start + volume_links(sv, i as int, root@, owner@),
        decreases v@.len() - i,
    {
        let to = path_join(root, v[i].file.as_str());
        assert(sv[i as int] == v@[i as int]@);
        p.attempt(Action::RemoveFile(to.clone()));
        p.need(Action::HardLink(v[i].host_path.clone(), to.clone()));
        add_chown(p, owner, to.as_str());
        i = i + 1;
        assert(p@ =~= start + volume_links(sv, i as int, root@, owner@));
    }
}

fn add_volume_drives(p: &mut PlanBuilder, s: &Settings, sock: &str, v: &Vec<VolumeStage>)
    ensures
        final(p)@ == old(p)@ + volume_drives(*s, sock@, stage_views(v@)),
{
    let ghost start = p@;
    let ghost all = volume_drives(*s, sock@, stage_views(v@));
    let mut i: usize = 0;
    assert(p@ =~= start + all.subrange(0, 0));
    while i < v.len()
        invariant
            i <= v@.len(),
            all == volume_drives(*s, sock@, stage_views(v@)),
            p@ == start + all.subrange(0, i as int),
        decreases v@.len() - i,
    {
        let name = concat2("vol", to_decimal(i as u64).as_str());
        let path = if s.use_jailer {
            v[i].file.clone()
        } else {
            v[i].host_path.clone()
        };
        p.need_or_reclaim(
            Action::Api(
                text(sock),
                text("PUT"),
                concat2("/drives/", name.as_str()),
                ApiBody::Drive {
                    drive_id: name,
                    path_on_host: path,
                    is_root_device: false,
                    is_read_only: false,
                },
                10,
            ),
        );
        i = i + 1;
        assert(p@ =~= start + all.subrange(0, i as int));
    }
    assert(all.subrange(0, i as int) =~= all);
}

fn add_put(p: &mut PlanBuilder, sock: &str, path: &str, body: ApiBody<String>)
    ensures
        final(p)@ == old(p)@.push(put(sock@, path@, body@)),
{
    p.need_or_reclaim(Action::Api(text(sock), text("PUT"), text(path), body, 10));
}

fn boot_args_of(s: &Settings, shared: bool, ip: &str) -> (r: String)
    ensures
        r@ == boot_args(*s, shared, ip@),
{
    let mut a = text("console=ttyS0 reboot=k panic=1 pci=off root=/dev/vda ");
    a.append(if shared { "ro" } else { "rw" });
    a.append(if s.quiet_boot { " quiet loglevel=1" } else { "" });
    a.append(" wd.ip=");
    a.append(ip);
    a.append(" wd.gw=");
    a.append(NET_GATEWAY);
    a.append(" wd.dns=");
    a.append(NET_DNS);
    a.append(if shared { " wd.overlay=tmpfs" } else { "" });
    a.append(" init=/sbin/sandbox-init");
    a
}

fn add_jailed_launch(p: &mut PlanBuilder, s: &Settings, spec: &VmSpec, v: &Vec<VolumeStage>, tap_idx: u32)
    requires
        s.jailer_uid_base + tap_idx <= u32::MAX,
        stage_views(v@) == stages(*s, spec.volumes@),
    ensures
        final(p)@ == old(p)@ + jailed_launch(*s, *spec, tap_idx),
{
    let ghost start = p@;
    let handle = handle_of(spec.sandbox_id.as_str());
    let id = jail_id_of(handle.as_str());
    let root = s.chroot_root_of(id.as_str());
    let uid: u32 = s.jailer_uid_base + tap_idx;
    let owner = owner_of(uid);
    let rootfs = s.rootfs_path(spec);
    let kernel_to = path_join(root.as_str(), "vmlinux");
    let disk_to = path_join(root.as_str(), "rootfs.ext4");
    let log = path_join(s.jail_dir(handle.as_str()).as_str(), "firecracker.log");
    p.need(Action::Spawn(jailer_command(s, id.as_str(), uid), log));
    p.attempt(Action::WaitFor(root.clone(), 4));
    p.need(Action::Run(argv3("cp", s.kernel_image.as_str(), kernel_to.as_str())));
    add_chown(p, owner.as_str(), kernel_to.as_str());
    if s.copies_refused() {
        p.need(Action::HardLink(rootfs, disk_to));
    } else {
        if s.shared_image(spec.image_key.as_str()) {
            p.or_else(Action::HardLink(rootfs.clone(), disk_to.clone()), 2);
        }
        p.need(Action::Run(reflink_command(rootfs.as_str(), disk_to.as_str())));
        add_chown(p, owner.as_str(), disk_to.as_str());
    }
    let ghost before = p@;
    add_volume_links(p, v, root.as_str(), owner.as_str());
    assert(stages(*s, spec.volumes@).len() == v@.len());
    assert(p@ =~= start + jailed_launch(*s, *spec, tap_idx));
}

fn add_direct_launch(p: &mut PlanBuilder, s: &Settings, spec: &VmSpec)
    requires
        !s.use_jailer,
    ensures
        final(p)@ == old(p)@ + direct_launch(*s, *spec),
{
    let ghost start = p@;
    let handle = handle_of(spec.sandbox_id.as_str());
    let jail = s.jail_dir(handle.as_str());
    let api_sock = path_join(jail.as_str(), "api.sock");
    if !s.shared_image(spec.image_key.as_str()) {
        let overlay = path_join(jail.as_str(), "overlay.ext4");
        p.need(Action::Run(reflink_command(s.rootfs_path(spec).as_str(), overlay.as_str())));
    }
    p.attempt(Action::RemoveFile(api_sock.clone()));
    p.need(
        Action::Spawn(
            direct_command(s, api_sock.as_str()),
            path_join(jail.as_str(), "firecracker.log"),
        ),
    );
    assert(p@ =~= start + direct_launch(*s, *spec));
}

fn add_boot_config(
    p: &mut PlanBuilder,
    s: &Settings,
    spec: &VmSpec,
    v: &Vec<VolumeStage>,
    rec: &VmRecord,
    tap_idx: u32,
)
    requires
        tap_idx <= u32::MAX - 2,
        stage_views(v@) == stages(*s, spec.volumes@),
        rec.api_sock@ == layout(*s, *spec).api_sock,
        rec.vsock_fc@ == layout(*s, *spec).vsock,
    ensures
        final(p)@ == old(p)@ + boot_config(*s, *spec, rec.cid, tap_idx),
{
    let ghost start = p@;
    let ghost l = layout(*s, *spec);
    let sock = rec.api_sock.as_str();
    let shared = s.shared_image(spec.image_key.as_str());
    p.attempt(Action::WaitFor(text(sock), 4));
    add_put(
        p,
        sock,
        "/vsock",
        ApiBody::Vsock { guest_cid: rec.cid, uds_path: rec.vsock_fc.clone() },
    );
    p.attempt(Action::StartClock);
    let vcpu_count: u32 = if spec.resources.cpu_milli <= 1000 {
        1
    } else {
        let m: u64 = spec.resources.cpu_milli as u64;
        ((m + 999) / 1000) as u32
    };
    let cpu_template: Option<String> = if s.cpu_template.as_str().is_empty() {
        None
    } else {
        Some(s.cpu_template.clone())
    };
    add_put(
        p,
        sock,
        "/machine-config",
        ApiBody::Machine {
            vcpu_count,
            mem_size_mib: spec.resources.memory_mb,
            smt: false,
            track_dirty_pages: true,
            cpu_template,
        },
    );
    if s.balloon {
        add_put(
            p,
            sock,
            "/balloon",
            ApiBody::Balloon { amount_mib: 0, deflate_on_oom: true, stats_polling_interval_s: 1 },
        );
    }
    let kernel = if s.use_jailer {
        text("vmlinux")
    } else {
        s.kernel_image.clone()
    };
    add_put(
        p,
        sock,
        "/boot-source",
        ApiBody::BootSource {
            kernel_image_path: kernel,
            boot_args: boot_args_of(s, shared, guest_ip(tap_idx).as_str()),
        },
    );
    let root_disk = if s.use_jailer {
        text("rootfs.ext4")
    } else if shared {
        s.rootfs_path(spec)
    } else {
        let handle = handle_of(spec.sandbox_id.as_str());
        path_join(s.jail_dir(handle.as_str()).as_str(), "overlay.ext4")
    };
    add_put(
        p,
        sock,
        "/drives/rootfs",
        ApiBody::Drive {
            drive_id: text("rootfs"),
            path_on_host: root_disk,
            is_root_device: true,
            is_read_only: shared,
        },
    );
    add_volume_drives(p, s, sock, v);
    add_put(
        p,
        sock,
        "/network-interfaces/eth0",
        ApiBody::Network {
            iface_id: text("eth0"),
            host_dev_name: tap_name(tap_idx),
            guest_mac: guest_mac(tap_idx),
        },
    );
    add_put(p, sock, "/actions", ApiBody::Act { action_type: text("InstanceStart") });
    p.need_or_reclaim(Action::AwaitAgent(10));
    assert(p@ =~= start + boot_config(*s, *spec, rec.cid, tap_idx));
}

/// There is a tap index and, under the jailer, a user id to hand out.
pub open spec fn tap_room(rt: FirecrackerRuntime) -> bool {
    &&& rt.next_tap <= u32::MAX - 2
    &&& rt.settings.use_jailer ==> rt.settings.jailer_uid_base + rt.next_tap <= u32::MAX
}

impl FirecrackerRuntime {
    /// Is there a tap index, and a CID, to hand out?
    pub fn has_room(&self) -> (r: bool)
        ensures
            r == (tap_room(*self) && self.next_cid < u32::MAX),
    {
        self.next_tap <= u32::MAX - 2 && self.next_cid < u32::MAX && (!self.settings.use_jailer
            || self.next_tap <= u32::MAX - self.settings.jailer_uid_base)
    }

    /// Begin a cold boot: allocate a CID, and create the VM's directories. Refused
    /// where the VM's disk would have to be copied in full and must not be.
    pub fn begin_boot(&mut self, spec: &VmSpec) -> (r: Result<BootTicket, String>)
        requires
            old(self).next_cid < u32::MAX,
            labelled(spec.volumes@),
        ensures
            (match r {
                Ok(_) => None,
                Err(m) => Some(m@),
            }) == old(self).settings.disk_refusal(spec.image_key@),
            r matches Ok(t) ==> {
                &&& t.handle@ == handle_text(spec.sandbox_id@)
                &&& t.cid == old(self).next_cid
                &&& t.plan@ == boot_prelude(old(self).settings, *spec)
                &&& *final(self) == (FirecrackerRuntime {
                    next_cid: (old(self).next_cid + 1) as u32,
                    ..*old(self)
                })
            },
            r is Err ==> *final(self) == *old(self),
    {
        if let Err(m) = self.settings.check_disk(spec.image_key.as_str()) {
            return Err(m);
        }
        let handle = handle_of(spec.sandbox_id.as_str());
        let cid: u32 = self.next_cid;
        self.next_cid = cid + 1;
        let mut plan = PlanBuilder::new();
        add_dirs(&mut plan, &self.settings, handle.as_str());
        let v = stage_volumes(&self.settings, &spec.volumes);
        add_volume_checks(&mut plan, &v);
        assert(plan@ =~= boot_prelude(self.settings, *spec));
        Ok(BootTicket { handle, cid, plan })
    }

    /// Go on with a cold boot whose directories and volumes are there: allocate
    /// a tap, start Firecracker, configure the VM and wait for its agent. Refused
    /// where the VM's disk would have to be copied in full and must not be.
    pub fn boot(&mut self, spec: &VmSpec, cid: u32) -> (r: Result<Launch, String>)
        requires
            tap_room(*old(self)),
            labelled(spec.volumes@),
        ensures
            (match r {
                Ok(_) => None,
                Err(m) => Some(m@),
            }) == old(self).settings.disk_refusal(spec.image_key@),
            r matches Ok(l) ==> {
                &&& l.handle@ == handle_text(spec.sandbox_id@)
                &&& l.plan@ == boot_steps(old(self).settings, *spec, cid, old(self).next_tap)
                &&& l.pid is None
                &&& l.record@ == boot_record(old(self).settings, *spec, cid, old(self).next_tap)
                &&& *final(self) == (FirecrackerRuntime {
                    next_tap: (old(self).next_tap + 1) as u32,
                    ..*old(self)
                })
            },
            r is Err ==> *final(self) == *old(self),
    {
        if let Err(m) = self.settings.check_disk(spec.image_key.as_str()) {
            return Err(m);
        }
        let tap_idx: u32 = self.next_tap;
        self.next_tap = tap_idx + 1;
        let s = &self.settings;
        let handle = handle_of(spec.sandbox_id.as_str());
        let v = stage_volumes(s, &spec.volumes);
        let root = if s.use_jailer {
            s.chroot_root_of(jail_id_of(handle.as_str()).as_str())
        } else {
            s.jail_dir(handle.as_str())
        };
        let vsock_uds = path_join(root.as_str(), "vsock.sock");
        let vsock_fc = if s.use_jailer {
            text("vsock.sock")
        } else {
            vsock_uds.clone()
        };
        let record = VmRecord {
            api_sock: path_join(root.as_str(), "api.sock"),
            vsock_uds,
            vsock_fc,
            cid,
            pid: None,
            image_key: spec.image_key.clone(),
            tap: Some(tap_name(tap_idx)),
            tap_idx: Some(tap_idx),
            guest_ip: Some(guest_ip(tap_idx)),
            resident_env: EnvMap::new(),
            has_secrets: false,
            standby: false,
            snapshotted: false,
            volumes: copy_stages(&v),
            ballooned_mib: 0,
        };
        let mut plan = PlanBuilder::new();
        add_tap(&mut plan, tap_name(tap_idx).as_str());
        if s.use_jailer {
            add_jailed_launch(&mut plan, s, spec, &v, tap_idx);
        } else {
            add_direct_launch(&mut plan, s, spec);
        }
        assert(plan@ =~= boot_launch(*s, *spec, tap_idx));
        plan.attempt(Action::Record);
        add_boot_config(&mut plan, s, spec, &v, &record, tap_idx);
        assert(plan@ =~= boot_steps(*s, *spec, cid, tap_idx));
        Ok(Launch { handle, plan, pid: None, record })
    }
}

// ---------------------------------------------------------------------------
// The table
// ---------------------------------------------------------------------------

/// A record with its process id filled in.
pub open spec fn with_pid(rec: VmRecord, pid: Option<u32>) -> VmRecord {
    VmRecord { pid, ..rec }
}

impl FirecrackerRuntime {
    /// Enter a VM into the table: what a plan's `Record` step asks for.
    pub fn register(&mut self, handle: &str, record: VmRecord, pid: Option<u32>)
        ensures
            final(self).vms@ == old(self).vms@.insert(handle@, with_pid(record, pid)),
            *final(self) == (FirecrackerRuntime { vms: final(self).vms, ..*old(self) }),
            counters_clear(*old(self)) && below_counters(*old(self), record) ==> counters_clear(
                *final(self),
            ),
    {
        let mut rec = record;
        rec.pid = pid;
        self.vms.insert(handle, rec);
        proof {
            let rt = *self;
            if counters_clear(*old(self)) && below_counters(*old(self), record) {
                assert forall|h: Seq<char>| #[trigger] rt.vms@.contains_key(h) implies below_counters(
                    rt,
                    rt.vms@[h],
                ) by {
                    if h != handle@ {
                        assert(old(self).vms@.contains_key(h));
                    }
                }
            }
        }
    }
}

// ---------------------------------------------------------------------------
// Laws
// ---------------------------------------------------------------------------

/// From the moment a booting VM is in the table, whatever fails in the rest of
/// the boot leads to its being killed and its resources reclaimed.
pub proof fn law_failed_boot_is_reclaimed(s: Settings, spec: VmSpec, cid: u32, tap_idx: u32)
    ensures
        boot_steps(s, spec, cid, tap_idx)[boot_launch(s, spec, tap_idx).len() as int].action
            == Action::<Seq<char>, Seq<Seq<char>>>::Record,
        reclaims_from(
            boot_steps(s, spec, cid, tap_idx),
            boot_launch(s, spec, tap_idx).len() as int,
        ),
{
    let steps = boot_steps(s, spec, cid, tap_idx);
    let from = boot_launch(s, spec, tap_idx).len() as int;
    let config = boot_config(s, spec, cid, tap_idx);
    assert forall|i: int| 0 <= i < config.len() implies (#[trigger] config[i]).err != Flow::Fail
        && config[i].ok != Flow::Fail by {
        let v = volume_drives(s, layout(s, spec).api_sock, stages(s, spec.volumes@));
        let k = if s.balloon {
            7int
        } else {
            6int
        };
        if k <= i < k + v.len() {
            assert(config[i] == v[i - k]);
        }
    }
    assert forall|i: int| from <= i < steps.len() implies (#[trigger] steps[i]).err != Flow::Fail
        && steps[i].ok != Flow::Fail by {
        if i > from {
            assert(steps[i] == config[i - from - 1]);
        }
    }
}

/// A fresh boot gets a tap and a CID that no VM in the table holds.
pub proof fn law_fresh_tap_and_cid(rt: FirecrackerRuntime, h: Seq<char>)
    requires
        counters_clear(rt),
        rt.vms@.contains_key(h),
    ensures
        rt.vms@[h].tap_idx != Some(rt.next_tap),
        rt.vms@[h].cid != rt.next_cid,
{
    assert(below_counters(rt, rt.vms@[h]));
}

} // verus!
