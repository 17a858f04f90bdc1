//! VMs from snapshots: a new VM from an image's golden snapshot, a parked VM
//! brought back, and a sibling forked off a running one.

use crate::envmap::EnvMap;
use crate::numeral::{decimal, to_decimal};
use crate::paths::{parent, parent_dir, path_join, under};
use crate::runtime::firecracker::{
    below_counters, counters_clear, jailed_launch, tap_room, FirecrackerRuntime, Launch, PooledJail,
};
use crate::runtime::plan::{
    attempt, need, need_or_reclaim, only_if, or_else, reclaims_from, Action, AgentRequest, ApiBody,
    PlanBuilder, StepView,
};
use crate::runtime::steps::{
    add_chown, add_dirs, add_link_or_copy, add_prewarm, add_snapshot, add_tap, argv4, chown_step,
    dir_steps, direct_argv, direct_command, in_jail, jailer_argv, jailer_command, link_or_copy, load,
    load_action, owner_of, owner_text, prewarm_steps, readdress, readdress_command, reflink,
    reflink_command, snapshot_steps, tap_steps, text,
};
use crate::runtime::vm::{
    guest_ip, handle_of, handle_text, ip_text, jail_id, jail_id_of, opt_text, stage_views, tap_name,
    tap_text, RecordView, Settings, StageView, VmRecord, VolumeStage, NO_REFLINK,
};
use crate::runtime::VmSpec;
use crate::text::{concat2, concat3};
use vstd::prelude::*;
use vstd::string::*;

verus! {

// ---------------------------------------------------------------------------
// The pool of pre-spawned jailers
// ---------------------------------------------------------------------------

/// The jailer that a claim takes: the one added last.
pub open spec fn claimable(rt: FirecrackerRuntime) -> Option<PooledJail> {
    if rt.settings.use_jailer && rt.settings.jailer_pool_size > 0 && rt.pool@.len() > 0 {
        Some(rt.pool@.last())
    } else {
        None
    }
}

/// The user of the pooled jailer with number `n`.
pub open spec fn pool_uid(s: Settings, n: u32) -> int {
    s.jailer_uid_base + 90_000 + n % 9_000
}

/// The jail id of the pooled jailer with number `n`.
pub open spec fn pool_id(n: u32) -> Seq<char> {
    "pool-"@ + decimal(n as nat)
}

/// What a new pool entry takes.
#[derive(Debug)]
pub struct PoolSpawn {
    pub jail: PooledJail,
    pub plan: PlanBuilder,
}

/// Start a jailer for the pool.
pub open spec fn pool_steps(s: Settings, n: u32) -> Seq<StepView> {
    let dir = under(s.chroot_base(), "jailer-pool"@);
    seq![
        attempt(Action::CreateDir(dir)),
        need(
            Action::Spawn(
                jailer_argv(s, pool_id(n), pool_uid(s, n)),
                under(dir, pool_id(n) + ".log"@),
            ),
        ),
        attempt(Action::WaitFor(under(s.chroot_root(pool_id(n)), "api.sock"@), 4)),
    ]
}

impl FirecrackerRuntime {
    /// Claim a pre-spawned jailer, if there is one.
    pub fn claim_pooled_jail(&mut self) -> (r: Option<PooledJail>)
        ensures
            r == claimable(*old(self)),
            final(self).pool@ == (if r is Some {
                old(self).pool@.drop_last()
            } else {
                old(self).pool@
            }),
            *final(self) == (FirecrackerRuntime { pool: final(self).pool, ..*old(self) }),
    {
        if !self.settings.use_jailer || self.settings.jailer_pool_size == 0 {
            return None;
        }
        self.pool.pop()
    }

    /// Start one pool entry. It joins the pool once its socket accepts
    /// connections.
    pub fn spawn_pooled_jail(&mut self) -> (r: PoolSpawn)
        requires
            old(self).next_pool < u32::MAX,
            old(self).settings.jailer_uid_base <= u32::MAX - 98_999,
        ensures
            r.jail.jail_id@ == pool_id(old(self).next_pool),
            r.jail.uid == pool_uid(old(self).settings, old(self).next_pool),
            r.jail.pid is None,
            r.plan@ == pool_steps(old(self).settings, old(self).next_pool),
            *final(self) == (FirecrackerRuntime {
                next_pool: (old(self).next_pool + 1) as u32,
                ..*old(self)
            }),
    {
        let n: u32 = self.next_pool;
        self.next_pool = n + 1;
        let s = &self.settings;
        let id = concat2("pool-", to_decimal(n as u64).as_str());
        let uid: u32 = s.jailer_uid_base + 90_000 + n % 9_000;
        let dir = path_join(s.chroot_base_dir().as_str(), "jailer-pool");
        let log = path_join(dir.as_str(), concat2(id.as_str(), ".log").as_str());
        let api = path_join(s.chroot_root_of(id.as_str()).as_str(), "api.sock");
        let mut plan = PlanBuilder::new();
        plan.attempt(Action::CreateDir(dir));
        plan.need(Action::Spawn(jailer_command(s, id.as_str(), uid), log));
        plan.attempt(Action::WaitFor(api, 4));
        assert(plan@ =~= pool_steps(*s, n));
        PoolSpawn { jail: PooledJail { jail_id: id, uid, pid: None }, plan }
    }

    /// Has the pool fewer jailers than it should?
    pub fn pool_wants_more(&self) -> (r: bool)
        ensures
            r == (self.settings.use_jailer && self.pool@.len() < self.settings.jailer_pool_size),
    {
        self.settings.use_jailer && self.pool.len() < self.settings.jailer_pool_size as usize
    }

    /// Add a jailer that accepts connections to the pool.
    pub fn add_to_pool(&mut self, jail: PooledJail)
        ensures
            final(self).pool@ == old(self).pool@.push(jail),
            *final(self) == (FirecrackerRuntime { pool: final(self).pool, ..*old(self) }),
    {
        self.pool.push(jail);
    }
}

// ---------------------------------------------------------------------------
// A new VM from the golden snapshot
// ---------------------------------------------------------------------------

/// A tap and a CID handed out together.
#[derive(Debug)]
pub struct Nic {
    pub tap_idx: u32,
    pub cid: u32,
    pub plan: PlanBuilder,
}

impl FirecrackerRuntime {
    /// Allocate a tap and a CID, and create the tap.
    pub fn allocate_nic(&mut self) -> (r: Nic)
        requires
            tap_room(*old(self)),
            old(self).next_cid < u32::MAX,
        ensures
            r.tap_idx == old(self).next_tap,
            r.cid == old(self).next_cid,
            r.plan@ == tap_steps(tap_text(r.tap_idx)),
            *final(self) == (FirecrackerRuntime {
                next_tap: (old(self).next_tap + 1) as u32,
                next_cid: (old(self).next_cid + 1) as u32,
                ..*old(self)
            }),
            counters_clear(*old(self)) ==> counters_clear(*final(self)),
    {
        let tap_idx: u32 = self.next_tap;
        let cid: u32 = self.next_cid;
        self.next_tap = tap_idx + 1;
        self.next_cid = cid + 1;
        proof {
            if counters_clear(*old(self)) {
                assert forall|h: Seq<char>| #[trigger] self.vms@.contains_key(h) implies below_counters(
                    *self,
                    self.vms@[h],
                ) by {
                    assert(below_counters(*old(self), old(self).vms@[h]));
                }
            }
        }
        let mut plan = PlanBuilder::new();
        add_tap(&mut plan, tap_name(tap_idx).as_str());
        assert(plan@ =~= tap_steps(tap_text(tap_idx)));
        Nic { tap_idx, cid, plan }
    }

    /// Begin a boot from the golden snapshot: create the VM's directories. Refused
    /// where the VM's disk would have to be copied in full and must not be.
    pub fn begin_golden(&self, spec: &VmSpec) -> (r: Result<PlanBuilder, String>)
        ensures
            (match r {
                Ok(_) => None,
                Err(m) => Some(m@),
            }) == self.settings.disk_refusal(spec.image_key@),
            r matches Ok(p) ==> p@ == dir_steps(
                self.settings,
                handle_text(spec.sandbox_id@),
            ).push(attempt(Action::StartClock)),
    {
        if let Err(m) = self.settings.check_disk(spec.image_key.as_str()) {
            return Err(m);
        }
        let handle = handle_of(spec.sandbox_id.as_str());
        let mut plan = PlanBuilder::new();
        add_dirs(&mut plan, &self.settings, handle.as_str());
        plan.attempt(Action::StartClock);
        assert(plan@ =~= dir_steps(self.settings, handle@).push(attempt(Action::StartClock)));
        Ok(plan)
    }
}

/// The root of the chroot in which a VM comes up: the claimed jailer's, or its
/// own.
pub open spec fn jail_root(s: Settings, pooled: Option<PooledJail>, own_id: Seq<char>) -> Seq<char> {
    match pooled {
        Some(p) => s.chroot_root(p.jail_id@),
        None => s.chroot_root(own_id),
    }
}

/// The user as which a VM comes up.
pub open spec fn jail_uid(s: Settings, pooled: Option<PooledJail>, tap_idx: u32) -> int {
    match pooled {
        Some(p) => p.uid as int,
        None => s.jailer_uid_base + tap_idx,
    }
}

/// Start a jailer unless one was claimed.
pub open spec fn golden_start(s: Settings, spec: VmSpec, pooled: Option<PooledJail>, tap_idx: u32) -> Seq<
    StepView,
> {
    let handle = handle_text(spec.sandbox_id@);
    if pooled is Some {
        Seq::<StepView>::empty()
    } else {
        seq![
            need(
                Action::Spawn(
                    jailer_argv(s, jail_id(handle), s.jailer_uid_base + tap_idx),
                    under(s.jail(handle), "firecracker.log"@),
                ),
            ),
        ]
    }
}

/// The root disk of a VM from the golden snapshot: the one shared base, or an
/// own copy of the disk as it was when the snapshot was taken.
pub open spec fn golden_disk(s: Settings, spec: VmSpec, root: Seq<char>, uid: int) -> Seq<StepView> {
    let to = under(root, "rootfs.ext4"@);
    if s.shares(spec.image_key@) {
        seq![
            attempt(Action::RemoveFile(to)),
            need_or_reclaim(Action::HardLink(s.rootfs(spec.image_key@, spec.image_ref@), to)),
        ]
    } else {
        seq![
            need_or_reclaim(
                Action::RunChecked(
                    reflink(
                        under(s.golden(spec.image_key@, spec.resources.memory_mb), "rootfs.ext4"@),
                        to,
                    ),
                ),
            ),
            chown_step(owner_text(uid), to),
        ]
    }
}

/// Stage the golden artifacts, load them, and give the guest its own address.
/// The artifacts are staged under names that the VM's own snapshots never write
/// to: they are shared by all siblings.
pub open spec fn golden_rest(s: Settings, spec: VmSpec, root: Seq<char>, uid: int, tap_idx: u32) -> Seq<
    StepView,
> {
    let dir = s.golden(spec.image_key@, spec.resources.memory_mb);
    let sock = under(root, "api.sock"@);
    let mem = under(root, "golden-mem.file"@);
    seq![attempt(Action::Record), attempt(Action::WaitFor(root, 4))] + link_or_copy(
        under(dir, "snapshot.file"@),
        under(root, "golden-snapshot.file"@),
        true,
    ) + link_or_copy(under(dir, "mem.file"@), mem, true) + golden_disk(s, spec, root, uid) + seq![
        attempt(Action::WaitFor(sock, 4)),
    ] + prewarm_steps(s, mem) + seq![
        need_or_reclaim(
            load_action(
                sock,
                "golden-snapshot.file"@,
                "golden-mem.file"@,
                Some(tap_text(tap_idx)),
            ),
        ),
        need_or_reclaim(Action::AwaitAgent(10)),
        attempt(
            Action::Agent(
                AgentRequest::Exec { cmd: readdress(ip_text(tap_idx)), background: false },
            ),
        ),
    ]
}

/// The record of a VM that comes up in a chroot, before its process id is known.
pub open spec fn jailed_record(
    root: Seq<char>,
    image_key: Seq<char>,
    cid: u32,
    tap_idx: u32,
) -> RecordView {
    RecordView {
        api_sock: under(root, "api.sock"@),
        vsock_uds: under(root, "vsock.sock"@),
        vsock_fc: "vsock.sock"@,
        cid,
        pid: None,
        image_key,
        tap: Some(tap_text(tap_idx)),
        tap_idx: Some(tap_idx),
        guest_ip: Some(ip_text(tap_idx)),
        resident_env: Map::<Seq<char>, Seq<char>>::empty(),
        has_secrets: false,
        standby: false,
        snapshotted: false,
        volumes: Seq::<StageView>::empty(),
        ballooned_mib: 0,
    }
}

fn new_record(root: &str, image_key: &str, cid: u32, tap_idx: u32) -> (r: VmRecord)
    requires
        tap_idx <= u32::MAX - 2,
    ensures
        r@ == jailed_record(root@, image_key@, cid, tap_idx),
        r.tap_idx == Some(tap_idx),
        r.cid == cid,
{
    let r = VmRecord {
        api_sock: path_join(root, "api.sock"),
        vsock_uds: path_join(root, "vsock.sock"),
        vsock_fc: text("vsock.sock"),
        cid,
        pid: None,
        image_key: text(image_key),
        tap: Some(tap_name(tap_idx)),
        tap_idx: Some(tap_idx),
        guest_ip: Some(guest_ip(tap_idx)),
        resident_env: EnvMap::new(),
        has_secrets: false,
        standby: false,
        snapshotted: false,
        volumes: Vec::new(),
        ballooned_mib: 0,
    };
    assert(stage_views(r.volumes@) =~= Seq::<StageView>::empty());
    r
}

fn add_golden_disk(p: &mut PlanBuilder, s: &Settings, spec: &VmSpec, root: &str, uid: u32)
    ensures
        final(p)@ == old(p)@ + golden_disk(*s, *spec, root@, uid as int),
{
    let ghost start = p@;
    let to = path_join(root, "rootfs.ext4");
    if s.shared_image(spec.image_key.as_str()) {
        p.attempt(Action::RemoveFile(to.clone()));
        p.need_or_reclaim(Action::HardLink(s.rootfs_path(spec), to));
    } else {
        let dir = s.golden_dir(spec.image_key.as_str(), &spec.resources);
        let from = path_join(dir.as_str(), "rootfs.ext4");
        p.need_or_reclaim(Action::RunChecked(reflink_command(from.as_str(), to.as_str())));
        add_chown(p, owner_of(uid).as_str(), to.as_str());
    }
    assert(p@ =~= start + golden_disk(*s, *spec, root@, uid as int));
}

fn add_golden_rest(
    p: &mut PlanBuilder,
    s: &Settings,
    spec: &VmSpec,
    root: &str,
    uid: u32,
    tap_idx: u32,
)
    requires
        tap_idx <= u32::MAX - 2,
    ensures
        final(p)@ == old(p)@ + golden_rest(*s, *spec, root@, uid as int, tap_idx),
{
    let ghost start = p@;
    let dir = s.golden_dir(spec.image_key.as_str(), &spec.resources);
    let sock = path_join(root, "api.sock");
    let mem = path_join(root, "golden-mem.file");
    p.attempt(Action::Record);
    p.attempt(Action::WaitFor(text(root), 4));
    add_link_or_copy(
        p,
        path_join(dir.as_str(), "snapshot.file").as_str(),
        path_join(root, "golden-snapshot.file").as_str(),
        true,
    );
    add_link_or_copy(p, path_join(dir.as_str(), "mem.file").as_str(), mem.as_str(), true);
    add_golden_disk(p, s, spec, root, uid);
    p.attempt(Action::WaitFor(sock.clone(), 4));
    add_prewarm(p, s, mem.as_str());
    p.need_or_reclaim(
        load(
            sock.as_str(),
            "golden-snapshot.file",
            "golden-mem.file",
            Some(tap_name(tap_idx).as_str()),
        ),
    );
    p.need_or_reclaim(Action::AwaitAgent(10));
    p.attempt(
        Action::Agent(
            AgentRequest::Exec {
                cmd: readdress_command(guest_ip(tap_idx).as_str()),
                background: false,
            },
        ),
    );
    assert(p@ =~= start + golden_rest(*s, *spec, root@, uid as int, tap_idx));
}

impl FirecrackerRuntime {
    /// Bring up a new VM from the golden snapshot, once its directories and its
    /// tap are there. Only under the jailer: a snapshot restores its vsock at the
    /// path it was taken with, which siblings share unless each sees its own
    /// root. Refused where the VM's disk would have to be copied in full and must not
    /// be.
    pub fn boot_from_golden(&mut self, spec: &VmSpec, tap_idx: u32, cid: u32) -> (r: Result<
        Launch,
        String,
    >)
        requires
            old(self).settings.use_jailer,
            tap_idx <= u32::MAX - 2,
            old(self).settings.jailer_uid_base + tap_idx <= u32::MAX,
        ensures
            (match r {
                Ok(_) => None,
                Err(m) => Some(m@),
            }) == old(self).settings.disk_refusal(spec.image_key@),
            r matches Ok(l) ==> {
                let s = old(self).settings;
                let pooled = claimable(*old(self));
                let root = jail_root(s, pooled, jail_id(l.handle@));
                &&& l.handle@ == handle_text(spec.sandbox_id@)
                &&& l.plan@ == golden_start(s, *spec, pooled, tap_idx) + golden_rest(
                    s,
                    *spec,
                    root,
                    jail_uid(s, pooled, tap_idx),
                    tap_idx,
                )
                &&& l.pid == (match pooled {
                    Some(p) => p.pid,
                    None => None,
                })
                &&& l.record@ == jailed_record(root, spec.image_key@, cid, tap_idx)
                &&& final(self).pool@ == (if pooled is Some {
                    old(self).pool@.drop_last()
                } else {
                    old(self).pool@
                })
                &&& *final(self) == (FirecrackerRuntime {
                    pool: final(self).pool,
                    ..*old(self)
                })
            },
            r is Err ==> *final(self) == *old(self),
    {
        if let Err(m) = self.settings.check_disk(spec.image_key.as_str()) {
            return Err(m);
        }
        let handle = handle_of(spec.sandbox_id.as_str());
        let pooled = self.claim_pooled_jail();
        let s = &self.settings;
        let id = jail_id_of(handle.as_str());
        let mut plan = PlanBuilder::new();
        let (root, uid, pid): (String, u32, Option<u32>) = match &pooled {
            Some(p) => (s.chroot_root_of(p.jail_id.as_str()), p.uid, p.pid),
            None => {
                let uid: u32 = s.jailer_uid_base + tap_idx;
                plan.need(
                    Action::Spawn(
                        jailer_command(s, id.as_str(), uid),
                        path_join(s.jail_dir(handle.as_str()).as_str(), "firecracker.log"),
                    ),
                );
                (s.chroot_root_of(id.as_str()), uid, None)
            },
        };
        let ghost started = plan@;
        assert(started =~= golden_start(*s, *spec, pooled, tap_idx));
        let record = new_record(root.as_str(), spec.image_key.as_str(), cid, tap_idx);
        add_golden_rest(&mut plan, s, spec, root.as_str(), uid, tap_idx);
        Ok(Launch { handle, plan, pid, record })
    }
}

// ---------------------------------------------------------------------------
// A parked VM brought back
// ---------------------------------------------------------------------------

/// The directory that holds a VM's API socket, and with it its snapshots and
/// disk.
pub open spec fn home(api_sock: Seq<char>) -> Seq<char> {
    match parent(api_sock) {
        Some(p) => p,
        None => Seq::<char>::empty(),
    }
}

pub(crate) fn home_of(api_sock: &str) -> (r: String)
    ensures
        r@ == home(api_sock@),
{
    match parent_dir(api_sock) {
        Some(p) => p,
        None => {
            let e = String::new();
            assert(e@ =~= Seq::<char>::empty());
            e
        },
    }
}

/// Create the VM's tap again unless it is still there. It keeps its name, and
/// so the address that the snapshot holds.
pub open spec fn retap_steps(tap: Option<Seq<char>>) -> Seq<StepView> {
    match tap {
        Some(t) => seq![or_else(Action::RequireDevice(t), 5)] + tap_steps(t),
        None => Seq::<StepView>::empty(),
    }
}

/// The text about a VM that is not in the table.
pub open spec fn unknown_vm(handle: Seq<char>) -> Seq<char> {
    "unknown vm "@ + handle
}

/// The jail id of the restore with number `n`.
pub open spec fn restore_id(handle: Seq<char>, n: u32) -> Seq<char> {
    jail_id(handle) + "-r"@ + decimal(n as nat)
}

/// The tap index that a record without one stands for.
pub open spec fn tap_or_zero(tap_idx: Option<u32>) -> u32 {
    match tap_idx {
        Some(i) => i,
        None => 0,
    }
}

/// Link the first `n` volumes into the chroot.
pub open spec fn relink_volumes(v: Seq<StageView>, n: int, root: Seq<char>) -> Seq<StepView>
    decreases n,
{
    if n <= 0 {
        Seq::<StepView>::empty()
    } else {
        let to = under(root, v[n - 1].file);
        relink_volumes(v, n - 1, root) + seq![
            attempt(Action::RemoveFile(to)),
            need(Action::HardLink(v[n - 1].host_path, to)),
        ]
    }
}

/// Give the staged volumes to the VM's user.
pub open spec fn chown_volumes(v: Seq<StageView>, root: Seq<char>, owner: Seq<char>) -> Seq<StepView> {
    Seq::new(v.len(), |i: int| chown_step(owner, under(root, v[i].file)))
}

/// Stage a parked VM's snapshot, disk and volumes in a fresh chroot, for the
/// user it will run as. The shared root disk keeps its owner: it is one inode for
/// all VMs.
pub open spec fn restage(s: Settings, rec: RecordView, root: Seq<char>, uid: int) -> Seq<StepView> {
    let from = home(rec.api_sock);
    let owner = owner_text(uid);
    link_or_copy(under(from, "snapshot.file"@), under(root, "snapshot.file"@), false)
        + link_or_copy(under(from, "mem.file"@), under(root, "mem.file"@), false) + link_or_copy(
        under(from, "rootfs.ext4"@),
        under(root, "rootfs.ext4"@),
        false,
    ) + relink_volumes(rec.volumes, rec.volumes.len() as int, root) + seq![
        chown_step(owner, under(root, "snapshot.file"@)),
        chown_step(owner, under(root, "mem.file"@)),
    ] + (if s.shares(rec.image_key) {
        Seq::<StepView>::empty()
    } else {
        seq![chown_step(owner, under(root, "rootfs.ext4"@))]
    }) + chown_volumes(rec.volumes, root, owner)
}

/// Start a jailer for a restore, unless one was claimed.
pub open spec fn restore_start(
    s: Settings,
    rec: RecordView,
    handle: Seq<char>,
    pooled: Option<PooledJail>,
    n: u32,
) -> Seq<StepView> {
    if pooled is Some {
        Seq::<StepView>::empty()
    } else {
        let id = restore_id(handle, n);
        seq![
            need(
                Action::Spawn(
                    jailer_argv(s, id, s.jailer_uid_base + tap_or_zero(rec.tap_idx)),
                    under(home(rec.api_sock), "restore.log"@),
                ),
            ),
            attempt(Action::WaitFor(s.chroot_root(id), 4)),
        ]
    }
}

/// Load a parked VM's snapshot, enter the VM into the table again and wait for
/// its agent.
pub open spec fn reload(
    s: Settings,
    sock: Seq<char>,
    snapshot: Seq<char>,
    mem: Seq<char>,
    mem_host: Seq<char>,
    seconds: u32,
) -> Seq<StepView> {
    seq![attempt(Action::WaitFor(sock, 4))] + prewarm_steps(s, mem_host) + seq![
        need(load_action(sock, snapshot, mem, None)),
        attempt(Action::Record),
        need(Action::AwaitAgent(seconds)),
    ]
}

/// Bring a parked VM back under the jailer.
pub open spec fn jailed_restore(
    s: Settings,
    rec: RecordView,
    handle: Seq<char>,
    pooled: Option<PooledJail>,
    n: u32,
) -> Seq<StepView> {
    let root = jail_root(s, pooled, restore_id(handle, n));
    restore_start(s, rec, handle, pooled, n) + restage(
        s,
        rec,
        root,
        jail_uid(s, pooled, tap_or_zero(rec.tap_idx)),
    ) + reload(
        s,
        under(root, "api.sock"@),
        "snapshot.file"@,
        "mem.file"@,
        under(root, "mem.file"@),
        15,
    )
}

/// Bring a parked VM back without the jailer, where it was.
pub open spec fn direct_restore(s: Settings, rec: RecordView) -> Seq<StepView> {
    let dir = home(rec.api_sock);
    seq![
        attempt(Action::RemoveFile(rec.api_sock)),
        attempt(Action::RemoveFile(rec.vsock_uds)),
        need(Action::Spawn(direct_argv(s, rec.api_sock), under(dir, "restore.log"@))),
    ] + reload(
        s,
        rec.api_sock,
        under(dir, "snapshot.file"@),
        under(dir, "mem.file"@),
        under(dir, "mem.file"@),
        10,
    )
}

/// What bringing a parked VM back takes, and where its sockets will be.
#[derive(Debug)]
pub struct Restore {
    pub plan: PlanBuilder,
    /// The process that is taken over, if a jailer was claimed.
    pub pid: Option<u32>,
    /// The API socket and the vsock of the new chroot; nothing where the VM stays
    /// where it was.
    pub sockets: Option<(String, String)>,
}

/// A record once its VM is back.
pub open spec fn restored(
    rec: RecordView,
    sockets: Option<(Seq<char>, Seq<char>)>,
    pid: Option<u32>,
) -> RecordView {
    RecordView {
        api_sock: match sockets {
            Some((api, _)) => api,
            None => rec.api_sock,
        },
        vsock_uds: match sockets {
            Some((_, uds)) => uds,
            None => rec.vsock_uds,
        },
        vsock_fc: match sockets {
            Some(_) => "vsock.sock"@,
            None => rec.vsock_fc,
        },
        pid,
        standby: false,
        guest_ip: match rec.tap_idx {
            Some(i) => Some(ip_text(i)),
            None => rec.guest_ip,
        },
        ..rec
    }
}

fn add_relinks(p: &mut PlanBuilder, v: &Vec<VolumeStage>, root: &str)
    ensures
        final(p)@ == old(p)@ + relink_volumes(stage_views(v@), v@.len() as int, root@),
{
    let ghost start = p@;
    let ghost sv = stage_views(v@);
    let mut i: usize = 0;
    assert(p@ =~= start + relink_volumes(sv, 0, root@));
    while i < v.len()
        invariant
            i <= v@.len(),
            sv == stage_views(v@),
            p@ == start + relink_volumes(sv, i as int, root@),
        decreases v@.len() - i,
    {
        let to = path_join(root, v[i].file.as_str());
        assert(sv[i as int] == v@[i as int]@);
        p.attempt(Action::RemoveFile(to.clone()));
        p.need(Action::HardLink(v[i].host_path.clone(), to));
        i = i + 1;
        assert(p@ =~= start + relink_volumes(sv, i as int, root@));
    }
}

fn add_chown_volumes(p: &mut PlanBuilder, v: &Vec<VolumeStage>, root: &str, owner: &str)
    ensures
        final(p)@ == old(p)@ + chown_volumes(stage_views(v@), root@, owner@),
{
    let ghost start = p@;
    let ghost all = chown_volumes(stage_views(v@), root@, owner@);
    let mut i: usize = 0;
    assert(p@ =~= start + all.subrange(0, 0));
    while i < v.len()
        invariant
            i <= v@.len(),
            all == chown_volumes(stage_views(v@), root@, owner@),
            p@ == start + all.subrange(0, i as int),
        decreases v@.len() - i,
    {
        add_chown(p, owner, path_join(root, v[i].file.as_str()).as_str());
        i = i + 1;
        assert(p@ =~= start + all.subrange(0, i as int));
    }
    assert(all.subrange(0, i as int) =~= all);
}

fn add_restage(p: &mut PlanBuilder, s: &Settings, rec: &VmRecord, root: &str, uid: u32)
    ensures
        final(p)@ == old(p)@ + restage(*s, rec@, root@, uid as int),
{
    let ghost start = p@;
    let from = home_of(rec.api_sock.as_str());
    let owner = owner_of(uid);
    let snap_to = path_join(root, "snapshot.file");
    let mem_to = path_join(root, "mem.file");
    let disk_to = path_join(root, "rootfs.ext4");
    let snap_from = path_join(from.as_str(), "snapshot.file");
    let mem_from = path_join(from.as_str(), "mem.file");
    let disk_from = path_join(from.as_str(), "rootfs.ext4");
    add_link_or_copy(p, snap_from.as_str(), snap_to.as_str(), false);
    add_link_or_copy(p, mem_from.as_str(), mem_to.as_str(), false);
    add_link_or_copy(p, disk_from.as_str(), disk_to.as_str(), false);
    add_relinks(p, &rec.volumes, root);
    add_chown(p, owner.as_str(), snap_to.as_str());
    add_chown(p, owner.as_str(), mem_to.as_str());
    if !s.shared_image(rec.image_key.as_str()) {
        add_chown(p, owner.as_str(), disk_to.as_str());
    }
    add_chown_volumes(p, &rec.volumes, root, owner.as_str());
    assert(stage_views(rec.volumes@).len() == rec.volumes@.len());
    assert(p@ =~= start + restage(*s, rec@, root@, uid as int));
}

fn add_reload(
    p: &mut PlanBuilder,
    s: &Settings,
    sock: &str,
    snapshot: &str,
    mem: &str,
    mem_host: &str,
    seconds: u32,
)
    ensures
        final(p)@ == old(p)@ + reload(*s, sock@, snapshot@, mem@, mem_host@, seconds),
{
    let ghost start = p@;
    p.attempt(Action::WaitFor(text(sock), 4));
    add_prewarm(p, s, mem_host);
    p.need(load(sock, snapshot, mem, None));
    p.attempt(Action::Record);
    p.need(Action::AwaitAgent(seconds));
    assert(p@ =~= start + reload(*s, sock@, snapshot@, mem@, mem_host@, seconds));
}

impl FirecrackerRuntime {
    /// Begin to bring a parked VM back: its tap first.
    pub fn begin_restore(&self, handle: &str) -> (r: Result<PlanBuilder, String>)
        ensures
            r is Ok <==> self.vms@.contains_key(handle@),
            r matches Ok(p) ==> p@ == seq![attempt(Action::StartClock)] + retap_steps(
                opt_text(self.vms@[handle@].tap),
            ),
            r matches Err(m) ==> m@ == unknown_vm(handle@) + " (no persisted record)"@,
    {
        match self.vms.get(handle) {
            None => Err(concat3("unknown vm ", handle, " (no persisted record)")),
            Some(rec) => {
                let mut plan = PlanBuilder::new();
                plan.attempt(Action::StartClock);
                if let Some(tap) = &rec.tap {
                    plan.or_else(Action::RequireDevice(tap.clone()), 5);
                    add_tap(&mut plan, tap.as_str());
                }
                assert(plan@ =~= seq![attempt(Action::StartClock)] + retap_steps(
                    opt_text(rec.tap),
                ));
                Ok(plan)
            },
        }
    }

    /// Bring a parked VM back, once its tap is there. Under the jailer it comes
    /// up in a fresh chroot, or in that of a pre-spawned jailer.
    pub fn restore(&mut self, handle: &str) -> (r: Restore)
        requires
            old(self).vms@.contains_key(handle@),
            old(self).next_restore < u32::MAX,
            old(self).settings.use_jailer ==> old(self).settings.jailer_uid_base + tap_or_zero(
                old(self).vms@[handle@].tap_idx,
            ) <= u32::MAX,
        ensures
            ({
                let s = old(self).settings;
                let rec = old(self).vms@[handle@]@;
                let pooled = claimable(*old(self));
                let n = old(self).next_restore;
                let root = jail_root(s, pooled, restore_id(handle@, n));
                if s.use_jailer {
                    &&& r.plan@ == jailed_restore(s, rec, handle@, pooled, n)
                    &&& r.sockets matches Some((api, uds)) && api@ == under(root, "api.sock"@) && uds@
                        == under(root, "vsock.sock"@)
                    &&& r.pid == (match pooled {
                        Some(p) => p.pid,
                        None => None,
                    })
                } else {
                    &&& r.plan@ == direct_restore(s, rec)
                    &&& r.sockets is None
                    &&& r.pid is None
                }
            }),
            final(self).next_restore == old(self).next_restore + (if old(self).settings.use_jailer
                && claimable(*old(self)) is None {
                1int
            } else {
                0int
            }),
            final(self).pool@ == (if claimable(*old(self)) is Some {
                old(self).pool@.drop_last()
            } else {
                old(self).pool@
            }),
            *final(self) == (FirecrackerRuntime {
                pool: final(self).pool,
                next_restore: final(self).next_restore,
                ..*old(self)
            }),
    {
        let mut plan = PlanBuilder::new();
        if !self.settings.use_jailer {
            let s = &self.settings;
            match self.vms.get(handle) {
                None => {},
                Some(rec) => {
                    let dir = home_of(rec.api_sock.as_str());
                    plan.attempt(Action::RemoveFile(rec.api_sock.clone()));
                    plan.attempt(Action::RemoveFile(rec.vsock_uds.clone()));
                    plan.need(
                        Action::Spawn(
                            direct_command(s, rec.api_sock.as_str()),
                            path_join(dir.as_str(), "restore.log"),
                        ),
                    );
                    let mem = path_join(dir.as_str(), "mem.file");
                    add_reload(
                        &mut plan,
                        s,
                        rec.api_sock.as_str(),
                        path_join(dir.as_str(), "snapshot.file").as_str(),
                        mem.as_str(),
                        mem.as_str(),
                        10,
                    );
                    assert(plan@ =~= direct_restore(*s, rec@));
                },
            }
            return Restore { plan, pid: None, sockets: None };
        }
        let pooled = self.claim_pooled_jail();
        let n: u32 = self.next_restore;
        if pooled.is_none() {
            self.next_restore = n + 1;
        }
        let s = &self.settings;
        match self.vms.get(handle) {
            None => Restore { plan, pid: None, sockets: None },
            Some(rec) => {
                let mut id = jail_id_of(handle);
                id.append("-r");
                id.append(to_decimal(n as u64).as_str());
                let tap_idx: u32 = match rec.tap_idx {
                    Some(i) => i,
                    None => 0,
                };
                let (root, uid, pid): (String, u32, Option<u32>) = match &pooled {
                    Some(p) => (s.chroot_root_of(p.jail_id.as_str()), p.uid, p.pid),
                    None => {
                        let uid: u32 = s.jailer_uid_base + tap_idx;
                        let root = s.chroot_root_of(id.as_str());
                        plan.need(
                            Action::Spawn(
                                jailer_command(s, id.as_str(), uid),
                                path_join(
                                    home_of(rec.api_sock.as_str()).as_str(),
                                    "restore.log",
                                ),
                            ),
                        );
                        plan.attempt(Action::WaitFor(root.clone(), 4));
                        (root, uid, None)
                    },
                };
                assert(plan@ =~= restore_start(*s, rec@, handle@, pooled, n));
                add_restage(&mut plan, s, rec, root.as_str(), uid);
                let api = path_join(root.as_str(), "api.sock");
                add_reload(
                    &mut plan,
                    s,
                    api.as_str(),
                    "snapshot.file",
                    "mem.file",
                    path_join(root.as_str(), "mem.file").as_str(),
                    15,
                );
                let uds = path_join(root.as_str(), "vsock.sock");
                assert(plan@ =~= jailed_restore(*s, rec@, handle@, pooled, n));
                Restore { plan, pid, sockets: Some((api, uds)) }
            },
        }
    }

    /// Note that a parked VM is back: what a restore plan's `Record` step asks
    /// for.
    pub fn note_restored(&mut self, handle: &str, sockets: Option<(String, String)>, pid: Option<u32>)
        requires
            old(self).vms@.contains_key(handle@),
            old(self).vms@[handle@].tap_idx matches Some(i) ==> i <= u32::MAX - 2,
        ensures
            final(self).vms@.dom() == old(self).vms@.dom(),
            final(self).vms@[handle@]@ == restored(
                old(self).vms@[handle@]@,
                match sockets {
                    Some((a, b)) => Some((a@, b@)),
                    None => None,
                },
                pid,
            ),
            forall|h: Seq<char>|
                h != handle@ && old(self).vms@.contains_key(h) ==> #[trigger] final(self).vms@[h]
                    == old(self).vms@[h],
            *final(self) == (FirecrackerRuntime { vms: final(self).vms, ..*old(self) }),
            counters_clear(*old(self)) ==> counters_clear(*final(self)),
    {
        match self.vms.remove(handle) {
            None => {},
            Some(mut rec) => {
                if let Some((api, uds)) = sockets {
                    rec.api_sock = api;
                    rec.vsock_uds = uds;
                    rec.vsock_fc = text("vsock.sock");
                }
                rec.pid = pid;
                rec.standby = false;
                if let Some(idx) = rec.tap_idx {
                    rec.guest_ip = Some(guest_ip(idx));
                }
                self.vms.insert(handle, rec);
                proof {
                    assert(self.vms@.dom() =~= old(self).vms@.dom());
                    if counters_clear(*old(self)) {
                        assert forall|h: Seq<char>| #[trigger]
                            self.vms@.contains_key(h) implies below_counters(
                            *self,
                            self.vms@[h],
                        ) by {
                            assert(old(self).vms@.contains_key(h));
                            assert(below_counters(*old(self), old(self).vms@[h]));
                        }
                    }
                }
            },
        }
    }
}

// ---------------------------------------------------------------------------
// A sibling of a running VM
// ---------------------------------------------------------------------------

/// Take a snapshot of the parent, let it run on, and create the child's
/// directories.
pub open spec fn fork_prelude(s: Settings, parent_sock: Seq<char>, child: Seq<char>) -> Seq<StepView> {
    seq![attempt(Action::StartClock)] + snapshot_steps(s, parent_sock, home(parent_sock), false)
        + seq![
        need(Action::Api(parent_sock, "PATCH"@, "/vm"@, ApiBody::Vm { state: "Resumed"@ }, 10)),
    ] + dir_steps(s, child)
}

/// What a fork begins with.
#[derive(Debug)]
pub struct ForkTicket {
    pub plan: PlanBuilder,
    /// Where the parent's snapshot, memory and disk are.
    pub from: String,
    pub image_key: String,
}

/// Why no memory or disk can be copied for a child, if it cannot.
pub open spec fn copy_refusal(s: Settings) -> Option<Seq<char>> {
    if s.refuses_copies() {
        Some(NO_REFLINK@)
    } else {
        None
    }
}

/// Why a VM cannot be forked.
pub open spec fn fork_refusal(rt: FirecrackerRuntime, handle: Seq<char>) -> Option<Seq<char>> {
    if !rt.vms@.contains_key(handle) {
        Some("unknown parent vm "@ + handle)
    } else if rt.vms@[handle].has_secrets {
        Some(
            "cannot fork a sandbox with resident secrets; they would be copied into the child"@,
        )
    } else {
        copy_refusal(rt.settings)
    }
}

/// Where a child VM lives: its chroot, or its jail directory.
pub open spec fn child_root(s: Settings, child: Seq<char>) -> Seq<char> {
    if s.use_jailer {
        s.chroot_root(jail_id(child))
    } else {
        s.jail(child)
    }
}

/// Start the child's Firecracker and give it copies of the parent's snapshot,
/// memory and disk, so that it diverges on its own.
pub open spec fn fork_launch(s: Settings, from: Seq<char>, child: Seq<char>, tap_idx: u32) -> Seq<
    StepView,
> {
    let root = child_root(s, child);
    let sock = under(root, "api.sock"@);
    let log = under(s.jail(child), "firecracker.log"@);
    let uid = s.jailer_uid_base + tap_idx;
    let copies = seq![
        attempt(Action::CopyFile(under(from, "snapshot.file"@), under(root, "snapshot.file"@))),
        attempt(Action::Run(reflink(under(from, "mem.file"@), under(root, "mem.file"@)))),
    ];
    if s.use_jailer {
        seq![
            need(Action::Spawn(jailer_argv(s, jail_id(child), uid), log)),
            attempt(Action::WaitFor(root, 4)),
        ] + copies + seq![
            attempt(Action::Run(reflink(under(from, "rootfs.ext4"@), under(root, "rootfs.ext4"@)))),
            attempt(Action::Run(seq!["chown"@, "-R"@, owner_text(uid), root])),
            attempt(Action::WaitFor(sock, 4)),
        ]
    } else {
        copies + seq![
            only_if(Action::RequireFile(under(from, "overlay.ext4"@)), 1),
            attempt(
                Action::Run(reflink(under(from, "overlay.ext4"@), under(root, "overlay.ext4"@))),
            ),
            attempt(Action::RemoveFile(sock)),
            need(Action::Spawn(direct_argv(s, sock), log)),
            attempt(Action::WaitFor(sock, 4)),
        ]
    }
}

/// Bring the child up on its own tap. The snapshot's tap is the parent's, which
/// the parent still holds.
pub open spec fn fork_steps(s: Settings, from: Seq<char>, child: Seq<char>, tap_idx: u32) -> Seq<
    StepView,
> {
    let root = child_root(s, child);
    let sock = under(root, "api.sock"@);
    let (snapshot, mem) = if s.use_jailer {
        ("snapshot.file"@, "mem.file"@)
    } else {
        (under(root, "snapshot.file"@), under(root, "mem.file"@))
    };
    fork_launch(s, from, child, tap_idx) + prewarm_steps(s, under(home(sock), "mem.file"@)) + seq![
        need(load_action(sock, snapshot, mem, Some(tap_text(tap_idx)))),
        attempt(Action::Record),
        need(Action::AwaitAgent(10)),
        attempt(
            Action::Agent(
                AgentRequest::Exec { cmd: readdress(ip_text(tap_idx)), background: false },
            ),
        ),
    ]
}

fn add_fork_launch(p: &mut PlanBuilder, s: &Settings, from: &str, child: &str, root: &str, tap_idx: u32)
    requires
        s.use_jailer ==> s.jailer_uid_base + tap_idx <= u32::MAX,
        root@ == child_root(*s, child@),
    ensures
        final(p)@ == old(p)@ + fork_launch(*s, from@, child@, tap_idx),
{
    let ghost start = p@;
    let sock = path_join(root, "api.sock");
    let log = path_join(s.jail_dir(child).as_str(), "firecracker.log");
    let snap_from = path_join(from, "snapshot.file");
    let snap_to = path_join(root, "snapshot.file");
    let mem_from = path_join(from, "mem.file");
    let mem_to = path_join(root, "mem.file");
    if s.use_jailer {
        let uid: u32 = s.jailer_uid_base + tap_idx;
        let id = jail_id_of(child);
        p.need(Action::Spawn(jailer_command(s, id.as_str(), uid), log));
        p.attempt(Action::WaitFor(text(root), 4));
        p.attempt(Action::CopyFile(snap_from, snap_to));
        p.attempt(Action::Run(reflink_command(mem_from.as_str(), mem_to.as_str())));
        let disk_from = path_join(from, "rootfs.ext4");
        let disk_to = path_join(root, "rootfs.ext4");
        p.attempt(Action::Run(reflink_command(disk_from.as_str(), disk_to.as_str())));
        p.attempt(Action::Run(argv4("chown", "-R", owner_of(uid).as_str(), root)));
        p.attempt(Action::WaitFor(sock, 4));
    } else {
        p.attempt(Action::CopyFile(snap_from, snap_to));
        p.attempt(Action::Run(reflink_command(mem_from.as_str(), mem_to.as_str())));
        let disk_from = path_join(from, "overlay.ext4");
        let disk_to = path_join(root, "overlay.ext4");
        p.only_if(Action::RequireFile(disk_from.clone()), 1);
        p.attempt(Action::Run(reflink_command(disk_from.as_str(), disk_to.as_str())));
        p.attempt(Action::RemoveFile(sock.clone()));
        p.need(Action::Spawn(direct_command(s, sock.as_str()), log));
        p.attempt(Action::WaitFor(sock, 4));
    }
    assert(p@ =~= start + fork_launch(*s, from@, child@, tap_idx));
}

impl FirecrackerRuntime {
    /// Begin to fork a running VM.
    pub fn begin_fork(&self, parent_handle: &str, child_spec: &VmSpec) -> (r: Result<
        ForkTicket,
        String,
    >)
        ensures
            (match r {
                Ok(_) => None,
                Err(m) => Some(m@),
            }) == fork_refusal(*self, parent_handle@),
            r matches Ok(t) ==> {
                let rec = self.vms@[parent_handle@];
                &&& t.plan@ == fork_prelude(
                    self.settings,
                    rec.api_sock@,
                    handle_text(child_spec.sandbox_id@),
                )
                &&& t.from@ == home(rec.api_sock@)
                &&& t.image_key@ == rec.image_key@
            },
    {
        match self.vms.get(parent_handle) {
            None => Err(concat2("unknown parent vm ", parent_handle)),
            Some(rec) => {
                if rec.has_secrets {
                    return Err(
                        text(
                            "cannot fork a sandbox with resident secrets; they would be copied into the child",
                        ),
                    );
                }
                let s = &self.settings;
                if s.copies_refused() {
                    return Err(text(NO_REFLINK));
                }
                let sock = rec.api_sock.as_str();
                let child = handle_of(child_spec.sandbox_id.as_str());
                let mut plan = PlanBuilder::new();
                plan.attempt(Action::StartClock);
                add_snapshot(&mut plan, s, sock, home_of(sock).as_str(), false);
                plan.need(
                    Action::Api(
                        text(sock),
                        text("PATCH"),
                        text("/vm"),
                        ApiBody::Vm { state: text("Resumed") },
                        10,
                    ),
                );
                add_dirs(&mut plan, s, child.as_str());
                assert(plan@ =~= fork_prelude(*s, sock@, child@));
                Ok(ForkTicket { plan, from: home_of(sock), image_key: rec.image_key.clone() })
            },
        }
    }

    /// Bring up the child of a fork, once the parent's snapshot, the child's
    /// directories and its tap are there. Refused where memory and disk would have to
    /// be copied in full and must not be.
    pub fn fork(
        &self,
        from: &str,
        image_key: &str,
        child_spec: &VmSpec,
        tap_idx: u32,
        cid: u32,
    ) -> (r: Result<Launch, String>)
        requires
            tap_idx <= u32::MAX - 2,
            self.settings.use_jailer ==> self.settings.jailer_uid_base + tap_idx <= u32::MAX,
        ensures
            (match r {
                Ok(_) => None,
                Err(m) => Some(m@),
            }) == copy_refusal(self.settings),
            r matches Ok(l) ==> {
                &&& l.handle@ == handle_text(child_spec.sandbox_id@)
                &&& l.plan@ == fork_steps(self.settings, from@, l.handle@, tap_idx)
                &&& l.pid is None
                &&& l.record@ == jailed_record(
                    child_root(self.settings, l.handle@),
                    image_key@,
                    cid,
                    tap_idx,
                )
            },
    {
        let s = &self.settings;
        if s.copies_refused() {
            return Err(text(NO_REFLINK));
        }
        let child = handle_of(child_spec.sandbox_id.as_str());
        let root = if s.use_jailer {
            s.chroot_root_of(jail_id_of(child.as_str()).as_str())
        } else {
            s.jail_dir(child.as_str())
        };
        let mut plan = PlanBuilder::new();
        add_fork_launch(&mut plan, s, from, child.as_str(), root.as_str(), tap_idx);
        let sock = path_join(root.as_str(), "api.sock");
        let warm = path_join(home_of(sock.as_str()).as_str(), "mem.file");
        add_prewarm(&mut plan, s, warm.as_str());
        let snapshot = in_jail(s, root.as_str(), "snapshot.file");
        let mem = in_jail(s, root.as_str(), "mem.file");
        plan.need(
            load(
                sock.as_str(),
                snapshot.as_str(),
                mem.as_str(),
                Some(tap_name(tap_idx).as_str()),
            ),
        );
        plan.attempt(Action::Record);
        plan.need(Action::AwaitAgent(10));
        plan.attempt(
            Action::Agent(
                AgentRequest::Exec {
                    cmd: readdress_command(guest_ip(tap_idx).as_str()),
                    background: false,
                },
            ),
        );
        assert(plan@ =~= fork_steps(*s, from@, child@, tap_idx));
        let record = new_record(root.as_str(), image_key, cid, tap_idx);
        Ok(Launch { handle: child, plan, pid: None, record })
    }
}

// ---------------------------------------------------------------------------
// Laws
// ---------------------------------------------------------------------------

/// A step that calls Firecracker's API.
pub open spec fn calls_api(step: StepView) -> bool {
    step.action is Api
}

/// Nothing is told to the fresh Firecracker before the snapshot is loaded.
pub open spec fn loads_first(steps: Seq<StepView>, load: Action<Seq<char>, Seq<Seq<char>>>) -> bool {
    exists|k: int|
        0 <= k < steps.len() && (#[trigger] steps[k]).action == load && forall|i: int|
            0 <= i < k ==> !calls_api(#[trigger] steps[i])
}

proof fn lemma_quiet_volumes(v: Seq<StageView>, n: int, root: Seq<char>, i: int)
    requires
        0 <= n <= v.len(),
        0 <= i < relink_volumes(v, n, root).len(),
    ensures
        !calls_api(relink_volumes(v, n, root)[i]),
    decreases n,
{
    if n > 0 {
        let before = relink_volumes(v, n - 1, root);
        if i < before.len() {
            lemma_quiet_volumes(v, n - 1, root, i);
            assert(relink_volumes(v, n, root)[i] == before[i]);
        }
    }
}

/// A VM that comes up from the golden snapshot, a parked VM that is brought back
/// and a forked child are each told to load their snapshot before anything else:
/// a Firecracker that has a device configured refuses to load.
pub proof fn law_snapshot_is_loaded_first(
    s: Settings,
    spec: VmSpec,
    rec: RecordView,
    handle: Seq<char>,
    pooled: Option<PooledJail>,
    n: u32,
    tap_idx: u32,
)
    ensures
        ({
            let root = jail_root(s, pooled, jail_id(handle_text(spec.sandbox_id@)));
            loads_first(
                golden_start(s, spec, pooled, tap_idx) + golden_rest(
                    s,
                    spec,
                    root,
                    jail_uid(s, pooled, tap_idx),
                    tap_idx,
                ),
                load_action(
                    under(root, "api.sock"@),
                    "golden-snapshot.file"@,
                    "golden-mem.file"@,
                    Some(tap_text(tap_idx)),
                ),
            )
        }),
        loads_first(
            jailed_restore(s, rec, handle, pooled, n),
            load_action(
                under(jail_root(s, pooled, restore_id(handle, n)), "api.sock"@),
                "snapshot.file"@,
                "mem.file"@,
                None,
            ),
        ),
        loads_first(
            direct_restore(s, rec),
            load_action(
                rec.api_sock,
                under(home(rec.api_sock), "snapshot.file"@),
                under(home(rec.api_sock), "mem.file"@),
                None,
            ),
        ),
        ({
            let root = child_root(s, handle);
            loads_first(
                fork_steps(s, home(rec.api_sock), handle, tap_idx),
                load_action(
                    under(root, "api.sock"@),
                    if s.use_jailer {
                        "snapshot.file"@
                    } else {
                        under(root, "snapshot.file"@)
                    },
                    if s.use_jailer {
                        "mem.file"@
                    } else {
                        under(root, "mem.file"@)
                    },
                    Some(tap_text(tap_idx)),
                ),
            )
        }),
{
    // The golden snapshot.
    let root = jail_root(s, pooled, jail_id(handle_text(spec.sandbox_id@)));
    let uid = jail_uid(s, pooled, tap_idx);
    let g = golden_start(s, spec, pooled, tap_idx) + golden_rest(s, spec, root, uid, tap_idx);
    let gk = g.len() - 3;
    assert(g[gk].action == load_action(
        under(root, "api.sock"@),
        "golden-snapshot.file"@,
        "golden-mem.file"@,
        Some(tap_text(tap_idx)),
    ));
    // A restore under the jailer.
    let jroot = jail_root(s, pooled, restore_id(handle, n));
    let start = restore_start(s, rec, handle, pooled, n);
    let staged = restage(s, rec, jroot, jail_uid(s, pooled, tap_or_zero(rec.tap_idx)));
    let j = jailed_restore(s, rec, handle, pooled, n);
    let jk = j.len() - 3;
    assert(j[jk].action == load_action(
        under(jroot, "api.sock"@),
        "snapshot.file"@,
        "mem.file"@,
        None,
    ));
    assert forall|i: int| 0 <= i < staged.len() implies !calls_api(#[trigger] staged[i]) by {
        let links = relink_volumes(rec.volumes, rec.volumes.len() as int, jroot);
        if 9 <= i < 9 + links.len() {
            lemma_quiet_volumes(rec.volumes, rec.volumes.len() as int, jroot, i - 9);
            assert(staged[i] == links[i - 9]);
        }
    }
    assert forall|i: int| 0 <= i < jk implies !calls_api(#[trigger] j[i]) by {
        let a = start.len() as int;
        let b = a + staged.len();
        if i < a {
            assert(j[i] == start[i]);
        } else if i < b {
            assert(j[i] == staged[i - a]);
        }
    }
    // A forked child.
    let f = fork_steps(s, home(rec.api_sock), handle, tap_idx);
    let fk = f.len() - 4;
    assert(f[fk].action is Api);
    // A restore without it.
    let d = direct_restore(s, rec);
    let dk = d.len() - 3;
    assert(d[dk].action == load_action(
        rec.api_sock,
        under(home(rec.api_sock), "snapshot.file"@),
        under(home(rec.api_sock), "mem.file"@),
        None,
    ));
}

/// The golden artifacts are staged under names that no snapshot of the VM
/// itself is ever written to.
pub proof fn law_golden_artifacts_are_not_overwritten(root: Seq<char>, name: Seq<char>)
    requires
        name == "snapshot.file"@ || name == "mem.file"@,
    ensures
        under(root, "golden-snapshot.file"@) != under(root, name),
        under(root, "golden-mem.file"@) != under(root, name),
{
    reveal_strlit("snapshot.file");
    reveal_strlit("mem.file");
    reveal_strlit("golden-snapshot.file");
    reveal_strlit("golden-mem.file");
    reveal_strlit("/");
    assert(under(root, "golden-snapshot.file"@).len() != under(root, name).len());
    assert(under(root, "golden-mem.file"@).len() != under(root, name).len());
}

/// From the moment a VM from the golden snapshot is in the table, whatever fails
/// leads to its being reclaimed.
pub proof fn law_failed_golden_boot_is_reclaimed(
    s: Settings,
    spec: VmSpec,
    root: Seq<char>,
    uid: int,
    tap_idx: u32,
)
    ensures
        golden_rest(s, spec, root, uid, tap_idx)[0].action == Action::<
            Seq<char>,
            Seq<Seq<char>>,
        >::Record,
        reclaims_from(golden_rest(s, spec, root, uid, tap_idx), 0),
{
}

/// Where full copies are refused and blocks are not shared, nothing is forked, and no
/// VM is given a disk of its own, be it booted cold or from the golden snapshot: a
/// root disk that a boot does stage is linked.
pub proof fn law_no_full_copy(s: Settings, spec: VmSpec, rt: FirecrackerRuntime, tap_idx: u32, handle: Seq<char>)
    requires
        s.require_reflink,
        !s.shares_blocks,
        rt.settings == s,
    ensures
        fork_refusal(rt, handle) is Some,
        !s.shares(spec.image_key@) ==> s.disk_refusal(spec.image_key@) is Some,
        s.shares(spec.image_key@) ==> jailed_launch(s, spec, tap_idx)[4].action
            == Action::<Seq<char>, Seq<Seq<char>>>::HardLink(
            s.rootfs(spec.image_key@, spec.image_ref@),
            under(s.chroot_root(jail_id(handle_text(spec.sandbox_id@))), "rootfs.ext4"@),
        ),
{
}

/// A pooled jailer never runs as the user of a VM with one of the first ninety
/// thousand taps.
pub proof fn law_pool_users_are_apart(s: Settings, n: u32, tap_idx: u32)
    requires
        tap_idx < 90_000,
    ensures
        pool_uid(s, n) != s.jailer_uid_base + tap_idx,
{
}

} // verus!
