//! Snapshots, and what is made of them: a VM that is parked and brought back, a fork,
//! a VM from the golden snapshot. And what is left of a VM that is deleted.

use crate::laws::boots::{asks, asks_at, has_step, insists_on, must_succeed};
use crate::numeral::decimal;
use crate::paths::under;
use crate::model::BootPath;
use crate::runtime::firecracker::{FirecrackerRuntime, PooledJail};
use crate::runtime::parking::{
    balloon_plan, choose_boot_path, delete_steps, golden_spec, parked, publish_steps, reclaim_steps,
    standby_plan, standby_steps, state_step,
};
use crate::runtime::plan::{Action, AgentRequest, ApiBody, PlanBuilder, StepView};
use crate::runtime::siblings::{
    direct_restore, fork_prelude, fork_refusal, fork_steps, golden_rest, home, jail_root, jail_uid,
    jailed_record, jailed_restore, relink_volumes, reload, restage, restore_id, restore_start,
    restored, retap_steps, tap_or_zero, ForkTicket,
};
use crate::runtime::steps::readdress;
use crate::runtime::vm::{handle_text, ip_text, jail_id, RecordView, Settings, StageView};
use crate::runtime::VmSpec;
use vstd::prelude::*;
use vstd::string::*;

verus! {

/// The step sets the state of the VM behind a socket.
pub open spec fn sets_state(step: StepView, sock: Seq<char>, state: Seq<char>) -> bool {
    asks(step, sock, "PATCH"@, "/vm"@, ApiBody::Vm { state })
}

/// The plan leaves the VM behind a socket in a state: the last step that sets its
/// state sets this one, and is insisted on.
pub open spec fn leaves_in_state(steps: Seq<StepView>, sock: Seq<char>, state: Seq<char>) -> bool {
    exists|k: int|
        0 <= k < steps.len() && sets_state(#[trigger] steps[k], sock, state) && must_succeed(
            steps[k],
        ) && forall|i: int|
            k < i < steps.len() ==> !asks_at(#[trigger] steps[i], sock, "PATCH"@, "/vm"@)
}

/// The step writes a snapshot of the VM behind a socket: all of its memory, or what
/// changed, into these files.
pub open spec fn writes_snapshot(
    step: StepView,
    sock: Seq<char>,
    kind: Seq<char>,
    snapshot: Seq<char>,
    mem: Seq<char>,
) -> bool {
    &&& asks(
        step,
        sock,
        "PUT"@,
        "/snapshot/create"@,
        ApiBody::SnapshotCreate { snapshot_type: kind, snapshot_path: snapshot, mem_file_path: mem },
    )
    &&& must_succeed(step)
}

/// The plan writes a snapshot of a VM while the VM is paused, and not before.
pub open spec fn snapshots_paused(
    steps: Seq<StepView>,
    k: int,
    sock: Seq<char>,
    kind: Seq<char>,
    snapshot: Seq<char>,
    mem: Seq<char>,
) -> bool {
    &&& 0 < k < steps.len()
    &&& writes_snapshot(steps[k], sock, kind, snapshot, mem)
    &&& sets_state(steps[k - 1], sock, "Paused"@)
    &&& must_succeed(steps[k - 1])
}

/// A file of the VM's home as Firecracker sees it, which under the jailer sees its
/// own root.
pub open spec fn seen_file(s: Settings, dir: Seq<char>, name: Seq<char>) -> Seq<char> {
    if s.use_jailer {
        name
    } else {
        under(dir, name)
    }
}

/// The step loads a snapshot into the Firecracker behind a socket and lets the guest
/// run, on this tap or on the one that the snapshot names.
pub open spec fn loads(
    step: StepView,
    sock: Seq<char>,
    snapshot: Seq<char>,
    mem: Seq<char>,
    tap: Option<Seq<char>>,
) -> bool {
    &&& must_succeed(step)
    &&& asks(
        step,
        sock,
        "PUT"@,
        "/snapshot/load"@,
        ApiBody::SnapshotLoad {
            snapshot_path: snapshot,
            backend_path: mem,
            backend_type: "File"@,
            enable_diff_snapshots: true,
            network_override: match tap {
                Some(t) => Some(("eth0"@, t)),
                None => None,
            },
            resume_vm: true,
        },
    )
}

// ---------------------------------------------------------------------------
// Forks
// ---------------------------------------------------------------------------

/// A fork leaves its parent running: the parent is paused, all of its memory is
/// written, and then, as the last that is asked of it, it is told to run on.
pub proof fn law_fork_leaves_the_parent_running(s: Settings, parent: Seq<char>, child: Seq<char>)
    ensures
        leaves_in_state(fork_prelude(s, parent, child), parent, "Resumed"@),
        ({
            let steps = fork_prelude(s, parent, child);
            let dir = home(parent);
            &&& snapshots_paused(
                steps,
                2,
                parent,
                "Full"@,
                seen_file(s, dir, "snapshot.file"@),
                seen_file(s, dir, "mem.file"@),
            )
            &&& sets_state(steps[3], parent, "Resumed"@)
            &&& must_succeed(steps[3])
            &&& forall|i: int|
                0 <= i < steps.len() && (#[trigger] steps[i]).action is Api ==> 1 <= i <= 3
                    && steps[i].action->Api_0 == parent
        }),
{
    reveal_strlit("/vm");
    reveal_strlit("/snapshot/create");
    let steps = fork_prelude(s, parent, child);
    assert(sets_state(steps[3], parent, "Resumed"@));
    assert(steps.len() == 6);
}

/// A forked child runs on copies of what its parent wrote, so that neither sees the
/// other's changes, on a tap of its own and under an address of its own; nothing is
/// asked of any VM but the child.
pub proof fn law_child_runs_on_its_own_copy(
    s: Settings,
    from: Seq<char>,
    child: Seq<char>,
    tap_idx: u32,
)
    ensures
        ({
            let steps = fork_steps(s, from, child, tap_idx);
            let root = if s.use_jailer {
                s.chroot_root(jail_id(child))
            } else {
                s.jail(child)
            };
            let sock = under(root, "api.sock"@);
            let n = steps.len() as int;
            &&& n >= 4
            &&& has_step(
                steps,
                Action::CopyFile(under(from, "snapshot.file"@), under(root, "snapshot.file"@)),
            )
            &&& has_step(
                steps,
                Action::Run(
                    seq![
                        "cp"@,
                        "--reflink=auto"@,
                        under(from, "mem.file"@),
                        under(root, "mem.file"@),
                    ],
                ),
            )
            &&& s.use_jailer ==> has_step(
                steps,
                Action::Run(
                    seq![
                        "cp"@,
                        "--reflink=auto"@,
                        under(from, "rootfs.ext4"@),
                        under(root, "rootfs.ext4"@),
                    ],
                ),
            )
            &&& !s.use_jailer ==> has_step(
                steps,
                Action::Run(
                    seq![
                        "cp"@,
                        "--reflink=auto"@,
                        under(from, "overlay.ext4"@),
                        under(root, "overlay.ext4"@),
                    ],
                ),
            )
            &&& loads(
                steps[n - 4],
                sock,
                seen_file(s, root, "snapshot.file"@),
                seen_file(s, root, "mem.file"@),
                Some("wdtap"@ + decimal(tap_idx as nat)),
            )
            &&& forall|i: int|
                0 <= i < n && i != n - 4 ==> !((#[trigger] steps[i]).action is Api)
            &&& steps[n - 3].action is Record
            &&& steps[n - 2].action is AwaitAgent && must_succeed(steps[n - 2])
            &&& steps[n - 1].action == Action::<Seq<char>, Seq<Seq<char>>>::Agent(
                AgentRequest::Exec { cmd: readdress(ip_text(tap_idx)), background: false },
            )
        }),
{
    let steps = fork_steps(s, from, child, tap_idx);
    if s.use_jailer {
        assert(steps[2].action is CopyFile);
        assert(steps[3].action is Run);
        assert(steps[4].action is Run);
    } else {
        assert(steps[0].action is CopyFile);
        assert(steps[1].action is Run);
        assert(steps[3].action is Run);
    }
}

/// A VM can be forked if it is there, holds no secrets, and copies are not refused.
pub proof fn law_who_can_be_forked(rt: FirecrackerRuntime, handle: Seq<char>)
    ensures
        fork_refusal(rt, handle) is None <==> rt.vms@.contains_key(handle)
            && !rt.vms@[handle].has_secrets && !(rt.settings.require_reflink
            && !rt.settings.shares_blocks),
{
}

/// The guest command that gives a sibling its own address sets that address and
/// nothing but that, and the way out through the gateway.
pub proof fn law_sibling_is_readdressed(ip: Seq<char>)
    ensures
        readdress(ip) == "ip addr flush dev eth0 2>/dev/null; ip addr add "@ + ip
            + "/16 dev eth0 2>/dev/null; ip link set eth0 up 2>/dev/null; ip route replace default via "@
            + "10.200.0.1"@ + " dev eth0 2>/dev/null; true"@,
{
}

// ---------------------------------------------------------------------------
// Parking
// ---------------------------------------------------------------------------

/// A parked VM has its memory on disk before its process is killed and its tap is
/// removed: all of it the first time, what changed later on. It stays paused, and
/// nothing is asked of it afterwards.
pub proof fn law_parking_writes_before_it_kills(s: Settings, rec: RecordView)
    ensures
        ({
            let steps = standby_steps(s, rec);
            let dir = home(rec.api_sock);
            &&& snapshots_paused(
                steps,
                2,
                rec.api_sock,
                if rec.snapshotted {
                    "Diff"@
                } else {
                    "Full"@
                },
                seen_file(s, dir, "snapshot.file"@),
                seen_file(s, dir, "mem.file"@),
            )
            &&& leaves_in_state(steps, rec.api_sock, "Paused"@)
            &&& rec.pid matches Some(p) ==> steps[3].action == Action::<
                Seq<char>,
                Seq<Seq<char>>,
            >::Run(seq!["kill"@, "-9"@, decimal(p as nat)])
            &&& rec.tap matches Some(t) ==> exists|k: int|
                3 <= k < steps.len() && (#[trigger] steps[k]).action == Action::<
                    Seq<char>,
                    Seq<Seq<char>>,
                >::RunChecked(seq!["ip"@, "link"@, "del"@, t])
            &&& steps.last().action is Record
            &&& forall|i: int| 3 <= i < steps.len() ==> !((#[trigger] steps[i]).action is Api)
        }),
        parked(rec).standby && parked(rec).snapshotted && parked(rec).pid is None,
        parked(rec).tap_idx == rec.tap_idx && parked(rec).api_sock == rec.api_sock
            && parked(rec).image_key == rec.image_key && parked(rec).volumes == rec.volumes
            && parked(rec).resident_env == rec.resident_env && parked(rec).cid == rec.cid,
{
    reveal_strlit("/vm");
    reveal_strlit("/snapshot/create");
    let steps = standby_steps(s, rec);
    assert(sets_state(steps[1], rec.api_sock, "Paused"@));
    assert("/vm"@.len() != "/snapshot/create"@.len());
    if rec.tap is Some {
        let k = if rec.pid is Some {
            4int
        } else {
            3int
        };
        assert(steps[k].action is RunChecked);
    }
}

/// Only a VM that is there and holds no secrets is parked.
pub proof fn law_who_can_be_parked(rt: FirecrackerRuntime, handle: Seq<char>)
    ensures
        standby_plan(rt, handle) is Ok <==> rt.vms@.contains_key(handle)
            && !rt.vms@[handle].has_secrets,
        standby_plan(rt, handle) matches Ok(steps) ==> steps == standby_steps(
            rt.settings,
            rt.vms@[handle]@,
        ),
{
}

/// A parked VM is brought back from the very files that parking wrote. Without the
/// jailer they are loaded where they are, by a Firecracker that is started for them
/// at the socket that the record keeps.
pub proof fn law_restore_loads_what_was_parked(s: Settings, rec: RecordView)
    requires
        !s.use_jailer,
    ensures
        ({
            let out = standby_steps(s, rec);
            let back = direct_restore(s, parked(rec));
            let n = back.len() as int;
            exists|kind: Seq<char>, snapshot: Seq<char>, mem: Seq<char>|
                #[trigger] writes_snapshot(out[2], rec.api_sock, kind, snapshot, mem) && loads(
                    back[n - 3],
                    rec.api_sock,
                    snapshot,
                    mem,
                    None,
                ) && n >= 3
        }),
        ({
            let back = direct_restore(s, parked(rec));
            let n = back.len() as int;
            &&& back[2].action matches Action::Spawn(argv, _) && argv.len() >= 3 && argv[0]
                == s.firecracker_bin@ && argv[1] == "--api-sock"@ && argv[2] == rec.api_sock
            &&& must_succeed(back[2])
            &&& back[n - 2].action is Record
            &&& back[n - 1].action is AwaitAgent && must_succeed(back[n - 1])
            &&& forall|i: int|
                0 <= i < n && i != n - 3 ==> !((#[trigger] back[i]).action is Api)
        }),
{
    let out = standby_steps(s, rec);
    let back = direct_restore(s, parked(rec));
    let dir = home(rec.api_sock);
    assert(writes_snapshot(
        out[2],
        rec.api_sock,
        if rec.snapshotted {
            "Diff"@
        } else {
            "Full"@
        },
        under(dir, "snapshot.file"@),
        under(dir, "mem.file"@),
    ));
    let n = back.len() as int;
    assert(loads(
        back[n - 3],
        rec.api_sock,
        under(dir, "snapshot.file"@),
        under(dir, "mem.file"@),
        None,
    ));
}

/// Under the jailer a parked VM is brought back in a fresh chroot: snapshot, memory
/// and disk are brought there from the chroot that it was parked in, its volumes are
/// linked in again, and the snapshot that lies there is loaded.
pub proof fn law_jailed_restore_brings_everything(
    s: Settings,
    rec: RecordView,
    handle: Seq<char>,
    pooled: Option<PooledJail>,
    n: u32,
)
    ensures
        ({
            let steps = jailed_restore(s, rec, handle, pooled, n);
            let root = match pooled {
                Some(p) => s.chroot_root(p.jail_id@),
                None => s.chroot_root(restore_id(handle, n)),
            };
            let from = home(rec.api_sock);
            let m = steps.len() as int;
            &&& m >= 3
            &&& has_step(
                steps,
                Action::HardLink(under(from, "snapshot.file"@), under(root, "snapshot.file"@)),
            )
            &&& has_step(
                steps,
                Action::HardLink(under(from, "mem.file"@), under(root, "mem.file"@)),
            )
            &&& has_step(
                steps,
                Action::HardLink(under(from, "rootfs.ext4"@), under(root, "rootfs.ext4"@)),
            )
            &&& insists_on(
                steps,
                Action::CopyFile(under(from, "snapshot.file"@), under(root, "snapshot.file"@)),
            )
            &&& insists_on(
                steps,
                Action::CopyFile(under(from, "mem.file"@), under(root, "mem.file"@)),
            )
            &&& insists_on(
                steps,
                Action::CopyFile(under(from, "rootfs.ext4"@), under(root, "rootfs.ext4"@)),
            )
            &&& forall|i: int|
                0 <= i < rec.volumes.len() ==> insists_on(
                    steps,
                    Action::HardLink(
                        (#[trigger] rec.volumes[i]).host_path,
                        under(root, rec.volumes[i].file),
                    ),
                )
            &&& loads(
                steps[m - 3],
                under(root, "api.sock"@),
                "snapshot.file"@,
                "mem.file"@,
                None,
            )
            &&& steps[m - 2].action is Record
            &&& steps[m - 1].action is AwaitAgent && must_succeed(steps[m - 1])
        }),
{
    let steps = jailed_restore(s, rec, handle, pooled, n);
    let root = jail_root(s, pooled, restore_id(handle, n));
    let start = restore_start(s, rec, handle, pooled, n);
    let a = start.len() as int;
    let staged = restage(s, rec, root, jail_uid(s, pooled, tap_or_zero(rec.tap_idx)));
    let links = relink_volumes(rec.volumes, rec.volumes.len() as int, root);
    let end = reload(
        s,
        under(root, "api.sock"@),
        "snapshot.file"@,
        "mem.file"@,
        under(root, "mem.file"@),
        15,
    );
    let m = steps.len() as int;
    assert(steps.subrange(m - end.len(), m) =~= end);
    assert(steps[m - 3] == end[end.len() - 3]);
    assert(steps[m - 2] == end[end.len() - 2]);
    assert(steps[m - 1] == end[end.len() - 1]);
    assert forall|i: int| 0 <= i < staged.len() implies #[trigger] steps[a + i] == staged[i] by {}
    assert(steps[a + 1] == staged[1]);
    assert(steps[a + 2] == staged[2]);
    assert(steps[a + 4] == staged[4]);
    assert(steps[a + 5] == staged[5]);
    assert(steps[a + 7] == staged[7]);
    assert(steps[a + 8] == staged[8]);
    assert forall|i: int| 0 <= i < rec.volumes.len() implies insists_on(
        steps,
        Action::HardLink(
            (#[trigger] rec.volumes[i]).host_path,
            under(root, rec.volumes[i].file),
        ),
    ) by {
        lemma_relinked(rec.volumes, rec.volumes.len() as int, root, i);
        assert(staged[9 + 2 * i + 1] == links[2 * i + 1]);
        assert(steps[a + (9 + 2 * i + 1)] == staged[9 + 2 * i + 1]);
    }
}

proof fn lemma_relinked(v: Seq<StageView>, n: int, root: Seq<char>, i: int)
    requires
        0 <= i < n <= v.len(),
    ensures
        relink_volumes(v, n, root).len() == 2 * n,
        relink_volumes(v, n, root)[2 * i + 1].action == Action::<Seq<char>, Seq<Seq<char>>>::HardLink(
            v[i].host_path,
            under(root, v[i].file),
        ),
        must_succeed(relink_volumes(v, n, root)[2 * i + 1]),
    decreases n,
{
    lemma_relinks_len(v, n - 1, root);
    if i < n - 1 {
        lemma_relinked(v, n - 1, root, i);
        assert(relink_volumes(v, n, root)[2 * i + 1] == relink_volumes(v, n - 1, root)[2 * i + 1]);
    }
}

proof fn lemma_relinks_len(v: Seq<StageView>, n: int, root: Seq<char>)
    requires
        0 <= n <= v.len(),
    ensures
        relink_volumes(v, n, root).len() == 2 * n,
    decreases n,
{
    if n > 0 {
        lemma_relinks_len(v, n - 1, root);
    }
}

/// A VM that is back is no longer parked, keeps its tap and with it its address, its
/// environment and its volumes, and is found at its new sockets.
pub proof fn law_restored_vm_is_itself(
    rec: RecordView,
    sockets: Option<(Seq<char>, Seq<char>)>,
    pid: Option<u32>,
)
    ensures
        ({
            let back = restored(rec, sockets, pid);
            &&& !back.standby
            &&& back.pid == pid
            &&& back.tap == rec.tap && back.tap_idx == rec.tap_idx
            &&& rec.tap_idx matches Some(i) ==> back.guest_ip == Some(ip_text(i))
            &&& back.resident_env == rec.resident_env && back.has_secrets == rec.has_secrets
            &&& back.volumes == rec.volumes && back.image_key == rec.image_key
            &&& back.cid == rec.cid && back.snapshotted == rec.snapshotted
            &&& sockets matches Some((api, uds)) ==> back.api_sock == api && back.vsock_uds == uds
            &&& sockets is None ==> back.api_sock == rec.api_sock && back.vsock_uds
                == rec.vsock_uds
        }),
{
}

/// A tap that is gone is created again under its name; one that is there is kept.
pub proof fn law_tap_is_recreated(tap: Seq<char>)
    ensures
        ({
            let steps = retap_steps(Some(tap));
            &&& steps.len() == 6
            &&& steps[0].action == Action::<Seq<char>, Seq<Seq<char>>>::RequireDevice(tap)
            &&& steps[0].ok == crate::runtime::plan::Flow::Skip(5)
            &&& steps[0].err == crate::runtime::plan::Flow::Next
            &&& insists_on(
                steps,
                Action::RunChecked(seq!["ip"@, "tuntap"@, "add"@, tap, "mode"@, "tap"@]),
            )
            &&& insists_on(
                steps,
                Action::RunChecked(seq!["ip"@, "link"@, "set"@, tap, "master"@, "wdbr0"@]),
            )
            &&& insists_on(
                steps,
                Action::RunChecked(
                    seq!["ip"@, "link"@, "set"@, tap, "type"@, "bridge_slave"@, "isolated"@, "on"@],
                ),
            )
            &&& insists_on(steps, Action::RunChecked(seq!["ip"@, "link"@, "set"@, tap, "up"@]))
        }),
{
    let steps = retap_steps(Some(tap));
    assert(must_succeed(steps[2]));
    assert(must_succeed(steps[3]));
    assert(must_succeed(steps[4]));
    assert(must_succeed(steps[5]));
}

/// Pausing, resuming and ballooning ask the VM's own socket for just that.
pub proof fn law_state_changes(rt: FirecrackerRuntime, handle: Seq<char>, sock: Seq<char>, mib: u32)
    ensures
        sets_state(state_step(sock, "Paused"@), sock, "Paused"@),
        sets_state(state_step(sock, "Resumed"@), sock, "Resumed"@),
        must_succeed(state_step(sock, "Paused"@)),
        balloon_plan(rt, handle, mib) is Ok <==> rt.settings.balloon && rt.vms@.contains_key(handle)
            && !rt.vms@[handle].standby,
        balloon_plan(rt, handle, mib) matches Ok(steps) ==> steps.len() == 1 && asks(
            steps[0],
            rt.vms@[handle].api_sock@,
            "PATCH"@,
            "/balloon"@,
            ApiBody::BalloonTarget { amount_mib: mib },
        ),
{
}

// ---------------------------------------------------------------------------
// Golden snapshots
// ---------------------------------------------------------------------------

/// A golden snapshot is written while its VM is paused, in full, and what is
/// published is what was written: the disk unless it is shared, the memory, and the
/// snapshot, under the image and the memory size.
pub proof fn law_golden_snapshot_is_published(
    s: Settings,
    sock: Seq<char>,
    key: Seq<char>,
    mb: u32,
)
    ensures
        ({
            let steps = publish_steps(s, sock, key, mb);
            let from = home(sock);
            let dir = s.golden(key, mb);
            &&& snapshots_paused(
                steps,
                1,
                sock,
                "Full"@,
                seen_file(s, from, "snapshot.file"@),
                seen_file(s, from, "mem.file"@),
            )
            &&& insists_on(
                steps,
                Action::RunChecked(
                    seq![
                        "cp"@,
                        "--reflink=auto"@,
                        under(from, "snapshot.file"@),
                        under(dir, "snapshot.file"@),
                    ],
                ),
            )
            &&& insists_on(
                steps,
                Action::RunChecked(
                    seq!["cp"@, "--reflink=auto"@, under(from, "mem.file"@), under(dir, "mem.file"@)],
                ),
            )
            &&& !s.shares(key) ==> insists_on(
                steps,
                Action::RunChecked(
                    seq![
                        "cp"@,
                        "--reflink=auto"@,
                        under(from, "rootfs.ext4"@),
                        under(dir, "rootfs.ext4"@),
                    ],
                ),
            )
        }),
{
    let steps = publish_steps(s, sock, key, mb);
    let n = steps.len() as int;
    assert(must_succeed(steps[n - 2]));
    assert(must_succeed(steps[n - 5]));
    if !s.shares(key) {
        assert(must_succeed(steps[n - 8]));
    }
}

/// A VM from the golden snapshot loads the artifacts of its image and memory size,
/// staged in its chroot, on a tap of its own, and is then given its own address. Its
/// disk is the shared image, or a copy of the published one.
pub proof fn law_golden_vm_loads_the_artifacts(
    s: Settings,
    spec: VmSpec,
    root: Seq<char>,
    uid: int,
    tap_idx: u32,
)
    ensures
        ({
            let steps = golden_rest(s, spec, root, uid, tap_idx);
            let dir = s.golden(spec.image_key@, spec.resources.memory_mb);
            let n = steps.len() as int;
            &&& n >= 3
            &&& has_step(
                steps,
                Action::HardLink(
                    under(dir, "snapshot.file"@),
                    under(root, "golden-snapshot.file"@),
                ),
            )
            &&& has_step(
                steps,
                Action::HardLink(under(dir, "mem.file"@), under(root, "golden-mem.file"@)),
            )
            &&& insists_on(
                steps,
                Action::CopyFile(
                    under(dir, "snapshot.file"@),
                    under(root, "golden-snapshot.file"@),
                ),
            )
            &&& insists_on(
                steps,
                Action::CopyFile(under(dir, "mem.file"@), under(root, "golden-mem.file"@)),
            )
            &&& s.shares(spec.image_key@) ==> insists_on(
                steps,
                Action::HardLink(
                    s.rootfs(spec.image_key@, spec.image_ref@),
                    under(root, "rootfs.ext4"@),
                ),
            )
            &&& !s.shares(spec.image_key@) ==> insists_on(
                steps,
                Action::RunChecked(
                    seq![
                        "cp"@,
                        "--reflink=auto"@,
                        under(dir, "rootfs.ext4"@),
                        under(root, "rootfs.ext4"@),
                    ],
                ),
            )
            &&& loads(
                steps[n - 3],
                under(root, "api.sock"@),
                "golden-snapshot.file"@,
                "golden-mem.file"@,
                Some("wdtap"@ + decimal(tap_idx as nat)),
            )
            &&& steps[n - 2].action is AwaitAgent && must_succeed(steps[n - 2])
            &&& steps[n - 1].action == Action::<Seq<char>, Seq<Seq<char>>>::Agent(
                AgentRequest::Exec { cmd: readdress(ip_text(tap_idx)), background: false },
            )
        }),
{
    let steps = golden_rest(s, spec, root, uid, tap_idx);
    assert(steps[3].action is HardLink);
    assert(must_succeed(steps[4]));
    assert(steps[6].action is HardLink);
    assert(must_succeed(steps[7]));
    if s.shares(spec.image_key@) {
        assert(must_succeed(steps[9]));
    } else {
        assert(must_succeed(steps[8]));
    }
}

/// What is remembered of a VM that comes up in a chroot: its sockets there, its tap
/// and address by its index, and that it holds nothing yet.
pub proof fn law_sibling_record(root: Seq<char>, key: Seq<char>, cid: u32, tap_idx: u32)
    ensures
        ({
            let rec = jailed_record(root, key, cid, tap_idx);
            &&& rec.api_sock == under(root, "api.sock"@)
            &&& rec.vsock_uds == under(root, rec.vsock_fc)
            &&& rec.cid == cid && rec.image_key == key && rec.tap_idx == Some(tap_idx)
            &&& rec.tap == Some("wdtap"@ + decimal(tap_idx as nat))
            &&& rec.guest_ip == Some(ip_text(tap_idx))
            &&& !rec.has_secrets && !rec.standby && !rec.snapshotted
            &&& rec.volumes.len() == 0 && rec.resident_env.dom() =~= Set::empty()
        }),
{
}

// ---------------------------------------------------------------------------
// The end
// ---------------------------------------------------------------------------

/// Deleting a VM kills its process, removes its tap and removes its workspace, its
/// jail and, under the jailer, its chroot, wherever a restore has moved it.
pub proof fn law_delete_leaves_nothing(s: Settings, handle: Seq<char>, rec: RecordView)
    ensures
        ({
            let steps = delete_steps(s, handle, Some(rec));
            &&& rec.pid matches Some(p) ==> has_step(
                steps,
                Action::Run(seq!["kill"@, "-9"@, decimal(p as nat)]),
            )
            &&& rec.tap matches Some(t) ==> has_step(
                steps,
                Action::RunChecked(seq!["ip"@, "link"@, "del"@, t]),
            )
            &&& has_step(steps, Action::RemoveDir(s.workspace(handle)))
            &&& has_step(steps, Action::RemoveDir(s.jail(handle)))
            &&& s.use_jailer ==> has_step(
                steps,
                Action::RemoveDir(s.chroot_dir(jail_id(handle))),
            )
            &&& s.use_jailer ==> (crate::paths::parent(rec.api_sock) matches Some(root) ==> (
            crate::paths::parent(root) matches Some(c) ==> has_step(steps, Action::RemoveDir(c))))
            &&& forall|i: int|
                0 <= i < steps.len() ==> (#[trigger] steps[i]).ok
                    == crate::runtime::plan::Flow::Next && steps[i].err
                    == crate::runtime::plan::Flow::Next
        }),
        has_step(delete_steps(s, handle, None), Action::RemoveDir(s.workspace(handle))),
        has_step(delete_steps(s, handle, None), Action::RemoveDir(s.jail(handle))),
{
    let steps = delete_steps(s, handle, Some(rec));
    let a = if rec.pid is Some {
        1int
    } else {
        0int
    };
    let b = if rec.tap is Some {
        a + 1
    } else {
        a
    };
    if rec.pid is Some {
        assert(steps[0].action is Run);
    }
    if rec.tap is Some {
        assert(steps[a].action is RunChecked);
    }
    assert(steps[b].action is RemoveDir);
    assert(steps[b + 1].action is RemoveDir);
    if s.use_jailer {
        assert(steps[b + 2].action is RemoveDir);
        if crate::runtime::parking::active_chroot(rec.api_sock) is Some {
            assert(steps[b + 3].action is RemoveDir);
        }
    }
    let none = delete_steps(s, handle, None);
    assert(none[0].action is RemoveDir);
    assert(none[1].action is RemoveDir);
}

/// A VM whose boot failed gives back its process, its tap and its directories.
pub proof fn law_failed_boot_gives_everything_back(
    s: Settings,
    handle: Seq<char>,
    pid: Option<u32>,
    tap: Option<Seq<char>>,
)
    ensures
        ({
            let steps = reclaim_steps(s, handle, pid, tap);
            &&& pid matches Some(p) ==> has_step(
                steps,
                Action::Run(seq!["kill"@, decimal(p as nat)]),
            )
            &&& tap matches Some(t) ==> has_step(
                steps,
                Action::RunChecked(seq!["ip"@, "link"@, "del"@, t]),
            )
            &&& has_step(steps, Action::RemoveDir(s.workspace(handle)))
            &&& has_step(steps, Action::RemoveDir(s.jail(handle)))
            &&& s.use_jailer ==> has_step(
                steps,
                Action::RemoveDir(s.chroot_dir(jail_id(handle))),
            )
        }),
{
    let steps = reclaim_steps(s, handle, pid, tap);
    let a = if pid is Some {
        1int
    } else {
        0int
    };
    let b = if tap is Some {
        a + 1
    } else {
        a
    };
    if pid is Some {
        assert(steps[0].action is Run);
    }
    if tap is Some {
        assert(steps[a].action is RunChecked);
    }
    assert(steps[b].action is RemoveDir);
    if s.use_jailer {
        assert(steps[b + 1].action is RemoveDir);
        assert(steps[b + 2].action is RemoveDir);
    } else {
        assert(steps[b + 1].action is RemoveDir);
    }
}

// ---------------------------------------------------------------------------
// What the functions hand out
// ---------------------------------------------------------------------------

/// A fork of a running VM leaves it running: the plan that is handed out pauses the
/// parent, writes all of it, and resumes it last. Only a VM that is not there, one that
/// holds secrets, and a file system that would have to copy are refused.
pub proof fn law_fork_is_begun(
    rt: FirecrackerRuntime,
    parent: &str,
    child: VmSpec,
    r: Result<ForkTicket, String>,
)
    requires
        call_ensures(FirecrackerRuntime::begin_fork, (&rt, parent, &child), r),
    ensures
        r is Ok <==> rt.vms@.contains_key(parent@) && !rt.vms@[parent@].has_secrets && !(
        rt.settings.require_reflink && !rt.settings.shares_blocks),
        r matches Ok(t) ==> {
            let sock = rt.vms@[parent@].api_sock@;
            &&& leaves_in_state(t.plan@, sock, "Resumed"@)
            &&& snapshots_paused(
                t.plan@,
                2,
                sock,
                "Full"@,
                seen_file(rt.settings, t.from@, "snapshot.file"@),
                seen_file(rt.settings, t.from@, "mem.file"@),
            )
            &&& t.from@ == home(sock)
            &&& t.image_key@ == rt.vms@[parent@].image_key@
        },
{
    law_fork_leaves_the_parent_running(
        rt.settings,
        rt.vms@[parent@].api_sock@,
        handle_text(child.sandbox_id@),
    );
}

/// Pausing a VM pauses it, resuming it resumes it, a snapshot writes all of it while it
/// is paused, and parking it does what parking is for; each fails for a VM that is not
/// there.
pub proof fn law_vm_operations(
    rt: FirecrackerRuntime,
    handle: &str,
    pause: Result<PlanBuilder, String>,
    resume: Result<PlanBuilder, String>,
    snapshot: Result<PlanBuilder, String>,
    standby: Result<PlanBuilder, String>,
    back: Result<PlanBuilder, String>,
)
    requires
        call_ensures(FirecrackerRuntime::pause, (&rt, handle), pause),
        call_ensures(FirecrackerRuntime::resume, (&rt, handle), resume),
        call_ensures(FirecrackerRuntime::snapshot, (&rt, handle), snapshot),
        call_ensures(FirecrackerRuntime::standby, (&rt, handle), standby),
        call_ensures(FirecrackerRuntime::begin_restore, (&rt, handle), back),
    ensures
        !rt.vms@.contains_key(handle@) ==> pause is Err && resume is Err && snapshot is Err
            && standby is Err && back is Err,
        rt.vms@.contains_key(handle@) ==> {
            let rec = rt.vms@[handle@]@;
            let dir = home(rec.api_sock);
            &&& pause matches Ok(p) && leaves_in_state(p@, rec.api_sock, "Paused"@)
            &&& resume matches Ok(p) && leaves_in_state(p@, rec.api_sock, "Resumed"@)
            &&& snapshot matches Ok(p) && snapshots_paused(
                p@,
                1,
                rec.api_sock,
                "Full"@,
                seen_file(rt.settings, dir, "snapshot.file"@),
                seen_file(rt.settings, dir, "mem.file"@),
            )
            &&& standby is Ok <==> !rec.has_secrets
            &&& standby matches Ok(p) ==> p@ == standby_steps(rt.settings, rec)
            &&& back matches Ok(p) && p@.len() >= 1 && p@.subrange(1, p@.len() as int)
                == retap_steps(rec.tap)
        },
{
    if rt.vms@.contains_key(handle@) {
        let sock = rt.vms@[handle@].api_sock@;
        assert(sets_state(pause->Ok_0@[0], sock, "Paused"@));
        assert(sets_state(resume->Ok_0@[0], sock, "Resumed"@));
        let p = back->Ok_0@;
        assert(p.subrange(1, p.len() as int) =~= retap_steps(rt.vms@[handle@]@.tap));
    }
}

/// A sandbox comes up on a warm VM where there is one; else from a golden snapshot,
/// where it is wanted and there is one and no volume stands in the way; else cold.
pub proof fn law_boot_paths(warm: bool, wanted: bool, volumes: bool, golden: bool, r: BootPath)
    requires
        call_ensures(choose_boot_path, (warm, wanted, volumes, golden), r),
    ensures
        r == BootPath::HotPool <==> warm,
        r == BootPath::SnapshotRestore <==> !warm && wanted && golden && !volumes,
        r == BootPath::ColdBoot <==> !warm && !(wanted && golden && !volumes),
{
}

/// The VM from which a golden snapshot is made has the image and the shape, and nothing
/// of the tenant: no environment, no secrets, no files, no mounts, no volumes.
pub proof fn law_golden_vm_is_nobodys(spec: VmSpec, id: &str, r: VmSpec)
    requires
        call_ensures(golden_spec, (&spec, id), r),
    ensures
        r.image_key@ == spec.image_key@ && r.image_ref@ == spec.image_ref@ && r.resources
            == spec.resources,
        r.env@.dom() =~= Set::empty(),
        r.secret_env@.dom() =~= Set::empty(),
        r.files@.len() == 0 && r.mounts@.len() == 0 && r.volumes@.len() == 0,
        !r.docker && r.coding_agent is None,
{
}

} // verus!
