//! A cold boot: what Firecracker is told before the guest starts.

use crate::numeral::decimal;
use crate::paths::under;
use crate::runtime::firecracker::{
    boot_args, boot_config, boot_launch, boot_prelude, boot_record, boot_steps, direct_launch,
    jailed_launch, layout, volume_checks, volume_drives, volume_links,
};
use crate::runtime::plan::{Action, ApiBody, Flow, StepView};
use crate::runtime::steps::{owner_text, tap_steps};
use crate::runtime::vm::{
    handle_text, ip_text, jail_id, mac_text, stages, tap_text, Settings, StageView,
};
use crate::runtime::VmSpec;
use vstd::prelude::*;
use vstd::string::*;

verus! {

/// The step asks the API at a socket for this.
pub open spec fn asks(
    step: StepView,
    sock: Seq<char>,
    method: Seq<char>,
    path: Seq<char>,
    body: ApiBody<Seq<char>>,
) -> bool {
    step.action matches Action::Api(s, m, p, b, _) && s == sock && m == method && p == path && b
        == body
}

/// The step asks for something at a path of the API at a socket.
pub open spec fn asks_at(step: StepView, sock: Seq<char>, method: Seq<char>, path: Seq<char>) -> bool {
    step.action matches Action::Api(s, m, p, _, _) && s == sock && m == method && p == path
}

/// The step starts the guest.
pub open spec fn starts_guest(step: StepView, sock: Seq<char>) -> bool {
    asks(step, sock, "PUT"@, "/actions"@, ApiBody::Act { action_type: "InstanceStart"@ })
}

/// Nothing goes on where this step fails.
pub open spec fn must_succeed(step: StepView) -> bool {
    step.ok == Flow::Next && (step.err == Flow::Fail || step.err == Flow::Reclaim)
}

/// The plan puts this at a path of the API before it starts the guest, and goes no
/// further where that fails.
pub open spec fn told_before_start(
    steps: Seq<StepView>,
    sock: Seq<char>,
    path: Seq<char>,
    body: ApiBody<Seq<char>>,
) -> bool {
    exists|k: int, m: int|
        0 <= k < m < steps.len() && asks(#[trigger] steps[k], sock, "PUT"@, path, body)
            && must_succeed(steps[k]) && starts_guest(#[trigger] steps[m], sock) && must_succeed(
            steps[m],
        )
}

/// There is a step with this action.
pub open spec fn has_step(steps: Seq<StepView>, action: Action<Seq<char>, Seq<Seq<char>>>) -> bool {
    exists|k: int| 0 <= k < steps.len() && (#[trigger] steps[k]).action == action
}

/// There is a step with this action, and nothing goes on where it fails.
pub open spec fn insists_on(steps: Seq<StepView>, action: Action<Seq<char>, Seq<Seq<char>>>) -> bool {
    exists|k: int|
        0 <= k < steps.len() && (#[trigger] steps[k]).action == action && must_succeed(steps[k])
}

/// A text holds another.
pub open spec fn holds(s: Seq<char>, part: Seq<char>) -> bool {
    exists|a: Seq<char>, b: Seq<char>| s == #[trigger] (a + part + b)
}

/// Where the configuration of a boot begins in its plan.
spec fn config_at(s: Settings, spec: VmSpec, tap_idx: u32) -> int {
    boot_launch(s, spec, tap_idx).len() as int + 1
}

/// Where the drives of the volumes begin in the configuration.
spec fn drives_at(s: Settings) -> int {
    if s.balloon {
        7
    } else {
        6
    }
}

proof fn lemma_config(s: Settings, spec: VmSpec, cid: u32, tap_idx: u32)
    ensures
        ({
            let steps = boot_steps(s, spec, cid, tap_idx);
            let config = boot_config(s, spec, cid, tap_idx);
            let at = config_at(s, spec, tap_idx);
            &&& steps.len() == at + config.len()
            &&& forall|i: int| 0 <= i < config.len() ==> steps[at + i] == #[trigger] config[i]
            &&& config.len() == drives_at(s) + spec.volumes@.len() + 3
        }),
{
}

proof fn lemma_told(
    s: Settings,
    spec: VmSpec,
    cid: u32,
    tap_idx: u32,
    i: int,
    path: Seq<char>,
    body: ApiBody<Seq<char>>,
)
    requires
        0 <= i < drives_at(s) + spec.volumes@.len() + 1,
        asks(boot_config(s, spec, cid, tap_idx)[i], layout(s, spec).api_sock, "PUT"@, path, body),
        must_succeed(boot_config(s, spec, cid, tap_idx)[i]),
    ensures
        told_before_start(
            boot_steps(s, spec, cid, tap_idx),
            layout(s, spec).api_sock,
            path,
            body,
        ),
{
    lemma_config(s, spec, cid, tap_idx);
    let steps = boot_steps(s, spec, cid, tap_idx);
    let config = boot_config(s, spec, cid, tap_idx);
    let at = config_at(s, spec, tap_idx);
    let m = drives_at(s) + spec.volumes@.len() + 1;
    assert(steps[at + i] == config[i]);
    assert(steps[at + m] == config[m]);
    assert(starts_guest(config[m], layout(s, spec).api_sock));
}

/// A VM gets the processors and the memory of its shape: the least whole number of
/// processors, at least one, that covers the shape's share, and exactly its memory.
/// That is told before the guest starts, once, and the boot fails without it.
pub proof fn law_machine_has_the_shape(s: Settings, spec: VmSpec, cid: u32, tap_idx: u32)
    ensures
        ({
            let steps = boot_steps(s, spec, cid, tap_idx);
            let sock = boot_record(s, spec, cid, tap_idx).api_sock;
            exists|n: u32, template: Option<Seq<char>>|
                {
                    &&& n >= 1
                    &&& n * 1000 >= spec.resources.cpu_milli
                    &&& n == 1 || (n - 1) * 1000 < spec.resources.cpu_milli
                    &&& (template is None <==> s.cpu_template@.len() == 0)
                    &&& (template matches Some(t) ==> t == s.cpu_template@)
                    &&& #[trigger] told_before_start(
                        steps,
                        sock,
                        "/machine-config"@,
                        ApiBody::Machine {
                            vcpu_count: n,
                            mem_size_mib: spec.resources.memory_mb,
                            smt: false,
                            track_dirty_pages: true,
                            cpu_template: template,
                        },
                    )
                }
        }),
        forall|i: int, j: int|
            0 <= i < j < boot_config(s, spec, cid, tap_idx).len() ==> !(asks_at(
                #[trigger] boot_config(s, spec, cid, tap_idx)[i],
                layout(s, spec).api_sock,
                "PUT"@,
                "/machine-config"@,
            ) && asks_at(
                #[trigger] boot_config(s, spec, cid, tap_idx)[j],
                layout(s, spec).api_sock,
                "PUT"@,
                "/machine-config"@,
            )),
{
    let body = crate::runtime::firecracker::machine(s, spec);
    lemma_told(s, spec, cid, tap_idx, 3, "/machine-config"@, body);
    let n = body->Machine_vcpu_count;
    let t = body->cpu_template;
    assert(told_before_start(
        boot_steps(s, spec, cid, tap_idx),
        boot_record(s, spec, cid, tap_idx).api_sock,
        "/machine-config"@,
        ApiBody::Machine {
            vcpu_count: n,
            mem_size_mib: spec.resources.memory_mb,
            smt: false,
            track_dirty_pages: true,
            cpu_template: t,
        },
    ));
    let config = boot_config(s, spec, cid, tap_idx);
    reveal_strlit("/machine-config");
    reveal_strlit("/vsock");
    reveal_strlit("/balloon");
    reveal_strlit("/boot-source");
    reveal_strlit("/drives/rootfs");
    reveal_strlit("/drives/");
    reveal_strlit("/network-interfaces/eth0");
    reveal_strlit("/actions");
    assert forall|i: int| 0 <= i < config.len() && i != 3 implies !asks_at(
        #[trigger] config[i],
        layout(s, spec).api_sock,
        "PUT"@,
        "/machine-config"@,
    ) by {
        let k = drives_at(s);
        let v = volume_drives(s, layout(s, spec).api_sock, stages(s, spec.volumes@));
        if k <= i < k + v.len() {
            assert(config[i] == v[i - k]);
            let p = "/drives/"@ + crate::runtime::firecracker::drive_name(i - k);
            assert(p[1] == 'd');
            assert("/machine-config"@[1] == 'm');
        } else {
            assert("/machine-config"@[1] == 'm');
            assert("/vsock"@[1] == 'v' && "/balloon"@[1] == 'b' && "/boot-source"@[1] == 'b');
            assert("/drives/rootfs"@[1] == 'd' && "/network-interfaces/eth0"@[1] == 'n');
            assert("/actions"@[1] == 'a');
        }
    }
}

/// A kernel command line that boots the first drive, read-only or not, gives the guest
/// its address, its gateway and its name server, and starts the init.
pub open spec fn boots_drive(line: Seq<char>, read_only: bool, ip: Seq<char>) -> bool {
    &&& holds(
        line,
        if read_only {
            " root=/dev/vda ro"@
        } else {
            " root=/dev/vda rw"@
        },
    )
    &&& holds(line, " wd.ip="@ + ip + " wd.gw=10.200.0.1 wd.dns=1.1.1.1"@)
    &&& read_only ==> holds(line, " wd.overlay=tmpfs"@)
    &&& holds(line, " init=/sbin/sandbox-init"@)
}

proof fn lemma_boot_line(s: Settings, shared: bool, ip: Seq<char>)
    ensures
        boots_drive(boot_args(s, shared, ip), shared, ip),
{
    reveal_strlit("console=ttyS0 reboot=k panic=1 pci=off root=/dev/vda ");
    reveal_strlit("console=ttyS0 reboot=k panic=1 pci=off");
    reveal_strlit(" root=/dev/vda ro");
    reveal_strlit(" root=/dev/vda rw");
    reveal_strlit("ro");
    reveal_strlit("rw");
    reveal_strlit(" wd.gw=10.200.0.1 wd.dns=1.1.1.1");
    reveal_strlit(" wd.gw=");
    reveal_strlit(" wd.dns=");
    reveal_strlit("10.200.0.1");
    reveal_strlit("1.1.1.1");
    let line = boot_args(s, shared, ip);
    let front = "console=ttyS0 reboot=k panic=1 pci=off"@;
    let drive = if shared {
        " root=/dev/vda ro"@
    } else {
        " root=/dev/vda rw"@
    };
    let mode = if shared {
        "ro"@
    } else {
        "rw"@
    };
    let quiet = if s.quiet_boot {
        " quiet loglevel=1"@
    } else {
        ""@
    };
    let over = if shared {
        " wd.overlay=tmpfs"@
    } else {
        ""@
    };
    let init = " init=/sbin/sandbox-init"@;
    let net = " wd.ip="@ + ip + " wd.gw=10.200.0.1 wd.dns=1.1.1.1"@;
    assert("console=ttyS0 reboot=k panic=1 pci=off root=/dev/vda "@ + mode =~= front + drive);
    assert(" wd.gw=10.200.0.1 wd.dns=1.1.1.1"@ =~= " wd.gw="@ + "10.200.0.1"@ + " wd.dns="@
        + "1.1.1.1"@);
    assert(line =~= front + drive + (quiet + net + over + init));
    assert(line =~= (front + drive + quiet) + net + (over + init));
    assert(line =~= (front + drive + quiet + net) + over + init);
    assert(line =~= (front + drive + quiet + net + over) + init + Seq::<char>::empty());
}

/// The kernel as Firecracker sees it, which under the jailer sees its own root.
pub open spec fn kernel_seen(s: Settings) -> Seq<char> {
    if s.use_jailer {
        "vmlinux"@
    } else {
        s.kernel_image@
    }
}

/// The guest boots the kernel of the settings, with a command line that tells it its
/// drive and its network.
pub proof fn law_guest_boots_the_kernel(s: Settings, spec: VmSpec, cid: u32, tap_idx: u32)
    ensures
        exists|line: Seq<char>|
            boots_drive(line, s.shares(spec.image_key@), ip_text(tap_idx))
                && #[trigger] told_before_start(
                boot_steps(s, spec, cid, tap_idx),
                boot_record(s, spec, cid, tap_idx).api_sock,
                "/boot-source"@,
                ApiBody::BootSource {
                    kernel_image_path: kernel_seen(s),
                    boot_args: line,
                },
            ),
        s.use_jailer ==> insists_on(
            boot_steps(s, spec, cid, tap_idx),
            Action::Run(
                seq![
                    "cp"@,
                    s.kernel_image@,
                    under(s.chroot_root(jail_id(handle_text(spec.sandbox_id@))), "vmlinux"@),
                ],
            ),
        ),
{
    let shared = s.shares(spec.image_key@);
    let line = boot_args(s, shared, ip_text(tap_idx));
    lemma_boot_line(s, shared, ip_text(tap_idx));
    let i = drives_at(s) - 2;
    lemma_told(
        s,
        spec,
        cid,
        tap_idx,
        i,
        "/boot-source"@,
        boot_config(s, spec, cid, tap_idx)[i].action->Api_3,
    );
    assert(told_before_start(
        boot_steps(s, spec, cid, tap_idx),
        boot_record(s, spec, cid, tap_idx).api_sock,
        "/boot-source"@,
        ApiBody::BootSource {
            kernel_image_path: kernel_seen(s),
            boot_args: line,
        },
    ));
    if s.use_jailer {
        assert(jailed_launch(s, spec, tap_idx)[2] == boot_steps(s, spec, cid, tap_idx)[7]);
    }
}

/// The guest's root drive is its image: the image itself, read-only, where VMs share
/// it, else a writable copy of its own. Under the jailer the drive is the file that
/// was linked or copied into the chroot.
pub proof fn law_root_drive_is_the_image(s: Settings, spec: VmSpec, cid: u32, tap_idx: u32)
    ensures
        ({
            let steps = boot_steps(s, spec, cid, tap_idx);
            let sock = boot_record(s, spec, cid, tap_idx).api_sock;
            let image = s.rootfs(spec.image_key@, spec.image_ref@);
            let shared = s.shares(spec.image_key@);
            let handle = handle_text(spec.sandbox_id@);
            let own = under(s.jail(handle), "overlay.ext4"@);
            let inside = under(s.chroot_root(jail_id(handle)), "rootfs.ext4"@);
            let disk = if s.use_jailer {
                "rootfs.ext4"@
            } else if shared {
                image
            } else {
                own
            };
            &&& told_before_start(
                steps,
                sock,
                "/drives/rootfs"@,
                ApiBody::Drive {
                    drive_id: "rootfs"@,
                    path_on_host: disk,
                    is_root_device: true,
                    is_read_only: shared,
                },
            )
            &&& !s.use_jailer && !shared ==> insists_on(
                steps,
                Action::Run(seq!["cp"@, "--reflink=auto"@, image, own]),
            )
            &&& s.use_jailer && shared ==> has_step(steps, Action::HardLink(image, inside))
            &&& s.use_jailer && s.require_reflink && !s.shares_blocks ==> insists_on(
                steps,
                Action::HardLink(image, inside),
            )
            &&& s.use_jailer && !(s.require_reflink && !s.shares_blocks) ==> insists_on(
                steps,
                Action::Run(seq!["cp"@, "--reflink=auto"@, image, inside]),
            )
        }),
{
    let steps = boot_steps(s, spec, cid, tap_idx);
    let i = drives_at(s) - 1;
    lemma_told(
        s,
        spec,
        cid,
        tap_idx,
        i,
        "/drives/rootfs"@,
        boot_config(s, spec, cid, tap_idx)[i].action->Api_3,
    );
    if s.use_jailer {
        let l = jailed_launch(s, spec, tap_idx);
        assert(steps[9] == l[4]);
        if s.shares(spec.image_key@) && !s.refuses_copies() {
            assert(steps[10] == l[5]);
        }
    } else {
        assert(steps[5] == direct_launch(s, spec)[0]);
    }
}

/// Each volume is a writable drive on the volume's one image, in the order in which
/// the volumes are attached. The image must be there before anything is allocated,
/// and under the jailer it is linked into the chroot, never copied.
pub proof fn law_volumes_are_drives(s: Settings, spec: VmSpec, cid: u32, tap_idx: u32, i: int)
    requires
        0 <= i < spec.volumes@.len(),
    ensures
        ({
            let id = spec.volumes@[i].volume_id@;
            let image = under(s.volumes_dir@, id + ".ext4"@);
            let root = s.chroot_root(jail_id(handle_text(spec.sandbox_id@)));
            &&& told_before_start(
                boot_steps(s, spec, cid, tap_idx),
                boot_record(s, spec, cid, tap_idx).api_sock,
                "/drives/"@ + ("vol"@ + decimal(i as nat)),
                ApiBody::Drive {
                    drive_id: "vol"@ + decimal(i as nat),
                    path_on_host: if s.use_jailer {
                        id + ".ext4"@
                    } else {
                        image
                    },
                    is_root_device: false,
                    is_read_only: false,
                },
            )
            &&& insists_on(boot_prelude(s, spec), Action::RequireFile(image))
            &&& s.use_jailer ==> insists_on(
                boot_steps(s, spec, cid, tap_idx),
                Action::HardLink(image, under(root, id + ".ext4"@)),
            )
        }),
{
    let v = stages(s, spec.volumes@);
    let k = drives_at(s);
    let config = boot_config(s, spec, cid, tap_idx);
    assert(config[k + i] == volume_drives(s, layout(s, spec).api_sock, v)[i]);
    lemma_told(
        s,
        spec,
        cid,
        tap_idx,
        k + i,
        "/drives/"@ + ("vol"@ + decimal(i as nat)),
        config[k + i].action->Api_3,
    );
    assert(boot_prelude(s, spec)[2 + i] == volume_checks(v)[i]);
    if s.use_jailer {
        let root = s.chroot_root(jail_id(handle_text(spec.sandbox_id@)));
        let owner = owner_text(s.jailer_uid_base + tap_idx);
        let links = volume_links(v, v.len() as int, root, owner);
        lemma_linked(v, v.len() as int, root, owner, i);
        let l = jailed_launch(s, spec, tap_idx);
        let from = l.len() - links.len();
        assert(l.subrange(from, l.len() as int) =~= links);
        assert(boot_steps(s, spec, cid, tap_idx)[5 + from + 3 * i + 1] == l[from + 3 * i + 1]);
        assert(l[from + 3 * i + 1] == links[3 * i + 1]);
    }
}

proof fn lemma_linked(v: Seq<StageView>, n: int, root: Seq<char>, owner: Seq<char>, i: int)
    requires
        0 <= i < n <= v.len(),
    ensures
        volume_links(v, n, root, owner).len() == 3 * n,
        volume_links(v, n, root, owner)[3 * i + 1].action == Action::<
            Seq<char>,
            Seq<Seq<char>>,
        >::HardLink(v[i].host_path, under(root, v[i].file)),
        must_succeed(volume_links(v, n, root, owner)[3 * i + 1]),
    decreases n,
{
    lemma_links_len(v, n - 1, root, owner);
    if i < n - 1 {
        lemma_linked(v, n - 1, root, owner, i);
        assert(volume_links(v, n, root, owner)[3 * i + 1] == volume_links(v, n - 1, root, owner)[3
            * i + 1]);
    }
}

proof fn lemma_links_len(v: Seq<StageView>, n: int, root: Seq<char>, owner: Seq<char>)
    requires
        0 <= n <= v.len(),
    ensures
        volume_links(v, n, root, owner).len() == 3 * n,
    decreases n,
{
    if n > 0 {
        lemma_links_len(v, n - 1, root, owner);
    }
}

/// The guest's network card is attached to the tap of its index, under the hardware
/// address of that index; the tap is created, attached to the bridge, set apart from
/// the other guests' and brought up, in this order.
pub proof fn law_guest_is_on_its_tap(s: Settings, spec: VmSpec, cid: u32, tap_idx: u32)
    ensures
        ({
            let steps = boot_steps(s, spec, cid, tap_idx);
            let tap = "wdtap"@ + decimal(tap_idx as nat);
            &&& told_before_start(
                steps,
                boot_record(s, spec, cid, tap_idx).api_sock,
                "/network-interfaces/eth0"@,
                ApiBody::Network {
                    iface_id: "eth0"@,
                    host_dev_name: tap,
                    guest_mac: mac_text(tap_idx),
                },
            )
            &&& steps[1].action == Action::<Seq<char>, Seq<Seq<char>>>::RunChecked(
                seq!["ip"@, "tuntap"@, "add"@, tap, "mode"@, "tap"@],
            )
            &&& steps[2].action == Action::<Seq<char>, Seq<Seq<char>>>::RunChecked(
                seq!["ip"@, "link"@, "set"@, tap, "master"@, "wdbr0"@],
            )
            &&& steps[3].action == Action::<Seq<char>, Seq<Seq<char>>>::RunChecked(
                seq!["ip"@, "link"@, "set"@, tap, "type"@, "bridge_slave"@, "isolated"@, "on"@],
            )
            &&& steps[4].action == Action::<Seq<char>, Seq<Seq<char>>>::RunChecked(
                seq!["ip"@, "link"@, "set"@, tap, "up"@],
            )
            &&& forall|i: int| 1 <= i <= 4 ==> must_succeed(#[trigger] steps[i])
            &&& boot_record(s, spec, cid, tap_idx).tap == Some(tap)
            &&& boot_record(s, spec, cid, tap_idx).tap_idx == Some(tap_idx)
            &&& boot_record(s, spec, cid, tap_idx).guest_ip == Some(ip_text(tap_idx))
        }),
{
    let i = drives_at(s) + spec.volumes@.len();
    lemma_told(
        s,
        spec,
        cid,
        tap_idx,
        i,
        "/network-interfaces/eth0"@,
        boot_config(s, spec, cid, tap_idx)[i].action->Api_3,
    );
    let steps = boot_steps(s, spec, cid, tap_idx);
    let t = tap_steps(tap_text(tap_idx));
    assert(forall|k: int| 0 <= k < 5 ==> steps[k] == t[k]);
}

/// The guest's socket is the one that the record says, Firecracker is started before
/// anything is asked of it, and the boot ends by waiting for the guest's agent, which
/// it insists on.
pub proof fn law_boot_ends_with_the_agent(s: Settings, spec: VmSpec, cid: u32, tap_idx: u32)
    ensures
        ({
            let steps = boot_steps(s, spec, cid, tap_idx);
            let rec = boot_record(s, spec, cid, tap_idx);
            &&& told_before_start(
                steps,
                rec.api_sock,
                "/vsock"@,
                ApiBody::Vsock { guest_cid: cid, uds_path: rec.vsock_fc },
            )
            &&& !s.use_jailer ==> rec.vsock_fc == rec.vsock_uds
            &&& s.use_jailer ==> rec.vsock_uds == under(
                s.chroot_root(jail_id(handle_text(spec.sandbox_id@))),
                rec.vsock_fc,
            )
            &&& rec.cid == cid
            &&& rec.image_key == spec.image_key@
            &&& rec.volumes.len() == spec.volumes@.len()
            &&& !rec.has_secrets && !rec.standby && !rec.snapshotted && rec.ballooned_mib == 0
            &&& steps.last().action is AwaitAgent
            &&& must_succeed(steps.last())
            &&& exists|k: int|
                0 <= k < steps.len() && (#[trigger] steps[k]).action is Spawn && must_succeed(
                    steps[k],
                ) && forall|i: int|
                    0 <= i < steps.len() && (#[trigger] steps[i]).action is Api ==> k < i
            &&& forall|i: int|
                0 <= i < steps.len() && (#[trigger] steps[i]).action is Api ==> steps[i].action->Api_0
                    == rec.api_sock
            &&& forall|i: int|
                0 <= i < steps.len() - 2 ==> !starts_guest(#[trigger] steps[i], rec.api_sock)
        }),
{
    let steps = boot_steps(s, spec, cid, tap_idx);
    let config = boot_config(s, spec, cid, tap_idx);
    let launch = boot_launch(s, spec, tap_idx);
    let sock = layout(s, spec).api_sock;
    lemma_told(s, spec, cid, tap_idx, 1, "/vsock"@, config[1].action->Api_3);
    lemma_config(s, spec, cid, tap_idx);
    let at = config_at(s, spec, tap_idx);
    let kd = drives_at(s);
    let v = volume_drives(s, sock, stages(s, spec.volumes@));
    reveal_strlit("/machine-config");
    reveal_strlit("/vsock");
    reveal_strlit("/balloon");
    reveal_strlit("/boot-source");
    reveal_strlit("/drives/rootfs");
    reveal_strlit("/drives/");
    reveal_strlit("/network-interfaces/eth0");
    reveal_strlit("/actions");
    assert("/actions"@[1] == 'a');
    assert("/vsock"@[1] == 'v' && "/balloon"@[1] == 'b' && "/boot-source"@[1] == 'b');
    assert("/drives/rootfs"@[1] == 'd' && "/network-interfaces/eth0"@[1] == 'n');
    assert("/machine-config"@[1] == 'm');
    assert forall|i: int| 0 <= i < config.len() implies ((#[trigger] config[i]).action is Api
        ==> config[i].action->Api_0 == sock) && (i < config.len() - 2 ==> !starts_guest(
        config[i],
        sock,
    )) by {
        if kd <= i < kd + v.len() {
            assert(config[i] == v[i - kd]);
            let p = "/drives/"@ + crate::runtime::firecracker::drive_name(i - kd);
            assert(p[1] == 'd');
        }
    }
    lemma_launch_is_quiet(s, spec, tap_idx);
    assert forall|i: int| 0 <= i < steps.len() && (#[trigger] steps[i]).action is Api implies i >= at
        && steps[i].action->Api_0 == sock by {
        if i < at - 1 {
            assert(steps[i] == launch[i]);
        } else if i >= at {
            assert(steps[i] == config[i - at]);
        }
    }
    assert forall|i: int| 0 <= i < steps.len() - 2 implies !starts_guest(#[trigger] steps[i], sock) by {
        if i >= at {
            assert(steps[i] == config[i - at]);
        }
    }
    let k = if s.use_jailer {
        5int
    } else if s.shares(spec.image_key@) {
        6int
    } else {
        7int
    };
    assert(launch[k] == steps[k]);
    assert(steps[k].action is Spawn);
}

proof fn lemma_launch_is_quiet(s: Settings, spec: VmSpec, tap_idx: u32)
    ensures
        forall|i: int|
            0 <= i < boot_launch(s, spec, tap_idx).len() ==> !((#[trigger] boot_launch(
                s,
                spec,
                tap_idx,
            )[i]).action is Api),
        boot_launch(s, spec, tap_idx).len() >= 7,
{
    let launch = boot_launch(s, spec, tap_idx);
    if s.use_jailer {
        let root = s.chroot_root(jail_id(handle_text(spec.sandbox_id@)));
        let owner = owner_text(s.jailer_uid_base + tap_idx);
        let v = stages(s, spec.volumes@);
        let links = volume_links(v, v.len() as int, root, owner);
        lemma_links_quiet(v, v.len() as int, root, owner);
        let from = launch.len() - links.len();
        assert(launch.subrange(from, launch.len() as int) =~= links);
        assert forall|i: int| 0 <= i < launch.len() implies !((#[trigger] launch[i]).action is Api) by {
            if i >= from {
                assert(launch[i] == links[i - from]);
            }
        }
    }
}

proof fn lemma_links_quiet(v: Seq<StageView>, n: int, root: Seq<char>, owner: Seq<char>)
    requires
        0 <= n <= v.len(),
    ensures
        forall|i: int|
            0 <= i < volume_links(v, n, root, owner).len() ==> !((#[trigger] volume_links(
                v,
                n,
                root,
                owner,
            )[i]).action is Api),
    decreases n,
{
    if n > 0 {
        lemma_links_quiet(v, n - 1, root, owner);
        let before = volume_links(v, n - 1, root, owner);
        let now = volume_links(v, n, root, owner);
        assert forall|i: int| 0 <= i < now.len() implies !((#[trigger] now[i]).action is Api) by {
            if i < before.len() {
                assert(now[i] == before[i]);
            }
        }
    }
}

// ---------------------------------------------------------------------------
// Addresses and places
// ---------------------------------------------------------------------------

/// The guest's address, and its hardware address, are made of the tap index plus two,
/// below 65536: nobody gets the bridge's own address before all others are given out.
pub proof fn law_guest_address(i: u32)
    ensures
        exists|hi: u8, lo: u8|
            hi * 256 + lo == (i + 2) % 65536 && ip_text(i) == "10.200."@ + decimal(hi as nat) + "."@
                + #[trigger] decimal(lo as nat) && mac_text(i) == "06:00:0a:c8:"@
                + #[trigger] crate::numeral::hex_byte(hi) + ":"@ + crate::numeral::hex_byte(lo),
        tap_text(i) == "wdtap"@ + decimal(i as nat),
{
    let h = (i + 2) % 65536;
    let hi = (h / 256) as u8;
    let lo = (h % 256) as u8;
    assert(hi * 256 + lo == h);
    assert(ip_text(i) == "10.200."@ + decimal(hi as nat) + "."@ + decimal(lo as nat));
    assert(mac_text(i) == "06:00:0a:c8:"@ + crate::numeral::hex_byte(hi) + ":"@
        + crate::numeral::hex_byte(lo));
}

/// Where an image's root disk is, where a VM's own directories are, and where its
/// golden snapshot is: by the image, by the handle, by image and memory.
pub proof fn law_places(s: Settings, handle: Seq<char>, key: Seq<char>, reference: Seq<char>, mb: u32)
    ensures
        key != "custom"@ ==> s.rootfs(key, reference) == under(
            under(s.images_dir@, key),
            "rootfs.ext4"@,
        ),
        s.jail(handle) == under(under(s.workspace_dir@, "jail"@), handle),
        s.workspace(handle) == under(s.workspace_dir@, handle),
        s.chroot_root(handle) == under(
            under(under(under(s.workspace_dir@, "jail"@), "firecracker"@), handle),
            "root"@,
        ),
        s.golden(key, mb) == under(
            under(under(s.images_dir@, "snapshots"@), key),
            decimal(mb as nat),
        ),
        s.shares(key) ==> s.shared_rootfs && (key == "base"@ || key == "browser"@),
        s.shared_rootfs && (key == "base"@ || key == "browser"@) ==> s.shares(key),
        handle_text(handle) == "vm_"@ + handle,
        jail_id(handle).len() == handle.len(),
        forall|i: int|
            0 <= i < handle.len() ==> #[trigger] jail_id(handle)[i] == (if handle[i] == '_' {
                '-'
            } else {
                handle[i]
            }),
{
}

} // verus!
