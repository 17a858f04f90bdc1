//! Stretches of plans that several VM operations have in common.

use crate::numeral::{decimal, to_decimal};
use crate::paths::{path_join, under};
use crate::runtime::plan::{
    attempt, need, need_or_reclaim, or_else, Action, ApiBody, PlanBuilder, StepView,
};
use crate::runtime::vm::{Settings, NET_BRIDGE, NET_GATEWAY};
use crate::text::{concat3, strings, views};
use vstd::prelude::*;
use vstd::string::*;

verus! {

// ---------------------------------------------------------------------------
// Argument lists
// ---------------------------------------------------------------------------

pub(crate) fn argv2(a: &str, b: &str) -> (r: Vec<String>)
    ensures
        views(r@) == seq![a@, b@],
{
    let r = strings(&[a, b]);
    assert(views(r@) =~= seq![a@, b@]);
    r
}

pub(crate) fn argv3(a: &str, b: &str, c: &str) -> (r: Vec<String>)
    ensures
        views(r@) == seq![a@, b@, c@],
{
    let r = strings(&[a, b, c]);
    assert(views(r@) =~= seq![a@, b@, c@]);
    r
}

pub(crate) fn argv4(a: &str, b: &str, c: &str, d: &str) -> (r: Vec<String>)
    ensures
        views(r@) == seq![a@, b@, c@, d@],
{
    let r = strings(&[a, b, c, d]);
    assert(views(r@) =~= seq![a@, b@, c@, d@]);
    r
}

pub(crate) fn argv5(a: &str, b: &str, c: &str, d: &str, e: &str) -> (r: Vec<String>)
    ensures
        views(r@) == seq![a@, b@, c@, d@, e@],
{
    let r = strings(&[a, b, c, d, e]);
    assert(views(r@) =~= seq![a@, b@, c@, d@, e@]);
    r
}

pub(crate) fn argv6(a: &str, b: &str, c: &str, d: &str, e: &str, f: &str) -> (r: Vec<String>)
    ensures
        views(r@) == seq![a@, b@, c@, d@, e@, f@],
{
    let r = strings(&[a, b, c, d, e, f]);
    assert(views(r@) =~= seq![a@, b@, c@, d@, e@, f@]);
    r
}

pub(crate) fn argv8(a: &str, b: &str, c: &str, d: &str, e: &str, f: &str, g: &str, h: &str) -> (r: Vec<String>)
    ensures
        views(r@) == seq![a@, b@, c@, d@, e@, f@, g@, h@],
{
    let r = strings(&[a, b, c, d, e, f, g, h]);
    assert(views(r@) =~= seq![a@, b@, c@, d@, e@, f@, g@, h@]);
    r
}

pub(crate) fn push_text(list: &mut Vec<String>, s: &str)
    ensures
        views(final(list)@) == views(old(list)@).push(s@),
{
    list.push(String::from_str(s));
    assert(views(list@) =~= views(old(list)@).push(s@));
}

/// The arguments that leave the seccomp filter out, where the settings say so.
pub open spec fn seccomp_args(s: Settings) -> Seq<Seq<char>> {
    if s.no_seccomp {
        seq!["--no-seccomp"@]
    } else {
        Seq::<Seq<char>>::empty()
    }
}

/// How the jailer is started: it changes root to the jail's directory, drops to
/// the given user and starts Firecracker there.
pub open spec fn jailer_argv(s: Settings, id: Seq<char>, uid: int) -> Seq<Seq<char>> {
    seq![
        s.jailer_bin@,
        "--id"@,
        id,
        "--exec-file"@,
        s.firecracker_bin@,
        "--uid"@,
        decimal(uid as nat),
        "--gid"@,
        decimal(uid as nat),
        "--chroot-base-dir"@,
        s.chroot_base(),
        "--"@,
        "--api-sock"@,
        "api.sock"@,
    ] + seccomp_args(s)
}

/// How Firecracker is started without the jailer.
pub open spec fn direct_argv(s: Settings, api_sock: Seq<char>) -> Seq<Seq<char>> {
    seq![s.firecracker_bin@, "--api-sock"@, api_sock] + seccomp_args(s)
}

pub(crate) fn jailer_command(s: &Settings, id: &str, uid: u32) -> (r: Vec<String>)
    ensures
        views(r@) == jailer_argv(*s, id@, uid as int),
{
    let base = s.chroot_base_dir();
    let user = to_decimal(uid as u64);
    let mut r = strings(
        &[
            s.jailer_bin.as_str(),
            "--id",
            id,
            "--exec-file",
            s.firecracker_bin.as_str(),
            "--uid",
            user.as_str(),
            "--gid",
            user.as_str(),
            "--chroot-base-dir",
            base.as_str(),
            "--",
            "--api-sock",
            "api.sock",
        ],
    );
    if s.no_seccomp {
        push_text(&mut r, "--no-seccomp");
    }
    assert(views(r@) =~= jailer_argv(*s, id@, uid as int));
    r
}

pub(crate) fn direct_command(s: &Settings, api_sock: &str) -> (r: Vec<String>)
    ensures
        views(r@) == direct_argv(*s, api_sock@),
{
    let mut r = argv3(s.firecracker_bin.as_str(), "--api-sock", api_sock);
    if s.no_seccomp {
        push_text(&mut r, "--no-seccomp");
    }
    assert(views(r@) =~= direct_argv(*s, api_sock@));
    r
}

// ---------------------------------------------------------------------------
// Parts of plans
// ---------------------------------------------------------------------------

/// Create a host tap, attach it to the bridge as an isolated port, so that no
/// guest reaches another's tap, and bring it up.
pub open spec fn tap_steps(tap: Seq<char>) -> Seq<StepView> {
    seq![
        attempt(Action::RunChecked(seq!["ip"@, "link"@, "del"@, tap])),
        need(Action::RunChecked(seq!["ip"@, "tuntap"@, "add"@, tap, "mode"@, "tap"@])),
        need(Action::RunChecked(seq!["ip"@, "link"@, "set"@, tap, "master"@, NET_BRIDGE@])),
        need(
            Action::RunChecked(
                seq!["ip"@, "link"@, "set"@, tap, "type"@, "bridge_slave"@, "isolated"@, "on"@],
            ),
        ),
        need(Action::RunChecked(seq!["ip"@, "link"@, "set"@, tap, "up"@])),
    ]
}

pub(crate) fn add_tap(p: &mut PlanBuilder, tap: &str)
    ensures
        final(p)@ == old(p)@ + tap_steps(tap@),
{
    let ghost start = p@;
    p.attempt(Action::RunChecked(argv4("ip", "link", "del", tap)));
    p.need(Action::RunChecked(argv6("ip", "tuntap", "add", tap, "mode", "tap")));
    p.need(Action::RunChecked(argv6("ip", "link", "set", tap, "master", NET_BRIDGE)));
    p.need(
        Action::RunChecked(
            argv8("ip", "link", "set", tap, "type", "bridge_slave", "isolated", "on"),
        ),
    );
    p.need(Action::RunChecked(argv5("ip", "link", "set", tap, "up")));
    assert(p@ =~= start + tap_steps(tap@));
}

/// The owner argument for a user.
pub open spec fn owner_text(uid: int) -> Seq<char> {
    decimal(uid as nat) + ":"@ + decimal(uid as nat)
}

/// Give a file to a user; a failure changes nothing.
pub open spec fn chown_step(owner: Seq<char>, path: Seq<char>) -> StepView {
    attempt(Action::Run(seq!["chown"@, owner, path]))
}

pub(crate) fn owner_of(uid: u32) -> (r: String)
    ensures
        r@ == owner_text(uid as int),
{
    let user = to_decimal(uid as u64);
    concat3(user.as_str(), ":", user.as_str())
}

pub(crate) fn add_chown(p: &mut PlanBuilder, owner: &str, path: &str)
    ensures
        final(p)@ == old(p)@.push(chown_step(owner@, path@)),
{
    p.attempt(Action::Run(argv3("chown", owner, path)));
}

/// A copy that shares blocks where the file system can.
pub open spec fn reflink(from: Seq<char>, to: Seq<char>) -> Seq<Seq<char>> {
    seq!["cp"@, "--reflink=auto"@, from, to]
}

pub(crate) fn reflink_command(from: &str, to: &str) -> (r: Vec<String>)
    ensures
        views(r@) == reflink(from@, to@),
{
    argv4("cp", "--reflink=auto", from, to)
}

/// Hard-link a file, or copy it where it cannot be linked.
pub open spec fn link_or_copy(from: Seq<char>, to: Seq<char>, reclaim: bool) -> Seq<StepView> {
    seq![
        attempt(Action::RemoveFile(to)),
        or_else(Action::HardLink(from, to), 1),
        if reclaim {
            need_or_reclaim(Action::CopyFile(from, to))
        } else {
            need(Action::CopyFile(from, to))
        },
    ]
}

pub(crate) fn add_link_or_copy(p: &mut PlanBuilder, from: &str, to: &str, reclaim: bool)
    ensures
        final(p)@ == old(p)@ + link_or_copy(from@, to@, reclaim),
{
    let ghost start = p@;
    p.attempt(Action::RemoveFile(String::from_str(to)));
    p.or_else(Action::HardLink(String::from_str(from), String::from_str(to)), 1);
    if reclaim {
        p.need_or_reclaim(Action::CopyFile(String::from_str(from), String::from_str(to)));
    } else {
        p.need(Action::CopyFile(String::from_str(from), String::from_str(to)));
    }
    assert(p@ =~= start + link_or_copy(from@, to@, reclaim));
}

/// Pause a VM and write its memory and device state. A differential snapshot
/// writes only what changed, onto the memory file that is there.
pub open spec fn snapshot_steps(s: Settings, sock: Seq<char>, jail: Seq<char>, diff: bool) -> Seq<
    StepView,
> {
    seq![
        need(Action::Api(sock, "PATCH"@, "/vm"@, ApiBody::Vm { state: "Paused"@ }, 10)),
        need(
            Action::Api(
                sock,
                "PUT"@,
                "/snapshot/create"@,
                ApiBody::SnapshotCreate {
                    snapshot_type: if diff {
                        "Diff"@
                    } else {
                        "Full"@
                    },
                    // A jailed Firecracker sees its own root.
                    snapshot_path: if s.use_jailer {
                        "snapshot.file"@
                    } else {
                        under(jail, "snapshot.file"@)
                    },
                    mem_file_path: if s.use_jailer {
                        "mem.file"@
                    } else {
                        under(jail, "mem.file"@)
                    },
                },
                300,
            ),
        ),
    ]
}

pub(crate) fn in_jail(s: &Settings, jail: &str, name: &str) -> (r: String)
    ensures
        r@ == (if s.use_jailer {
            name@
        } else {
            under(jail@, name@)
        }),
{
    if s.use_jailer {
        String::from_str(name)
    } else {
        path_join(jail, name)
    }
}

pub(crate) fn text(s: &str) -> (r: String)
    ensures
        r@ == s@,
{
    String::from_str(s)
}

pub(crate) fn add_snapshot(p: &mut PlanBuilder, s: &Settings, sock: &str, jail: &str, diff: bool)
    ensures
        final(p)@ == old(p)@ + snapshot_steps(*s, sock@, jail@, diff),
{
    let ghost start = p@;
    p.need(
        Action::Api(text(sock), text("PATCH"), text("/vm"), ApiBody::Vm { state: text("Paused") }, 10),
    );
    let kind = if diff {
        text("Diff")
    } else {
        text("Full")
    };
    let snapshot_path = in_jail(s, jail, "snapshot.file");
    let mem_file_path = in_jail(s, jail, "mem.file");
    p.need(
        Action::Api(
            text(sock),
            text("PUT"),
            text("/snapshot/create"),
            ApiBody::SnapshotCreate { snapshot_type: kind, snapshot_path, mem_file_path },
            300,
        ),
    );
    assert(p@ =~= start + snapshot_steps(*s, sock@, jail@, diff));
}

/// Load a snapshot and let the guest run on. It is the first thing that a fresh
/// Firecracker is told: it refuses to load once a device is configured.
pub open spec fn load_action(
    sock: Seq<char>,
    snapshot: Seq<char>,
    mem: Seq<char>,
    tap: Option<Seq<char>>,
) -> Action<Seq<char>, Seq<Seq<char>>> {
    Action::Api(
        sock,
        "PUT"@,
        "/snapshot/load"@,
        ApiBody::SnapshotLoad {
            snapshot_path: snapshot,
            backend_path: mem,
            backend_type: "File"@,
            enable_diff_snapshots: true,
            network_override: match tap {
                Some(t) => Some(("eth0"@, t)),
                None => None,
            },
            resume_vm: true,
        },
        300,
    )
}

pub(crate) fn load(sock: &str, snapshot: &str, mem: &str, tap: Option<&str>) -> (r: Action<String, Vec<String>>)
    ensures
        r@ == load_action(
            sock@,
            snapshot@,
            mem@,
            match tap {
                Some(t) => Some(t@),
                None => None,
            },
        ),
{
    let network_override: Option<(String, String)> = match tap {
        Some(t) => Some((text("eth0"), text(t))),
        None => None,
    };
    Action::Api(
        text(sock),
        text("PUT"),
        text("/snapshot/load"),
        ApiBody::SnapshotLoad {
            snapshot_path: text(snapshot),
            backend_path: text(mem),
            backend_type: text("File"),
            enable_diff_snapshots: true,
            network_override,
            resume_vm: true,
        },
        300,
    )
}

/// The guest command that gives a restored sibling its own address: the
/// snapshot carries another's. Flushing drops the default route, so it is added
/// again.
pub open spec fn readdress(ip: Seq<char>) -> Seq<char> {
    "ip addr flush dev eth0 2>/dev/null; ip addr add "@ + ip
        + "/16 dev eth0 2>/dev/null; ip link set eth0 up 2>/dev/null; ip route replace default via "@
        + NET_GATEWAY@ + " dev eth0 2>/dev/null; true"@
}

pub(crate) fn readdress_command(ip: &str) -> (r: String)
    ensures
        r@ == readdress(ip@),
{
    let mut c = concat3(
        "ip addr flush dev eth0 2>/dev/null; ip addr add ",
        ip,
        "/16 dev eth0 2>/dev/null; ip link set eth0 up 2>/dev/null; ip route replace default via ",
    );
    c.append(NET_GATEWAY);
    c.append(" dev eth0 2>/dev/null; true");
    c
}

/// Bring a memory file into the page cache, where the settings say so.
pub open spec fn prewarm_steps(s: Settings, path: Seq<char>) -> Seq<StepView> {
    if s.prewarm_mem_cache {
        seq![attempt(Action::Prewarm(path))]
    } else {
        Seq::<StepView>::empty()
    }
}

pub(crate) fn add_prewarm(p: &mut PlanBuilder, s: &Settings, path: &str)
    ensures
        final(p)@ == old(p)@ + prewarm_steps(*s, path@),
{
    let ghost start = p@;
    if s.prewarm_mem_cache {
        p.attempt(Action::Prewarm(text(path)));
    }
    assert(p@ =~= start + prewarm_steps(*s, path@));
}

/// Create a VM's jail and workspace directories.
pub open spec fn dir_steps(s: Settings, handle: Seq<char>) -> Seq<StepView> {
    seq![
        need(Action::CreateDir(s.jail(handle))),
        need(Action::CreateDir(under(s.workspace(handle), "workspace"@))),
    ]
}

pub(crate) fn add_dirs(p: &mut PlanBuilder, s: &Settings, handle: &str)
    ensures
        final(p)@ == old(p)@ + dir_steps(*s, handle@),
{
    let ghost start = p@;
    p.need(Action::CreateDir(s.jail_dir(handle)));
    p.need(Action::CreateDir(path_join(s.workspace_of(handle).as_str(), "workspace")));
    assert(p@ =~= start + dir_steps(*s, handle@));
}

} // verus!
