//! What a booted VM is given: environment and secrets, volumes, inline files,
//! the coding agent, docker and bucket mounts; and how the file and exec APIs
//! address the guest.

use crate::base64::{encode, encoded};
use crate::envmap::{pair_text, EnvMap};
use crate::ids::{label_text, volume_label};
use crate::model::{CodingAgentConfig, MountSpec, VolumeAttach};
use crate::netaddr::{address, parse_ipv4, Ipv4};
use crate::runtime::firecracker::{counters_clear, FirecrackerRuntime};
use crate::runtime::parking::only_changed;
use crate::runtime::plan::{
    attempt, need, run_next, Action, AgentRequest, Outcome, PlanBuilder, RunStatus, RunView,
    StepView,
};
use crate::runtime::steps::text;
use crate::runtime::vm::{labelled, RecordView};
use crate::runtime::{ExecRequest, VmSpec};
use crate::text::{
    concat2, concat3, join, joined, pieces, quote, quoted, same, split, trim_front_of,
    trim_start_of, views,
};
use vstd::prelude::*;
use vstd::string::*;

verus! {

// ---------------------------------------------------------------------------
// Guest paths
// ---------------------------------------------------------------------------

/// A path's components once `.` and `..` are taken care of; nothing where `..`
/// leads above the start.
pub open spec fn walk(parts: Seq<Seq<char>>) -> Option<Seq<Seq<char>>>
    decreases parts.len(),
{
    if parts.len() == 0 {
        Some(Seq::<Seq<char>>::empty())
    } else {
        match walk(parts.drop_last()) {
            None => None,
            Some(before) => {
                let c = parts.last();
                if c.len() == 0 || c == "."@ {
                    Some(before)
                } else if c == ".."@ {
                    if before.len() == 0 {
                        None
                    } else {
                        Some(before.drop_last())
                    }
                } else {
                    Some(before.push(c))
                }
            },
        }
    }
}

/// The guest path that a path of the file API stands for: inside the workspace,
/// or nothing where it would leave it.
pub open spec fn guest_path(path: Seq<char>) -> Option<Seq<char>> {
    match walk(pieces(trim_front_of(path, '/'), '/')) {
        Some(parts) => Some("/workspace/"@ + joined(parts, "/"@)),
        None => None,
    }
}

/// The text about a path that leaves the workspace.
pub open spec fn escape_text(path: Seq<char>) -> Seq<char> {
    "path escapes workspace: "@ + path
}

/// Confine a path of the file API to the guest's workspace.
pub fn jail_guest_path(path: &str) -> (r: Result<String, String>)
    ensures
        r is Ok <==> guest_path(path@) is Some,
        r matches Ok(p) ==> Some(p@) == guest_path(path@),
        r matches Err(m) ==> m@ == escape_text(path@),
{
    let rel = trim_start_of(path, '/');
    let parts = split(rel.as_str(), '/');
    let ghost all = pieces(rel@, '/');
    let mut out: Vec<String> = Vec::new();
    let mut i: usize = 0;
    assert(views(out@) =~= Seq::<Seq<char>>::empty());
    assert(all.subrange(0, 0) =~= Seq::<Seq<char>>::empty());
    while i < parts.len()
        invariant
            i <= parts@.len(),
            views(parts@) == all,
            walk(all.subrange(0, i as int)) == Some(views(out@)),
            all == pieces(trim_front_of(path@, '/'), '/'),
        decreases parts@.len() - i,
    {
        let c = parts[i].as_str();
        let ghost before = views(out@);
        let ghost now = all.subrange(0, i + 1);
        assert(now.drop_last() =~= all.subrange(0, i as int));
        assert(now.last() == c@);
        if c.is_empty() || same(c, ".") {
        } else if same(c, "..") {
            if out.len() == 0 {
                assert(before.len() == 0);
                proof {
                    lemma_walk_stops(all, i + 1);
                }
                return Err(concat2("path escapes workspace: ", path));
            }
            let _gone = out.pop();
            assert(views(out@) =~= before.drop_last());
        } else {
            out.push(String::from_str(c));
            assert(views(out@) =~= before.push(c@));
        }
        i = i + 1;
    }
    assert(all.subrange(0, i as int) =~= all);
    Ok(concat2("/workspace/", join(&out, "/").as_str()))
}

/// A walk that has left the start does not come back.
proof fn lemma_walk_stops(parts: Seq<Seq<char>>, i: int)
    requires
        0 <= i <= parts.len(),
        walk(parts.subrange(0, i)) is None,
    ensures
        walk(parts) is None,
    decreases parts.len() - i,
{
    if i < parts.len() {
        assert(parts.subrange(0, i + 1).drop_last() =~= parts.subrange(0, i));
        lemma_walk_stops(parts, i + 1);
    } else {
        assert(parts.subrange(0, i) =~= parts);
    }
}

/// A component that stays where it is.
pub open spec fn plain_component(c: Seq<char>) -> bool {
    c.len() > 0 && c != "."@ && c != ".."@
}

/// A path that the file API accepts names something below the workspace: none
/// of its components leads up.
pub proof fn law_guest_paths_stay_inside(parts: Seq<Seq<char>>)
    requires
        walk(parts) is Some,
    ensures
        forall|i: int|
            0 <= i < walk(parts)->0.len() ==> plain_component(#[trigger] walk(parts)->0[i]),
    decreases parts.len(),
{
    if parts.len() > 0 {
        law_guest_paths_stay_inside(parts.drop_last());
        let before = walk(parts.drop_last())->0;
        let now = walk(parts)->0;
        assert forall|i: int| 0 <= i < now.len() implies plain_component(#[trigger] now[i]) by {
            if i < before.len() {
                assert(plain_component(before[i]));
            }
        }
    }
}

// ---------------------------------------------------------------------------
// Commands in the guest
// ---------------------------------------------------------------------------

/// The device letter of the volume at `i`: the root disk is `a`.
pub open spec fn device_letter(i: int) -> char {
    ((98 + i) as u8) as char
}

/// Mount the volume at `i`: by label, else by its position.
pub open spec fn mount_volume(v: VolumeAttach, i: int) -> Seq<char> {
    let at = quoted(v.mount_path@);
    "mkdir -p "@ + at + " && (mount -L "@ + label_text(v.volume_id@) + " "@ + at
        + " 2>/dev/null || mount /dev/vd"@ + seq![device_letter(i)] + " "@ + at + ")"@
}

/// Install the coding agent and put it on the path.
pub open spec fn install_agent(a: CodingAgentConfig) -> Seq<char> {
    (match a.version {
        Some(v) => "export VERSION="@ + quoted(v@) + "; "@,
        None => ""@,
    })
        + "curl -fsSL https://opencode.ai/install | bash; for d in \"$HOME/.opencode/bin\" \"$HOME/.local/bin\"; do [ -x \"$d/opencode\" ] && ln -sf \"$d/opencode\" /usr/local/bin/opencode && break; done"@
}

/// An option with its quoted value, where there is a value.
pub open spec fn flag(name: Seq<char>, value: Option<String>) -> Seq<char> {
    match value {
        Some(v) => name + quoted(v@),
        None => ""@,
    }
}

/// The assignments that put the first `n` variables into the environment of a
/// command.
pub open spec fn exports(vars: Seq<(Seq<char>, Seq<char>)>, n: int) -> Seq<char>
    decreases n,
{
    if n <= 0 {
        Seq::<char>::empty()
    } else {
        exports(vars, n - 1) + "export "@ + vars[n - 1].0 + "="@ + quoted(vars[n - 1].1) + "; "@
    }
}

/// Mount a bucket, with the credentials from the secrets.
pub open spec fn mount_bucket(m: MountSpec, secrets: Seq<(Seq<char>, Seq<char>)>) -> Seq<char> {
    "mkdir -p "@ + quoted(m.mount_path@) + "; "@ + exports(secrets, secrets.len() as int)
        + "mount-s3 "@ + quoted(m.bucket@) + " "@ + quoted(m.mount_path@) + flag(
        " --prefix "@,
        m.prefix,
    ) + (if m.read_only {
        " --read-only"@
    } else {
        ""@
    }) + flag(" --region "@, m.region) + flag(" --endpoint-url "@, m.endpoint)
}

/// Start dockerd in the guest and wait for its socket. The guest kernel has no
/// netfilter, so dockerd is told not to set up a network.
pub open spec fn start_docker() -> Seq<char> {
    "nohup dockerd --host=unix:///var/run/docker.sock --iptables=false --bridge=none >/var/log/dockerd.log 2>&1 & for i in $(seq 1 50); do [ -S /var/run/docker.sock ] && break; sleep 0.2; done"@
}

fn mount_volume_command(v: &VolumeAttach, i: usize) -> (r: String)
    requires
        crate::ids::has_label(v.volume_id@),
        i <= 157,
    ensures
        r@ == mount_volume(*v, i as int),
{
    let at = quote(v.mount_path.as_str());
    let mut c = concat3("mkdir -p ", at.as_str(), " && (mount -L ");
    c.append(volume_label(v.volume_id.as_str()).as_str());
    c.append(" ");
    c.append(at.as_str());
    c.append(" 2>/dev/null || mount /dev/vd");
    let letter: u8 = 98u8 + i as u8;
    let ghost before = c@;
    c.push(letter as char);
    assert(c@ =~= before + seq![device_letter(i as int)]);
    c.append(" ");
    c.append(at.as_str());
    c.append(")");
    c
}

fn coding_agent_install_cmd(a: &CodingAgentConfig) -> (r: String)
    ensures
        r@ == install_agent(*a),
{
    let mut c = match &a.version {
        Some(v) => concat3("export VERSION=", quote(v.as_str()).as_str(), "; "),
        None => text(""),
    };
    c.append(
        "curl -fsSL https://opencode.ai/install | bash; for d in \"$HOME/.opencode/bin\" \"$HOME/.local/bin\"; do [ -x \"$d/opencode\" ] && ln -sf \"$d/opencode\" /usr/local/bin/opencode && break; done",
    );
    c
}

fn append_flag(c: &mut String, name: &str, value: &Option<String>)
    ensures
        final(c)@ == old(c)@ + flag(name@, *value),
{
    let ghost start = c@;
    match value {
        Some(v) => {
            c.append(name);
            c.append(quote(v.as_str()).as_str());
        },
        None => {
            c.append("");
        },
    }
    assert(c@ =~= start + flag(name@, *value));
}

fn mount_bucket_command(m: &MountSpec, secrets: &EnvMap) -> (r: String)
    ensures
        r@ == mount_bucket(*m, secrets.pairs()),
{
    let at = quote(m.mount_path.as_str());
    let mut c = concat3("mkdir -p ", at.as_str(), "; ");
    let list = secrets.list();
    let ghost head = c@;
    let ghost vars = secrets.pairs();
    let mut i: usize = 0;
    assert(c@ =~= head + exports(vars, 0));
    while i < list.len()
        invariant
            i <= list@.len(),
            vars == Seq::new(list@.len(), |i: int| pair_text(list@[i])),
            c@ == head + exports(vars, i as int),
        decreases list@.len() - i,
    {
        let ghost before = c@;
        c.append("export ");
        c.append(list[i].0.as_str());
        c.append("=");
        c.append(quote(list[i].1.as_str()).as_str());
        c.append("; ");
        assert(vars[i as int] == pair_text(list@[i as int]));
        i = i + 1;
        assert(c@ =~= head + exports(vars, i as int));
    }
    c.append("mount-s3 ");
    c.append(quote(m.bucket.as_str()).as_str());
    c.append(" ");
    c.append(at.as_str());
    append_flag(&mut c, " --prefix ", &m.prefix);
    c.append(if m.read_only { " --read-only" } else { "" });
    append_flag(&mut c, " --region ", &m.region);
    append_flag(&mut c, " --endpoint-url ", &m.endpoint);
    c
}

// ---------------------------------------------------------------------------
// The plan
// ---------------------------------------------------------------------------

/// Have the guest run a command; whatever comes of it changes nothing.
pub open spec fn guest_exec(cmd: Seq<char>) -> StepView {
    attempt(Action::Agent(AgentRequest::Exec { cmd, background: false }))
}

/// Mount the volumes first: files and startup commands may lie in them. A failed
/// mount fails the boot, as writes would otherwise land in the disk that is thrown
/// away.
pub open spec fn volume_mounts(v: Seq<VolumeAttach>) -> Seq<StepView> {
    Seq::new(v.len(), |i: int| need(Action::AgentChecked(mount_volume(v[i], i))))
}

/// The first file from `i` on whose path leaves the workspace.
pub open spec fn first_escape(files: Seq<(String, Vec<u8>)>, i: int) -> Option<int>
    decreases files.len() - i,
{
    if i < 0 || i >= files.len() {
        None
    } else if guest_path(files[i].0@) is None {
        Some(i)
    } else {
        first_escape(files, i + 1)
    }
}

/// Write the first `n` files.
pub open spec fn file_writes(files: Seq<(String, Vec<u8>)>, n: int) -> Seq<StepView> {
    Seq::new(
        n as nat,
        |i: int|
            attempt(
                Action::Agent(
                    AgentRequest::WriteFile {
                        path: guest_path(files[i].0@)->0,
                        content_b64: encoded(files[i].1@),
                    },
                ),
            ),
    )
}

/// Mount the buckets among the first `n` mounts.
pub open spec fn bucket_mounts(
    mounts: Seq<MountSpec>,
    n: int,
    secrets: Seq<(Seq<char>, Seq<char>)>,
) -> Seq<StepView>
    decreases n,
{
    if n <= 0 {
        Seq::<StepView>::empty()
    } else {
        let before = bucket_mounts(mounts, n - 1, secrets);
        if mounts[n - 1].kind@ == "s3"@ {
            before.push(guest_exec(mount_bucket(mounts[n - 1], secrets)))
        } else {
            before
        }
    }
}

/// Install the coding agent where it is asked for, and time it.
pub open spec fn agent_steps(a: Option<CodingAgentConfig>) -> Seq<StepView> {
    match a {
        Some(c) if c.enabled => seq![
            attempt(Action::StartClock),
            guest_exec(install_agent(c)),
            attempt(Action::StopClock),
        ],
        _ => Seq::<StepView>::empty(),
    }
}

/// What is done in the guest, as far as it goes.
pub open spec fn feature_steps(spec: VmSpec) -> Seq<StepView> {
    let mounts = volume_mounts(spec.volumes@);
    match first_escape(spec.files@, 0) {
        Some(k) => mounts + file_writes(spec.files@, k),
        None => mounts + file_writes(spec.files@, spec.files@.len() as int) + agent_steps(
            spec.coding_agent,
        ) + (if spec.docker {
            seq![guest_exec(start_docker())]
        } else {
            Seq::<StepView>::empty()
        }) + bucket_mounts(spec.mounts@, spec.mounts@.len() as int, spec.secret_env.pairs()),
    }
}

/// What features a VM is given: the steps to carry out, and the fault with which
/// the boot then fails, if there is one.
#[derive(Debug)]
pub struct Features {
    pub plan: PlanBuilder,
    pub fault: Option<String>,
}

/// A record once a sandbox's environment and secrets are resident.
pub open spec fn resident(rec: RecordView, spec: VmSpec) -> RecordView {
    RecordView {
        resident_env: spec.env@.union_prefer_right(spec.secret_env@),
        has_secrets: spec.secret_env.pairs().len() > 0,
        ..rec
    }
}

fn add_exec(p: &mut PlanBuilder, cmd: String)
    ensures
        final(p)@ == old(p)@.push(guest_exec(cmd@)),
{
    p.attempt(Action::Agent(AgentRequest::Exec { cmd, background: false }));
}

fn add_volume_mounts(p: &mut PlanBuilder, v: &Vec<VolumeAttach>)
    requires
        labelled(v@),
        v@.len() <= 158,
    ensures
        final(p)@ == old(p)@ + volume_mounts(v@),
{
    let ghost start = p@;
    let ghost all = volume_mounts(v@);
    let mut i: usize = 0;
    assert(p@ =~= start + all.subrange(0, 0));
    while i < v.len()
        invariant
            i <= v@.len() <= 158,
            labelled(v@),
            all == volume_mounts(v@),
            p@ == start + all.subrange(0, i as int),
        decreases v@.len() - i,
    {
        assert(crate::ids::has_label(v@[i as int].volume_id@));
        p.need(Action::AgentChecked(mount_volume_command(&v[i], i)));
        i = i + 1;
        assert(p@ =~= start + all.subrange(0, i as int));
    }
    assert(all.subrange(0, i as int) =~= all);
}

fn add_files(p: &mut PlanBuilder, files: &Vec<(String, Vec<u8>)>) -> (r: Option<String>)
    ensures
        match first_escape(files@, 0) {
            Some(k) => final(p)@ == old(p)@ + file_writes(files@, k) && r is Some && r->0@
                == escape_text(files@[k].0@),
            None => final(p)@ == old(p)@ + file_writes(files@, files@.len() as int) && r is None,
        },
{
    let ghost start = p@;
    let mut i: usize = 0;
    assert(p@ =~= start + file_writes(files@, 0));
    while i < files.len()
        invariant
            i <= files@.len(),
            first_escape(files@, 0) == first_escape(files@, i as int),
            start == old(p)@,
            p@ == start + file_writes(files@, i as int),
        decreases files@.len() - i,
    {
        match jail_guest_path(files[i].0.as_str()) {
            Err(m) => {
                assert(first_escape(files@, i as int) == Some(i as int));
                return Some(m);
            },
            Ok(path) => {
                p.attempt(
                    Action::Agent(
                        AgentRequest::WriteFile { path, content_b64: encode(files[i].1.as_slice()) },
                    ),
                );
            },
        }
        i = i + 1;
        assert(p@ =~= start + file_writes(files@, i as int));
    }
    None
}

fn add_bucket_mounts(p: &mut PlanBuilder, mounts: &Vec<MountSpec>, secrets: &EnvMap)
    ensures
        final(p)@ == old(p)@ + bucket_mounts(mounts@, mounts@.len() as int, secrets.pairs()),
{
    let ghost start = p@;
    let mut i: usize = 0;
    assert(p@ =~= start + bucket_mounts(mounts@, 0, secrets.pairs()));
    while i < mounts.len()
        invariant
            i <= mounts@.len(),
            p@ == start + bucket_mounts(mounts@, i as int, secrets.pairs()),
        decreases mounts@.len() - i,
    {
        if same(mounts[i].kind.as_str(), "s3") {
            add_exec(p, mount_bucket_command(&mounts[i], secrets));
        }
        i = i + 1;
        assert(p@ =~= start + bucket_mounts(mounts@, i as int, secrets.pairs()));
    }
}

impl FirecrackerRuntime {
    /// Give a booted VM, warm or cold, what its sandbox asks for. Environment and
    /// secrets stay in the host's record and reach the guest with each exec only.
    pub fn apply_features(&mut self, handle: &str, spec: &VmSpec) -> (r: Features)
        requires
            labelled(spec.volumes@),
            spec.volumes@.len() <= 158,
        ensures
            r.plan@ == feature_steps(*spec),
            (match r.fault {
                Some(m) => Some(m@),
                None => None,
            }) == (match first_escape(spec.files@, 0) {
                Some(k) => Some(escape_text(spec.files@[k].0@)),
                None => None,
            }),
            only_changed(*old(self), *final(self), handle@),
            old(self).vms@.contains_key(handle@) ==> final(self).vms@[handle@]@ == resident(
                old(self).vms@[handle@]@,
                *spec,
            ),
            counters_clear(*old(self)) ==> counters_clear(*final(self)),
    {
        match self.vms.remove(handle) {
            None => {
                assert(self.vms@ =~= old(self).vms@);
            },
            Some(mut rec) => {
                let mut env = spec.env.copy();
                env.extend(&spec.secret_env);
                rec.resident_env = env;
                rec.has_secrets = !spec.secret_env.is_empty();
                self.vms.insert(handle, rec);
                proof {
                    crate::runtime::parking::lemma_still_clear(*old(self), *self, handle@);
                }
            },
        }
        let mut plan = PlanBuilder::new();
        add_volume_mounts(&mut plan, &spec.volumes);
        let fault = add_files(&mut plan, &spec.files);
        if fault.is_some() {
            assert(plan@ =~= feature_steps(*spec));
            return Features { plan, fault };
        }
        let ghost before_agent = plan@;
        if let Some(a) = &spec.coding_agent {
            if a.enabled {
                plan.attempt(Action::StartClock);
                add_exec(&mut plan, coding_agent_install_cmd(a));
                plan.attempt(Action::StopClock);
            }
        }
        assert(plan@ =~= before_agent + agent_steps(spec.coding_agent));
        if spec.docker {
            add_exec(
                &mut plan,
                text(
                    "nohup dockerd --host=unix:///var/run/docker.sock --iptables=false --bridge=none >/var/log/dockerd.log 2>&1 & for i in $(seq 1 50); do [ -S /var/run/docker.sock ] && break; sleep 0.2; done",
                ),
            );
        }
        add_bucket_mounts(&mut plan, &spec.mounts, &spec.secret_env);
        assert(plan@ =~= feature_steps(*spec));
        Features { plan, fault: None }
    }

    /// The environment of an exec: what is resident, with the request's own
    /// variables over it.
    pub fn exec_env(&self, handle: &str, req: &ExecRequest) -> (r: EnvMap)
        ensures
            r@ == (if self.vms@.contains_key(handle@) {
                self.vms@[handle@].resident_env@.union_prefer_right(req.env@)
            } else {
                req.env@
            }),
    {
        match self.vms.get(handle) {
            Some(rec) => {
                let mut env = rec.resident_env.copy();
                env.extend(&req.env);
                env
            },
            None => req.env.copy(),
        }
    }

    /// The guest's address for a preview; nothing where none is known, and the
    /// host's loopback is dialed.
    pub fn expose_port(&self, handle: &str) -> (r: Option<Ipv4>)
        ensures
            r == (if self.vms@.contains_key(handle@) {
                match self.vms@[handle@].guest_ip {
                    Some(ip) => address(ip@),
                    None => None,
                }
            } else {
                None
            }),
    {
        match self.vms.get(handle) {
            Some(rec) => match &rec.guest_ip {
                Some(ip) => parse_ipv4(ip.as_str()),
                None => None,
            },
            None => None,
        }
    }
}

/// The text about a volume that could not be mounted.
pub fn mount_fault(v: &VolumeAttach, exit: i64, stderr: &str) -> (r: String)
    ensures
        r@ == "mount volume "@ + v.volume_id@ + " at "@ + v.mount_path@ + " failed (exit "@
            + crate::numeral::decimal_int(exit as int) + "): "@ + stderr@,
{
    let mut m = concat3("mount volume ", v.volume_id.as_str(), " at ");
    m.append(v.mount_path.as_str());
    m.append(" failed (exit ");
    m.append(crate::numeral::to_decimal_signed(exit).as_str());
    m.append("): ");
    m.append(stderr);
    m
}

/// A volume that could not be mounted fails the boot: the first steps mount the
/// volumes in their order, and where one of them does not come out well the run has
/// failed.
pub proof fn law_failed_mount_fails_the_boot(spec: VmSpec, r: RunView, o: Outcome)
    requires
        r.steps == feature_steps(spec),
        0 <= r.at < spec.volumes@.len(),
        !o.good(),
    ensures
        r.steps[r.at].action == Action::<Seq<char>, Seq<Seq<char>>>::AgentChecked(
            mount_volume(spec.volumes@[r.at], r.at),
        ),
        run_next(r, o).status == RunStatus::Failed,
{
    assert(r.steps[r.at] == volume_mounts(spec.volumes@)[r.at]);
}

/// Secret values reach the guest as arguments of bucket mounts only: a sandbox
/// without such mounts has the same steps whatever its secrets are.
pub proof fn law_features_do_not_leak_secrets(a: VmSpec, b: VmSpec)
    requires
        b == (VmSpec { secret_env: b.secret_env, ..a }),
        a.mounts@.len() == 0,
    ensures
        feature_steps(a) == feature_steps(b),
{
}

} // verus!
