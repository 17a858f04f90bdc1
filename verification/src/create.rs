//! From an admitted request to a running sandbox: the record and the VM that are
//! made of it, what the startup recipe runs, and what each outcome changes.

use crate::admission::{either, fault, Admitted, Features};
use crate::auth::AuthContext;
use crate::catalog::{classify, ImageClass};
use crate::config::CapacityConfig;
use crate::envmap::EnvMap;
use crate::error::{ApiError, ApiResult, ErrorView};
use crate::lifecycle::State;
use crate::model::{
    BootPath, CodingAgentConfig, EgressMode, GitSpec, MountSpec, NetworkPolicy, PolicyView, Sandbox,
    StartupRecipe, Timings, VolumeAttach,
};
use crate::nodes::Nanos;
use crate::numeral::{decimal, decimal_int, to_decimal, to_decimal_signed};
use crate::placement::{
    check_quota, chosen, described, gather_node_snapshots, loads_in_range, place_locally,
    placement_fault, quota_fault, LocalStock, NodeLoad,
};
use crate::pricing::{nearest, quote, units, PricingConfig, UNIT_PARTS};
use crate::runtime::{ExecRequest, ExecResult, VmInstance, VmSpec};
use crate::scheduler::{boot_hint, NodeSnapshot, PlacementRequest};
use crate::store::active_memory;
use crate::text::{concat2, concat3, quoted};
use crate::usage::UsageInterval;
use vstd::prelude::*;
use vstd::string::*;

verus! {

// ---------------------------------------------------------------------------
// The VM and the record
// ---------------------------------------------------------------------------

/// The environment that a recipe sets; none without a recipe.
pub open spec fn recipe_env(startup: Option<StartupRecipe>) -> Map<Seq<char>, Seq<char>> {
    match startup {
        Some(s) => s.env@,
        None => Map::empty(),
    }
}

/// The network policy of a recipe; the default one without a recipe.
pub open spec fn recipe_network(startup: Option<StartupRecipe>) -> PolicyView {
    match startup {
        Some(s) => s.network@,
        None => PolicyView {
            egress: EgressMode::Default,
            allow: Seq::empty(),
            deny: Seq::empty(),
        },
    }
}

/// The VM that an admitted request is booted as.
pub open spec fn vm_of(spec: VmSpec, id: Seq<char>, org_id: Seq<char>, a: Admitted) -> bool {
    let f = a.features;
    &&& spec.sandbox_id@ == id
    &&& spec.org_id@ == org_id
    &&& spec.image_key@ == a.class.key_text()
    &&& spec.image_ref@ == a.image@
    &&& spec.resources == a.resources
    &&& spec.env@ == recipe_env(f.startup)
    &&& spec.secret_env@ == f.secret_env@
    &&& spec.browser == f.browser
    &&& spec.docker == f.docker
    &&& spec.coding_agent == f.coding_agent
    &&& spec.mounts@ == f.mounts@
    &&& spec.volumes@ == f.volumes@
    &&& spec.files@ == f.files@
    &&& spec.network@ == recipe_network(f.startup)
}

/// The agent's name as the record keeps it.
pub open spec fn agent_name(a: Option<CodingAgentConfig>) -> Option<Seq<char>> {
    match a {
        Some(c) => Some(c.kind_text()),
        None => None,
    }
}

/// The record of an admitted request before its VM is booted. The values of the
/// secrets have no part in it.
pub open spec fn record_of(
    sb: Sandbox,
    id: Seq<char>,
    org_id: Seq<char>,
    a: Admitted,
    node_id: Seq<char>,
    hint: BootPath,
    now: Nanos,
) -> bool {
    let f = a.features;
    &&& sb.id@ == id
    &&& sb.org_id@ == org_id
    &&& sb.state == State::Creating
    &&& (sb.node_id matches Some(n) && n@ == node_id)
    &&& sb.image@ == a.image@
    &&& sb.resources == a.resources
    &&& sb.auto_stop_seconds == a.auto_stop_seconds
    &&& sb.snapshot_enabled == a.snapshot
    &&& sb.browser == f.browser
    &&& sb.startup == f.startup
    &&& sb.boot_path == hint
    &&& sb.timings == Timings::zero()
    &&& sb.secret_names@ == f.secret_names@
    &&& sb.docker == f.docker
    &&& (match sb.coding_agent {
        Some(k) => Some(k@),
        None => None,
    }) == agent_name(f.coding_agent)
    &&& sb.mounts@ == f.mounts@
    &&& sb.volumes@ == f.volumes@
    &&& sb.network@ == recipe_network(f.startup)
    &&& sb.ports@.len() == 0
    &&& sb.runtime_handle is None
    &&& sb.error is None
    &&& sb.created_at == now
    &&& sb.updated_at == now
    &&& sb.last_active_at == now
}

fn copy_mounts(mounts: &Vec<MountSpec>) -> (r: Vec<MountSpec>)
    ensures
        r@ == mounts@,
{
    let mut out: Vec<MountSpec> = Vec::new();
    let mut i: usize = 0;
    while i < mounts.len()
        invariant
            i <= mounts@.len(),
            out@ == mounts@.subrange(0, i as int),
        decreases mounts@.len() - i,
    {
        out.push(mounts[i].clone());
        i = i + 1;
        assert(mounts@.subrange(0, i as int) =~= mounts@.subrange(0, i - 1).push(mounts@[i - 1]));
    }
    assert(mounts@.subrange(0, i as int) =~= mounts@);
    out
}

fn copy_volumes(volumes: &Vec<VolumeAttach>) -> (r: Vec<VolumeAttach>)
    ensures
        r@ == volumes@,
{
    let mut out: Vec<VolumeAttach> = Vec::new();
    let mut i: usize = 0;
    while i < volumes.len()
        invariant
            i <= volumes@.len(),
            out@ == volumes@.subrange(0, i as int),
        decreases volumes@.len() - i,
    {
        out.push(volumes[i].clone());
        i = i + 1;
        assert(volumes@.subrange(0, i as int) =~= volumes@.subrange(0, i - 1).push(
            volumes@[i - 1],
        ));
    }
    assert(volumes@.subrange(0, i as int) =~= volumes@);
    out
}

fn network_of(startup: &Option<StartupRecipe>) -> (r: NetworkPolicy)
    ensures
        r@ == recipe_network(*startup),
{
    match startup {
        Some(s) => s.network.clone(),
        None => {
            let d = NetworkPolicy::default();
            assert(d@.allow =~= Seq::empty());
            assert(d@.deny =~= Seq::empty());
            d
        },
    }
}

fn build(id: &str, org_id: &str, a: Admitted, node_id: String, hint: BootPath, now: Nanos) -> (r: (
    VmSpec,
    Sandbox,
))
    ensures
        vm_of(r.0, id@, org_id@, a),
        record_of(r.1, id@, org_id@, a, node_id@, hint, now),
{
    let env = match &a.features.startup {
        Some(s) => s.env.copy(),
        None => EnvMap::new(),
    };
    let network = network_of(&a.features.startup);
    let coding_agent: Option<String> = match &a.features.coding_agent {
        Some(c) => Some(String::from_str(c.kind())),
        None => None,
    };
    let mounts = copy_mounts(&a.features.mounts);
    let volumes = copy_volumes(&a.features.volumes);
    let f = a.features;
    let spec = VmSpec {
        sandbox_id: String::from_str(id),
        org_id: String::from_str(org_id),
        image_key: String::from_str(a.class.key()),
        image_ref: a.image.clone(),
        resources: a.resources,
        env,
        secret_env: f.secret_env,
        browser: f.browser,
        docker: f.docker,
        coding_agent: f.coding_agent,
        mounts,
        volumes,
        files: f.files,
        network: network_of(&f.startup),
    };
    let sb = Sandbox {
        id: String::from_str(id),
        org_id: String::from_str(org_id),
        state: State::Creating,
        node_id: Some(node_id),
        image: a.image,
        resources: a.resources,
        auto_stop_seconds: a.auto_stop_seconds,
        snapshot_enabled: a.snapshot,
        browser: f.browser,
        startup: f.startup,
        boot_path: hint,
        timings: Timings::default(),
        secret_names: f.secret_names,
        docker: f.docker,
        coding_agent,
        mounts: f.mounts,
        volumes: f.volumes,
        network,
        ports: Vec::new(),
        runtime_handle: None,
        error: None,
        created_at: now,
        updated_at: now,
        last_active_at: now,
    };
    (spec, sb)
}

/// What the scheduler is asked about an admitted request.
pub open spec fn asks(p: PlacementRequest, org_id: Seq<char>, a: Admitted) -> bool {
    &&& p.org_id@ == org_id
    &&& p.image_key@ == a.class.key_text()
    &&& p.resources == a.resources
    &&& p.browser_required == a.features.browser is Some
    &&& p.is_custom_image == a.class is Custom
}

/// The question that is put to the scheduler for an admitted request.
pub fn placement_request(org_id: &str, a: &Admitted) -> (p: PlacementRequest)
    ensures
        asks(p, org_id@, *a),
{
    PlacementRequest {
        org_id: String::from_str(org_id),
        image_key: String::from_str(a.class.key()),
        resources: a.resources,
        browser_required: a.features.browser.is_some(),
        is_custom_image: a.class.is_custom(),
    }
}

/// The part of the world that admission counts against: the org's sandboxes, the
/// load of every node, what the local node has in stock for the request, and the
/// settings by which memory is admitted.
#[derive(Debug)]
pub struct World {
    pub org_sandboxes: Vec<Sandbox>,
    pub loads: Vec<NodeLoad>,
    pub local_id: String,
    pub stock: LocalStock,
    pub capacity: CapacityConfig,
}

/// Why there is no room for an admitted request.
pub open spec fn room_fault(
    admin: bool,
    a: Admitted,
    p: PlacementRequest,
    snaps: Seq<NodeSnapshot>,
    world: World,
) -> Option<ErrorView> {
    either(
        quota_fault(
            admin,
            a.org,
            active_memory(world.org_sandboxes@, world.org_sandboxes@.len() as int),
            a.resources,
        ),
        placement_fault(p, snaps, world.local_id@),
    )
}

/// Reserve room for an admitted request: the VM to boot and the record to store,
/// in state creating, or the reason why there is none. Until the record is stored
/// the caller keeps the admission lock.
pub fn create_sandbox(ctx: &AuthContext, a: Admitted, world: &World, id: &str, now: Nanos) -> (r: ApiResult<
    (VmSpec, Sandbox),
>)
    requires
        world.org_sandboxes@.len() <= 0xffff_ffff,
        loads_in_range(world.loads@),
    ensures
        exists|p: PlacementRequest, snaps: Seq<NodeSnapshot>|
            {
                &&& asks(p, ctx.org_id@, a)
                &&& #[trigger] described(
                    snaps,
                    world.loads@,
                    p,
                    world.local_id@,
                    world.stock,
                    world.capacity,
                )
                &&& fault(r) == room_fault(ctx.admin, a, p, snaps, *world)
                &&& r matches Ok((spec, sb)) ==> {
                    &&& vm_of(spec, id@, ctx.org_id@, a)
                    &&& record_of(
                        sb,
                        id@,
                        ctx.org_id@,
                        a,
                        world.local_id@,
                        boot_hint(snaps[chosen(p, snaps)]),
                        now,
                    )
                }
            },
{
    let p = placement_request(ctx.org_id.as_str(), &a);
    let snaps = gather_node_snapshots(
        &world.loads,
        &p,
        world.local_id.as_str(),
        world.stock,
        &world.capacity,
    );
    assert(described(
        snaps@,
        world.loads@,
        p,
        world.local_id@,
        world.stock,
        world.capacity,
    ));
    if let Err(e) = check_quota(ctx.admin, &a.org, world.org_sandboxes.as_slice(), &a.resources) {
        return Err(e);
    }
    match place_locally(&p, &snaps, world.local_id.as_str()) {
        Err(e) => Err(e),
        Ok(placed) => Ok(
            build(id, ctx.org_id.as_str(), a, placed.node_id, placed.boot_path_hint, now),
        ),
    }
}

/// The stored record is the same whatever the values of the secrets are.
pub proof fn law_record_holds_no_secret_values(
    sb: Sandbox,
    id: Seq<char>,
    org_id: Seq<char>,
    a: Admitted,
    values: EnvMap,
    node_id: Seq<char>,
    hint: BootPath,
    now: Nanos,
)
    ensures
        record_of(sb, id, org_id, a, node_id, hint, now) == record_of(
            sb,
            id,
            org_id,
            Admitted { features: Features { secret_env: values, ..a.features }, ..a },
            node_id,
            hint,
            now,
        ),
{
}

// ---------------------------------------------------------------------------
// After the boot
// ---------------------------------------------------------------------------

/// The record once the VM runs.
pub open spec fn booted(sb: Sandbox, vm: VmInstance) -> Sandbox {
    Sandbox {
        runtime_handle: Some(vm.handle),
        boot_path: vm.boot_path,
        state: State::Running,
        timings: Timings {
            boot_ms: vm.boot_ms,
            image_cache_ms: vm.image_cache_ms,
            browser_ready_ms: vm.browser_ready_ms,
            agent_ms: vm.agent_ms,
            ..sb.timings
        },
        ..sb
    }
}

/// Note that the VM runs: the boot path it took and what each phase cost.
pub fn note_booted(sb: &mut Sandbox, vm: VmInstance)
    ensures
        *final(sb) == booted(*old(sb), vm),
{
    sb.boot_path = vm.boot_path;
    sb.state = State::Running;
    sb.timings.boot_ms = vm.boot_ms;
    sb.timings.image_cache_ms = vm.image_cache_ms;
    sb.timings.browser_ready_ms = vm.browser_ready_ms;
    sb.timings.agent_ms = vm.agent_ms;
    sb.runtime_handle = Some(vm.handle);
}

/// Note that the boot failed, and the error that the caller gets.
pub fn note_boot_failed(sb: &mut Sandbox, cause: &str, now: Nanos) -> (r: ApiError)
    ensures
        r@ == ErrorView::Internal(cause@),
        final(sb).error matches Some(m) && m@ == "boot failed: "@ + cause@,
        *final(sb) == (Sandbox {
            state: State::Failed,
            error: final(sb).error,
            updated_at: now,
            ..*old(sb)
        }),
{
    sb.state = State::Failed;
    sb.error = Some(concat2("boot failed: ", cause));
    sb.updated_at = now;
    ApiError::Internal(String::from_str(cause))
}

/// Note that creating is over.
pub fn note_created(sb: &mut Sandbox, total_ms: u64, now: Nanos)
    ensures
        *final(sb) == (Sandbox {
            timings: Timings { total_ms, ..old(sb).timings },
            updated_at: now,
            last_active_at: now,
            ..*old(sb)
        }),
{
    sb.timings.total_ms = total_ms;
    sb.updated_at = now;
    sb.last_active_at = now;
}

// ---------------------------------------------------------------------------
// The startup recipe
// ---------------------------------------------------------------------------

/// The shell command that clones a repository into the workspace: the branch
/// first, and the default one where there is no such branch.
pub open spec fn clone_command(g: GitSpec) -> Seq<char> {
    "git clone --depth "@ + decimal(g.depth as nat) + " --branch "@ + g.git_ref@ + " "@ + quoted(
        g.url@,
    ) + " . 2>&1 || git clone --depth "@ + decimal(g.depth as nat) + " "@ + quoted(g.url@) + " ."@
}

/// The clone that a recipe asks for.
pub fn git_request(g: &GitSpec) -> (r: ExecRequest)
    ensures
        r.cmd@ == clone_command(*g),
        r.cwd is None,
        r.env@ == Map::<Seq<char>, Seq<char>>::empty(),
        !r.background,
{
    let depth = to_decimal(g.depth as u64);
    let url = crate::text::quote(g.url.as_str());
    let mut cmd = concat3("git clone --depth ", depth.as_str(), " --branch ");
    cmd.append(g.git_ref.as_str());
    cmd.append(" ");
    cmd.append(url.as_str());
    cmd.append(" . 2>&1 || git clone --depth ");
    cmd.append(depth.as_str());
    cmd.append(" ");
    cmd.append(url.as_str());
    cmd.append(" .");
    ExecRequest { cmd, cwd: None, env: EnvMap::new(), background: false }
}

/// The error that a clone leaves on the record, if it leaves one.
pub open spec fn clone_error(res: Result<ExecResult, String>) -> Option<Seq<char>> {
    match res {
        Ok(r) => if r.exit_code != 0 {
            Some("git clone exit "@ + decimal_int(r.exit_code as int) + ": "@ + r.stderr@)
        } else {
            None
        },
        Err(e) => Some("git clone failed: "@ + e@),
    }
}

/// Note how the clone went. A clone that fails does not stop the startup.
pub fn note_git(sb: &mut Sandbox, res: &Result<ExecResult, String>, ms: u64)
    ensures
        match clone_error(*res) {
            Some(m) => final(sb).error matches Some(e) && e@ == m,
            None => final(sb).error == old(sb).error,
        },
        *final(sb) == (Sandbox {
            timings: Timings { git_ms: ms, ..old(sb).timings },
            error: final(sb).error,
            ..*old(sb)
        }),
{
    sb.timings.git_ms = ms;
    match res {
        Ok(r) => {
            if r.exit_code != 0 {
                let mut m = concat3(
                    "git clone exit ",
                    to_decimal_signed(r.exit_code as i64).as_str(),
                    ": ",
                );
                m.append(r.stderr.as_str());
                sb.error = Some(m);
            }
        },
        Err(e) => {
            sb.error = Some(concat2("git clone failed: ", e.as_str()));
        },
    }
}

/// The commands of a recipe as they are run, in its order, each with the
/// recipe's environment.
pub fn command_requests(recipe: &StartupRecipe) -> (r: Vec<ExecRequest>)
    ensures
        r@.len() == recipe.commands@.len(),
        forall|i: int|
            0 <= i < r@.len() ==> {
                &&& (#[trigger] r@[i]).cmd@ == recipe.commands@[i].run@
                &&& r@[i].cwd is None
                &&& r@[i].env@ == recipe.env@
                &&& r@[i].background == recipe.commands@[i].background
            },
{
    let mut out: Vec<ExecRequest> = Vec::new();
    let mut i: usize = 0;
    while i < recipe.commands.len()
        invariant
            i <= recipe.commands@.len(),
            out@.len() == i,
            forall|k: int|
                0 <= k < i ==> {
                    &&& (#[trigger] out@[k]).cmd@ == recipe.commands@[k].run@
                    &&& out@[k].cwd is None
                    &&& out@[k].env@ == recipe.env@
                    &&& out@[k].background == recipe.commands@[k].background
                },
        decreases recipe.commands@.len() - i,
    {
        out.push(
            ExecRequest {
                cmd: recipe.commands[i].run.clone(),
                cwd: None,
                env: recipe.env.copy(),
                background: recipe.commands[i].background,
            },
        );
        i = i + 1;
    }
    out
}

/// Note how long the commands took; a recipe without commands took no time.
pub fn note_install(sb: &mut Sandbox, recipe: &StartupRecipe, ms: u64)
    ensures
        *final(sb) == (if recipe.commands@.len() > 0 {
            Sandbox { timings: Timings { install_ms: ms, ..old(sb).timings }, ..*old(sb) }
        } else {
            *old(sb)
        }),
{
    if recipe.commands.len() > 0 {
        sb.timings.install_ms = ms;
    }
}

/// The list with the port in it.
pub open spec fn with_port(ports: Seq<u16>, port: u16) -> Seq<u16> {
    if ports.contains(port) {
        ports
    } else {
        ports.push(port)
    }
}

fn has_port(ports: &Vec<u16>, port: u16) -> (r: bool)
    ensures
        r == ports@.contains(port),
{
    let mut i: usize = 0;
    while i < ports.len()
        invariant
            i <= ports@.len(),
            forall|k: int| 0 <= k < i ==> ports@[k] != port,
        decreases ports@.len() - i,
    {
        if ports[i] == port {
            return true;
        }
        i = i + 1;
    }
    false
}

/// Note that a port was exposed. A port is listed once.
pub fn note_port(sb: &mut Sandbox, port: u16)
    ensures
        final(sb).ports@ == with_port(old(sb).ports@, port),
        *final(sb) == (Sandbox { ports: final(sb).ports, ..*old(sb) }),
{
    if !has_port(&sb.ports, port) {
        sb.ports.push(port);
    }
}

/// Does the port still have to be exposed?
pub fn lacks_port(sb: &Sandbox, port: u16) -> (r: bool)
    ensures
        r == !sb.ports@.contains(port),
{
    !has_port(&sb.ports, port)
}

/// The port of a browser's VNC preview.
pub const VNC_PORT: u16 = 6080;

/// The port of a browser's DevTools preview.
pub const CDP_PORT: u16 = 9222;

/// The ports that a browser sandbox exposes on its own.
pub fn browser_ports(sb: &Sandbox) -> (r: Vec<u16>)
    ensures
        r@ == (if sb.browser is Some {
            seq![VNC_PORT, CDP_PORT]
        } else {
            Seq::empty()
        }),
{
    let mut v: Vec<u16> = Vec::new();
    if sb.browser.is_some() {
        v.push(VNC_PORT);
        v.push(CDP_PORT);
    }
    v
}

/// The URL to wait for and the seconds to wait, where a recipe has a ready check.
pub fn ready_request(recipe: &StartupRecipe) -> (r: Option<(String, u32)>)
    ensures
        match recipe.ready {
            Some(c) => match c.http {
                Some(url) => r matches Some(p) && p.0@ == url@ && p.1 == c.timeout_seconds,
                None => r is None,
            },
            None => r is None,
        },
{
    match &recipe.ready {
        Some(c) => match &c.http {
            Some(url) => Some((url.clone(), c.timeout_seconds)),
            None => None,
        },
        None => None,
    }
}

/// Note how long the ready check took.
pub fn note_ready(sb: &mut Sandbox, ms: u64)
    ensures
        *final(sb) == (Sandbox {
            timings: Timings { ready_ms: ms, ..old(sb).timings },
            ..*old(sb)
        }),
{
    sb.timings.ready_ms = ms;
}

/// Ports stay listed once, however often one is exposed.
pub proof fn law_ports_are_listed_once(ports: Seq<u16>, port: u16)
    requires
        ports.no_duplicates(),
    ensures
        with_port(ports, port).no_duplicates(),
        with_port(ports, port).contains(port),
        with_port(with_port(ports, port), port) == with_port(ports, port),
{
    if !ports.contains(port) {
        assert(ports.push(port)[ports.len() as int] == port);
    }
}

// ---------------------------------------------------------------------------
// Metering
// ---------------------------------------------------------------------------

/// The class by which a stored sandbox is priced: that of its image, and base
/// for an image that is no longer known.
pub open spec fn priced_as(c: ImageClass, image: Seq<char>) -> bool {
    c.named(image) || (c == ImageClass::Base && !crate::catalog::known_image(image))
}

/// The interval that meters a sandbox from now on, at today's price.
pub fn new_interval(cfg: &PricingConfig, sb: &Sandbox, id: String, now: Nanos) -> (r: UsageInterval)
    requires
        cfg.wf(),
    ensures
        r.id@ == id@,
        r.sandbox_id@ == sb.id@,
        r.org_id@ == sb.org_id@,
        r.resources == sb.resources,
        r.resource_units_e4 == nearest(units(sb.resources) * 10_000, UNIT_PARTS as int),
        r.unit_price_nano_usd_hr == cfg.default_unit_price_nano_usd_hr,
        r.started_at == now,
        r.ended_at is None,
        exists|c: ImageClass| #[trigger]
            priced_as(c, sb.image@) && r.image_key@ == c.key_text() && r.image_multiplier_milli
                == cfg.multiplier(c),
{
    let class = match classify(sb.image.as_str()) {
        Ok(c) => c,
        Err(_) => ImageClass::Base,
    };
    assert(priced_as(class, sb.image@));
    let q = quote(cfg, &sb.resources, &class);
    UsageInterval {
        id,
        sandbox_id: sb.id.clone(),
        org_id: sb.org_id.clone(),
        resources: sb.resources,
        image_key: String::from_str(class.key()),
        resource_units_e4: q.resource_units_e4,
        image_multiplier_milli: q.image_multiplier_milli,
        unit_price_nano_usd_hr: q.unit_price_nano_usd_hr,
        started_at: now,
        ended_at: None,
    }
}

} // verus!
