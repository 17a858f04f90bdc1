//! What changes in place: the records of sandboxes, volumes, images and nodes, the pools of
//! warm VMs, and the tables of the runtimes.

use crate::background::retire_image;
use crate::builder::{finish, Stage};
use crate::create::{
    note_boot_failed, note_booted, note_created, note_git, note_install, note_port, note_ready,
};
use crate::envmap::EnvMap;
use crate::error::ApiError;
use crate::hotpool::{HotPools, KeyView, ShapeKey};
use crate::images::{CustomImage, ImageStatus};
use crate::knobs::Resources;
use crate::laws::states::says;
use crate::lifecycle::State;
use crate::model::{BootPath, Sandbox, StartupRecipe, Volume};
use crate::node::claim_warm;
use crate::nodes::{Nanos, Node};
use crate::runtime::features::{feature_steps, Features};
use crate::runtime::firecracker::{BootTicket, FirecrackerRuntime, Launch, PooledJail};
use crate::runtime::mock::MockRuntime;
use crate::runtime::plan::PlanBuilder;
use crate::runtime::siblings::{Nic, PoolSpawn};
use crate::runtime::vm::VmRecord;
use crate::runtime::{ExecResult, VmInstance, VmSpec, WarmVm};
use crate::service::{attach_volume, detach_volume, recompute_org_spend, touch_activity};
use crate::store::{close_open_usage, open_usage_if_none};
use crate::usage::{metered_cost, Org, UsageInterval};
use vstd::prelude::*;
use vstd::string::*;

verus! {

// ---------------------------------------------------------------------------
// Volumes
// ---------------------------------------------------------------------------

/// Who a volume is and what it holds.
pub open spec fn same_volume(a: Volume, b: Volume) -> bool {
    a.id == b.id && a.org_id == b.org_id && a.name == b.name && a.size_gb == b.size_gb
        && a.created_at == b.created_at
}

/// A volume is attached exactly when it is free, and then to the sandbox that asks.
pub proof fn law_free_volumes_are_attached(v: &mut Volume, id: &str, now: Nanos, r: bool)
    requires
        call_ensures(attach_volume, (v, id, now), r),
    ensures
        r <==> old(v).attached_to is None,
        r ==> says(final(v).attached_to, id@) && final(v).updated_at == now,
        !r ==> final(v).attached_to == old(v).attached_to && final(v).updated_at
            == old(v).updated_at,
        same_volume(*old(v), *final(v)),
{
}

/// A volume is given back by the sandbox that has it, and by no other.
pub proof fn law_own_volumes_are_detached(v: &mut Volume, id: &str, now: Nanos, r: bool)
    requires
        call_ensures(detach_volume, (v, id, now), r),
    ensures
        r <==> says(old(v).attached_to, id@),
        r ==> final(v).attached_to is None && final(v).updated_at == now,
        !r ==> final(v).attached_to == old(v).attached_to && final(v).updated_at
            == old(v).updated_at,
        same_volume(*old(v), *final(v)),
{
}

// ---------------------------------------------------------------------------
// Records of sandboxes
// ---------------------------------------------------------------------------

/// Whose a sandbox is, what it is, and what it may do: nothing of this changes while it
/// starts.
pub open spec fn same_sandbox(a: Sandbox, b: Sandbox) -> bool {
    &&& a.id == b.id && a.org_id == b.org_id && a.node_id == b.node_id
    &&& a.image == b.image && a.resources == b.resources && a.network == b.network
    &&& a.auto_stop_seconds == b.auto_stop_seconds && a.snapshot_enabled == b.snapshot_enabled
    &&& a.browser == b.browser && a.docker == b.docker && a.startup == b.startup
    &&& a.secret_names == b.secret_names && a.mounts == b.mounts && a.volumes == b.volumes
    &&& a.created_at == b.created_at
}

/// Use is noted, and nothing else changes.
pub proof fn law_use_is_noted(sb: &mut Sandbox, now: Nanos)
    requires
        call_ensures(touch_activity, (sb, now), ()),
    ensures
        final(sb).last_active_at == now,
        *old(sb) == (Sandbox { last_active_at: old(sb).last_active_at, ..*final(sb) }),
{
}

/// A sandbox whose VM runs is running, and remembers the VM, how it came up and how long
/// that took.
pub proof fn law_boots_are_noted(sb: &mut Sandbox, vm: VmInstance)
    requires
        call_ensures(note_booted, (sb, vm), ()),
    ensures
        final(sb).state == State::Running,
        final(sb).runtime_handle == Some(vm.handle) && final(sb).boot_path == vm.boot_path,
        final(sb).timings.boot_ms == vm.boot_ms,
        final(sb).timings.image_cache_ms == vm.image_cache_ms,
        final(sb).timings.browser_ready_ms == vm.browser_ready_ms,
        final(sb).timings.agent_ms == vm.agent_ms,
        final(sb).error == old(sb).error && final(sb).ports == old(sb).ports,
        same_sandbox(*old(sb), *final(sb)),
{
}

/// A sandbox whose boot failed has failed, with the cause.
pub proof fn law_failed_boots_are_noted(sb: &mut Sandbox, cause: &str, now: Nanos, r: ApiError)
    requires
        call_ensures(note_boot_failed, (sb, cause, now), r),
    ensures
        final(sb).state == State::Failed,
        says(final(sb).error, "boot failed: "@ + cause@),
        final(sb).updated_at == now,
        r matches ApiError::Internal(m) && m@ == cause@,
        same_sandbox(*old(sb), *final(sb)),
{
}

/// Once a sandbox is created, it counts as just used, and the time that all of it took is
/// noted.
pub proof fn law_creation_is_noted(sb: &mut Sandbox, total_ms: u64, now: Nanos)
    requires
        call_ensures(note_created, (sb, total_ms, now), ()),
    ensures
        final(sb).timings.total_ms == total_ms,
        final(sb).timings.boot_ms == old(sb).timings.boot_ms,
        final(sb).updated_at == now && final(sb).last_active_at == now,
        final(sb).state == old(sb).state && final(sb).error == old(sb).error,
        final(sb).ports == old(sb).ports && final(sb).runtime_handle == old(sb).runtime_handle,
        same_sandbox(*old(sb), *final(sb)),
{
}

/// A clone that fails leaves its error on the record; one that does not leaves none. The
/// sandbox stays in its state either way.
pub proof fn law_clones_are_noted(sb: &mut Sandbox, res: Result<ExecResult, String>, ms: u64)
    requires
        call_ensures(note_git, (sb, &res, ms), ()),
    ensures
        final(sb).timings.git_ms == ms,
        final(sb).state == old(sb).state,
        res matches Ok(x) ==> x.exit_code == 0 ==> final(sb).error == old(sb).error,
        res matches Ok(x) ==> x.exit_code != 0 ==> final(sb).error is Some,
        res matches Err(e) ==> says(final(sb).error, "git clone failed: "@ + e@),
        same_sandbox(*old(sb), *final(sb)),
{
}

/// How long the commands of a recipe and its ready check took is noted.
pub proof fn law_startup_is_noted(
    a: &mut Sandbox,
    b: &mut Sandbox,
    recipe: StartupRecipe,
    ms: u64,
)
    requires
        call_ensures(note_install, (a, &recipe, ms), ()),
        call_ensures(note_ready, (b, ms), ()),
    ensures
        recipe.commands@.len() > 0 ==> final(a).timings.install_ms == ms,
        recipe.commands@.len() == 0 ==> final(a).timings == old(a).timings,
        final(a).timings.ready_ms == old(a).timings.ready_ms,
        final(b).timings.ready_ms == ms,
        final(b).timings.install_ms == old(b).timings.install_ms,
        final(a).state == old(a).state && final(b).state == old(b).state,
        final(a).error == old(a).error && final(b).error == old(b).error,
{
}

/// An exposed port is listed, behind those that were, and nothing else changes.
pub proof fn law_ports_are_noted(sb: &mut Sandbox, port: u16, other: u16)
    requires
        call_ensures(note_port, (sb, port), ()),
    ensures
        final(sb).ports@.contains(port),
        old(sb).ports@.contains(other) ==> final(sb).ports@.contains(other),
        other != port && final(sb).ports@.contains(other) ==> old(sb).ports@.contains(other),
        final(sb).ports@.len() <= old(sb).ports@.len() + 1,
        old(sb).ports@.contains(port) ==> final(sb).ports@ == old(sb).ports@,
        final(sb).state == old(sb).state && same_sandbox(*old(sb), *final(sb)),
{
    let (was, is) = (old(sb).ports@, final(sb).ports@);
    if !was.contains(port) {
        assert(is[was.len() as int] == port);
        if was.contains(other) {
            let k = choose|k: int| 0 <= k < was.len() && was[k] == other;
            assert(is[k] == other);
        }
        if other != port && is.contains(other) {
            let k = choose|k: int| 0 <= k < is.len() && is[k] == other;
            assert(was[k] == other);
        }
    }
}

// ---------------------------------------------------------------------------
// Metering
// ---------------------------------------------------------------------------

/// A sandbox is metered once: an interval is opened unless one is open, and nothing that
/// was metered is lost.
pub proof fn law_meters_are_opened(ivs: &mut Vec<UsageInterval>, iv: UsageInterval, i: int, r: bool)
    requires
        call_ensures(open_usage_if_none, (ivs, iv), r),
        0 <= i < old(ivs)@.len(),
    ensures
        old(ivs)@[i].sandbox_id@ == iv.sandbox_id@ && old(ivs)@[i].ended_at is None ==> !r,
        final(ivs)@[i] == old(ivs)@[i],
        r ==> final(ivs)@.len() == old(ivs)@.len() + 1 && final(ivs)@.last() == iv,
        !r ==> final(ivs)@.len() == old(ivs)@.len(),
{
    if old(ivs)@[i].sandbox_id@ == iv.sandbox_id@ && old(ivs)@[i].ended_at is None {
        assert(crate::store::open_for(old(ivs)@[i], iv.sandbox_id@));
    }
}

/// The first interval of a sandbox is always opened.
pub proof fn law_first_meter_is_opened(ivs: &mut Vec<UsageInterval>, iv: UsageInterval, r: bool)
    requires
        call_ensures(open_usage_if_none, (ivs, iv), r),
        forall|i: int|
            0 <= i < old(ivs)@.len() ==> (#[trigger] old(ivs)@[i]).sandbox_id@ != iv.sandbox_id@
                || old(ivs)@[i].ended_at is Some,
    ensures
        r,
        final(ivs)@ == old(ivs)@.push(iv),
{
}

/// Closing ends the open intervals of one sandbox at the time given, and touches no other.
pub proof fn law_meters_are_closed(
    ivs: &mut Vec<UsageInterval>,
    id: &str,
    end: Nanos,
    i: int,
)
    requires
        call_ensures(close_open_usage, (ivs, id, end), ()),
        0 <= i < old(ivs)@.len(),
    ensures
        final(ivs)@.len() == old(ivs)@.len(),
        old(ivs)@[i].sandbox_id@ != id@ || old(ivs)@[i].ended_at is Some ==> final(ivs)@[i]
            == old(ivs)@[i],
        old(ivs)@[i].sandbox_id@ == id@ && old(ivs)@[i].ended_at is None
            ==> final(ivs)@[i].ended_at == Some(end) && final(ivs)@[i].started_at
            == old(ivs)@[i].started_at && final(ivs)@[i].unit_price_nano_usd_hr
            == old(ivs)@[i].unit_price_nano_usd_hr && final(ivs)@[i].resources
            == old(ivs)@[i].resources,
{
}

/// An org has spent what it was metered for, whatever was noted before.
pub proof fn law_spending_is_what_was_metered(
    org: &mut Org,
    ivs: Vec<UsageInterval>,
    now: Nanos,
    cost: i128,
)
    requires
        call_ensures(recompute_org_spend, (org, &ivs, now), ()),
        call_ensures(metered_cost, (&ivs, now), cost),
    ensures
        final(org).spent == cost,
        final(org).prepaid_credits == old(org).prepaid_credits,
        final(org).quota_mb == old(org).quota_mb && final(org).status == old(org).status,
        final(org).id == old(org).id,
{
}

// ---------------------------------------------------------------------------
// Images and nodes
// ---------------------------------------------------------------------------

/// An image is retired exactly when it was to be kept for a time that is over and nothing
/// that is active runs it.
pub proof fn law_images_are_retired(
    img: &mut CustomImage,
    active: Vec<Sandbox>,
    now: Nanos,
    r: bool,
)
    requires
        call_ensures(retire_image, (img, &active, now), r),
    ensures
        r ==> final(img).status == ImageStatus::Deleted && final(img).updated_at == now,
        r ==> old(img).ephemeral && (old(img).expires_at matches Some(t) && now >= t),
        !r ==> *final(img) == *old(img),
        r ==> forall|i: int|
            0 <= i < active@.len() ==> (#[trigger] active@[i]).image@ != old(img).name@,
        old(img).ephemeral && (old(img).expires_at matches Some(t) && now >= t) && active@.len()
            == 0 ==> r,
        final(img).id == old(img).id && final(img).org_id == old(img).org_id && final(img).name
            == old(img).name,
{
}

/// A withdrawn image is deleted for those who ask for it from now on.
pub proof fn law_images_are_withdrawn(img: &mut CustomImage, now: Nanos)
    requires
        call_ensures(crate::api::images::delete, (img, now), ()),
    ensures
        final(img).status == ImageStatus::Deleted && final(img).updated_at == now,
        *old(img) == (CustomImage {
            status: old(img).status,
            updated_at: old(img).updated_at,
            ..*final(img)
        }),
{
}

/// A build that is done makes its image ready, with the size it takes; one that failed
/// makes it failed.
pub proof fn law_builds_are_noted(
    img: &mut CustomImage,
    s: Stage<String>,
    log: &str,
    took_ms: u64,
    now: Nanos,
)
    requires
        call_ensures(finish, (img, &s, log, took_ms, now), ()),
    ensures
        s matches Stage::Done(bytes) ==> final(img).status == ImageStatus::Ready
            && final(img).storage_bytes == bytes && final(img).first_node_cache_miss_ms == Some(
            took_ms,
        ) && final(img).updated_at == now,
        s is Failed ==> final(img).status == ImageStatus::Failed && final(img).storage_bytes
            == old(img).storage_bytes && final(img).updated_at == now,
        s is Done || s is Failed ==> final(img).id == old(img).id && final(img).org_id
            == old(img).org_id && final(img).name == old(img).name && final(img).version
            == old(img).version && final(img).ephemeral == old(img).ephemeral
            && final(img).expires_at == old(img).expires_at,
{
}

/// A drained node takes nothing more, and is otherwise the node it was.
pub proof fn law_nodes_are_drained(node: &mut Node, now: Nanos, takes: bool)
    requires
        call_ensures(Node::drain, (node, now), ()),
    ensures
        !final(node).schedulable && final(node).draining,
        final(node).last_heartbeat_at == now,
        final(node).id == old(node).id && final(node).total_memory_kb == old(node).total_memory_kb,
        final(node).kvm_ok == old(node).kvm_ok && final(node).advertise_addr
            == old(node).advertise_addr,
{
}

// ---------------------------------------------------------------------------
// Pools of warm VMs
// ---------------------------------------------------------------------------

/// A claim takes the oldest warm VM of the shape, and touches no other pool.
pub proof fn law_oldest_is_claimed(
    pools: &mut HotPools,
    key: ShapeKey,
    other: KeyView,
    r: Option<String>,
)
    requires
        call_ensures(HotPools::claim, (pools, &key), r),
    ensures
        r is Some <==> old(pools).queue_of(key@).len() > 0,
        r matches Some(h) ==> old(pools).queue_of(key@) == seq![h@] + final(pools).queue_of(key@),
        other != key@ ==> final(pools).queue_of(other) == old(pools).queue_of(other),
        final(pools).target_of(other) == old(pools).target_of(other),
{
    if r is Some {
        let q = old(pools).queue_of(key@);
        assert(final(pools).queue_of(key@) == q.subrange(1, q.len() as int));
        assert(q =~= seq![r->0@] + q.subrange(1, q.len() as int));
    }
}

/// A VM that was warmed is the youngest of its pool.
pub proof fn law_youngest_is_pushed(pools: &mut HotPools, key: ShapeKey, h: String)
    requires
        call_ensures(HotPools::push, (pools, key, h), ()),
    ensures
        final(pools).queue_of(key@) == old(pools).queue_of(key@) + seq![h@],
        final(pools).target_of(key@) == old(pools).target_of(key@),
{
    assert(final(pools).queue_of(key@) == old(pools).queue_of(key@).push(h@));
}

/// A pool has the target that was set, and the warm VMs that it had.
pub proof fn law_targets(pools: &mut HotPools, key: ShapeKey, n: u32)
    requires
        call_ensures(HotPools::set_target, (pools, key, n), ()),
    ensures
        final(pools).target_of(key@) == n,
        final(pools).configured(key@),
        final(pools).queue_of(key@) == old(pools).queue_of(key@),
{
}

/// What a pool lacks: warm VMs until it has as many as its target.
pub proof fn law_what_a_pool_lacks(
    pools: HotPools,
    key: ShapeKey,
    target: u32,
    ready: u32,
    lacks: u32,
)
    requires
        call_ensures(HotPools::target, (&pools, &key), target),
        call_ensures(HotPools::available, (&pools, &key), ready),
        call_ensures(HotPools::deficit, (&pools, &key), lacks),
    ensures
        ready <= target ==> ready + lacks == target,
        ready >= target ==> lacks == 0,
{
}

/// Two keys name one pool exactly when they agree in image and shape.
pub proof fn law_exact_shapes(image: &str, r: Resources, k: ShapeKey, other: ShapeKey, same: bool)
    requires
        call_ensures(ShapeKey::new, (image, &r), k),
        call_ensures(ShapeKey::matches, (&k, &other), same),
    ensures
        same <==> other.image_key@ == image@ && other.cpu_milli == r.cpu_milli && other.memory_mb
            == r.memory_mb && other.disk_gb == r.disk_gb,
{
}

/// A sandbox gets a warm VM of its own image and shape. One with volumes gets none: a warm
/// VM was booted without them.
pub proof fn law_warm_vms_fit(pools: &mut HotPools, spec: VmSpec, r: Option<WarmVm>)
    requires
        call_ensures(claim_warm, (pools, &spec), r),
    ensures
        spec.volumes@.len() > 0 ==> r is None && *final(pools) == *old(pools),
        r matches Some(w) ==> w.image_key@ == spec.image_key@ && w.resources == spec.resources,
        r matches Some(w) ==> old(pools).queue_of(
            KeyView {
                image_key: spec.image_key@,
                cpu_milli: spec.resources.cpu_milli,
                memory_mb: spec.resources.memory_mb,
                disk_gb: spec.resources.disk_gb,
            },
        )[0] == w.handle@,
{
}

// ---------------------------------------------------------------------------
// The table of VMs
// ---------------------------------------------------------------------------

/// Two VMs that are booted one after the other have different CIDs and different taps.
pub proof fn law_numbers_are_used_once(
    rt: &mut FirecrackerRuntime,
    nic: Nic,
)
    requires
        call_ensures(FirecrackerRuntime::allocate_nic, (rt,), nic),
        old(rt).next_cid < u32::MAX,
        old(rt).next_tap < u32::MAX,
    ensures
        nic.cid == old(rt).next_cid && final(rt).next_cid > nic.cid,
        nic.tap_idx == old(rt).next_tap && final(rt).next_tap > nic.tap_idx,
        final(rt).vms == old(rt).vms && final(rt).pool == old(rt).pool && final(rt).settings
            == old(rt).settings,
{
}

/// A boot that begins takes a CID of its own; one that is launched takes a tap of its own.
/// A boot that is refused takes nothing.
pub proof fn law_boots_take_numbers(
    a: &mut FirecrackerRuntime,
    b: &mut FirecrackerRuntime,
    spec: VmSpec,
    cid: u32,
    t: Result<BootTicket, String>,
    l: Result<Launch, String>,
)
    requires
        call_ensures(FirecrackerRuntime::begin_boot, (a, &spec), t),
        call_ensures(FirecrackerRuntime::boot, (b, &spec, cid), l),
        old(a).next_cid < u32::MAX,
        old(b).next_tap < u32::MAX,
    ensures
        t matches Ok(x) ==> x.cid == old(a).next_cid && final(a).next_cid == x.cid + 1
            && final(a).next_tap == old(a).next_tap && final(a).vms == old(a).vms,
        t is Err ==> *final(a) == *old(a),
        l matches Ok(x) ==> x.record.cid == cid && x.record.tap_idx == Some(old(b).next_tap)
            && final(b).next_tap == old(b).next_tap + 1 && final(b).vms == old(b).vms,
        l is Err ==> *final(b) == *old(b),
{
}

/// A VM that is entered is in the table under its handle, with its process; the others are
/// as they were.
pub proof fn law_vms_are_entered(
    rt: &mut FirecrackerRuntime,
    handle: &str,
    rec: VmRecord,
    pid: Option<u32>,
    other: Seq<char>,
)
    requires
        call_ensures(FirecrackerRuntime::register, (rt, handle, rec, pid), ()),
    ensures
        final(rt).vms@.contains_key(handle@),
        final(rt).vms@[handle@].pid == pid && final(rt).vms@[handle@].cid == rec.cid
            && final(rt).vms@[handle@].tap_idx == rec.tap_idx && final(rt).vms@[handle@].api_sock
            == rec.api_sock,
        other != handle@ && old(rt).vms@.contains_key(other) ==> final(rt).vms@.contains_key(other)
            && final(rt).vms@[other] == old(rt).vms@[other],
        other != handle@ && !old(rt).vms@.contains_key(other) ==> !final(rt).vms@.contains_key(
            other,
        ),
        final(rt).next_cid == old(rt).next_cid && final(rt).next_tap == old(rt).next_tap,
{
}

/// A VM that was parked is on disk: it has no process and is known to be parked. The others
/// are as they were.
pub proof fn law_parking_is_noted(rt: &mut FirecrackerRuntime, handle: &str, other: Seq<char>)
    requires
        call_ensures(FirecrackerRuntime::note_parked, (rt, handle), ()),
        old(rt).vms@.contains_key(handle@),
    ensures
        final(rt).vms@.contains_key(handle@),
        final(rt).vms@[handle@].standby && final(rt).vms@[handle@].pid is None,
        final(rt).vms@[handle@].cid == old(rt).vms@[handle@].cid,
        final(rt).vms@[handle@].tap_idx == old(rt).vms@[handle@].tap_idx,
        other != handle@ && old(rt).vms@.contains_key(other) ==> final(rt).vms@[other]
            == old(rt).vms@[other],
{
    assert(final(rt).vms@.dom().contains(handle@));
    let (a, b) = (old(rt).vms@[handle@], final(rt).vms@[handle@]);
    assert(b@.standby && b@.pid is None && b@.cid == a@.cid && b@.tap_idx == a@.tap_idx);
}

/// A VM that was deleted, or whose boot failed, is no longer in the table; the others are as
/// they were.
pub proof fn law_vms_are_forgotten(
    a: &mut FirecrackerRuntime,
    b: &mut FirecrackerRuntime,
    handle: &str,
    pid: Option<u32>,
    other: Seq<char>,
    x: PlanBuilder,
    y: PlanBuilder,
)
    requires
        call_ensures(FirecrackerRuntime::delete, (a, handle), x),
        call_ensures(FirecrackerRuntime::kill_and_reclaim, (b, handle, pid), y),
    ensures
        !final(a).vms@.contains_key(handle@) && !final(b).vms@.contains_key(handle@),
        other != handle@ && old(a).vms@.contains_key(other) ==> final(a).vms@.contains_key(other)
            && final(a).vms@[other] == old(a).vms@[other],
        other != handle@ && old(b).vms@.contains_key(other) ==> final(b).vms@.contains_key(other)
            && final(b).vms@[other] == old(b).vms@[other],
        final(a).pool == old(a).pool && final(b).pool == old(b).pool,
        final(a).next_cid == old(a).next_cid && final(b).next_cid == old(b).next_cid,
{
}

/// What a sandbox asks for is set up in its VM, and its variables and secrets stay with the
/// host's record of it, secrets before variables.
pub proof fn law_features_are_applied(
    rt: &mut FirecrackerRuntime,
    handle: &str,
    spec: VmSpec,
    k: Seq<char>,
    other: Seq<char>,
    r: Features,
)
    requires
        call_ensures(FirecrackerRuntime::apply_features, (rt, handle, &spec), r),
        old(rt).vms@.contains_key(handle@),
    ensures
        r.plan@ == feature_steps(spec),
        spec.files@.len() == 0 ==> r.fault is None,
        ({
            let env = final(rt).vms@[handle@].resident_env@;
            &&& spec.secret_env@.contains_key(k) ==> env.contains_key(k) && env[k]
                == spec.secret_env@[k]
            &&& !spec.secret_env@.contains_key(k) && spec.env@.contains_key(k)
                ==> env.contains_key(k) && env[k] == spec.env@[k]
            &&& !spec.secret_env@.contains_key(k) && !spec.env@.contains_key(k)
                ==> !env.contains_key(k)
        }),
        other != handle@ && old(rt).vms@.contains_key(other) ==> final(rt).vms@[other]
            == old(rt).vms@[other],
{
    let b = final(rt).vms@[handle@];
    assert(b@.resident_env == b.resident_env@);
}

/// A jailer that waits is claimed where jailers are used and kept ready, and then waits no
/// longer.
pub proof fn law_jailers_are_claimed(
    rt: &mut FirecrackerRuntime,
    r: Option<PooledJail>,
)
    requires
        call_ensures(FirecrackerRuntime::claim_pooled_jail, (rt,), r),
    ensures
        r is Some <==> old(rt).settings.use_jailer && old(rt).settings.jailer_pool_size > 0 && old(
            rt,
        ).pool@.len() > 0,
        r matches Some(j) ==> old(rt).pool@ == final(rt).pool@.push(j),
        r is None ==> final(rt).pool@ == old(rt).pool@,
        final(rt).vms == old(rt).vms,
{
    if r is Some {
        let p = old(rt).pool@;
        assert(p =~= p.drop_last().push(p.last()));
    }
}

/// A jailer for the pool has a name and a user of its own, and joins the pool behind those
/// that wait.
pub proof fn law_jailers_are_spawned(
    a: &mut FirecrackerRuntime,
    b: &mut FirecrackerRuntime,
    jail: PooledJail,
    s: PoolSpawn,
    more: bool,
)
    requires
        call_ensures(FirecrackerRuntime::spawn_pooled_jail, (a,), s),
        call_ensures(FirecrackerRuntime::add_to_pool, (b, jail), ()),
        old(a).next_pool < u32::MAX,
        call_ensures(FirecrackerRuntime::pool_wants_more, (&*old(b),), more),
    ensures
        final(a).next_pool == old(a).next_pool + 1,
        s.jail.jail_id@ == "pool-"@ + crate::numeral::decimal(old(a).next_pool as nat),
        old(a).settings.jailer_uid_base + 90_000 <= s.jail.uid < old(
            a,
        ).settings.jailer_uid_base + 99_000,
        final(b).pool@ == old(b).pool@ + seq![jail],
        final(a).vms == old(a).vms && final(b).vms == old(b).vms,
        more <==> old(b).settings.use_jailer && old(b).pool@.len() < old(
            b,
        ).settings.jailer_pool_size,
{
}

// ---------------------------------------------------------------------------
// Simulated VMs
// ---------------------------------------------------------------------------

/// A simulated VM runs once it is created, and is known by the handle that is handed out:
/// that of the warm VM where there is one.
pub proof fn law_simulated_boots(
    rt: &mut MockRuntime,
    spec: VmSpec,
    warm: Option<WarmVm>,
    snapshot: bool,
    r: VmInstance,
)
    requires
        call_ensures(MockRuntime::create, (rt, &spec, warm, snapshot), r),
    ensures
        warm matches Some(w) ==> r.handle@ == w.handle@ && r.boot_path == BootPath::HotPool,
        warm is None && snapshot ==> r.boot_path == BootPath::SnapshotRestore,
        warm is None && !snapshot ==> r.boot_path == BootPath::ColdBoot && r.image_cache_ms > 0,
        warm is Some || snapshot ==> r.image_cache_ms == 0,
        final(rt).state@.contains_key(r.handle@),
        !final(rt).state@[r.handle@].paused && !final(rt).state@[r.handle@].standby,
        spec.browser is None ==> r.browser_ready_ms == 0,
{
}

/// A simulated VM is paused and runs again, is parked and wakes, as asked; what is resident
/// stays.
pub proof fn law_simulated_states(
    a: &mut MockRuntime,
    b: &mut MockRuntime,
    c: &mut MockRuntime,
    d: &mut MockRuntime,
    handle: &str,
    ms: u64,
    parked: Result<u64, String>,
    woken: Result<u64, String>,
)
    requires
        call_ensures(MockRuntime::pause, (a, handle), ()),
        call_ensures(MockRuntime::resume, (b, handle), ms),
        call_ensures(MockRuntime::standby, (c, handle), parked),
        call_ensures(MockRuntime::restore, (d, handle), woken),
        old(a).state@.contains_key(handle@) && old(b).state@.contains_key(handle@),
    ensures
        final(a).state@[handle@].paused && !final(b).state@[handle@].paused,
        final(a).state@[handle@].standby == old(a).state@[handle@].standby,
        final(a).state@[handle@].resident_env == old(a).state@[handle@].resident_env,
        parked is Ok <==> old(c).state@.contains_key(handle@),
        woken is Ok <==> old(d).state@.contains_key(handle@),
        parked is Ok ==> final(c).state@[handle@].paused && final(c).state@[handle@].standby
            && final(c).state@[handle@].resident_env == old(c).state@[handle@].resident_env,
        woken is Ok ==> !final(d).state@[handle@].paused && !final(d).state@[handle@].standby
            && final(d).state@[handle@].resident_env == old(d).state@[handle@].resident_env,
{
}

/// A simulated fork is a VM of its own; a deleted one is forgotten.
pub proof fn law_simulated_forks(
    a: &mut MockRuntime,
    b: &mut MockRuntime,
    child: VmSpec,
    handle: &str,
    r: VmInstance,
    other: Seq<char>,
)
    requires
        call_ensures(MockRuntime::fork, (a, &child), r),
        call_ensures(MockRuntime::delete, (b, handle), ()),
    ensures
        r.boot_path == BootPath::Fork,
        final(a).state@.contains_key(r.handle@) && !final(a).state@[r.handle@].paused,
        other != r.handle@ && old(a).state@.contains_key(other) ==> final(a).state@[other] == old(
            a,
        ).state@[other],
        !final(b).state@.contains_key(handle@),
        other != handle@ && old(b).state@.contains_key(other) ==> final(b).state@.contains_key(
            other,
        ) && final(b).state@[other] == old(b).state@[other],
{
}

// ---------------------------------------------------------------------------
// Variables
// ---------------------------------------------------------------------------

/// A variable that is set has its value, and the others have theirs; of two sets of
/// variables the second comes before the first.
pub proof fn law_variables(
    a: &mut EnvMap,
    b: &mut EnvMap,
    more: EnvMap,
    name: &str,
    value: &str,
    k: Seq<char>,
)
    requires
        call_ensures(EnvMap::set, (a, name, value), ()),
        call_ensures(EnvMap::extend, (b, &more), ()),
    ensures
        final(a)@.contains_key(name@) && final(a)@[name@] == value@,
        k != name@ ==> (final(a)@.contains_key(k) <==> old(a)@.contains_key(k)),
        k != name@ && old(a)@.contains_key(k) ==> final(a)@[k] == old(a)@[k],
        more@.contains_key(k) ==> final(b)@.contains_key(k) && final(b)@[k] == more@[k],
        !more@.contains_key(k) && old(b)@.contains_key(k) ==> final(b)@.contains_key(k)
            && final(b)@[k] == old(b)@[k],
        !more@.contains_key(k) && !old(b)@.contains_key(k) ==> !final(b)@.contains_key(k),
{
}

} // verus!
