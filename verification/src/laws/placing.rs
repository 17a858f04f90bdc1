//! Where a sandbox goes: what the scheduler is told, what counts for a node and what
//! against it, and what is made of a request that was placed.

use crate::admission::Admitted;
use crate::auth::AuthContext;
use crate::config::CapacityConfig;
use crate::create::{create_sandbox, placement_request, record_of, vm_of, World};
use crate::error::ApiResult;
use crate::knobs::Resources;
use crate::lifecycle::State;
use crate::model::{BootPath, EgressMode, Sandbox};
use crate::nodes::Nanos;
use crate::placement::{
    check_quota, describes, described, gather_node_snapshots, of_org, place_locally, LocalStock,
    NodeLoad,
};
use crate::runtime::VmSpec;
use crate::scheduler::{
    boot_hint, first_best, lemma_compare, score_node, select, some, some_admits, NodeSnapshot,
    Placement, PlacementRequest, Rejection, Score,
};
use crate::store::active_memory;
use crate::usage::Org;
use vstd::prelude::*;
use vstd::string::*;

verus! {

// ---------------------------------------------------------------------------
// The quota
// ---------------------------------------------------------------------------

/// A sandbox stays within the quota of its org exactly when what the org's active
/// sandboxes hold and what it asks for come to no more. There is no quota for admins, and
/// none where none is set.
pub proof fn law_quota(
    admin: bool,
    org: Org,
    sandboxes: &[Sandbox],
    want: Resources,
    r: ApiResult<()>,
)
    requires
        call_ensures(check_quota, (admin, &org, sandboxes, &want), r),
    ensures
        r is Ok <==> admin || org.quota_mb <= 0 || active_memory(
            sandboxes@,
            sandboxes@.len() as int,
        ) + want.memory_mb <= org.quota_mb,
        r matches Err(e) ==> e is Forbidden,
{
}

// ---------------------------------------------------------------------------
// What the scheduler is told
// ---------------------------------------------------------------------------

/// The scheduler is asked about the org, the image and the shape that were admitted.
pub proof fn law_scheduler_is_asked(org_id: &str, a: Admitted, key: &str, p: PlacementRequest)
    requires
        call_ensures(placement_request, (org_id, &a), p),
        call_ensures(crate::catalog::ImageClass::key, (&a.class,), key),
    ensures
        p.org_id@ == org_id@,
        p.image_key@ == key@,
        p.resources == a.resources,
        p.browser_required <==> a.features.browser is Some,
        p.is_custom_image <==> a.class is Custom,
{
}

/// Every node is described as it is: with the sandboxes that are active on it, with the
/// memory that they hold and with how many are the org's.
pub proof fn law_nodes_are_described(
    snaps: Seq<NodeSnapshot>,
    loads: Seq<NodeLoad>,
    req: PlacementRequest,
    local_id: Seq<char>,
    stock: LocalStock,
    cfg: CapacityConfig,
    i: int,
)
    requires
        described(snaps, loads, req, local_id, stock, cfg),
        0 <= i < loads.len(),
    ensures
        snaps.len() == loads.len(),
        snaps[i].node == loads[i].node,
        snaps[i].active_count == loads[i].active@.len(),
        snaps[i].used_memory_mb == active_memory(
            loads[i].active@,
            loads[i].active@.len() as int,
        ),
        snaps[i].capacity.total_memory_kb == loads[i].node.total_memory_kb,
        snaps[i].capacity.host_reserve_kb == cfg.host_reserve_kb,
        snaps[i].org_active_count <= snaps[i].active_count,
        loads[i].active@.len() == 0 ==> snaps[i].org_active_count == 0,
{
    assert(describes(snaps[i], loads[i], req, local_id, stock, cfg));
    lemma_of_org(loads[i].active@, req.org_id@, loads[i].active@.len() as int);
}

proof fn lemma_of_org(s: Seq<Sandbox>, org: Seq<char>, n: int)
    requires
        n >= 0,
    ensures
        0 <= of_org(s, org, n) <= n,
    decreases n,
{
    if n > 0 {
        lemma_of_org(s, org, n - 1);
    }
}

/// All sandboxes are the org's, or none is: then all of them count against the node, or
/// none does.
pub proof fn law_org_is_counted(s: Seq<Sandbox>, org: Seq<char>, n: int)
    requires
        0 <= n <= s.len(),
    ensures
        (forall|k: int| 0 <= k < n ==> (#[trigger] s[k]).org_id@ == org) ==> of_org(s, org, n) == n,
        (forall|k: int| 0 <= k < n ==> (#[trigger] s[k]).org_id@ != org) ==> of_org(s, org, n) == 0,
    decreases n,
{
    if n > 0 {
        law_org_is_counted(s, org, n - 1);
        let last = s[n - 1];
        assert((forall|k: int| 0 <= k < n ==> (#[trigger] s[k]).org_id@ == org) ==> last.org_id@
            == org);
        assert((forall|k: int| 0 <= k < n ==> (#[trigger] s[k]).org_id@ != org) ==> last.org_id@
            != org);
    }
}

/// What is told of the nodes is told of each of them.
pub proof fn law_every_node_is_told(
    loads: Vec<NodeLoad>,
    req: PlacementRequest,
    local_id: &str,
    stock: LocalStock,
    cfg: CapacityConfig,
    r: Vec<NodeSnapshot>,
)
    requires
        call_ensures(gather_node_snapshots, (&loads, &req, local_id, stock, &cfg), r),
    ensures
        r@.len() == loads@.len(),
        forall|i: int|
            0 <= i < loads@.len() ==> (#[trigger] r@[i]).node == loads@[i].node
                && r@[i].active_count == loads@[i].active@.len(),
{
}

/// Warm VMs, snapshots and measured memory count for the node that has them, which is the
/// local one. A custom image is in no cache, a curated one in every cache.
pub proof fn law_stock_is_local(
    s: NodeSnapshot,
    load: NodeLoad,
    req: PlacementRequest,
    local_id: Seq<char>,
    stock: LocalStock,
    cfg: CapacityConfig,
    spare: Option<u64>,
)
    requires
        describes(s, load, req, local_id, stock, cfg),
        call_ensures(CapacityConfig::measured_spare_kb, (&cfg, stock.available_kb), spare),
    ensures
        load.node.id@ == local_id ==> s.hot_pool_available == stock.hot && s.snapshot_available
            == stock.golden && s.measured_spare_kb == spare,
        load.node.id@ != local_id ==> s.hot_pool_available == 0 && !s.snapshot_available
            && s.measured_spare_kb is None,
        s.image_cached <==> !req.is_custom_image,
{
}

/// Pressure goes with the memory in use: none on an empty node, and on a full one seven
/// tenths of the whole for the CPU and five for I/O.
pub proof fn law_pressure_goes_with_use(
    s: NodeSnapshot,
    load: NodeLoad,
    req: PlacementRequest,
    local_id: Seq<char>,
    stock: LocalStock,
    cfg: CapacityConfig,
)
    requires
        describes(s, load, req, local_id, stock, cfg),
        load.node.total_memory_kb <= crate::placement::NODE_MEMORY_LIMIT_KB,
    ensures
        s.used_memory_mb == 0 ==> s.cpu_pressure == 0 && s.io_pressure == 0,
        s.cpu_pressure * 5 == s.io_pressure * 7,
        s.pressure_whole >= 10 * 1024 * 1024,
        s.cpu_pressure * 10 <= s.pressure_whole * 7,
        s.used_memory_mb * 10_240 >= s.pressure_whole ==> s.cpu_pressure * 10 == s.pressure_whole
            * 7,
        s.used_memory_mb * 10_240 < s.pressure_whole ==> s.cpu_pressure == s.used_memory_mb * 7168,
        s.capacity.usable_for_sandboxes_kb >= 1024 * 1024 ==> s.pressure_whole == 10
            * s.capacity.usable_for_sandboxes_kb,
{
}

// ---------------------------------------------------------------------------
// Who can take a request
// ---------------------------------------------------------------------------

/// A node in rotation has the memory, by its ceiling of two GB for each admitted unit or by
/// what is measured to be spare, and is large enough for a browser where one is needed.
pub open spec fn can_take(req: PlacementRequest, s: NodeSnapshot) -> bool {
    &&& s.node.schedulable && !s.node.draining && s.node.kvm_ok
    &&& req.browser_required ==> s.node.total_memory_kb >= 16 * 1024 * 1024
    &&& (s.used_memory_mb + req.resources.memory_mb <= s.capacity.practical_units * 2048) || (
    s.measured_spare_kb matches Some(kb) && req.resources.memory_mb * 1024 <= kb)
}

/// A node has a score exactly when it can take the request.
pub proof fn law_who_can_take(req: PlacementRequest, s: NodeSnapshot, r: Option<Score>)
    requires
        call_ensures(score_node, (&req, &s), r),
    ensures
        r is Some <==> can_take(req, s),
{
}

/// The score as a number of parts of a whole: what is compared.
pub open spec fn parts(s: Score) -> int {
    s.whole * s.of + s.part
}

/// Of two scores the greater number is better.
pub proof fn law_better_is_greater(a: Score, b: Score, r: bool)
    requires
        call_ensures(Score::beats, (&a, &b), r),
        a.part < a.of,
        b.part < b.of,
    ensures
        r <==> parts(a) * b.of > parts(b) * a.of,
        a.of == b.of ==> (r <==> parts(a) > parts(b)),
        a.whole > b.whole ==> r,
        a.whole < b.whole ==> !r,
{
    lemma_compare(a, b);
    if a.of == b.of {
        let (x, y, o) = (parts(a), parts(b), a.of as int);
        assert(x * o > y * o <==> x > y) by (nonlinear_arith)
            requires
                o > 0,
        ;
    }
}

/// The snapshots differ in nothing that the other terms of the score look at.
pub open spec fn alike(a: NodeSnapshot, b: NodeSnapshot) -> bool {
    a.capacity == b.capacity && a.pressure_whole == b.pressure_whole
}

/// Two scores of nodes alike are parts of the same whole.
proof fn lemma_terms(req: PlacementRequest, a: NodeSnapshot, b: NodeSnapshot, d: int)
    requires
        alike(a, b),
        b.flat_score(req) == a.flat_score(req) + d,
    ensures
        a.scale() == b.scale(),
        b.flat_score(req) * b.scale() == a.flat_score(req) * a.scale() + d * a.scale(),
{
    let (f, o) = (a.flat_score(req), a.scale());
    assert((f + d) * o == f * o + d * o) by (nonlinear_arith);
}

/// A warm VM counts a hundred.
pub proof fn law_warm_vm_counts(
    req: PlacementRequest,
    a: NodeSnapshot,
    b: NodeSnapshot,
    x: Score,
    y: Score,
)
    requires
        call_ensures(score_node, (&req, &a), Some(x)),
        call_ensures(score_node, (&req, &b), Some(y)),
        b == (NodeSnapshot { hot_pool_available: b.hot_pool_available, ..a }),
        a.hot_pool_available == 0 && b.hot_pool_available > 0,
    ensures
        x.of == y.of,
        parts(y) == parts(x) + 100 * x.of,
{
    lemma_terms(req, a, b, 100);
}

/// An image in the cache counts sixty. A custom image that is not there counts eighty
/// against the node, and forty times the pressure on the cache.
pub proof fn law_cached_image_counts(
    req: PlacementRequest,
    a: NodeSnapshot,
    b: NodeSnapshot,
    x: Score,
    y: Score,
)
    requires
        call_ensures(score_node, (&req, &a), Some(x)),
        call_ensures(score_node, (&req, &b), Some(y)),
        b == (NodeSnapshot { image_cached: true, ..a }),
        !a.image_cached,
    ensures
        x.of == y.of,
        !req.is_custom_image ==> parts(y) == parts(x) + 60 * x.of,
        req.is_custom_image && a.custom_image_cache_pressure == 0 ==> parts(y) == parts(x) + 140
            * x.of,
        req.is_custom_image ==> parts(y) >= parts(x) + 140 * x.of,
{
    lemma_terms(
        req,
        a,
        b,
        if req.is_custom_image {
            140
        } else {
            60
        },
    );
    let (k, c) = (a.custom_image_cache_pressure as int, some(a.ceiling()));
    assert(40 * k * c >= 0) by (nonlinear_arith)
        requires
            k >= 0,
            c >= 0,
    ;
    if k == 0 {
        assert(40 * k * c == 0) by (nonlinear_arith)
            requires
                k == 0,
        ;
    }
}

/// Each of the org's sandboxes on a node counts fifteen against it.
pub proof fn law_own_company_counts_against(
    req: PlacementRequest,
    a: NodeSnapshot,
    b: NodeSnapshot,
    x: Score,
    y: Score,
)
    requires
        call_ensures(score_node, (&req, &a), Some(x)),
        call_ensures(score_node, (&req, &b), Some(y)),
        b == (NodeSnapshot { org_active_count: b.org_active_count, ..a }),
    ensures
        x.of == y.of,
        parts(y) == parts(x) - 15 * (b.org_active_count - a.org_active_count) * x.of,
{
    lemma_terms(req, a, b, -15 * (b.org_active_count - a.org_active_count));
    let (d, o) = (b.org_active_count - a.org_active_count, a.scale());
    assert((-15 * d) * o == -(15 * d * o)) by (nonlinear_arith);
}

/// Memory in use counts against a node, fifty for all of its ceiling.
pub proof fn law_memory_in_use_counts_against(
    req: PlacementRequest,
    a: NodeSnapshot,
    b: NodeSnapshot,
    x: Score,
    y: Score,
)
    requires
        call_ensures(score_node, (&req, &a), Some(x)),
        call_ensures(score_node, (&req, &b), Some(y)),
        b == (NodeSnapshot { used_memory_mb: b.used_memory_mb, ..a }),
        a.used_memory_mb <= b.used_memory_mb,
        b.used_memory_mb + req.resources.memory_mb <= b.capacity.practical_units * 2048,
        a.pressure_whole > 0,
    ensures
        x.of == y.of,
        parts(x) - parts(y) == 50 * (b.used_memory_mb - a.used_memory_mb) * a.pressure_whole,
{
    lemma_terms(req, a, b, 0);
    let w = a.pressure_whole as int;
    let m = a.capacity.practical_units * 2048 - req.resources.memory_mb;
    let (p, q) = (a.used_memory_mb as int, b.used_memory_mb as int);
    assert(50 * (m - p) * w - 50 * (m - q) * w == 50 * (q - p) * w) by (nonlinear_arith);
}

/// Pressure counts against a node: twenty for all of the CPU, ten for all of I/O.
pub proof fn law_pressure_counts_against(
    req: PlacementRequest,
    a: NodeSnapshot,
    b: NodeSnapshot,
    x: Score,
    y: Score,
)
    requires
        call_ensures(score_node, (&req, &a), Some(x)),
        call_ensures(score_node, (&req, &b), Some(y)),
        b == (NodeSnapshot { cpu_pressure: b.cpu_pressure, io_pressure: b.io_pressure, ..a }),
        a.cpu_pressure <= a.pressure_whole && b.cpu_pressure <= a.pressure_whole,
        a.io_pressure <= a.pressure_whole && b.io_pressure <= a.pressure_whole,
        a.pressure_whole > 0,
        a.capacity.practical_units > 0,
    ensures
        x.of == y.of,
        parts(x) - parts(y) == (20 * (b.cpu_pressure - a.cpu_pressure) + 10 * (b.io_pressure
            - a.io_pressure)) * (a.capacity.practical_units * 2048),
{
    lemma_terms(req, a, b, 0);
    let (w, c) = (a.pressure_whole as int, a.capacity.practical_units * 2048);
    let (p, q) = (a.cpu_pressure as int, b.cpu_pressure as int);
    let (s, t) = (a.io_pressure as int, b.io_pressure as int);
    assert((20 * (w - p) + 10 * (w - s)) * c - (20 * (w - q) + 10 * (w - t)) * c == (20 * (q - p)
        + 10 * (t - s)) * c) by (nonlinear_arith);
}

/// A node on which nothing counts, for it or against it, has the score zero.
pub proof fn law_nothing_counts_nothing(req: PlacementRequest, a: NodeSnapshot, x: Score)
    requires
        call_ensures(score_node, (&req, &a), Some(x)),
        a.hot_pool_available == 0 && a.org_active_count == 0,
        !a.image_cached && !req.is_custom_image,
        a.used_memory_mb + req.resources.memory_mb >= a.capacity.practical_units * 2048,
        a.cpu_pressure >= a.pressure_whole > 0 && a.io_pressure >= a.pressure_whole,
    ensures
        parts(x) == 0,
        x.of == some(a.capacity.practical_units * 2048) * a.pressure_whole,
{
    let (w, c) = (a.pressure_whole as int, some(a.ceiling()));
    assert(50 * 0 * w == 0) by (nonlinear_arith);
    assert((20 * 0 + 10 * 0) * c == 0) by (nonlinear_arith);
    assert(0 * a.scale() == 0) by (nonlinear_arith);
}

// ---------------------------------------------------------------------------
// The choice
// ---------------------------------------------------------------------------

/// A request is refused only when no node can take it, and then with the reason: there is
/// no node, none is in rotation, none is large enough for a browser, or none has the
/// memory.
pub proof fn law_refusals(
    req: PlacementRequest,
    snaps: &[NodeSnapshot],
    i: int,
    r: Result<Placement, Rejection>,
)
    requires
        call_ensures(select, (&req, snaps), r),
    ensures
        r is Err && 0 <= i < snaps@.len() ==> !can_take(req, snaps@[i]),
        snaps@.len() == 0 ==> (r matches Err(e) && e.reason@ == "no_nodes"@),
        snaps@.len() > 0 && (forall|k: int|
            0 <= k < snaps@.len() ==> !(#[trigger] snaps@[k]).node.schedulable
                || snaps@[k].node.draining || !snaps@[k].node.kvm_ok) ==> (r matches Err(e)
            && e.reason@ == "no_schedulable_nodes"@),
        0 <= i < snaps@.len() && snaps@[i].node.available() && req.browser_required && (forall|
            k: int,
        |
            0 <= k < snaps@.len() ==> (#[trigger] snaps@[k]).node.total_memory_kb < 16 * 1024
                * 1024) ==> (r matches Err(e) && e.reason@ == "no_browser_capable_node"@),
        0 <= i < snaps@.len() && snaps@[i].node.available() && !req.browser_required && (forall|
            k: int,
        |
            0 <= k < snaps@.len() ==> (#[trigger] snaps@[k]).measured_spare_kb is None
                && snaps@[k].used_memory_mb + req.resources.memory_mb
                > snaps@[k].capacity.practical_units * 2048) ==> (r matches Err(e) && e.reason@
            == "memory_admission"@),
{
    if 0 <= i < snaps@.len() && can_take(req, snaps@[i]) {
        assert(snaps@[i].admits(req));
        assert(snaps@[i].node.available());
        assert(snaps@[i].fits_memory(req.resources));
    }
    if 0 <= i < snaps@.len() && snaps@[i].node.available() {
        assert(crate::scheduler::some_available(snaps@));
    }
}

/// The node that is chosen can take the request, and no other node that can has a better
/// score; of equals it is the first.
pub proof fn law_the_best_node_is_chosen(
    req: PlacementRequest,
    snaps: Seq<NodeSnapshot>,
    i: int,
    j: int,
    x: Score,
    y: Score,
    better: bool,
    worse: bool,
)
    requires
        first_best(req, snaps, i),
        call_ensures(score_node, (&req, &snaps[i]), Some(x)),
        0 <= j < snaps.len(),
        can_take(req, snaps[j]),
        call_ensures(score_node, (&req, &snaps[j]), Some(y)),
        call_ensures(Score::beats, (&y, &x), better),
        call_ensures(Score::beats, (&x, &y), worse),
    ensures
        can_take(req, snaps[i]),
        !better,
        j < i ==> worse,
{
    assert(snaps[j].admits(req));
}

/// What is expected of a node: a warm VM where it has one, else its snapshot, else a cold
/// boot.
pub proof fn law_expected_boots(s: NodeSnapshot)
    ensures
        s.hot_pool_available > 0 ==> boot_hint(s) == BootPath::HotPool,
        s.hot_pool_available == 0 && s.snapshot_available ==> boot_hint(s)
            == BootPath::SnapshotRestore,
        s.hot_pool_available == 0 && !s.snapshot_available ==> boot_hint(s) == BootPath::ColdBoot,
{
}

/// A request that is placed is placed on the local node, and only where that node can take
/// it. One that is not is told that there is no capacity.
pub proof fn law_placed_locally(
    req: PlacementRequest,
    snaps: Vec<NodeSnapshot>,
    local_id: &str,
    r: ApiResult<Placement>,
)
    requires
        call_ensures(place_locally, (&req, &snaps, local_id), r),
    ensures
        r matches Ok(p) ==> p.node_id@ == local_id@,
        r matches Ok(p) ==> exists|i: int|
            0 <= i < snaps@.len() && can_take(req, #[trigger] snaps@[i]) && snaps@[i].node.id@
                == local_id@ && p.boot_path_hint == boot_hint(snaps@[i]),
        r matches Err(e) ==> e is NoCapacity,
        r is Ok ==> some_admits(snaps@, req),
{
    if r is Ok {
        let k = crate::placement::chosen(req, snaps@);
        assert(first_best(req, snaps@, k));
        assert(can_take(req, snaps@[k]));
        assert(snaps@[k].admits(req));
    }
}

// ---------------------------------------------------------------------------
// What is made of it
// ---------------------------------------------------------------------------

/// The VM that is booted is the one that was admitted: its image, its shape, its
/// environment and secrets, its features and its network.
pub proof fn law_admitted_is_booted(
    spec: VmSpec,
    id: Seq<char>,
    org_id: Seq<char>,
    a: Admitted,
    key: &str,
)
    requires
        vm_of(spec, id, org_id, a),
        call_ensures(crate::catalog::ImageClass::key, (&a.class,), key),
    ensures
        spec.sandbox_id@ == id && spec.org_id@ == org_id,
        spec.image_ref@ == a.image@ && spec.image_key@ == key@,
        spec.resources == a.resources,
        spec.secret_env@ == a.features.secret_env@,
        spec.browser == a.features.browser && spec.docker == a.features.docker,
        spec.coding_agent == a.features.coding_agent,
        spec.mounts@ == a.features.mounts@ && spec.volumes@ == a.features.volumes@,
        spec.files@ == a.features.files@,
        a.features.startup matches Some(s) ==> spec.env@ == s.env@ && spec.network@ == s.network@,
        a.features.startup is None ==> spec.network@.egress == EgressMode::Default && (forall|
            k: Seq<char>,
        | !(#[trigger] spec.env@.dom().contains(k))),
{
}

/// The record of a new sandbox says what was admitted, where it is and what boot is
/// expected. It begins as creating, with nothing exposed and nothing failed.
pub proof fn law_admitted_is_recorded(
    sb: Sandbox,
    id: Seq<char>,
    org_id: Seq<char>,
    a: Admitted,
    node_id: Seq<char>,
    hint: BootPath,
    now: Nanos,
)
    requires
        record_of(sb, id, org_id, a, node_id, hint, now),
    ensures
        sb.id@ == id && sb.org_id@ == org_id && sb.state == State::Creating,
        sb.node_id matches Some(n) && n@ == node_id,
        sb.image@ == a.image@ && sb.resources == a.resources,
        sb.auto_stop_seconds == a.auto_stop_seconds && sb.snapshot_enabled == a.snapshot,
        sb.browser == a.features.browser && sb.docker == a.features.docker,
        sb.startup == a.features.startup && sb.boot_path == hint,
        sb.secret_names@ == a.features.secret_names@,
        sb.mounts@ == a.features.mounts@ && sb.volumes@ == a.features.volumes@,
        a.features.startup matches Some(s) ==> sb.network@ == s.network@,
        a.features.startup is None ==> sb.network@.egress == EgressMode::Default,
        sb.coding_agent is Some <==> a.features.coding_agent is Some,
        sb.ports@.len() == 0 && sb.runtime_handle is None && sb.error is None,
        sb.timings.boot_ms == 0 && sb.timings.total_ms == 0,
        sb.created_at == now && sb.updated_at == now && sb.last_active_at == now,
{
}

/// A sandbox is created within the quota of its org and on the local node, for the org that
/// asked and in the shape that was admitted; it is not created otherwise.
pub proof fn law_created_within_bounds(
    ctx: AuthContext,
    a: Admitted,
    world: World,
    id: &str,
    now: Nanos,
    r: ApiResult<(VmSpec, Sandbox)>,
)
    requires
        call_ensures(create_sandbox, (&ctx, a, &world, id, now), r),
    ensures
        r matches Ok((spec, sb)) ==> {
            &&& spec.sandbox_id@ == id@ && sb.id@ == id@
            &&& spec.org_id@ == ctx.org_id@ && sb.org_id@ == ctx.org_id@
            &&& spec.resources == a.resources && sb.resources == a.resources
            &&& spec.image_ref@ == a.image@ && sb.image@ == a.image@
            &&& sb.state == State::Creating
            &&& sb.node_id matches Some(n) && n@ == world.local_id@
        },
        r is Ok ==> ctx.admin || a.org.quota_mb <= 0 || active_memory(
            world.org_sandboxes@,
            world.org_sandboxes@.len() as int,
        ) + a.resources.memory_mb <= a.org.quota_mb,
        r matches Err(e) ==> e is Forbidden || e is NoCapacity,
{
}

/// The VM and the record of one sandbox agree.
pub proof fn law_record_and_vm_agree(
    spec: VmSpec,
    sb: Sandbox,
    id: Seq<char>,
    org_id: Seq<char>,
    a: Admitted,
    node_id: Seq<char>,
    hint: BootPath,
    now: Nanos,
)
    requires
        vm_of(spec, id, org_id, a),
        record_of(sb, id, org_id, a, node_id, hint, now),
    ensures
        spec.sandbox_id@ == sb.id@ && spec.org_id@ == sb.org_id@ && spec.image_ref@ == sb.image@,
        spec.resources == sb.resources && spec.browser == sb.browser && spec.docker == sb.docker,
        spec.network@ == sb.network@ && spec.mounts@ == sb.mounts@ && spec.volumes@ == sb.volumes@,
{
}

} // verus!
