//! Reserving room for an admitted request: the org's quota, what the scheduler is
//! told of each node, and the node that is chosen.
//!
//! The caller holds the admission lock from the first look at the quota until the
//! new record is stored, so that two creates cannot both pass on the same free
//! memory.

use crate::admission::fault;
use crate::capacity::{
    capacity_of, lemma_capacity_counts, tenths, units_for_memory_mb, usable_kb,
};
use crate::config::CapacityConfig;
use crate::error::{ApiError, ApiResult, ErrorView};
use crate::knobs::Resources;
use crate::model::Sandbox;
use crate::nodes::Node;
use crate::numeral::{decimal, to_decimal};
use crate::scheduler::{
    boot_hint, first_best, refusal, select, NodeSnapshot, Placement, PlacementRequest,
};
use crate::store::{active_memory, active_memory_mb};
use crate::text::{concat3, same};
use crate::usage::Org;
use vstd::prelude::*;
use vstd::string::*;

verus! {

// ---------------------------------------------------------------------------
// Quota
// ---------------------------------------------------------------------------

/// Tenths written as a number with one decimal.
pub open spec fn tenths_text(t: nat) -> Seq<char> {
    decimal(t / 10) + "."@ + decimal(t % 10)
}

/// Memory written as default-equivalent units with one decimal.
pub open spec fn units_text(mb: nat) -> Seq<char> {
    tenths_text(tenths(mb))
}

/// Show memory as default-equivalent units.
pub fn show_units(mb: u64) -> (r: String)
    ensures
        r@ == units_text(mb as nat),
{
    let t: u64 = units_for_memory_mb(mb);
    concat3(to_decimal(t / 10).as_str(), ".", to_decimal(t % 10).as_str())
}

/// Why the org's quota does not leave room: its active sandboxes and the new one
/// would hold more memory together than it may have. Admins have no quota.
pub open spec fn quota_fault(admin: bool, org: Org, used_mb: int, want: Resources) -> Option<
    ErrorView,
> {
    if !admin && org.quota_mb > 0 && used_mb + want.memory_mb > org.quota_mb {
        Some(
            ErrorView::Forbidden(
                "org quota exceeded: "@ + units_text(used_mb as nat) + " + "@ + units_text(
                    want.memory_mb as nat,
                ) + " > "@ + units_text(org.quota_mb as nat) + " units"@,
            ),
        )
    } else {
        None
    }
}

/// Does the org's quota leave room?
pub fn check_quota(admin: bool, org: &Org, sandboxes: &[Sandbox], want: &Resources) -> (r: ApiResult<
    (),
>)
    requires
        sandboxes@.len() <= 0xffff_ffff,
    ensures
        fault(r) == quota_fault(
            admin,
            *org,
            active_memory(sandboxes@, sandboxes@.len() as int),
            *want,
        ),
{
    if admin || org.quota_unlimited() {
        return Ok(());
    }
    let used: u64 = active_memory_mb(sandboxes);
    if used as u128 + want.memory_mb as u128 > org.quota_mb as u128 {
        let mut m = concat3("org quota exceeded: ", show_units(used).as_str(), " + ");
        m.append(show_units(want.memory_mb as u64).as_str());
        m.append(" > ");
        m.append(show_units(org.quota_mb as u64).as_str());
        m.append(" units");
        return Err(ApiError::Forbidden(m));
    }
    Ok(())
}

// ---------------------------------------------------------------------------
// What the scheduler is told
// ---------------------------------------------------------------------------

/// The memory of a node that pressure is told against, in KiB: a node counts as
/// having at least one GiB.
pub open spec fn room_kb(usable: int) -> int {
    if usable < 1_048_576 {
        1_048_576
    } else {
        usable
    }
}

/// The part of that memory that is in use, at most all of it.
pub open spec fn in_use_kb(used_mb: int, usable: int) -> int {
    if used_mb * 1024 >= room_kb(usable) {
        room_kb(usable)
    } else {
        used_mb * 1024
    }
}

fn room_of(usable: u64) -> (r: u64)
    ensures
        r == room_kb(usable as int),
{
    if usable < 1_048_576 {
        1_048_576
    } else {
        usable
    }
}

fn in_use_of(used_mb: u64, usable: u64) -> (r: u64)
    ensures
        r == in_use_kb(used_mb as int, usable as int),
        r <= room_kb(usable as int),
{
    let room: u64 = room_of(usable);
    let used: u128 = used_mb as u128 * 1024;
    if used >= room as u128 {
        room
    } else {
        used as u64
    }
}

/// How many of the first `n` sandboxes belong to the org.
pub open spec fn of_org(s: Seq<Sandbox>, org_id: Seq<char>, n: int) -> int
    decreases n,
{
    if n <= 0 {
        0
    } else {
        of_org(s, org_id, n - 1) + if s[n - 1].org_id@ == org_id {
            1int
        } else {
            0int
        }
    }
}

fn count_of_org(s: &[Sandbox], org_id: &str) -> (r: u32)
    requires
        s@.len() <= 0xffff_ffff,
    ensures
        r == of_org(s@, org_id@, s@.len() as int),
{
    let mut n: u32 = 0;
    let mut i: usize = 0;
    while i < s.len()
        invariant
            i <= s@.len() <= 0xffff_ffff,
            n == of_org(s@, org_id@, i as int),
            n <= i,
        decreases s@.len() - i,
    {
        if same(s[i].org_id.as_str(), org_id) {
            n = n + 1;
        }
        i = i + 1;
    }
    n
}

/// A registered node with the active sandboxes on it.
#[derive(Debug)]
pub struct NodeLoad {
    pub node: Node,
    pub active: Vec<Sandbox>,
}

/// What only the local node knows about the requested image and shape.
#[derive(Debug, Clone, Copy, PartialEq, Eq, Structural)]
pub struct LocalStock {
    /// Warm VMs that are ready.
    pub hot: u32,
    /// A golden snapshot exists.
    pub golden: bool,
    /// The memory that is measured to be available, in KiB.
    pub available_kb: Option<u64>,
}

/// What the scheduler is told of a node. Warm VMs, golden snapshots and measured
/// memory are known of the local node only; curated images are always in the cache.
/// Pressure is inferred from occupancy: seven tenths of it for the CPU, five tenths
/// for I/O.
pub open spec fn describes(
    s: NodeSnapshot,
    load: NodeLoad,
    req: PlacementRequest,
    local_id: Seq<char>,
    stock: LocalStock,
    cfg: CapacityConfig,
) -> bool {
    let used = active_memory(load.active@, load.active@.len() as int);
    let usable = usable_kb(load.node.total_memory_kb, cfg.static_rule());
    let local = load.node.id@ == local_id;
    &&& s.node == load.node
    &&& s.capacity == capacity_of(load.node.total_memory_kb, cfg.static_rule())
    &&& s.measured_spare_kb == (if local {
        cfg.spare_kb(stock.available_kb)
    } else {
        None
    })
    &&& s.used_memory_mb == used
    &&& s.active_count == load.active@.len()
    &&& s.org_active_count == of_org(load.active@, req.org_id@, load.active@.len() as int)
    &&& s.hot_pool_available == (if local {
        stock.hot
    } else {
        0
    })
    &&& s.image_cached == !req.is_custom_image
    &&& s.snapshot_available == (local && stock.golden)
    &&& s.pressure_whole == 10 * room_kb(usable)
    &&& s.cpu_pressure == 7 * in_use_kb(used, usable)
    &&& s.io_pressure == 5 * in_use_kb(used, usable)
    &&& s.custom_image_cache_pressure == 0
}

/// The snapshots describe the nodes, one by one.
pub open spec fn described(
    snaps: Seq<NodeSnapshot>,
    loads: Seq<NodeLoad>,
    req: PlacementRequest,
    local_id: Seq<char>,
    stock: LocalStock,
    cfg: CapacityConfig,
) -> bool {
    &&& snaps.len() == loads.len()
    &&& forall|i: int|
        0 <= i < snaps.len() ==> describes(
            #[trigger] snaps[i],
            loads[i],
            req,
            local_id,
            stock,
            cfg,
        )
}

/// Memory of a node, in KiB, up to which its pressure can be told.
pub const NODE_MEMORY_LIMIT_KB: u64 = 1_000_000_000_000_000_000;

/// The sandboxes on a node and its memory can be counted.
pub open spec fn load_in_range(load: NodeLoad) -> bool {
    load.active@.len() <= 0xffff_ffff && load.node.total_memory_kb <= NODE_MEMORY_LIMIT_KB
}

/// Nodes stay below a size at which the counts would overflow.
pub open spec fn loads_in_range(loads: Seq<NodeLoad>) -> bool {
    forall|i: int| 0 <= i < loads.len() ==> load_in_range(#[trigger] loads[i])
}

/// Can the sandboxes and the memory of every node be counted?
pub fn loads_fit(loads: &Vec<NodeLoad>) -> (r: bool)
    ensures
        r == loads_in_range(loads@),
{
    let mut i: usize = 0;
    while i < loads.len()
        invariant
            i <= loads@.len(),
            forall|k: int| 0 <= k < i ==> load_in_range(#[trigger] loads@[k]),
        decreases loads@.len() - i,
    {
        if loads[i].active.len() as u64 > 0xffff_ffff || loads[i].node.total_memory_kb
            > NODE_MEMORY_LIMIT_KB {
            assert(!load_in_range(loads@[i as int]));
            return false;
        }
        i = i + 1;
    }
    true
}

/// Describe every registered node for the scheduler.
pub fn gather_node_snapshots(
    loads: &Vec<NodeLoad>,
    req: &PlacementRequest,
    local_id: &str,
    stock: LocalStock,
    cfg: &CapacityConfig,
) -> (r: Vec<NodeSnapshot>)
    requires
        loads_in_range(loads@),
    ensures
        described(r@, loads@, *req, local_id@, stock, *cfg),
{
    let mut out: Vec<NodeSnapshot> = Vec::new();
    let mut i: usize = 0;
    while i < loads.len()
        invariant
            i <= loads@.len(),
            loads_in_range(loads@),
            out@.len() == i,
            forall|k: int|
                0 <= k < i ==> describes(
                    #[trigger] out@[k],
                    loads@[k],
                    *req,
                    local_id@,
                    stock,
                    *cfg,
                ),
        decreases loads@.len() - i,
    {
        let load = &loads[i];
        let used: u64 = active_memory_mb(load.active.as_slice());
        assert(load_in_range(loads@[i as int]));
        let capacity = load.node.capacity(&cfg.rule());
        proof {
            lemma_capacity_counts(load.node.total_memory_kb, cfg.static_rule());
        }
        let usable: u64 = capacity.usable_for_sandboxes_kb;
        let in_use: u64 = in_use_of(used, usable);
        let local = same(load.node.id.as_str(), local_id);
        let measured_spare_kb: Option<u64> = if local {
            cfg.measured_spare_kb(stock.available_kb)
        } else {
            None
        };
        let hot: u32 = if local {
            stock.hot
        } else {
            0
        };
        out.push(
            NodeSnapshot {
                node: load.node.clone(),
                capacity,
                measured_spare_kb,
                used_memory_mb: used,
                active_count: load.active.len() as u32,
                org_active_count: count_of_org(load.active.as_slice(), req.org_id.as_str()),
                hot_pool_available: hot,
                image_cached: !req.is_custom_image,
                snapshot_available: local && stock.golden,
                pressure_whole: 10 * room_of(usable),
                cpu_pressure: 7 * in_use,
                io_pressure: 5 * in_use,
                custom_image_cache_pressure: 0,
            },
        );
        i = i + 1;
    }
    out
}

// ---------------------------------------------------------------------------
// The choice
// ---------------------------------------------------------------------------

/// The node that is chosen, where one is.
pub open spec fn chosen(req: PlacementRequest, snaps: Seq<NodeSnapshot>) -> int {
    choose|i: int| first_best(req, snaps, i)
}

/// There is one first among the best at most.
pub proof fn law_choice_is_unique(req: PlacementRequest, snaps: Seq<NodeSnapshot>, i: int, j: int)
    requires
        first_best(req, snaps, i),
        first_best(req, snaps, j),
    ensures
        i == j,
{
    if i < j {
        assert(snaps[j].score(req).better(snaps[i].score(req)));
    } else if j < i {
        assert(snaps[i].score(req).better(snaps[j].score(req)));
    }
}

/// Why a request is not placed: no node is chosen, or another one than the local
/// node, to which this build has no data path.
pub open spec fn placement_fault(
    req: PlacementRequest,
    snaps: Seq<NodeSnapshot>,
    local_id: Seq<char>,
) -> Option<ErrorView> {
    match refusal(req, snaps) {
        Some((reason, detail)) => Some(ErrorView::NoCapacity(reason, detail)),
        None => {
            let id = snaps[chosen(req, snaps)].node.id@;
            if id != local_id {
                Some(
                    ErrorView::NoCapacity(
                        "remote_placement_unsupported"@,
                        "scheduler chose node "@ + id
                            + " but worker data-plane RPC is not enabled in this build"@,
                    ),
                )
            } else {
                None
            }
        },
    }
}

/// Choose a node for a request, which must be the local one.
pub fn place_locally(req: &PlacementRequest, snaps: &Vec<NodeSnapshot>, local_id: &str) -> (r: ApiResult<
    Placement,
>)
    ensures
        fault(r) == placement_fault(*req, snaps@, local_id@),
        r matches Ok(p) ==> {
            &&& first_best(*req, snaps@, chosen(*req, snaps@))
            &&& p.node_id@ == local_id@
            &&& p.boot_path_hint == boot_hint(snaps@[chosen(*req, snaps@)])
        },
{
    match select(req, snaps.as_slice()) {
        Err(e) => Err(ApiError::NoCapacity { reason: e.reason, detail: e.detail }),
        Ok(p) => {
            proof {
                let i = choose|i: int| #[trigger]
                    first_best(*req, snaps@, i) && p.node_id@ == snaps@[i].node.id@ && p.score
                        == snaps@[i].score(*req) && p.boot_path_hint == boot_hint(snaps@[i]);
                law_choice_is_unique(*req, snaps@, i, chosen(*req, snaps@));
            }
            if !same(p.node_id.as_str(), local_id) {
                return Err(
                    ApiError::NoCapacity {
                        reason: String::from_str("remote_placement_unsupported"),
                        detail: concat3(
                            "scheduler chose node ",
                            p.node_id.as_str(),
                            " but worker data-plane RPC is not enabled in this build",
                        ),
                    },
                );
            }
            Ok(p)
        },
    }
}

/// A placed request leaves the org within its quota: counted with the new
/// sandbox, its active sandboxes hold no more memory than it may have.
pub proof fn law_quota_is_kept(org: Org, used_mb: int, want: Resources)
    requires
        quota_fault(false, org, used_mb, want) is None,
    ensures
        org.quota_mb <= 0 || used_mb + want.memory_mb <= org.quota_mb,
{
}

} // verus!
