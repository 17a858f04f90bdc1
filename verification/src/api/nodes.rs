//! The node registry as the API shows it. Capacity is told in default-equivalent
//! units.

use crate::admission::{either, fault};
use crate::api::admin::{admin_fault, require_admin, round_tenths, rounded_tenths};
use crate::auth::AuthContext;
use crate::capacity::{capacity_of, CapacityRule, UNIT_MEMORY_MB};
use crate::error::{ApiError, ApiResult, ErrorView};
use crate::nodes::{Nanos, Node};
use crate::placement::NodeLoad;
use crate::store::{active_memory, active_memory_mb};
use crate::text::{concat2, concat3};
use vstd::prelude::*;
use vstd::string::*;

verus! {

/// The capacity of a node as it is shown.
#[derive(Debug, Clone, Copy, PartialEq, Eq, Structural)]
pub struct NodeRow {
    pub usable_kb: u64,
    pub theoretical_units: u32,
    pub practical_units: u32,
    /// Tenths of a unit.
    pub used_tenths: u64,
    /// Tenths of a unit.
    pub free_tenths: u64,
    pub active_sandboxes: usize,
}

/// The memory that is left below a number of units.
pub open spec fn left_mb(units: int, used_mb: int) -> nat {
    if units * UNIT_MEMORY_MB > used_mb {
        (units * UNIT_MEMORY_MB - used_mb) as nat
    } else {
        0
    }
}

/// The capacity shown of a node with its active sandboxes.
pub open spec fn row_of(load: NodeLoad, rule: CapacityRule) -> NodeRow {
    let cap = capacity_of(load.node.total_memory_kb, rule);
    let used = active_memory(load.active@, load.active@.len() as int);
    NodeRow {
        usable_kb: cap.usable_for_sandboxes_kb,
        theoretical_units: cap.theoretical_units,
        practical_units: cap.practical_units,
        used_tenths: rounded_tenths(used as nat) as u64,
        free_tenths: rounded_tenths(left_mb(cap.practical_units as int, used)) as u64,
        active_sandboxes: load.active@.len() as usize,
    }
}

fn mb_left(units: u128, used_mb: u128) -> (r: u128)
    requires
        units <= 0xffff_ffff_ffff_ffff_ffff_ffff,
    ensures
        r == left_mb(units as int, used_mb as int),
{
    let ceiling: u128 = units * UNIT_MEMORY_MB as u128;
    if ceiling > used_mb {
        ceiling - used_mb
    } else {
        0
    }
}

fn show_node(load: &NodeLoad, rule: &CapacityRule) -> (r: NodeRow)
    requires
        load.active@.len() <= 0xffff_ffff,
    ensures
        r == row_of(*load, *rule),
{
    let cap = load.node.capacity(rule);
    let used: u64 = active_memory_mb(load.active.as_slice());
    NodeRow {
        usable_kb: cap.usable_for_sandboxes_kb,
        theoretical_units: cap.theoretical_units,
        practical_units: cap.practical_units,
        used_tenths: round_tenths(used as u128) as u64,
        free_tenths: round_tenths(mb_left(cap.practical_units as u128, used as u128)) as u64,
        active_sandboxes: load.active.len(),
    }
}

/// The practical units of the first `n` nodes.
pub open spec fn cluster_units(loads: Seq<NodeLoad>, rule: CapacityRule, n: int) -> int
    decreases n,
{
    if n <= 0 {
        0
    } else {
        cluster_units(loads, rule, n - 1) + capacity_of(
            loads[n - 1].node.total_memory_kb,
            rule,
        ).practical_units
    }
}

/// The memory in use on the first `n` nodes, in MiB.
pub open spec fn cluster_used(loads: Seq<NodeLoad>, n: int) -> int
    decreases n,
{
    if n <= 0 {
        0
    } else {
        cluster_used(loads, n - 1) + active_memory(
            loads[n - 1].active@,
            loads[n - 1].active@.len() as int,
        )
    }
}

/// The nodes, and what they can take together.
#[derive(Debug)]
pub struct Cluster {
    pub nodes: Vec<NodeRow>,
    pub total_units: u128,
    /// Tenths of a unit.
    pub used_tenths: u128,
    /// Tenths of a unit.
    pub free_tenths: u128,
}

/// The memory of each node's sandboxes can be summed up.
pub open spec fn cluster_in_range(loads: Seq<NodeLoad>) -> bool {
    forall|i: int| 0 <= i < loads.len() ==> (#[trigger] loads[i]).active@.len() <= 0xffff_ffff
}

/// Can the memory of each node's sandboxes be summed up?
pub fn cluster_fits(loads: &Vec<NodeLoad>) -> (r: bool)
    ensures
        r == cluster_in_range(loads@),
{
    let mut i: usize = 0;
    while i < loads.len()
        invariant
            i <= loads@.len(),
            forall|k: int| 0 <= k < i ==> (#[trigger] loads@[k]).active@.len() <= 0xffff_ffff,
        decreases loads@.len() - i,
    {
        if loads[i].active.len() as u64 > 0xffff_ffff {
            assert(loads@[i as int].active@.len() > 0xffff_ffff);
            return false;
        }
        i = i + 1;
    }
    true
}

proof fn lemma_memory_bound(s: Seq<crate::model::Sandbox>, n: int)
    requires
        0 <= n,
    ensures
        0 <= active_memory(s, n) <= n * 0xffff_ffff,
    decreases n,
{
    if n > 0 {
        lemma_memory_bound(s, n - 1);
        assert(n * 0xffff_ffff == (n - 1) * 0xffff_ffff + 0xffff_ffff) by (nonlinear_arith);
    }
}

/// The capacity of every node, and of all of them together.
pub fn list(loads: &Vec<NodeLoad>, rule: &CapacityRule) -> (r: Cluster)
    requires
        cluster_in_range(loads@),
    ensures
        r.nodes@.len() == loads@.len(),
        forall|i: int| 0 <= i < loads@.len() ==> #[trigger] r.nodes@[i] == row_of(loads@[i], *rule),
        r.total_units == cluster_units(loads@, *rule, loads@.len() as int),
        r.used_tenths == rounded_tenths(cluster_used(loads@, loads@.len() as int) as nat),
        r.free_tenths == rounded_tenths(
            left_mb(
                cluster_units(loads@, *rule, loads@.len() as int),
                cluster_used(loads@, loads@.len() as int),
            ),
        ),
{
    let mut nodes: Vec<NodeRow> = Vec::new();
    let mut total: u128 = 0;
    let mut used: u128 = 0;
    let mut i: usize = 0;
    while i < loads.len()
        invariant
            i <= loads@.len(),
            cluster_in_range(loads@),
            nodes@.len() == i,
            forall|k: int| 0 <= k < i ==> #[trigger] nodes@[k] == row_of(loads@[k], *rule),
            total == cluster_units(loads@, *rule, i as int),
            total <= i * 0xffff_ffff,
            used == cluster_used(loads@, i as int),
            used <= i * 0xffff_fffe_0000_0001,
        decreases loads@.len() - i,
    {
        let load = &loads[i];
        proof {
            let n = load.active@.len() as int;
            lemma_memory_bound(load.active@, n);
            assert(n * 0xffff_ffff <= 0xffff_fffe_0000_0001) by (nonlinear_arith)
                requires
                    n <= 0xffff_ffff,
            ;
            assert((i + 1) * 0xffff_fffe_0000_0001 == i * 0xffff_fffe_0000_0001
                + 0xffff_fffe_0000_0001) by (nonlinear_arith);
            assert((i + 1) * 0xffff_ffff == i * 0xffff_ffff + 0xffff_ffff) by (nonlinear_arith);
        }
        let row = show_node(load, rule);
        let mb: u64 = active_memory_mb(load.active.as_slice());
        total = total + row.practical_units as u128;
        used = used + mb as u128;
        nodes.push(row);
        i = i + 1;
    }
    Cluster {
        nodes,
        total_units: total,
        used_tenths: round_tenths(used),
        free_tenths: round_tenths(mb_left(total, used)),
    }
}

/// What a unit is.
pub const UNIT_DEFINITION: &'static str = "1 unit = 1 vCPU / 2 GB / 8 GB base sandbox";

/// The command by which a worker joins.
pub fn install_command(domain: &str) -> (r: String)
    ensures
        r@ == "curl -fsSL https://deploy."@ + domain@
            + "/install.sh | sudo bash -s -- \\\n  --role worker --control-plane https://api."@
            + domain@ + " --join-token <token>"@,
{
    let mut s = concat3(
        "curl -fsSL https://deploy.",
        domain,
        "/install.sh | sudo bash -s -- \\\n  --role worker --control-plane https://api.",
    );
    s.append(domain);
    s.append(" --join-token <token>");
    s
}

/// Take a node out of rotation on behalf of an admin.
pub fn drain(ctx: &AuthContext, id: &str, found: Result<Option<Node>, String>, now: Nanos) -> (r: ApiResult<
    Node,
>)
    ensures
        fault(r) == either(
            admin_fault(*ctx),
            match found {
                Err(e) => Some(ErrorView::Internal(e@)),
                Ok(None) => Some(ErrorView::NotFound("node "@ + id@)),
                Ok(Some(_)) => None,
            },
        ),
        r matches Ok(n) ==> n == (Node {
            schedulable: false,
            draining: true,
            last_heartbeat_at: now,
            ..found->Ok_0->Some_0
        }) && !n.available(),
{
    if let Err(e) = require_admin(ctx) {
        return Err(e);
    }
    match found {
        Err(e) => Err(ApiError::Internal(e)),
        Ok(None) => Err(ApiError::NotFound(concat2("node ", id))),
        Ok(Some(n)) => {
            let mut n = n;
            n.drain(now);
            Ok(n)
        },
    }
}

} // verus!
