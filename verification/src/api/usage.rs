//! Usage and cost: what an org is charged for, sandbox by sandbox, and what a month
//! of nodes delivers.

use crate::nodes::Nanos;
use crate::pricing::{
    nearest, nearest_quotient, reconciled_unit_price_usd_hr, PricingConfig, UnitPrice,
};
use crate::registry::{names_ascend, Registry};
use crate::usage::{
    bounded, bounded_sum, delivered_by, elapsed_millis, lemma_bounded_product,
    lemma_cost_is_natural, metered_cost, millis_between, total_cost, Org, UsageInterval,
    COST_LIMIT,
};
use vstd::prelude::*;
use vstd::string::*;

verus! {

// ---------------------------------------------------------------------------
// Per sandbox
// ---------------------------------------------------------------------------

/// What a sandbox has run and cost.
#[derive(Debug, Clone, Copy, PartialEq, Eq, Structural)]
pub struct SandboxUsage {
    pub millis: u128,
    /// Cost steps.
    pub cost: u128,
}

/// How many of the first `n` intervals are the sandbox's.
pub open spec fn intervals_of(ivs: Seq<UsageInterval>, id: Seq<char>, n: int) -> int
    decreases n,
{
    if n <= 0 {
        0
    } else {
        intervals_of(ivs, id, n - 1) + if ivs[n - 1].sandbox_id@ == id {
            1int
        } else {
            0int
        }
    }
}

/// The milliseconds that a sandbox ran in the first `n` intervals.
pub open spec fn millis_of(ivs: Seq<UsageInterval>, id: Seq<char>, now: Nanos, n: int) -> int
    decreases n,
{
    if n <= 0 {
        0
    } else {
        millis_of(ivs, id, now, n - 1) + if ivs[n - 1].sandbox_id@ == id {
            ivs[n - 1].millis(now)
        } else {
            0
        }
    }
}

/// What a sandbox cost in the first `n` intervals.
pub open spec fn cost_of(ivs: Seq<UsageInterval>, id: Seq<char>, now: Nanos, n: int) -> int
    decreases n,
{
    if n <= 0 {
        0
    } else {
        cost_of(ivs, id, now, n - 1) + if ivs[n - 1].sandbox_id@ == id {
            ivs[n - 1].cost(now)
        } else {
            0
        }
    }
}

/// The map tells what each sandbox ran and cost in the first `n` intervals.
pub open spec fn sums(
    m: Map<Seq<char>, SandboxUsage>,
    ivs: Seq<UsageInterval>,
    now: Nanos,
    n: int,
) -> bool {
    &&& forall|id: Seq<char>| #[trigger] m.contains_key(id) <==> intervals_of(ivs, id, n) > 0
    &&& forall|id: Seq<char>| #[trigger]
        m.contains_key(id) ==> m[id].millis == millis_of(ivs, id, now, n) && m[id].cost == bounded(
            cost_of(ivs, id, now, n),
        )
}

proof fn lemma_bounds(ivs: Seq<UsageInterval>, id: Seq<char>, now: Nanos, n: int)
    requires
        0 <= n <= ivs.len(),
    ensures
        0 <= intervals_of(ivs, id, n) <= n,
        intervals_of(ivs, id, n) == 0 ==> millis_of(ivs, id, now, n) == 0 && cost_of(
            ivs,
            id,
            now,
            n,
        ) == 0,
        0 <= millis_of(ivs, id, now, n) <= n * 18_446_744_073_710,
        0 <= cost_of(ivs, id, now, n) <= total_cost(ivs.subrange(0, n), now),
    decreases n,
{
    if n > 0 {
        lemma_bounds(ivs, id, now, n - 1);
        lemma_cost_is_natural(ivs[n - 1], now);
        assert(ivs.subrange(0, n).drop_last() =~= ivs.subrange(0, n - 1));
        assert(ivs.subrange(0, n).last() == ivs[n - 1]);
        assert(n * 18_446_744_073_710 == (n - 1) * 18_446_744_073_710 + 18_446_744_073_710)
            by (nonlinear_arith);
    } else {
        assert(ivs.subrange(0, 0) =~= Seq::empty());
    }
}

/// What each sandbox ran and cost: one entry per sandbox, however often it was
/// stopped and resumed, in the order of their ids.
pub fn per_sandbox(ivs: &Vec<UsageInterval>, now: Nanos) -> (r: Registry<SandboxUsage>)
    ensures
        sums(r@, ivs@, now, ivs@.len() as int),
        names_ascend(r.pairs()),
{
    let mut m: Registry<SandboxUsage> = Registry::new();
    let mut i: usize = 0;
    while i < ivs.len()
        invariant
            i <= ivs@.len(),
            sums(m@, ivs@, now, i as int),
            names_ascend(m.pairs()),
        decreases ivs@.len() - i,
    {
        let iv = &ivs[i];
        let id = iv.sandbox_id.as_str();
        let was: SandboxUsage = match m.get(id) {
            Some(u) => *u,
            None => SandboxUsage { millis: 0, cost: 0 },
        };
        proof {
            lemma_bounds(ivs@, id@, now, i as int);
            lemma_bounds(ivs@, id@, now, i + 1);
            lemma_cost_is_natural(*iv, now);
            assert((i + 1) * 18_446_744_073_710 <= 0x1_0000_0000_0000_0000 * 18_446_744_073_710)
                by (nonlinear_arith)
                requires
                    i + 1 <= 0x1_0000_0000_0000_0000,
            ;
        }
        let ghost before = m@;
        m.insert(
            id,
            SandboxUsage {
                millis: was.millis + iv.milliseconds(now) as u128,
                cost: bounded_sum(was.cost, iv.cost_usd(now)),
            },
        );
        proof {
            assert forall|k: Seq<char>| #[trigger]
                m@.contains_key(k) <==> intervals_of(ivs@, k, i + 1) > 0 by {
                lemma_bounds(ivs@, k, now, i as int);
                assert(before.contains_key(k) <==> intervals_of(ivs@, k, i as int) > 0);
            }
            assert forall|k: Seq<char>| #[trigger] m@.contains_key(k) implies m@[k].millis
                == millis_of(ivs@, k, now, i + 1) && m@[k].cost == bounded(
                cost_of(ivs@, k, now, i + 1),
            ) by {
                if k != id@ {
                    assert(before.contains_key(k));
                }
            }
        }
        i = i + 1;
    }
    m
}

/// Nobody is charged for a sandbox more than for all: no sandbox costs more than
/// the total.
pub proof fn law_no_sandbox_costs_more_than_all(ivs: Seq<UsageInterval>, id: Seq<char>, now: Nanos)
    ensures
        0 <= cost_of(ivs, id, now, ivs.len() as int) <= total_cost(ivs, now),
        bounded(cost_of(ivs, id, now, ivs.len() as int)) <= bounded(total_cost(ivs, now)),
{
    lemma_bounds(ivs, id, now, ivs.len() as int);
    assert(ivs.subrange(0, ivs.len() as int) =~= ivs);
}

// ---------------------------------------------------------------------------
// A month
// ---------------------------------------------------------------------------

/// The later of two moments.
pub open spec fn latest(a: Nanos, b: Nanos) -> Nanos {
    if a > b {
        a
    } else {
        b
    }
}

/// The milliseconds of an interval that fall into the time since `from`.
pub open spec fn millis_since(iv: UsageInterval, from: Nanos, now: Nanos) -> int {
    let start = latest(iv.started_at, from);
    millis_between(start, latest(iv.end(now), start))
}

/// What an interval delivered since `from`, in ten-millionths of a unit times
/// milliseconds.
pub open spec fn delivered_since(iv: UsageInterval, from: Nanos, now: Nanos) -> int {
    millis_since(iv, from, now) * iv.resource_units_e4 * iv.image_multiplier_milli
}

/// What the first `n` intervals delivered since `from`.
pub open spec fn month_delivered(ivs: Seq<UsageInterval>, from: Nanos, now: Nanos, n: int) -> int
    decreases n,
{
    if n <= 0 {
        0
    } else {
        month_delivered(ivs, from, now, n - 1) + delivered_since(ivs[n - 1], from, now)
    }
}

/// Time before `from` does not count, and time after it counts in full.
pub proof fn law_month_is_clipped(iv: UsageInterval, from: Nanos, now: Nanos)
    ensures
        iv.end(now) <= from ==> millis_since(iv, from, now) == 0,
        iv.started_at >= from ==> millis_since(iv, from, now) == iv.millis(now),
        0 <= millis_since(iv, from, now) <= iv.millis(now),
{
}

fn later_of(a: Nanos, b: Nanos) -> (r: Nanos)
    ensures
        r == latest(a, b),
{
    if a > b {
        a
    } else {
        b
    }
}

/// What all intervals delivered since `from`, such as the beginning of the month,
/// in ten-millionths of a unit times milliseconds.
pub fn delivered_in_month(ivs: &Vec<UsageInterval>, from: Nanos, now: Nanos) -> (r: u128)
    ensures
        r == bounded(month_delivered(ivs@, from, now, ivs@.len() as int)),
        r <= COST_LIMIT,
{
    let mut sum: u128 = 0;
    let mut i: usize = 0;
    while i < ivs.len()
        invariant
            i <= ivs@.len(),
            0 <= month_delivered(ivs@, from, now, i as int),
            sum == bounded(month_delivered(ivs@, from, now, i as int)),
            sum <= COST_LIMIT,
        decreases ivs@.len() - i,
    {
        let iv = &ivs[i];
        let start: Nanos = later_of(iv.started_at, from);
        let stop: Nanos = match iv.ended_at {
            Some(t) => t,
            None => now,
        };
        let ms: u64 = elapsed_millis(start, later_of(stop, start));
        proof {
            let (m, u, x) = (ms as int, iv.resource_units_e4 as int, iv.image_multiplier_milli as int);
            lemma_bounded_product(m, u);
            lemma_bounded_product(m * u, x);
        }
        sum = bounded_sum(sum, delivered_by(ms, iv.resource_units_e4, iv.image_multiplier_milli));
        i = i + 1;
    }
    sum
}

// ---------------------------------------------------------------------------
// An org
// ---------------------------------------------------------------------------

/// What an org has used, and what it has left.
#[derive(Debug)]
pub struct UsageView {
    /// Cost steps.
    pub total_cost: i128,
    /// Ten-millionths of a unit times milliseconds.
    pub delivered: u128,
    /// Cost steps; nothing where the org is not known.
    pub prepaid_credits: Option<i128>,
    pub balance: Option<i128>,
    pub quota_mb: Option<i64>,
    pub sandboxes: Registry<SandboxUsage>,
}

/// What an org has used.
pub fn usage(org: &Option<Org>, ivs: &Vec<UsageInterval>, now: Nanos) -> (r: UsageView)
    requires
        *org matches Some(o) ==> o.wf(),
    ensures
        r.total_cost == bounded(total_cost(ivs@, now)),
        r.delivered == bounded(month_delivered(ivs@, i64::MIN, now, ivs@.len() as int)),
        r.prepaid_credits == (match *org {
            Some(o) => Some(o.prepaid_credits),
            None => None,
        }),
        r.balance == (match *org {
            Some(o) => Some(o.balance() as i128),
            None => None,
        }),
        r.quota_mb == (match *org {
            Some(o) => Some(o.quota_mb),
            None => None,
        }),
        sums(r.sandboxes@, ivs@, now, ivs@.len() as int),
        names_ascend(r.sandboxes.pairs()),
{
    let (prepaid_credits, balance, quota_mb) = match org {
        Some(o) => (Some(o.prepaid_credits), Some(o.balance_usd()), Some(o.quota_mb)),
        None => (None, None, None),
    };
    UsageView {
        total_cost: metered_cost(ivs, now),
        delivered: delivered_in_month(ivs, i64::MIN, now),
        prepaid_credits,
        balance,
        quota_mb,
        sandboxes: per_sandbox(ivs, now),
    }
}

/// What an org is shown as delivered, since ever, is what its intervals delivered
/// while they ran.
pub proof fn law_usage_counts_everything(iv: UsageInterval, now: Nanos)
    ensures
        delivered_since(iv, i64::MIN, now) == iv.delivered(now),
{
}

// ---------------------------------------------------------------------------
// What a unit-hour comes to
// ---------------------------------------------------------------------------

/// Ten-millionths of a unit times milliseconds in a millionth of a unit-hour.
pub const STEPS_PER_MICRO_UNIT_HOUR: u128 = 36_000_000;

/// The cost of a month, and what a unit-hour comes to.
#[derive(Debug, Clone, Copy, PartialEq, Eq, Structural)]
pub struct Overview {
    /// Millionths of a US dollar.
    pub monthly_node_cost_micro_usd: u128,
    /// Control plane, fees and a reserve: a quarter of the nodes' cost. In
    /// hundred-millionths of a US dollar.
    pub platform_overhead_e8_usd: u128,
    /// Millionths of a unit-hour.
    pub delivered_unit_hours_micro: u128,
    /// What a unit-hour comes to, exactly.
    pub reconciled: UnitPrice,
    /// The same to six decimals, in millionths of a US dollar per unit-hour.
    pub reconciled_micro_usd_hr: u128,
}

/// What counts as delivered: a millionth of a unit-hour at least.
pub open spec fn at_least_some(delivered: u128) -> u128 {
    if delivered < STEPS_PER_MICRO_UNIT_HOUR {
        STEPS_PER_MICRO_UNIT_HOUR
    } else {
        delivered
    }
}

/// Reconcile a month's cost of the nodes with what they delivered, in ten-millionths
/// of a unit times milliseconds. One node is counted at least.
pub fn admin_overview(cfg: &PricingConfig, node_count: u32, delivered: u128) -> (r: Overview)
    requires
        cfg.wf(),
    ensures
        r.monthly_node_cost_micro_usd == cfg.monthly_node_cost_micro_usd * (if node_count == 0 {
            1
        } else {
            node_count as int
        }),
        r.platform_overhead_e8_usd == r.monthly_node_cost_micro_usd * 25,
        r.delivered_unit_hours_micro == nearest(
            delivered as int,
            STEPS_PER_MICRO_UNIT_HOUR as int,
        ),
        r.reconciled == (UnitPrice {
            cost_e8_usd: (r.monthly_node_cost_micro_usd * 125) as u128,
            delivered: at_least_some(delivered),
        }),
        r.reconciled_micro_usd_hr == r.reconciled.micro(),
{
    let nodes: u32 = if node_count == 0 {
        1
    } else {
        node_count
    };
    assert(cfg.monthly_node_cost_micro_usd * nodes <= 100_000_000_000_000 * 0xffff_ffff)
        by (nonlinear_arith)
        requires
            cfg.monthly_node_cost_micro_usd <= 100_000_000_000_000u64,
            nodes <= 0xffff_ffffu32,
    ;
    let monthly: u128 = cfg.monthly_node_cost_micro_usd as u128 * nodes as u128;
    let overhead: u128 = monthly * 25;
    let counted: u128 = if delivered < STEPS_PER_MICRO_UNIT_HOUR {
        STEPS_PER_MICRO_UNIT_HOUR
    } else {
        delivered
    };
    let reconciled = reconciled_unit_price_usd_hr(monthly * 100, overhead, counted);
    Overview {
        monthly_node_cost_micro_usd: monthly,
        platform_overhead_e8_usd: overhead,
        delivered_unit_hours_micro: nearest_quotient(delivered, STEPS_PER_MICRO_UNIT_HOUR),
        reconciled,
        reconciled_micro_usd_hr: reconciled.micro_usd_hr(),
    }
}

} // verus!
