//! Capacity math and default-equivalent units.
//!
//! One unit is one default sandbox: 1 vCPU, 2 GB, 8 GB of disk. Memory is the
//! admission constraint; the practical limit is deliberately below the
//! theoretical one, to absorb host pressure, page cache and browser workloads.
//!
//! Node memory is counted in KiB, sandbox memory in MiB.

use vstd::prelude::*;

verus! {

/// Memory reserved for the host and never sold to sandboxes: 12 GB, in KiB.
pub const DEFAULT_HOST_RESERVE_KB: u64 = 12_582_912;

/// One unit's memory footprint: 2 GB, in KiB.
pub const UNIT_MEMORY_KB: u64 = 2_097_152;

/// One unit's memory footprint in MiB.
pub const UNIT_MEMORY_MB: u64 = 2048;

/// A fraction: so many parts of a whole. A whole of nothing has no parts.
#[derive(Debug, Clone, Copy, PartialEq, Eq, Structural)]
pub struct Fraction {
    pub parts: u64,
    pub whole: u64,
}

impl Fraction {
    /// The fraction of a number, rounded down.
    pub open spec fn of(self, n: int) -> int {
        if self.whole == 0 {
            0
        } else {
            n * self.parts / self.whole as int
        }
    }
}

/// Of so many theoretical slots, some are held back by default to absorb spikes.
pub const DERATE_WHOLE: u64 = 26;

/// How many of them are admitted: 20 of the 26 of a 64 GB node.
pub const DERATE_PARTS: u64 = 20;

/// How static admission counts a node's memory.
#[derive(Debug, Clone, Copy, PartialEq, Eq, Structural)]
pub struct CapacityRule {
    /// Memory reserved for the host and never sold to sandboxes, in KiB.
    pub host_reserve_kb: u64,
    /// Fraction of the theoretical slots that are admitted.
    pub practical_derate: Fraction,
}

impl Default for CapacityRule {
    fn default() -> (r: Self)
        ensures
            r == (CapacityRule {
                host_reserve_kb: DEFAULT_HOST_RESERVE_KB,
                practical_derate: Fraction { parts: DERATE_PARTS, whole: DERATE_WHOLE },
            }),
    {
        CapacityRule {
            host_reserve_kb: DEFAULT_HOST_RESERVE_KB,
            practical_derate: Fraction { parts: DERATE_PARTS, whole: DERATE_WHOLE },
        }
    }
}

#[derive(Debug, Clone, Copy, PartialEq, Eq, Structural)]
pub struct NodeCapacity {
    pub total_memory_kb: u64,
    pub host_reserve_kb: u64,
    pub usable_for_sandboxes_kb: u64,
    /// Memory-only count of default-shape sandboxes.
    pub theoretical_units: u32,
    /// Admission ceiling in default-equivalent units: the admitted fraction of the
    /// theoretical ones.
    pub practical_units: u32,
}

/// What is left for sandboxes once the host has its share.
pub open spec fn usable_kb(total: u64, rule: CapacityRule) -> int {
    if total >= rule.host_reserve_kb {
        total - rule.host_reserve_kb
    } else {
        0
    }
}

/// A count as far as `u32` can count.
pub open spec fn counted(n: int) -> int {
    if n <= u32::MAX {
        n
    } else {
        u32::MAX as int
    }
}

/// How many default shapes fit by memory alone.
pub open spec fn theoretical(total: u64, rule: CapacityRule) -> int {
    counted(usable_kb(total, rule) / UNIT_MEMORY_KB as int)
}

/// How many default shapes are admitted.
pub open spec fn practical(total: u64, rule: CapacityRule) -> int {
    counted(rule.practical_derate.of(theoretical(total, rule)))
}

/// The capacity of a node with so much memory.
pub open spec fn capacity_of(total: u64, rule: CapacityRule) -> NodeCapacity {
    NodeCapacity {
        total_memory_kb: total,
        host_reserve_kb: rule.host_reserve_kb,
        usable_for_sandboxes_kb: usable_kb(total, rule) as u64,
        theoretical_units: theoretical(total, rule) as u32,
        practical_units: practical(total, rule) as u32,
    }
}

fn admitted(theoretical_units: u32, derate: Fraction) -> (r: u32)
    ensures
        r == counted(derate.of(theoretical_units as int)),
{
    if derate.whole == 0 {
        return 0;
    }
    assert(theoretical_units * derate.parts <= 0xffff_ffff * 0xffff_ffff_ffff_ffff)
        by (nonlinear_arith)
        requires
            theoretical_units <= 0xffff_ffffu32,
            derate.parts <= 0xffff_ffff_ffff_ffffu64,
    ;
    let n: u128 = theoretical_units as u128 * derate.parts as u128 / derate.whole as u128;
    if n <= u32::MAX as u128 {
        n as u32
    } else {
        u32::MAX
    }
}

/// Node capacity from total memory. By default a 64 GB node has 52 GB usable, 26
/// theoretical and 20 practical units.
pub fn node_capacity(total_memory_kb: u64, rule: &CapacityRule) -> (r: NodeCapacity)
    ensures
        r == capacity_of(total_memory_kb, *rule),
        r.usable_for_sandboxes_kb == usable_kb(total_memory_kb, *rule),
        r.theoretical_units == theoretical(total_memory_kb, *rule),
        r.practical_units == practical(total_memory_kb, *rule),
{
    let usable: u64 = if total_memory_kb >= rule.host_reserve_kb {
        total_memory_kb - rule.host_reserve_kb
    } else {
        0
    };
    let slots: u64 = usable / UNIT_MEMORY_KB;
    let theoretical_units: u32 = if slots <= u32::MAX as u64 {
        slots as u32
    } else {
        u32::MAX
    };
    NodeCapacity {
        total_memory_kb,
        host_reserve_kb: rule.host_reserve_kb,
        usable_for_sandboxes_kb: usable,
        theoretical_units,
        practical_units: admitted(theoretical_units, rule.practical_derate),
    }
}

pub proof fn lemma_capacity_counts(total: u64, rule: CapacityRule)
    ensures
        capacity_of(total, rule).usable_for_sandboxes_kb == usable_kb(total, rule),
        capacity_of(total, rule).theoretical_units == theoretical(total, rule),
        capacity_of(total, rule).practical_units == practical(total, rule),
{
    let t = theoretical(total, rule);
    let d = rule.practical_derate;
    if d.whole != 0 {
        assert(t * d.parts >= 0) by (nonlinear_arith)
            requires
                t >= 0,
        ;
        assert(t * d.parts / d.whole as int >= 0) by (nonlinear_arith)
            requires
                t * d.parts >= 0,
                d.whole > 0,
        ;
    }
}

/// The admission ceiling of a node in MiB.
pub open spec fn ceiling_mb(total: u64, rule: CapacityRule) -> int {
    practical(total, rule) * UNIT_MEMORY_MB
}

/// Tenths of a default-equivalent unit that a memory footprint takes, rounded
/// to the nearest tenth, a tie to the even one.
pub open spec fn tenths(mb: nat) -> nat {
    let q = mb * 10 / 2048;
    let rest = mb * 10 % 2048;
    if rest > 1024 || (rest == 1024 && q % 2 == 1) {
        q + 1
    } else {
        q
    }
}

/// Default-equivalent units of a memory footprint, in tenths.
pub fn units_for_memory_mb(mb: u64) -> (r: u64)
    ensures
        r == tenths(mb as nat),
{
    let ten: u128 = mb as u128 * 10;
    let q: u64 = (ten / 2048) as u64;
    let rest: u64 = (ten % 2048) as u64;
    if rest > 1024 || (rest == 1024 && q % 2 == 1) {
        q + 1
    } else {
        q
    }
}

/// Filling a node to its admission ceiling never takes memory from the host's
/// reserve, as long as no more than the whole is admitted.
pub proof fn law_ceiling_spares_the_host(total: u64, rule: CapacityRule)
    requires
        rule.practical_derate.parts <= rule.practical_derate.whole,
    ensures
        ceiling_mb(total, rule) * 1024 <= usable_kb(total, rule),
        usable_kb(total, rule) + rule.host_reserve_kb <= total || usable_kb(total, rule) == 0,
{
    let t = theoretical(total, rule);
    let p = practical(total, rule);
    let (x, y) = (rule.practical_derate.parts as int, rule.practical_derate.whole as int);
    if y > 0 {
        assert(0 <= t * x / y <= t) by (nonlinear_arith)
            requires
                t >= 0,
                0 <= x <= y,
                y > 0,
        ;
    }
    assert(t * UNIT_MEMORY_KB <= usable_kb(total, rule)) by (nonlinear_arith)
        requires
            t <= usable_kb(total, rule) / UNIT_MEMORY_KB as int,
            UNIT_MEMORY_KB == 2_097_152,
    ;
    assert(p * 2048 * 1024 <= t * 2_097_152) by (nonlinear_arith)
        requires
            p <= t,
    ;
}

/// More memory never means fewer units.
pub proof fn law_capacity_is_monotone(a: u64, b: u64, rule: CapacityRule)
    requires
        a <= b,
    ensures
        theoretical(a, rule) <= theoretical(b, rule),
        practical(a, rule) <= practical(b, rule),
{
    let (x, y) = (usable_kb(a, rule), usable_kb(b, rule));
    assert(x / 2_097_152 <= y / 2_097_152);
    let (s, t) = (theoretical(a, rule), theoretical(b, rule));
    let (p, w) = (rule.practical_derate.parts as int, rule.practical_derate.whole as int);
    if w > 0 {
        assert(s * p <= t * p) by (nonlinear_arith)
            requires
                s <= t,
                p >= 0,
        ;
        vstd::arithmetic::div_mod::lemma_div_is_ordered(s * p, t * p, w);
    }
}

} // verus!
