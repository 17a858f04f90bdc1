//! Placement scheduler: pure scoring over node snapshots, so that it is
//! deterministic. The caller gathers the snapshots and applies the placement.
//!
//! Scores are exact: a score is a rational number, and two scores are compared as
//! such.

use crate::capacity::{NodeCapacity, UNIT_MEMORY_MB};
use crate::knobs::Resources;
use crate::model::BootPath;
use crate::nodes::Node;
use crate::numeral::{decimal, digit, digit_char, to_decimal};
use vstd::arithmetic::div_mod::{
    lemma_fundamental_div_mod, lemma_fundamental_div_mod_converse,
};
use vstd::prelude::*;
use vstd::string::*;

verus! {

/// What is to be placed.
#[derive(Debug)]
pub struct PlacementRequest {
    pub org_id: String,
    pub image_key: String,
    pub resources: Resources,
    pub browser_required: bool,
    pub is_custom_image: bool,
}

/// A node's current state as seen by the scheduler.
#[derive(Debug)]
pub struct NodeSnapshot {
    pub node: Node,
    /// What the node's memory comes to by static admission.
    pub capacity: NodeCapacity,
    /// Measured memory (KiB) that may be handed out past the admission ceiling,
    /// where the node admits on it.
    pub measured_spare_kb: Option<u64>,
    /// Memory (MiB) currently committed to active sandboxes.
    pub used_memory_mb: u64,
    pub active_count: u32,
    /// Active sandboxes of the requesting org on this node.
    pub org_active_count: u32,
    /// Ready warm VMs that match the requested image and shape exactly.
    pub hot_pool_available: u32,
    /// Whether the image is cached on this node.
    pub image_cached: bool,
    /// Whether a restorable snapshot for this shape exists on this node.
    pub snapshot_available: bool,
    /// The pressure of a saturated node; that of an idle one is 0. Where it is 0
    /// itself, it counts as 1.
    pub pressure_whole: u64,
    pub cpu_pressure: u64,
    pub io_pressure: u64,
    pub custom_image_cache_pressure: u64,
}

/// The least memory a node needs for browser sandboxes: 16 GB, in KiB.
pub const BROWSER_NODE_KB: u64 = 16_777_216;

/// `a / b < c / d`, by comparing the quotients, and where they are equal the
/// reciprocals of what is left. Nothing is multiplied, so nothing overflows.
fn is_less(a: u128, b: u128, c: u128, d: u128) -> (r: bool)
    requires
        b > 0,
        d > 0,
    ensures
        r == (a * d < c * b),
    decreases b + d,
{
    let (q, s): (u128, u128) = (a / b, c / d);
    let (m, n): (u128, u128) = (a % b, c % d);
    proof {
        lemma_fundamental_div_mod(a as int, b as int);
        lemma_fundamental_div_mod(c as int, d as int);
        lemma_quotients(a as int, b as int, c as int, d as int);
    }
    if q != s {
        return q < s;
    }
    if m == 0 {
        assert(m * d == 0) by (nonlinear_arith)
            requires
                m == 0,
        ;
        assert(n > 0 <==> n * b > 0) by (nonlinear_arith)
            requires
                b > 0,
                n >= 0,
        ;
        return n > 0;
    }
    if n == 0 {
        assert(n * b == 0) by (nonlinear_arith)
            requires
                n == 0,
        ;
        assert(m * d >= 0) by (nonlinear_arith);
        return false;
    }
    assert(m * d == d * m && n * b == b * n) by (nonlinear_arith);
    is_less(d, n, b, m)
}

proof fn lemma_quotients(a: int, b: int, c: int, d: int)
    requires
        a >= 0,
        b > 0,
        c >= 0,
        d > 0,
    ensures
        a / b < c / d ==> a * d < c * b,
        a / b > c / d ==> a * d > c * b,
        a / b == c / d ==> (a * d < c * b <==> (a % b) * d < (c % d) * b),
{
    lemma_fundamental_div_mod(a, b);
    lemma_fundamental_div_mod(c, d);
    let (q, m) = (a / b, a % b);
    let (s, n) = (c / d, c % d);
    assert(a * d == q * (b * d) + m * d) by (nonlinear_arith)
        requires
            a == b * q + m,
    ;
    assert(c * b == s * (b * d) + n * b) by (nonlinear_arith)
        requires
            c == d * s + n,
    ;
    assert(0 <= m * d < b * d) by (nonlinear_arith)
        requires
            0 <= m < b,
            d > 0,
    ;
    assert(0 <= n * b < b * d) by (nonlinear_arith)
        requires
            0 <= n < d,
            b > 0,
    ;
    let w = b * d;
    if q < s {
        assert(q * w + w <= s * w) by (nonlinear_arith)
            requires
                q + 1 <= s,
                w > 0,
        ;
    }
    if q > s {
        assert(s * w + w <= q * w) by (nonlinear_arith)
            requires
                s + 1 <= q,
                w > 0,
        ;
    }
}

/// A node's score for a request: a whole number and a fraction.
#[derive(Debug, Clone, Copy, PartialEq, Eq, Structural)]
pub struct Score {
    pub whole: i128,
    pub part: u128,
    /// What `part` is a part of.
    pub of: u128,
}

impl Score {
    /// The fraction is less than one.
    pub open spec fn wf(self) -> bool {
        self.part < self.of
    }

    /// The score times the denominator of its fraction.
    pub open spec fn weight(self) -> int {
        self.whole * self.of + self.part
    }

    /// Strictly better, as rational numbers.
    pub open spec fn better(self, other: Score) -> bool {
        self.weight() * other.of > other.weight() * self.of
    }

    /// Is this score strictly better?
    pub fn beats(&self, other: &Score) -> (r: bool)
        requires
            self.wf(),
            other.wf(),
        ensures
            r == self.better(*other),
    {
        proof {
            lemma_compare(*self, *other);
        }
        if self.whole != other.whole {
            self.whole > other.whole
        } else {
            is_less(other.part, other.of, self.part, self.of)
        }
    }
}

/// The whole numbers decide, and where they are equal the fractions.
pub proof fn lemma_compare(a: Score, b: Score)
    requires
        a.wf(),
        b.wf(),
    ensures
        a.whole > b.whole ==> a.better(b),
        a.whole < b.whole ==> !a.better(b),
        a.whole == b.whole ==> (a.better(b) <==> b.part * a.of < a.part * b.of),
{
    let (wa, wb) = (a.whole as int, b.whole as int);
    let (pa, pb) = (a.part as int, b.part as int);
    let (oa, ob) = (a.of as int, b.of as int);
    assert((wa * oa + pa) * ob == wa * (oa * ob) + pa * ob) by (nonlinear_arith);
    assert((wb * ob + pb) * oa == wb * (oa * ob) + pb * oa) by (nonlinear_arith);
    let w = oa * ob;
    assert(0 <= pa * ob < w) by (nonlinear_arith)
        requires
            0 <= pa < oa,
            ob > 0,
            w == oa * ob,
    ;
    assert(0 <= pb * oa < w) by (nonlinear_arith)
        requires
            0 <= pb < ob,
            oa > 0,
            w == oa * ob,
    ;
    if wa > wb {
        assert(wa * w >= wb * w + w) by (nonlinear_arith)
            requires
                wa >= wb + 1,
                w > 0,
        ;
    }
    if wa < wb {
        assert(wb * w >= wa * w + w) by (nonlinear_arith)
            requires
                wb >= wa + 1,
                w > 0,
        ;
    }
}

/// Not being beaten is transitive.
pub proof fn lemma_unbeaten_transitive(a: Score, b: Score, c: Score)
    requires
        a.wf(),
        b.wf(),
        c.wf(),
        !a.better(b),
        !b.better(c),
    ensures
        !a.better(c),
        a.weight() * c.of == c.weight() * a.of ==> !c.better(b) && !b.better(a),
{
    let (x, y, z) = (a.weight(), b.weight(), c.weight());
    let (p, q, r) = (a.of as int, b.of as int, c.of as int);
    assert(x * r <= z * p) by (nonlinear_arith)
        requires
            x * q <= y * p,
            y * r <= z * q,
            p > 0,
            q > 0,
            r > 0,
    {
        assert((x * q) * r <= (y * p) * r);
        assert((y * r) * p <= (z * q) * p);
        assert((x * q) * r == q * (x * r));
        assert((y * p) * r == (y * r) * p);
        assert((z * q) * p == q * (z * p));
        assert(q * (x * r) <= q * (z * p));
    }
    if x * r == z * p {
        assert(z * q <= y * r && y * p <= x * q) by (nonlinear_arith)
            requires
                x * q <= y * p,
                y * r <= z * q,
                x * r == z * p,
                p > 0,
                q > 0,
                r > 0,
        {
            assert((x * q) * r <= (y * p) * r);
            assert((y * r) * p <= (z * q) * p);
            assert((x * q) * r == q * (x * r));
            assert((y * p) * r == (y * r) * p);
            assert((z * q) * p == q * (z * p));
            assert((y * p) * r == q * (x * r));
            assert(p * (y * r) == p * (z * q));
            assert(r * (y * p) == r * (x * q));
        }
    }
}

/// Memory still free on a node after placing a request.
pub open spec fn free_after(ceiling: int, used: u64, want: u32) -> int {
    if used + want <= ceiling {
        ceiling - used - want
    } else {
        0
    }
}

/// What a pressure leaves of the whole.
pub open spec fn low(pressure: u64, whole: int) -> int {
    if pressure <= whole {
        whole - pressure
    } else {
        0
    }
}

/// A number, or one in place of nothing.
pub open spec fn some(n: int) -> int {
    if n > 0 {
        n
    } else {
        1
    }
}

impl NodeSnapshot {
    /// The admission ceiling in MiB.
    pub open spec fn ceiling(self) -> int {
        self.capacity.practical_units * UNIT_MEMORY_MB
    }

    /// The request fits below the admission ceiling.
    pub open spec fn fits_statically(self, want: Resources) -> bool {
        self.used_memory_mb + want.memory_mb <= self.ceiling()
    }

    /// The request fits into what is measured to be spare.
    pub open spec fn fits_measured(self, want: Resources) -> bool {
        self.measured_spare_kb matches Some(kb) && want.memory_mb * 1024 <= kb
    }

    /// The node has the memory for the request.
    pub open spec fn fits_memory(self, want: Resources) -> bool {
        self.fits_statically(want) || self.fits_measured(want)
    }

    /// The terms of the score that are whole numbers.
    pub open spec fn flat_score(self, req: PlacementRequest) -> int {
        (if self.hot_pool_available > 0 {
            100int
        } else {
            0
        }) + (if self.image_cached {
            60int
        } else {
            0
        }) - (if req.is_custom_image && !self.image_cached {
            80int
        } else {
            0
        }) - 15 * self.org_active_count
    }

    /// The denominator of the score: that of the memory fit times that of the
    /// pressures.
    pub open spec fn scale(self) -> int {
        some(self.ceiling()) * some(self.pressure_whole as int)
    }

    /// Fifty times the share of the ceiling that would stay free, twenty times what
    /// the CPU pressure leaves and ten times what the I/O pressure leaves; times
    /// the scale.
    pub open spec fn gain(self, req: PlacementRequest) -> int {
        let (c, w) = (some(self.ceiling()), some(self.pressure_whole as int));
        50 * free_after(self.ceiling(), self.used_memory_mb, req.resources.memory_mb) * w + (20
            * low(self.cpu_pressure, w) + 10 * low(self.io_pressure, w)) * c
    }

    /// Forty times the cache pressure for a custom image that is not in the cache;
    /// times the scale.
    pub open spec fn loss(self, req: PlacementRequest) -> int {
        if req.is_custom_image && !self.image_cached {
            40 * self.custom_image_cache_pressure * some(self.ceiling())
        } else {
            0
        }
    }

    /// The score times its scale.
    pub open spec fn points(self, req: PlacementRequest) -> int {
        self.flat_score(req) * self.scale() + (self.gain(req) - self.loss(req))
    }

    /// The score of the node for a request.
    pub open spec fn score(self, req: PlacementRequest) -> Score {
        Score {
            whole: (self.points(req) / self.scale()) as i128,
            part: (self.points(req) % self.scale()) as u128,
            of: self.scale() as u128,
        }
    }

    /// The node can take the request.
    pub open spec fn admits(self, req: PlacementRequest) -> bool {
        &&& self.node.available()
        &&& req.browser_required ==> self.node.total_memory_kb >= BROWSER_NODE_KB
        &&& self.fits_memory(req.resources)
    }

    fn admission_ceiling_mb(&self) -> (r: u64)
        ensures
            r == self.ceiling(),
            r <= 8_796_093_020_160,
    {
        self.capacity.practical_units as u64 * UNIT_MEMORY_MB
    }

    fn fits(&self, want: &Resources) -> (r: bool)
        ensures
            r == self.fits_memory(*want),
    {
        let ceiling: u64 = self.admission_ceiling_mb();
        if self.used_memory_mb <= ceiling && want.memory_mb as u64 <= ceiling
            - self.used_memory_mb {
            return true;
        }
        match self.measured_spare_kb {
            Some(kb) => want.memory_mb as u64 * 1024 <= kb,
            None => false,
        }
    }
}

fn low_of(pressure: u64, whole: u64) -> (r: u64)
    ensures
        r == low(pressure, whole as int),
        r <= whole,
{
    if pressure <= whole {
        whole - pressure
    } else {
        0
    }
}

/// How large the terms of a score can be.
proof fn lemma_term_bounds(c: int, w: int, free: int, cpu: int, io: int, cache: int)
    requires
        0 < c <= 8_796_093_020_160,
        0 < w <= 0xffff_ffff_ffff_ffff,
        0 <= free <= c,
        0 <= cpu <= w,
        0 <= io <= w,
        0 <= cache <= 0xffff_ffff_ffff_ffff,
    ensures
        0 < c * w <= 162_259_276_829_213_363_391_578_010_288_128,
        0 <= 50 * free * w <= 50 * (c * w),
        0 <= (20 * cpu + 10 * io) * c <= 30 * (c * w),
        0 <= 40 * cache * c <= 40 * 162_259_276_829_213_363_391_578_010_288_128,
{
    assert(0 < c * w <= 8_796_093_020_160 * 0xffff_ffff_ffff_ffff) by (nonlinear_arith)
        requires
            0 < c <= 8_796_093_020_160,
            0 < w <= 0xffff_ffff_ffff_ffff,
    ;
    assert(0 <= 50 * free * w <= 50 * (c * w)) by (nonlinear_arith)
        requires
            0 <= free <= c,
            0 < w,
    ;
    assert(0 <= (20 * cpu + 10 * io) * c <= 30 * (c * w)) by (nonlinear_arith)
        requires
            0 <= cpu <= w,
            0 <= io <= w,
            0 < c,
    ;
    assert(0 <= 40 * cache * c <= 40 * (8_796_093_020_160 * 0xffff_ffff_ffff_ffff))
        by (nonlinear_arith)
        requires
            0 < c <= 8_796_093_020_160,
            0 <= cache <= 0xffff_ffff_ffff_ffff,
    ;
}

/// A score's whole number and fraction, from its terms: `flat + (gain - loss) / of`.
fn score_of(flat: i64, gain: u128, loss: u128, of: u128) -> (r: Score)
    requires
        0 < of <= 0x7fff_ffff_ffff_ffff_ffff_ffff_ffff_ffff,
        gain <= 0xff_ffff_ffff_ffff_ffff_ffff_ffff_ffff,
        loss <= 0xff_ffff_ffff_ffff_ffff_ffff_ffff_ffff,
    ensures
        r == (Score {
            whole: ((flat * of + (gain - loss)) / of as int) as i128,
            part: ((flat * of + (gain - loss)) % of as int) as u128,
            of,
        }),
        r.weight() == flat * of + (gain - loss),
        r.wf(),
{
    let (down, part): (i128, u128) = if gain >= loss {
        let d: u128 = gain - loss;
        proof {
            lemma_fundamental_div_mod(d as int, of as int);
            assert(d / of <= d) by (nonlinear_arith)
                requires
                    of >= 1,
            ;
        }
        ((d / of) as i128, d % of)
    } else {
        let d: u128 = loss - gain;
        proof {
            lemma_fundamental_div_mod(d as int, of as int);
            assert(d / of <= d) by (nonlinear_arith)
                requires
                    of >= 1,
            ;
        }
        let q: i128 = (d / of) as i128;
        if d % of == 0 {
            (-q, 0)
        } else {
            (-q - 1, of - d % of)
        }
    };
    proof {
        let (o, k, p) = (of as int, down as int, part as int);
        assert(gain - loss == k * o + p) by {
            if gain < loss {
                let d = loss - gain;
                let q = d / o;
                assert(d == o * q + d % o);
                assert((-q) * o == -(o * q)) by (nonlinear_arith);
                assert((-q - 1) * o == -(o * q) - o) by (nonlinear_arith);
            } else {
                let d = gain - loss;
                let q = d / o;
                assert(q * o == o * q) by (nonlinear_arith);
            }
        }
        let total = flat * o + (gain - loss);
        assert((flat + k) * o == flat * o + k * o) by (nonlinear_arith);
        lemma_fundamental_div_mod_converse(total, o, flat + k, p);
    }
    Score { whole: flat as i128 + down, part, of }
}

/// Score one node for one request; nothing when the node cannot admit it.
pub fn score_node(req: &PlacementRequest, snap: &NodeSnapshot) -> (r: Option<Score>)
    ensures
        r is Some <==> snap.admits(*req),
        r matches Some(s) ==> s == snap.score(*req) && s.wf() && s.of == snap.scale() && s.weight()
            == snap.points(*req),
{
    if !snap.node.is_available() {
        return None;
    }
    if req.browser_required && snap.node.total_memory_kb < BROWSER_NODE_KB {
        // Browser shapes need real memory; tiny nodes are not eligible.
        return None;
    }
    if !snap.fits(&req.resources) {
        return None;
    }
    let hot: i64 = if snap.hot_pool_available > 0 {
        100
    } else {
        0
    };
    let cached: i64 = if snap.image_cached {
        60
    } else {
        0
    };
    let missed = req.is_custom_image && !snap.image_cached;
    let miss: i64 = if missed {
        80
    } else {
        0
    };
    // Anti-affinity: discourage piling one org's sandboxes on one node.
    let flat: i64 = hot + cached - miss - 15 * snap.org_active_count as i64;
    let ceiling: u64 = snap.admission_ceiling_mb();
    let taken: u128 = snap.used_memory_mb as u128 + req.resources.memory_mb as u128;
    let free: u64 = if taken <= ceiling as u128 {
        ceiling - taken as u64
    } else {
        0
    };
    let c: u128 = if ceiling > 0 {
        ceiling as u128
    } else {
        1
    };
    let whole: u64 = if snap.pressure_whole > 0 {
        snap.pressure_whole
    } else {
        1
    };
    let w: u128 = whole as u128;
    let cpu: u128 = low_of(snap.cpu_pressure, whole) as u128;
    let io: u128 = low_of(snap.io_pressure, whole) as u128;
    let cache: u128 = if missed {
        snap.custom_image_cache_pressure as u128
    } else {
        0
    };
    proof {
        lemma_term_bounds(
            c as int,
            w as int,
            free as int,
            cpu as int,
            io as int,
            cache as int,
        );
    }
    let gain: u128 = 50 * free as u128 * w + (20 * cpu + 10 * io) * c;
    let loss: u128 = 40 * cache * c;
    assert(loss == snap.loss(*req));
    assert(gain == snap.gain(*req));
    Some(score_of(flat, gain, loss, c * w))
}

/// Where a sandbox goes.
#[derive(Debug)]
pub struct Placement {
    pub node_id: String,
    pub score: Score,
    /// The boot path the scheduler expects; the runtime confirms the actual one.
    pub boot_path_hint: BootPath,
}

/// Why a request was not placed.
#[derive(Debug)]
pub struct Rejection {
    /// Stable machine code.
    pub reason: String,
    pub detail: String,
}

/// The decimal digits of `f`/1024, at most `n` of them, without trailing zeros.
pub open spec fn binary_fraction(f: nat, n: nat) -> Seq<char>
    decreases n,
{
    if f == 0 || n == 0 {
        Seq::<char>::empty()
    } else {
        seq![digit_char(f * 10 / 1024)] + binary_fraction(f * 10 % 1024, (n - 1) as nat)
    }
}

/// A number of MiB in GB, as a decimal number.
pub open spec fn gb_text(mb: nat) -> Seq<char> {
    if mb % 1024 == 0 {
        decimal(mb / 1024)
    } else {
        decimal(mb / 1024) + seq!['.'] + binary_fraction(mb % 1024, 10)
    }
}

/// Write a number of MiB in GB.
pub fn show_gb(mb: u32) -> (r: String)
    ensures
        r@ == gb_text(mb as nat),
{
    let mut s = to_decimal((mb / 1024) as u64);
    let mut f: u64 = (mb % 1024) as u64;
    if f != 0 {
        s.push('.');
        let ghost start = s@;
        let mut n: u64 = 10;
        while f != 0 && n > 0
            invariant
                f < 1024,
                n <= 10,
                s@ + binary_fraction(f as nat, n as nat) == start + binary_fraction(
                    (mb % 1024) as nat,
                    10,
                ),
            decreases n,
        {
            let ghost s0 = s@;
            let ghost f0 = f as nat;
            s.push(digit(f * 10 / 1024));
            f = f * 10 % 1024;
            n = n - 1;
            assert(s@ + binary_fraction(f as nat, n as nat) =~= s0 + binary_fraction(
                f0,
                (n + 1) as nat,
            ));
        }
        assert(s@ =~= s@ + binary_fraction(f as nat, n as nat));
        assert(start + binary_fraction((mb % 1024) as nat, 10) =~= gb_text(mb as nat));
    }
    s
}

/// Some node is in rotation.
pub open spec fn some_available(snaps: Seq<NodeSnapshot>) -> bool {
    exists|i: int| 0 <= i < snaps.len() && (#[trigger] snaps[i]).node.available()
}

/// Some node in rotation is large enough for browsers.
pub open spec fn some_browser_node(snaps: Seq<NodeSnapshot>) -> bool {
    exists|i: int|
        0 <= i < snaps.len() && (#[trigger] snaps[i]).node.available()
            && snaps[i].node.total_memory_kb >= BROWSER_NODE_KB
}

/// Some node in rotation has the memory.
pub open spec fn some_fit(snaps: Seq<NodeSnapshot>, want: Resources) -> bool {
    exists|i: int|
        0 <= i < snaps.len() && (#[trigger] snaps[i]).node.available() && snaps[i].fits_memory(want)
}

/// Some node can take the request.
pub open spec fn some_admits(snaps: Seq<NodeSnapshot>, req: PlacementRequest) -> bool {
    exists|i: int| 0 <= i < snaps.len() && (#[trigger] snaps[i]).admits(req)
}

/// Why no node is chosen, as code and explanation; nothing when one is.
pub open spec fn refusal(req: PlacementRequest, snaps: Seq<NodeSnapshot>) -> Option<
    (Seq<char>, Seq<char>),
> {
    if snaps.len() == 0 {
        Some(("no_nodes"@, "no nodes are registered"@))
    } else if !some_available(snaps) {
        Some(("no_schedulable_nodes"@, "all nodes are draining or unschedulable"@))
    } else if req.browser_required && !some_browser_node(snaps) {
        Some(("no_browser_capable_node"@, "no node has enough memory for a browser sandbox"@))
    } else if !some_fit(snaps, req.resources) {
        Some(
            (
                "memory_admission"@,
                "no node can admit "@ + gb_text(req.resources.memory_mb as nat)
                    + " GB without exceeding its practical capacity"@,
            ),
        )
    } else if !some_admits(snaps, req) {
        Some(("no_fit"@, "no node satisfied the request"@))
    } else {
        None
    }
}

/// The node at `i` is the first of the best: it admits the request, no other
/// admitting node beats it, and it beats every admitting node before it.
pub open spec fn first_best(req: PlacementRequest, snaps: Seq<NodeSnapshot>, i: int) -> bool {
    &&& 0 <= i < snaps.len()
    &&& snaps[i].admits(req)
    &&& forall|j: int|
        0 <= j < snaps.len() && (#[trigger] snaps[j]).admits(req) ==> !snaps[j].score(req).better(
            snaps[i].score(req),
        )
    &&& forall|j: int|
        0 <= j < i && (#[trigger] snaps[j]).admits(req) ==> snaps[i].score(req).better(
            snaps[j].score(req),
        )
}

/// The boot path expected on a node.
pub open spec fn boot_hint(s: NodeSnapshot) -> BootPath {
    if s.hot_pool_available > 0 {
        BootPath::HotPool
    } else if s.snapshot_available {
        BootPath::SnapshotRestore
    } else {
        BootPath::ColdBoot
    }
}

fn reject(reason: &str, detail: &str) -> (r: Rejection)
    ensures
        r.reason@ == reason@,
        r.detail@ == detail@,
{
    Rejection { reason: String::from_str(reason), detail: String::from_str(detail) }
}

/// Choose the best node, or explain why none was chosen.
pub fn select(req: &PlacementRequest, snapshots: &[NodeSnapshot]) -> (r: Result<
    Placement,
    Rejection,
>)
    ensures
        (match r {
            Ok(_) => None,
            Err(e) => Some((e.reason@, e.detail@)),
        }) == refusal(*req, snapshots@),
        r matches Ok(p) ==> exists|i: int| #[trigger]
            first_best(*req, snapshots@, i) && p.node_id@ == snapshots@[i].node.id@ && p.score
                == snapshots@[i].score(*req) && p.boot_path_hint == boot_hint(snapshots@[i]),
{
    let n: usize = snapshots.len();
    if n == 0 {
        return Err(reject("no_nodes", "no nodes are registered"));
    }
    let mut available = false;
    let mut browser_node = false;
    let mut fit = false;
    let mut best: Option<(usize, Score)> = None;
    let mut i: usize = 0;
    while i < n
        invariant
            i <= n == snapshots@.len(),
            available <==> exists|j: int|
                0 <= j < i && (#[trigger] snapshots@[j]).node.available(),
            browser_node <==> exists|j: int|
                0 <= j < i && (#[trigger] snapshots@[j]).node.available()
                    && snapshots@[j].node.total_memory_kb >= BROWSER_NODE_KB,
            fit <==> exists|j: int|
                0 <= j < i && (#[trigger] snapshots@[j]).node.available()
                    && snapshots@[j].fits_memory(req.resources),
            best is Some <==> exists|j: int| 0 <= j < i && (#[trigger] snapshots@[j]).admits(*req),
            best matches Some(b) ==> {
                &&& b.0 < i
                &&& b.1 == snapshots@[b.0 as int].score(*req)
                &&& b.1.wf()
                &&& snapshots@[b.0 as int].admits(*req)
                &&& forall|j: int|
                    0 <= j < i && (#[trigger] snapshots@[j]).admits(*req) ==> snapshots@[j].score(
                        *req,
                    ).wf() && !snapshots@[j].score(*req).better(b.1)
                &&& forall|j: int|
                    0 <= j < b.0 && (#[trigger] snapshots@[j]).admits(*req) ==> b.1.better(
                        snapshots@[j].score(*req),
                    )
            },
        decreases n - i,
    {
        let snap = &snapshots[i];
        let ghost si = snapshots@[i as int];
        if snap.node.is_available() {
            available = true;
            if snap.node.total_memory_kb >= BROWSER_NODE_KB {
                browser_node = true;
            }
            if snap.fits(&req.resources) {
                fit = true;
            }
        }
        if let Some(score) = score_node(req, snap) {
            match best {
                None => {
                    best = Some((i, score));
                    proof {
                        lemma_not_better_than_self(score);
                    }
                },
                Some((bi, bs)) => {
                    if score.beats(&bs) {
                        proof {
                            lemma_not_better_than_self(score);
                            assert forall|j: int|
                                0 <= j < i && (#[trigger] snapshots@[j]).admits(
                                    *req,
                                ) implies score.better(snapshots@[j].score(*req)) by {
                                lemma_beats_what_it_beats(snapshots@[j].score(*req), bs, score);
                            }
                            assert forall|j: int|
                                0 <= j < i && (#[trigger] snapshots@[j]).admits(
                                    *req,
                                ) implies !snapshots@[j].score(*req).better(score) by {
                                lemma_better_is_asymmetric(score, snapshots@[j].score(*req));
                            }
                        }
                        best = Some((i, score));
                    }
                },
            }
        }
        i = i + 1;
    }
    if !available {
        return Err(reject("no_schedulable_nodes", "all nodes are draining or unschedulable"));
    }
    if req.browser_required && !browser_node {
        return Err(
            reject("no_browser_capable_node", "no node has enough memory for a browser sandbox"),
        );
    }
    if !fit {
        let mut detail = String::from_str("no node can admit ");
        detail.append(show_gb(req.resources.memory_mb).as_str());
        detail.append(" GB without exceeding its practical capacity");
        return Err(Rejection { reason: String::from_str("memory_admission"), detail });
    }
    match best {
        None => Err(reject("no_fit", "no node satisfied the request")),
        Some((bi, score)) => {
            let snap = &snapshots[bi];
            assert(first_best(*req, snapshots@, bi as int));
            let boot_path_hint = if snap.hot_pool_available > 0 {
                BootPath::HotPool
            } else if snap.snapshot_available {
                BootPath::SnapshotRestore
            } else {
                BootPath::ColdBoot
            };
            Ok(Placement { node_id: snap.node.id.clone(), score, boot_path_hint })
        },
    }
}

proof fn lemma_not_better_than_self(s: Score)
    ensures
        !s.better(s),
{
}

proof fn lemma_better_is_asymmetric(a: Score, b: Score)
    requires
        a.better(b),
    ensures
        !b.better(a),
{
}

/// `x` does not beat `b`, and `s` beats `b`: then `s` beats `x`.
proof fn lemma_beats_what_it_beats(x: Score, b: Score, s: Score)
    requires
        x.wf(),
        b.wf(),
        s.wf(),
        !x.better(b),
        s.better(b),
    ensures
        s.better(x),
{
    if !s.better(x) {
        lemma_unbeaten_transitive(s, x, b);
    }
}

// ---------------------------------------------------------------------------
// Laws
// ---------------------------------------------------------------------------

/// All else equal, a node with a matching warm VM is preferred.
pub proof fn law_hot_pool_is_preferred(req: PlacementRequest, a: NodeSnapshot, b: NodeSnapshot)
    requires
        a.admits(req),
        b == (NodeSnapshot { hot_pool_available: b.hot_pool_available, ..a }),
        a.hot_pool_available == 0,
        b.hot_pool_available > 0,
    ensures
        b.score(req).better(a.score(req)),
{
    lemma_more_points(req, a, b);
}

/// All else equal, the node with fewer of the org's sandboxes is preferred.
pub proof fn law_anti_affinity(req: PlacementRequest, a: NodeSnapshot, b: NodeSnapshot)
    requires
        a.admits(req),
        b == (NodeSnapshot { org_active_count: b.org_active_count, ..a }),
        b.org_active_count < a.org_active_count,
    ensures
        b.score(req).better(a.score(req)),
{
    lemma_more_points(req, a, b);
}

/// Two nodes that differ in the whole numbers of their scores only.
proof fn lemma_more_points(req: PlacementRequest, a: NodeSnapshot, b: NodeSnapshot)
    requires
        a.scale() == b.scale(),
        a.gain(req) == b.gain(req),
        a.loss(req) == b.loss(req),
        a.flat_score(req) < b.flat_score(req),
    ensures
        b.score(req).better(a.score(req)),
{
    lemma_score_weight(req, a);
    lemma_score_weight(req, b);
    let o = a.scale();
    let (x, y) = (a.flat_score(req), b.flat_score(req));
    assert(x * o < y * o) by (nonlinear_arith)
        requires
            x < y,
            o > 0,
    ;
    let (p, q) = (a.points(req), b.points(req));
    assert(q * o > p * o) by (nonlinear_arith)
        requires
            p < q,
            o > 0,
    ;
}

/// A score stands for the points over their scale.
proof fn lemma_score_weight(req: PlacementRequest, s: NodeSnapshot)
    ensures
        s.score(req).wf(),
        s.score(req).of == s.scale(),
        s.scale() > 0,
        s.score(req).weight() == s.points(req),
{
    let (c, w) = (some(s.ceiling()), some(s.pressure_whole as int));
    let free = free_after(s.ceiling(), s.used_memory_mb, req.resources.memory_mb);
    let (cpu, io) = (low(s.cpu_pressure, w), low(s.io_pressure, w));
    let cache = s.custom_image_cache_pressure as int;
    lemma_term_bounds(c, w, free, cpu, io, cache);
    let o = s.scale();
    let n = s.points(req);
    let f = s.flat_score(req);
    let rest = s.gain(req) - s.loss(req);
    assert(-70_000_000_000 <= f <= 160);
    let bound = 40 * 162_259_276_829_213_363_391_578_010_288_128;
    assert(-bound <= rest <= 80 * o);
    lemma_fundamental_div_mod(n, o);
    assert(n / o <= 240) by (nonlinear_arith)
        requires
            n == f * o + rest,
            f <= 160,
            rest <= 80 * o,
            o > 0,
            n == o * (n / o) + n % o,
            n % o >= 0,
    ;
    assert(n / o >= -70_000_000_000 - bound - 1) by (nonlinear_arith)
        requires
            n == f * o + rest,
            f >= -70_000_000_000,
            rest >= -bound,
            bound >= 0,
            o > 0,
            n == o * (n / o) + n % o,
            n % o < o,
    ;
    assert((n / o) * o == o * (n / o)) by (nonlinear_arith);
}

/// A placed sandbox never pushes its node over the admission ceiling, unless what is
/// measured to be spare holds it, and never lands on a node out of rotation.
pub proof fn law_placement_respects_admission(
    req: PlacementRequest,
    snaps: Seq<NodeSnapshot>,
    i: int,
)
    requires
        first_best(req, snaps, i),
    ensures
        snaps[i].used_memory_mb + req.resources.memory_mb <= snaps[i].ceiling() || (
        snaps[i].measured_spare_kb matches Some(kb) && req.resources.memory_mb * 1024 <= kb),
        snaps[i].node.schedulable,
        !snaps[i].node.draining,
        snaps[i].node.kvm_ok,
{
}

} // verus!
