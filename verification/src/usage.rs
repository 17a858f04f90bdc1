//! Billing primitives: orgs, API keys and metered running intervals.
//!
//! Money is exact. A cost is a whole number of cost steps, of which a US dollar
//! has 36 000 000 000 000 000 000 000: the product of the unit price in
//! billionths of a dollar per hour, the resource units in ten-thousandths, the
//! image multiplier in thousandths and the running time in milliseconds.

use crate::knobs::Resources;
use crate::nodes::Nanos;
use vstd::arithmetic::div_mod::lemma_fundamental_div_mod;
use vstd::prelude::*;

verus! {

/// Cost steps in one US dollar.
pub const COST_STEPS_PER_USD: i128 = 36_000_000_000_000_000_000_000;

/// The largest amount that is told apart: half of what 128 bits hold, so that the
/// difference of two amounts fits, and more than two thousand million million
/// dollars. What comes to more counts as this much.
pub const COST_LIMIT: i128 = 0x3fff_ffff_ffff_ffff_ffff_ffff_ffff_ffff;

/// An amount as far as amounts reach.
pub open spec fn bounded(n: int) -> int {
    if n > COST_LIMIT {
        COST_LIMIT as int
    } else {
        n
    }
}

/// The sum of two amounts, as far as amounts reach.
pub fn bounded_sum(a: u128, b: u128) -> (r: u128)
    requires
        a <= COST_LIMIT,
        b <= COST_LIMIT,
    ensures
        r == bounded(a + b),
{
    let limit: u128 = COST_LIMIT as u128;
    if b > limit - a {
        limit
    } else {
        a + b
    }
}

/// An amount times a number, as far as amounts reach.
pub fn bounded_product(a: u128, b: u64) -> (r: u128)
    requires
        a <= COST_LIMIT,
    ensures
        r == bounded(a * b),
{
    if b == 0 {
        return 0;
    }
    let limit: u128 = COST_LIMIT as u128;
    let most: u128 = limit / b as u128;
    proof {
        lemma_fundamental_div_mod(limit as int, b as int);
        let (x, y, q, l) = (a as int, b as int, most as int, limit as int);
        if x > q {
            assert(x * y > l) by (nonlinear_arith)
                requires
                    x >= q + 1,
                    y > 0,
                    l == y * q + l % y,
                    l % y < y,
            ;
        } else {
            assert(0 <= x * y <= l) by (nonlinear_arith)
                requires
                    0 <= x <= q,
                    y > 0,
                    l == y * q + l % y,
                    0 <= l % y,
            ;
        }
    }
    if a > most {
        limit
    } else {
        a * b as u128
    }
}

/// Bounding a factor before a product changes nothing.
pub proof fn lemma_bounded_product(a: int, b: int)
    requires
        0 <= a,
        0 <= b,
    ensures
        bounded(bounded(a) * b) == bounded(a * b),
        0 <= a * b,
{
    let l = COST_LIMIT as int;
    assert(0 <= a * b) by (nonlinear_arith)
        requires
            0 <= a,
            0 <= b,
    ;
    if a > l && b > 0 {
        assert(a * b > l) by (nonlinear_arith)
            requires
                a > l,
                b >= 1,
                l > 0,
        ;
        assert(l * b >= l) by (nonlinear_arith)
            requires
                b >= 1,
                l > 0,
        ;
    } else if b == 0 {
        assert(a * b == 0 && bounded(a) * b == 0) by (nonlinear_arith)
            requires
                b == 0,
        ;
    }
}

#[derive(Debug, Clone, Copy, PartialEq, Eq, Structural)]
pub enum OrgStatus {
    Active,
    /// Flagged by abuse detection: still readable, placements throttled.
    Review,
    /// Kill switch engaged: no new sandboxes, running ones stopped.
    Suspended,
}

#[derive(Debug)]
pub struct Org {
    pub id: String,
    pub name: String,
    pub status: OrgStatus,
    /// Prepaid balance in cost steps.
    pub prepaid_credits: i128,
    /// Accumulated charges in cost steps, drawn down against the credits.
    pub spent: i128,
    /// Memory that the org's active sandboxes may hold together, in MiB.
    /// Zero or less means unlimited.
    pub quota_mb: i64,
    pub created_at: Nanos,
}

impl Clone for Org {
    fn clone(&self) -> (r: Self)
        ensures
            r == *self,
    {
        Org {
            id: self.id.clone(),
            name: self.name.clone(),
            status: self.status,
            prepaid_credits: self.prepaid_credits,
            spent: self.spent,
            quota_mb: self.quota_mb,
            created_at: self.created_at,
        }
    }
}

impl Org {
    /// The balance, as an integer.
    pub open spec fn balance(self) -> int {
        self.prepaid_credits - self.spent
    }

    /// Amounts well inside the range of `i128`: no balance overflows.
    pub open spec fn wf(self) -> bool {
        &&& -0x3fff_ffff_ffff_ffff_ffff_ffff_ffff_ffff <= self.prepaid_credits
            <= 0x3fff_ffff_ffff_ffff_ffff_ffff_ffff_ffff
        &&& -0x3fff_ffff_ffff_ffff_ffff_ffff_ffff_ffff <= self.spent
            <= 0x3fff_ffff_ffff_ffff_ffff_ffff_ffff_ffff
    }

    /// Are the amounts well inside the range of `i128`?
    pub fn in_range(&self) -> (r: bool)
        ensures
            r == self.wf(),
    {
        -COST_LIMIT <= self.prepaid_credits && self.prepaid_credits <= COST_LIMIT && -COST_LIMIT
            <= self.spent && self.spent <= COST_LIMIT
    }

    pub fn quota_unlimited(&self) -> (r: bool)
        ensures
            r == (self.quota_mb <= 0),
    {
        self.quota_mb <= 0
    }

    /// Remaining prepaid balance in cost steps.
    pub fn balance_usd(&self) -> (r: i128)
        requires
            self.wf(),
        ensures
            r == self.balance(),
    {
        self.prepaid_credits - self.spent
    }
}

#[derive(Debug)]
pub struct ApiKey {
    /// SHA-256 hex of the presented key; the plaintext is shown once.
    pub key_hash: String,
    pub org_id: String,
    pub name: String,
    pub admin: bool,
    pub disabled: bool,
    pub created_at: Nanos,
}

/// One metered running interval of a sandbox. An open interval has no end.
#[derive(Debug)]
pub struct UsageInterval {
    pub id: String,
    pub sandbox_id: String,
    pub org_id: String,
    pub resources: Resources,
    pub image_key: String,
    /// Resource units in ten-thousandths.
    pub resource_units_e4: u64,
    /// Multiplier in thousandths.
    pub image_multiplier_milli: u32,
    /// Billionths of a US dollar per unit-hour.
    pub unit_price_nano_usd_hr: u64,
    pub started_at: Nanos,
    pub ended_at: Option<Nanos>,
}

/// Whole milliseconds from `start` to `end`; none when `end` is not later.
pub open spec fn millis_between(start: Nanos, end: Nanos) -> int {
    if end <= start {
        0
    } else {
        (end - start) / 1_000_000
    }
}

/// Whole milliseconds from `start` to `end`; none when `end` is not later.
pub fn elapsed_millis(start: Nanos, end: Nanos) -> (r: u64)
    ensures
        r == millis_between(start, end),
{
    if end <= start {
        0
    } else {
        let d: i128 = end as i128 - start as i128;
        (d / 1_000_000) as u64
    }
}

/// Seconds from `start` to `end`, fractions dropped towards zero.
pub open spec fn seconds_between(start: Nanos, end: Nanos) -> int {
    if end >= start {
        (end - start) / 1_000_000_000
    } else {
        -((start - end) / 1_000_000_000)
    }
}

/// Seconds from `start` to `end`, fractions dropped towards zero.
pub fn elapsed_seconds(start: Nanos, end: Nanos) -> (r: i64)
    ensures
        r == seconds_between(start, end),
{
    if end >= start {
        let d: i128 = end as i128 - start as i128;
        (d / 1_000_000_000) as i64
    } else {
        let d: i128 = start as i128 - end as i128;
        let s: i64 = (d / 1_000_000_000) as i64;
        -s
    }
}

impl UsageInterval {
    /// The end of the interval; `now` while it is open.
    pub open spec fn end(self, now: Nanos) -> Nanos {
        match self.ended_at {
            Some(t) => t,
            None => now,
        }
    }

    /// Running milliseconds.
    pub open spec fn millis(self, now: Nanos) -> int {
        millis_between(self.started_at, self.end(now))
    }

    /// Cost per millisecond.
    pub open spec fn rate(self) -> int {
        self.unit_price_nano_usd_hr * self.resource_units_e4 * self.image_multiplier_milli
    }

    /// Cost in cost steps.
    pub open spec fn cost(self, now: Nanos) -> int {
        self.rate() * self.millis(now)
    }

    /// Delivered units times milliseconds, in ten-millionths of a unit.
    pub open spec fn delivered(self, now: Nanos) -> int {
        self.millis(now) * self.resource_units_e4 * self.image_multiplier_milli
    }

    /// Milliseconds elapsed, using `now` for a still-open interval.
    pub fn milliseconds(&self, now: Nanos) -> (r: u64)
        ensures
            r == self.millis(now),
    {
        let end: i64 = match self.ended_at {
            Some(t) => t,
            None => now,
        };
        elapsed_millis(self.started_at, end)
    }

    /// Cost so far, in cost steps.
    pub fn cost_usd(&self, now: Nanos) -> (r: u128)
        ensures
            r == bounded(self.cost(now)),
    {
        proof {
            lemma_cost_steps(*self, now);
        }
        let pu: u128 = bounded_product(self.unit_price_nano_usd_hr as u128, self.resource_units_e4);
        let rate: u128 = bounded_product(pu, self.image_multiplier_milli as u64);
        bounded_product(rate, self.milliseconds(now))
    }

    /// Delivered units times milliseconds, in ten-millionths of a unit.
    pub fn delivered_unit_millis(&self, now: Nanos) -> (r: u128)
        ensures
            r == bounded(self.delivered(now)),
    {
        delivered_by(
            self.milliseconds(now),
            self.resource_units_e4,
            self.image_multiplier_milli,
        )
    }
}

/// What a running time delivers, in ten-millionths of a unit times milliseconds.
pub fn delivered_by(ms: u64, units_e4: u64, multiplier_milli: u32) -> (r: u128)
    ensures
        r == bounded(ms * units_e4 * multiplier_milli),
{
    proof {
        lemma_bounded_product(ms as int, units_e4 as int);
        lemma_bounded_product(ms * units_e4, multiplier_milli as int);
    }
    bounded_product(bounded_product(ms as u128, units_e4), multiplier_milli as u64)
}

proof fn lemma_cost_steps(iv: UsageInterval, now: Nanos)
    ensures
        ({
            let p = iv.unit_price_nano_usd_hr as int;
            let u = iv.resource_units_e4 as int;
            let m = iv.image_multiplier_milli as int;
            &&& bounded(p) == p
            &&& bounded(bounded(p * u) * m) == bounded(iv.rate())
            &&& bounded(bounded(iv.rate()) * iv.millis(now)) == bounded(iv.cost(now))
        }),
{
    lemma_bounded_product(
        iv.unit_price_nano_usd_hr as int,
        iv.resource_units_e4 as int,
    );
    lemma_bounded_product(
        iv.unit_price_nano_usd_hr * iv.resource_units_e4,
        iv.image_multiplier_milli as int,
    );
    lemma_bounded_product(iv.rate(), iv.millis(now));
}

pub proof fn lemma_cost_is_natural(iv: UsageInterval, now: Nanos)
    ensures
        0 <= iv.rate(),
        0 <= iv.millis(now) <= 18_446_744_073_710,
        0 <= iv.cost(now),
        0 <= iv.delivered(now),
{
    let (p, u, m) = (
        iv.unit_price_nano_usd_hr as int,
        iv.resource_units_e4 as int,
        iv.image_multiplier_milli as int,
    );
    lemma_bounded_product(p, u);
    lemma_bounded_product(p * u, m);
    lemma_bounded_product(iv.rate(), iv.millis(now));
    lemma_bounded_product(iv.millis(now), u);
    lemma_bounded_product(iv.millis(now) * u, m);
}

/// The cost of all intervals together.
pub open spec fn total_cost(ivs: Seq<UsageInterval>, now: Nanos) -> int
    decreases ivs.len(),
{
    if ivs.len() == 0 {
        0
    } else {
        total_cost(ivs.drop_last(), now) + ivs.last().cost(now)
    }
}

pub proof fn lemma_total_cost_prefix(ivs: Seq<UsageInterval>, i: int, now: Nanos)
    requires
        0 <= i <= ivs.len(),
    ensures
        0 <= total_cost(ivs.subrange(0, i), now) <= total_cost(ivs, now),
    decreases ivs.len(),
{
    if i == ivs.len() {
        assert(ivs.subrange(0, i) =~= ivs);
        if ivs.len() > 0 {
            assert(ivs.drop_last().subrange(0, i - 1) =~= ivs.drop_last());
            lemma_total_cost_prefix(ivs.drop_last(), i - 1, now);
            lemma_cost_is_natural(ivs[i - 1], now);
        }
    } else {
        assert(ivs.drop_last().subrange(0, i) =~= ivs.subrange(0, i));
        lemma_total_cost_prefix(ivs.drop_last(), i, now);
        lemma_cost_is_natural(ivs[ivs.len() - 1], now);
    }
}

/// The cost of all intervals together, in cost steps.
pub fn metered_cost(ivs: &Vec<UsageInterval>, now: Nanos) -> (r: i128)
    ensures
        r == bounded(total_cost(ivs@, now)),
        0 <= r <= COST_LIMIT,
{
    let mut sum: u128 = 0;
    let mut i: usize = 0;
    while i < ivs.len()
        invariant
            i <= ivs@.len(),
            sum <= COST_LIMIT,
            sum == bounded(total_cost(ivs@.subrange(0, i as int), now)),
        decreases ivs@.len() - i,
    {
        proof {
            lemma_total_cost_prefix(ivs@, i as int, now);
            lemma_cost_is_natural(ivs@[i as int], now);
            assert(ivs@.subrange(0, i + 1).drop_last() =~= ivs@.subrange(0, i as int));
        }
        sum = bounded_sum(sum, ivs[i].cost_usd(now));
        i = i + 1;
    }
    assert(ivs@.subrange(0, i as int) =~= ivs@);
    sum as i128
}

/// The balance right now: the prepaid credits less everything metered, open
/// intervals included. The stored balance lags behind it, because it is drawn
/// down only when an interval closes.
pub fn live_balance_usd(org: &Org, intervals: &Vec<UsageInterval>, now: Nanos) -> (r: i128)
    requires
        org.wf(),
    ensures
        r == org.prepaid_credits - bounded(total_cost(intervals@, now)),
        r <= 0 <==> org.prepaid_credits <= total_cost(intervals@, now),
{
    org.prepaid_credits - metered_cost(intervals, now)
}

// ---------------------------------------------------------------------------
// Laws
// ---------------------------------------------------------------------------

/// A closed interval costs the same whenever one looks.
pub proof fn law_closed_interval_is_final(iv: UsageInterval, a: Nanos, b: Nanos)
    requires
        iv.ended_at is Some,
    ensures
        iv.cost(a) == iv.cost(b),
        iv.delivered(a) == iv.delivered(b),
{
}

/// An interval never gets cheaper as time passes.
pub proof fn law_cost_never_falls(iv: UsageInterval, a: Nanos, b: Nanos)
    requires
        a <= b,
    ensures
        iv.cost(a) <= iv.cost(b),
{
    let (s, t) = (iv.millis(a), iv.millis(b));
    assert(s <= t);
    let rate = iv.rate();
    let (p, u, m) = (
        iv.unit_price_nano_usd_hr as int,
        iv.resource_units_e4 as int,
        iv.image_multiplier_milli as int,
    );
    assert(p * u * m >= 0) by (nonlinear_arith)
        requires
            p >= 0,
            u >= 0,
            m >= 0,
    ;
    assert(rate * s <= rate * t) by (nonlinear_arith)
        requires
            rate >= 0,
            s <= t,
    ;
}

/// Closing an interval and opening another at the same moment charges exactly
/// what leaving it open charges, when the first part is a whole number of
/// milliseconds.
pub proof fn law_split_interval_costs_the_same(
    whole: UsageInterval,
    first: UsageInterval,
    second: UsageInterval,
    cut: Nanos,
    now: Nanos,
)
    requires
        whole.ended_at is None,
        first == (UsageInterval { ended_at: Some(cut), ..whole }),
        second == (UsageInterval { started_at: cut, ..whole }),
        whole.started_at <= cut <= now,
        (cut - whole.started_at) % 1_000_000 == 0,
    ensures
        first.cost(now) + second.cost(now) == whole.cost(now),
{
    let (a, b, c) = (first.millis(now), second.millis(now), whole.millis(now));
    assert(a + b == c);
    let rate = whole.rate();
    assert(rate * a + rate * b == rate * c) by (nonlinear_arith)
        requires
            a + b == c,
    ;
}

} // verus!
