//! Prices and charges.

use crate::catalog::ImageClass;
use crate::knobs::Resources;
use crate::pricing::{
    interval_cost_usd, override_for, quote, quotes, reconciled_unit_price_usd_hr, resource_units,
    sandbox_price_usd_hr, units, PriceQuote, PricingConfig, UnitPrice, UNIT_PARTS,
};
use crate::usage::{
    bounded, elapsed_seconds, total_cost, Org, UsageInterval, COST_LIMIT, COST_STEPS_PER_USD,
};
use crate::nodes::Nanos;
use vstd::arithmetic::div_mod::lemma_fundamental_div_mod;
use vstd::prelude::*;

verus! {

// ---------------------------------------------------------------------------
// Prices
// ---------------------------------------------------------------------------

/// Every resource is charged for: a shape has at least as many units as it has
/// processors, as it has times two GB of memory, and as it has times 32 GB of disk,
/// and no more than the largest of the three.
pub proof fn law_units_cover_every_resource(r: Resources)
    ensures
        units(r) * 1000 >= r.cpu_milli * UNIT_PARTS,
        units(r) * 2048 >= r.memory_mb * UNIT_PARTS,
        units(r) * 32 >= r.disk_gb * UNIT_PARTS,
        units(r) * 1000 == r.cpu_milli * UNIT_PARTS || units(r) * 2048 == r.memory_mb * UNIT_PARTS
            || units(r) * 32 == r.disk_gb * UNIT_PARTS,
        UNIT_PARTS == 256_000,
{
}

/// The distance between two integers.
pub open spec fn apart(a: int, b: int) -> int {
    if a >= b {
        a - b
    } else {
        b - a
    }
}

/// A quote tells what the shape is charged, to half of its last digit: the unit
/// price times the units times the image's multiplier, per hour and per second.
pub proof fn law_quote_is_the_product(
    q: PriceQuote,
    cfg: PricingConfig,
    r: Resources,
    class: ImageClass,
)
    requires
        quotes(q, cfg, r, class),
    ensures
        ({
            let p = cfg.default_unit_price_nano_usd_hr * units(r) * cfg.multiplier(class);
            &&& 2 * apart(q.price_micro_usd_hr * 256_000_000_000, p) <= 256_000_000_000
            &&& 2 * apart(q.price_micro_usd_second * 921_600_000_000_000, p)
                <= 921_600_000_000_000
        }),
        2 * apart(q.resource_units_e4 * 256_000, units(r) * 10_000) <= 256_000,
        q.unit_price_nano_usd_hr == cfg.default_unit_price_nano_usd_hr,
        q.image_multiplier_milli == cfg.multiplier(class),
{
    let p = cfg.default_unit_price_nano_usd_hr * units(r) * cfg.multiplier(class);
    lemma_nearest_is_near(p, 256_000_000_000);
    lemma_nearest_is_near(p, 921_600_000_000_000);
    lemma_nearest_is_near(units(r) * 10_000, 256_000);
}

pub proof fn lemma_nearest_is_near(n: int, d: int)
    requires
        0 < d,
    ensures
        2 * apart(crate::pricing::nearest(n, d) * d, n) <= d,
{
    let q = crate::pricing::nearest(n, d);
    lemma_fundamental_div_mod(2 * n + d, 2 * d);
    let t = (2 * n + d) % (2 * d);
    assert((2 * d) * q == 2 * (q * d)) by (nonlinear_arith);
    assert(2 * n + d == 2 * (q * d) + t);
}

/// A multiplier that the configuration names for an image counts; where it names
/// none, the image's own does: 1.0, 1.1, 2.5, 2.0, and 1.2 for custom images.
pub proof fn law_multipliers(cfg: PricingConfig, class: ImageClass)
    ensures
        cfg.image_multipliers@.len() > 0 && cfg.image_multipliers@[0].0@ == class.key_text()
            ==> cfg.multiplier(class) == cfg.image_multipliers@[0].1,
        cfg.image_multipliers@.len() == 0 ==> cfg.multiplier(class) == (match class {
            ImageClass::Base => 1000u32,
            ImageClass::NodePython => 1100u32,
            ImageClass::Browser => 2500u32,
            ImageClass::HeavyBuild => 2000u32,
            _ => 1200u32,
        }),
{
}

/// A multiplier counts wherever it stands in the list, unless an earlier one is for
/// the same image.
pub proof fn law_overrides_are_found(list: Seq<(String, u32)>, key: Seq<char>, i: int)
    requires
        0 <= i < list.len(),
        list[i].0@ == key,
        forall|j: int| 0 <= j < i ==> (#[trigger] list[j]).0@ != key,
    ensures
        override_for(list, key) == Some(list[i].1),
    decreases i,
{
    if i > 0 {
        let rest = list.subrange(1, list.len() as int);
        assert(list[0].0@ != key);
        assert forall|j: int| 0 <= j < i - 1 implies (#[trigger] rest[j]).0@ != key by {
            assert(rest[j] == list[j + 1]);
        }
        law_overrides_are_found(rest, key, i - 1);
    }
}

// ---------------------------------------------------------------------------
// Charges
// ---------------------------------------------------------------------------

/// An interval is metered to the whole millisecond and costs the unit price times
/// the units times the multiplier times the time: an hour of one unit at multiplier
/// one costs exactly the unit price.
pub proof fn law_interval_is_charged_by_time(iv: UsageInterval, now: Nanos)
    ensures
        ({
            let end = match iv.ended_at {
                Some(t) => t,
                None => now,
            };
            let ms = iv.millis(now);
            &&& end <= iv.started_at ==> ms == 0
            &&& end > iv.started_at ==> ms * 1_000_000 <= end - iv.started_at < (ms + 1)
                * 1_000_000
            &&& iv.cost(now) == iv.unit_price_nano_usd_hr * iv.resource_units_e4
                * iv.image_multiplier_milli * ms
            &&& iv.delivered(now) == ms * iv.resource_units_e4 * iv.image_multiplier_milli
        }),
        COST_STEPS_PER_USD == 1_000_000_000 * 10_000 * 1000 * 3_600_000,
{
}

/// What is owed for several intervals is the sum of what each costs: one more
/// interval adds exactly its cost, wherever the others end.
pub proof fn law_charges_add_up(a: Seq<UsageInterval>, b: Seq<UsageInterval>, now: Nanos)
    ensures
        total_cost(a + b, now) == total_cost(a, now) + total_cost(b, now),
        a.len() == 1 ==> total_cost(a, now) == a[0].cost(now),
        a.len() == 0 ==> total_cost(a, now) == 0,
    decreases b.len(),
{
    if b.len() == 0 {
        assert(a + b =~= a);
    } else {
        assert((a + b).drop_last() =~= a + b.drop_last());
        assert((a + b).last() == b.last());
        law_charges_add_up(a, b.drop_last(), now);
    }
    if a.len() == 1 {
        assert(a.drop_last().len() == 0);
        assert(total_cost(a.drop_last(), now) == 0);
    }
}

/// Amounts are told exactly up to the largest that can be held.
pub proof fn law_amounts_are_exact(n: int)
    ensures
        n <= COST_LIMIT ==> bounded(n) == n,
        n > COST_LIMIT ==> bounded(n) == COST_LIMIT,
        COST_LIMIT >= 2_000_000_000_000_000 * COST_STEPS_PER_USD,
{
}

/// What an org has left is what it has paid less what it was charged.
pub proof fn law_balance_is_what_is_left(org: Org)
    ensures
        org.balance() + org.spent == org.prepaid_credits,
{
}

// ---------------------------------------------------------------------------
// What the functions hand out
// ---------------------------------------------------------------------------

/// The units, the hourly price and the quote that are handed out for a shape: at least
/// its processors, half its GB of memory and a 32nd of its GB of disk, and one of the
/// three; the product of unit price, units and multiplier; the same to six decimals.
pub proof fn law_shapes_are_priced(
    cfg: PricingConfig,
    r: Resources,
    class: ImageClass,
    u: u64,
    p: u128,
    q: PriceQuote,
    m: u32,
)
    requires
        call_ensures(resource_units, (&r,), u),
        call_ensures(sandbox_price_usd_hr, (&cfg, &r, &class), p),
        call_ensures(quote, (&cfg, &r, &class), q),
        call_ensures(PricingConfig::multiplier_for, (&cfg, &class), m),
    ensures
        u * 1000 >= r.cpu_milli * 256_000,
        u * 2048 >= r.memory_mb * 256_000,
        u * 32 >= r.disk_gb * 256_000,
        u * 1000 == r.cpu_milli * 256_000 || u * 2048 == r.memory_mb * 256_000 || u * 32
            == r.disk_gb * 256_000,
        p == cfg.default_unit_price_nano_usd_hr * u * m,
        2 * apart(q.price_micro_usd_hr * 256_000_000_000, p as int) <= 256_000_000_000,
        2 * apart(q.price_micro_usd_second * 921_600_000_000_000, p as int)
            <= 921_600_000_000_000,
        2 * apart(q.resource_units_e4 * 256_000, u * 10_000) <= 256_000,
        q.image_multiplier_milli == m,
        q.unit_price_nano_usd_hr == cfg.default_unit_price_nano_usd_hr,
{
    law_units_cover_every_resource(r);
    law_quote_is_the_product(q, cfg, r, class);
}

/// What an interval costs and how long it ran, as they are handed out: the whole
/// milliseconds between its start and its end, or now; and the product of price, units,
/// multiplier and time, as far as amounts reach.
pub proof fn law_intervals_are_charged(iv: UsageInterval, now: Nanos, ms: u64, cost: u128, d: u128)
    requires
        call_ensures(UsageInterval::milliseconds, (&iv, now), ms),
        call_ensures(UsageInterval::cost_usd, (&iv, now), cost),
        call_ensures(UsageInterval::delivered_unit_millis, (&iv, now), d),
    ensures
        ({
            let end = match iv.ended_at {
                Some(t) => t,
                None => now,
            };
            let owed = iv.unit_price_nano_usd_hr * iv.resource_units_e4 * iv.image_multiplier_milli
                * ms;
            let given = ms * iv.resource_units_e4 * iv.image_multiplier_milli;
            &&& end <= iv.started_at ==> ms == 0
            &&& end > iv.started_at ==> ms * 1_000_000 <= end - iv.started_at < (ms + 1)
                * 1_000_000
            &&& cost == owed || (cost == COST_LIMIT && owed > COST_LIMIT)
            &&& d == given || (d == COST_LIMIT && given > COST_LIMIT)
        }),
{
}

/// The price of a metered stretch of time is the hourly price times the time.
pub proof fn law_stretches_are_priced(
    cfg: PricingConfig,
    r: Resources,
    class: ImageClass,
    ms: u64,
    p: u128,
    c: u128,
)
    requires
        call_ensures(sandbox_price_usd_hr, (&cfg, &r, &class), p),
        call_ensures(interval_cost_usd, (&cfg, &r, &class, ms), c),
    ensures
        c == p * ms,
{
}

/// A unit-hour at cost comes to what was spent over what was delivered, to half a
/// millionth of a dollar, and to nothing where nothing was delivered.
pub proof fn law_reconciled_price(host: u128, overhead: u128, delivered: u128, r: UnitPrice, m: u128)
    requires
        call_ensures(reconciled_unit_price_usd_hr, (host, overhead, delivered), r),
        call_ensures(UnitPrice::micro_usd_hr, (&r,), m),
        host + overhead <= u128::MAX,
    ensures
        delivered == 0 ==> m == 0,
        delivered > 0 ==> 2 * apart(m * delivered, (host + overhead) * 360_000_000_000)
            <= delivered,
{
    if delivered > 0 {
        lemma_nearest_is_near((host + overhead) * 360_000_000_000, delivered as int);
    } else {
        lemma_nearest_is_near(0, 1);
    }
}

/// Seconds between two moments are counted towards zero, in both directions.
pub proof fn law_seconds_are_counted(a: Nanos, b: Nanos, s: i64)
    requires
        call_ensures(elapsed_seconds, (a, b), s),
    ensures
        a <= b ==> s * 1_000_000_000 <= b - a < (s + 1) * 1_000_000_000,
        a > b ==> -s * 1_000_000_000 <= a - b < (-s + 1) * 1_000_000_000,
{
}

} // verus!
