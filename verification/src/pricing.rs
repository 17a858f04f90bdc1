//! Resource units and the hosted at-cost price model.
//!
//! Memory is the primary constraint; larger CPU and disk choices are charged for
//! as well. The arithmetic is exact: units are counted in 1/256000, multipliers
//! in thousandths, unit prices in billionths of a US dollar per hour, so that a
//! price is a whole number of 1/256000000000000000 dollars per hour.

use crate::catalog::ImageClass;
use crate::knobs::Resources;
use crate::text::same;
use vstd::arithmetic::div_mod::{
    lemma_fundamental_div_mod, lemma_fundamental_div_mod_converse,
};
use vstd::arithmetic::mul::*;
use vstd::prelude::*;
use vstd::string::*;

verus! {

/// Parts of one resource unit.
pub const UNIT_PARTS: u64 = 256_000;

/// Price steps in one US dollar.
pub const PRICE_STEPS_PER_USD: u128 = 256_000_000_000_000_000;

/// Price steps in a millionth of a US dollar.
pub const PRICE_STEPS_PER_MICRO: u128 = 256_000_000_000;

/// Pricing configuration.
#[derive(Debug)]
pub struct PricingConfig {
    /// Price per resource-unit-hour, in billionths of a US dollar.
    pub default_unit_price_nano_usd_hr: u64,
    /// Multipliers in thousandths, by image class key. The first entry for a
    /// key counts.
    pub image_multipliers: Vec<(String, u32)>,
    /// Monthly cost of one data-plane node, in millionths of a US dollar.
    pub monthly_node_cost_micro_usd: u64,
    /// Default-equivalent practical units a 64 GB node delivers.
    pub node_practical_units: u32,
}

/// The multiplier that a list of overrides has for a key.
pub open spec fn override_for(list: Seq<(String, u32)>, key: Seq<char>) -> Option<u32>
    decreases list.len(),
{
    if list.len() == 0 {
        None
    } else if list[0].0@ == key {
        Some(list[0].1)
    } else {
        override_for(list.subrange(1, list.len() as int), key)
    }
}

impl PricingConfig {
    /// A unit price of at most a million dollars per hour and a node of at most a
    /// hundred million dollars per month, which keeps every price representable.
    pub open spec fn wf(self) -> bool {
        &&& self.default_unit_price_nano_usd_hr <= 1_000_000_000_000_000
        &&& self.monthly_node_cost_micro_usd <= 100_000_000_000_000
    }

    /// Are the unit price and the node's cost in range?
    pub fn in_range(&self) -> (r: bool)
        ensures
            r == self.wf(),
    {
        self.default_unit_price_nano_usd_hr <= 1_000_000_000_000_000
            && self.monthly_node_cost_micro_usd <= 100_000_000_000_000
    }

    /// The multiplier of an image class: the configured one, else the default.
    pub open spec fn multiplier(self, class: ImageClass) -> u32 {
        match override_for(self.image_multipliers@, class.key_text()) {
            Some(m) => m,
            None => class.multiplier(),
        }
    }

    pub fn multiplier_for(&self, class: &ImageClass) -> (r: u32)
        ensures
            r == self.multiplier(*class),
    {
        let key = class.key();
        let mut i: usize = 0;
        let ghost all = self.image_multipliers@;
        assert(all.subrange(0, all.len() as int) =~= all);
        while i < self.image_multipliers.len()
            invariant
                i <= self.image_multipliers@.len(),
                all == self.image_multipliers@,
                key@ == class.key_text(),
                override_for(all, key@) == override_for(all.subrange(i as int, all.len() as int), key@),
            decreases self.image_multipliers@.len() - i,
        {
            if same(self.image_multipliers[i].0.as_str(), key) {
                return self.image_multipliers[i].1;
            }
            assert(all.subrange(i as int, all.len() as int).subrange(1, all.len() - i)
                =~= all.subrange(i + 1, all.len() as int));
            i = i + 1;
        }
        class.default_multiplier()
    }
}

/// The defaults as a list, one entry for each family.
pub open spec fn is_default_list(list: Seq<(String, u32)>) -> bool {
    &&& list.len() == 5
    &&& list[0].0@ == "base"@ && list[0].1 == 1000
    &&& list[1].0@ == "node-python"@ && list[1].1 == 1100
    &&& list[2].0@ == "browser"@ && list[2].1 == 2500
    &&& list[3].0@ == "heavy-build"@ && list[3].1 == 2000
    &&& list[4].0@ == "custom"@ && list[4].1 == 1200
}

impl Default for PricingConfig {
    /// 0.009 USD per unit-hour and 48 USD per node-month: a 44 EUR node delivers
    /// its twenty units for about 0.003 EUR each, which leaves headroom for
    /// platform overhead and an abuse reserve.
    fn default() -> (r: Self)
        ensures
            r.wf(),
            r.default_unit_price_nano_usd_hr == 9_000_000,
            r.monthly_node_cost_micro_usd == 48_000_000,
            r.node_practical_units == 20,
            is_default_list(r.image_multipliers@),
    {
        let mut image_multipliers: Vec<(String, u32)> = Vec::new();
        image_multipliers.push((String::from_str("base"), 1000));
        image_multipliers.push((String::from_str("node-python"), 1100));
        image_multipliers.push((String::from_str("browser"), 2500));
        image_multipliers.push((String::from_str("heavy-build"), 2000));
        image_multipliers.push((String::from_str("custom"), 1200));
        PricingConfig {
            default_unit_price_nano_usd_hr: 9_000_000,
            image_multipliers,
            monthly_node_cost_micro_usd: 48_000_000,
            node_practical_units: 20,
        }
    }
}

/// The larger of two integers.
pub open spec fn larger(a: int, b: int) -> int {
    if a >= b {
        a
    } else {
        b
    }
}

/// `max(memory_gb/2, cpu, disk_gb/8 * 0.25)`, in parts of a unit.
pub open spec fn units(r: Resources) -> int {
    larger(larger(r.memory_mb * 125, r.cpu_milli * 256), r.disk_gb * 8000)
}

/// Resource units of a shape, in parts. The default shape is exactly one unit.
pub fn resource_units(r: &Resources) -> (u: u64)
    ensures
        u == units(*r),
{
    let by_mem: u64 = r.memory_mb as u64 * 125;
    let by_cpu: u64 = r.cpu_milli as u64 * 256;
    let by_disk: u64 = r.disk_gb as u64 * 8000;
    let m: u64 = if by_mem >= by_cpu {
        by_mem
    } else {
        by_cpu
    };
    if m >= by_disk {
        m
    } else {
        by_disk
    }
}

/// `unit_price * resource_units * image_multiplier`, in price steps per hour.
pub open spec fn price(cfg: PricingConfig, r: Resources, class: ImageClass) -> int {
    cfg.default_unit_price_nano_usd_hr * units(r) * cfg.multiplier(class)
}

pub proof fn lemma_price_bound(cfg: PricingConfig, r: Resources, class: ImageClass)
    requires
        cfg.wf(),
    ensures
        0 <= cfg.default_unit_price_nano_usd_hr * units(r) <= 34_359_738_360_000_000_000_000_000_000,
        0 <= price(cfg, r, class) <= 147_573_952_589_676_412_928_000_000_000_000_000_000,
{
    let p = cfg.default_unit_price_nano_usd_hr as int;
    let u = units(r);
    let m = cfg.multiplier(class) as int;
    assert(0 <= u <= 34_359_738_360_000);
    assert(0 <= p * u <= 1_000_000_000_000_000 * 34_359_738_360_000) by (nonlinear_arith)
        requires
            0 <= p <= 1_000_000_000_000_000,
            0 <= u <= 34_359_738_360_000,
    ;
    let pu = p * u;
    assert(0 <= pu * m <= 34_359_738_360_000_000_000_000_000_000 * 4_294_967_295)
        by (nonlinear_arith)
        requires
            0 <= pu <= 34_359_738_360_000_000_000_000_000_000,
            0 <= m <= 4_294_967_295,
    ;
}

/// Hosted price per hour for a shape and image, in price steps.
pub fn sandbox_price_usd_hr(cfg: &PricingConfig, r: &Resources, class: &ImageClass) -> (p: u128)
    requires
        cfg.wf(),
    ensures
        p == price(*cfg, *r, *class),
{
    proof {
        lemma_price_bound(*cfg, *r, *class);
    }
    let u: u128 = resource_units(r) as u128;
    let pu: u128 = cfg.default_unit_price_nano_usd_hr as u128 * u;
    pu * cfg.multiplier_for(class) as u128
}

/// `n / d` to the nearest whole number, a tie upwards.
pub open spec fn nearest(n: int, d: int) -> int {
    (2 * n + d) / (2 * d)
}

/// `n / d` to the nearest whole number, a tie upwards.
pub fn nearest_quotient(n: u128, d: u128) -> (r: u128)
    requires
        0 < d,
    ensures
        r == nearest(n as int, d as int),
{
    let q: u128 = n / d;
    let rest: u128 = n % d;
    proof {
        lemma_fundamental_div_mod(n as int, d as int);
        let (x, y, k, t) = (n as int, d as int, q as int, rest as int);
        assert(k * (2 * y) == 2 * (y * k)) by (nonlinear_arith);
        if 2 * t >= y {
            assert((k + 1) * (2 * y) == k * (2 * y) + 2 * y) by (nonlinear_arith);
            lemma_fundamental_div_mod_converse(2 * x + y, 2 * y, k + 1, 2 * t - y);
            assert(k < x || x == 0) by (nonlinear_arith)
                requires
                    x == y * k + t,
                    2 * t >= y,
                    y > 0,
                    k >= 0,
                    t >= 0,
            ;
        } else {
            lemma_fundamental_div_mod_converse(2 * x + y, 2 * y, k, 2 * t + y);
        }
    }
    if rest >= d - rest {
        q + 1
    } else {
        q
    }
}

/// A priced quote attached to create and get responses.
#[derive(Debug, Clone, Copy, PartialEq, Eq, Structural)]
pub struct PriceQuote {
    /// Resource units in ten-thousandths.
    pub resource_units_e4: u64,
    /// Multiplier in thousandths.
    pub image_multiplier_milli: u32,
    /// Billionths of a US dollar per unit-hour.
    pub unit_price_nano_usd_hr: u64,
    /// Millionths of a US dollar per hour.
    pub price_micro_usd_hr: u128,
    /// Millionths of a US dollar per second.
    pub price_micro_usd_second: u128,
}

/// The quote is that of a shape and image: units to four decimals, prices to six.
pub open spec fn quotes(q: PriceQuote, cfg: PricingConfig, r: Resources, class: ImageClass) -> bool {
    &&& q.resource_units_e4 == nearest(units(r) * 10_000, UNIT_PARTS as int)
    &&& q.image_multiplier_milli == cfg.multiplier(class)
    &&& q.unit_price_nano_usd_hr == cfg.default_unit_price_nano_usd_hr
    &&& q.price_micro_usd_hr == nearest(price(cfg, r, class), PRICE_STEPS_PER_MICRO as int)
    &&& q.price_micro_usd_second == nearest(
        price(cfg, r, class),
        3600 * PRICE_STEPS_PER_MICRO as int,
    )
}

/// Quote a shape and image.
pub fn quote(cfg: &PricingConfig, r: &Resources, class: &ImageClass) -> (q: PriceQuote)
    requires
        cfg.wf(),
    ensures
        quotes(q, *cfg, *r, *class),
{
    proof {
        lemma_price_bound(*cfg, *r, *class);
    }
    let u: u128 = resource_units(r) as u128;
    let hr: u128 = sandbox_price_usd_hr(cfg, r, class);
    PriceQuote {
        resource_units_e4: nearest_quotient(u * 10_000, UNIT_PARTS as u128) as u64,
        image_multiplier_milli: cfg.multiplier_for(class),
        unit_price_nano_usd_hr: cfg.default_unit_price_nano_usd_hr,
        price_micro_usd_hr: nearest_quotient(hr, PRICE_STEPS_PER_MICRO),
        price_micro_usd_second: nearest_quotient(hr, 3600 * PRICE_STEPS_PER_MICRO),
    }
}

/// Cost of a metered running interval of `ms` milliseconds: the hourly price
/// times the time, in price steps per 3600000.
pub fn interval_cost_usd(
    cfg: &PricingConfig,
    r: &Resources,
    class: &ImageClass,
    ms: u64,
) -> (c: u128)
    requires
        cfg.wf(),
        price(*cfg, *r, *class) * ms <= u128::MAX,
    ensures
        c == price(*cfg, *r, *class) * ms,
{
    sandbox_price_usd_hr(cfg, r, class) * ms as u128
}

/// The largest monthly cost that a price is computed from, in hundred-millionths of
/// a US dollar.
pub const MONTHLY_COST_LIMIT: u128 = 300_000_000_000_000_000_000_000_000;

/// What a unit-hour comes to: a cost over what was delivered for it.
#[derive(Debug, Clone, Copy, PartialEq, Eq, Structural)]
pub struct UnitPrice {
    /// Hundred-millionths of a US dollar.
    pub cost_e8_usd: u128,
    /// Ten-millionths of a unit times milliseconds.
    pub delivered: u128,
}

impl UnitPrice {
    /// The price to six decimals, in millionths of a US dollar per unit-hour. A
    /// unit-hour is 36 000 000 000 000 of the steps that `delivered` counts.
    pub open spec fn micro(self) -> int {
        nearest(self.cost_e8_usd * 360_000_000_000, self.delivered as int)
    }

    /// The price to six decimals, in millionths of a US dollar per unit-hour.
    pub fn micro_usd_hr(&self) -> (r: u128)
        requires
            self.delivered > 0,
            self.cost_e8_usd <= MONTHLY_COST_LIMIT,
        ensures
            r == self.micro(),
    {
        nearest_quotient(self.cost_e8_usd * 360_000_000_000, self.delivered)
    }
}

/// Reconciled at-cost unit price: `(host pool cost + platform overhead) /
/// delivered unit-hours`, all per month; zero when nothing was delivered. Costs in
/// hundred-millionths of a US dollar, what was delivered in ten-millionths of a
/// unit times milliseconds.
pub fn reconciled_unit_price_usd_hr(
    host_pool_cost_month: u128,
    platform_overhead_month: u128,
    delivered_month: u128,
) -> (r: UnitPrice)
    requires
        host_pool_cost_month + platform_overhead_month <= MONTHLY_COST_LIMIT,
    ensures
        r == (if delivered_month == 0 {
            UnitPrice { cost_e8_usd: 0, delivered: 1 }
        } else {
            UnitPrice {
                cost_e8_usd: (host_pool_cost_month + platform_overhead_month) as u128,
                delivered: delivered_month,
            }
        }),
{
    if delivered_month == 0 {
        return UnitPrice { cost_e8_usd: 0, delivered: 1 };
    }
    UnitPrice {
        cost_e8_usd: host_pool_cost_month + platform_overhead_month,
        delivered: delivered_month,
    }
}

// ---------------------------------------------------------------------------
// Laws
// ---------------------------------------------------------------------------

/// The default shape is exactly one unit.
pub proof fn law_default_shape_is_one_unit()
    ensures
        units(Resources { cpu_milli: 1000, memory_mb: 2048, disk_gb: 8 }) == UNIT_PARTS,
{
}

/// A shape with at least as much of everything never has fewer units.
pub proof fn law_units_are_monotone(a: Resources, b: Resources)
    requires
        a.cpu_milli <= b.cpu_milli,
        a.memory_mb <= b.memory_mb,
        a.disk_gb <= b.disk_gb,
    ensures
        units(a) <= units(b),
{
}

/// With the default prices, no image at or above its minimum shape is cheaper
/// than the base image at its minimum shape.
pub proof fn law_base_is_cheapest(cfg: PricingConfig, r: Resources, class: ImageClass)
    requires
        cfg.wf(),
        cfg.image_multipliers@.len() == 0 || is_default_list(cfg.image_multipliers@),
        class.minimum().cpu_milli <= r.cpu_milli,
        class.minimum().memory_mb <= r.memory_mb,
        class.minimum().disk_gb <= r.disk_gb,
    ensures
        price(cfg, ImageClass::Base.minimum(), ImageClass::Base) <= price(cfg, r, class),
{
    lemma_default_multiplier(cfg, ImageClass::Base);
    lemma_default_multiplier(cfg, class);
    let p = cfg.default_unit_price_nano_usd_hr as int;
    let (u, v) = (units(ImageClass::Base.minimum()), units(r));
    let (m, n) = (cfg.multiplier(ImageClass::Base) as int, cfg.multiplier(class) as int);
    assert(u <= v);
    assert(m <= n);
    assert(p * u * m <= p * v * n) by (nonlinear_arith)
        requires
            0 <= p,
            0 <= u <= v,
            0 <= m <= n,
    ;
}

proof fn lemma_default_multiplier(cfg: PricingConfig, class: ImageClass)
    requires
        cfg.image_multipliers@.len() == 0 || is_default_list(cfg.image_multipliers@),
    ensures
        cfg.multiplier(class) == class.multiplier(),
{
    let l = cfg.image_multipliers@;
    reveal_strlit("base");
    reveal_strlit("node-python");
    reveal_strlit("browser");
    reveal_strlit("heavy-build");
    reveal_strlit("custom");
    let k = class.key_text();
    if l.len() == 5 {
        let l1 = l.subrange(1, 5);
        let l2 = l1.subrange(1, 4);
        let l3 = l2.subrange(1, 3);
        let l4 = l3.subrange(1, 2);
        assert("base"@.len() == 4 && "browser"@.len() == 7 && "custom"@.len() == 6);
        assert("node-python"@.len() == 11 && "heavy-build"@.len() == 11);
        assert("node-python"@[0] == 'n' && "heavy-build"@[0] == 'h');
        assert(override_for(l, k) == if l[0].0@ == k { Some(l[0].1) } else { override_for(l1, k) });
        assert(override_for(l1, k) == if l[1].0@ == k { Some(l[1].1) } else { override_for(l2, k) });
        assert(override_for(l2, k) == if l[2].0@ == k { Some(l[2].1) } else { override_for(l3, k) });
        assert(override_for(l3, k) == if l[3].0@ == k { Some(l[3].1) } else { override_for(l4, k) });
        assert(override_for(l4, k) == if l[4].0@ == k {
            Some(l[4].1)
        } else {
            override_for(l4.subrange(1, 1), k)
        });
    }
}

} // verus!
