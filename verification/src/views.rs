//! What the API shows of a sandbox.

use crate::api::admin::uptime;
use crate::catalog::{classify, ImageClass};
use crate::config::{preview_text, ServerConfig};
use crate::create::{priced_as, CDP_PORT, VNC_PORT};
use crate::model::Sandbox;
use crate::nodes::Nanos;
use crate::pricing::{nearest, price, quote, quotes, PriceQuote, PricingConfig, PRICE_STEPS_PER_MICRO};
use crate::usage::elapsed_seconds;
use vstd::prelude::*;
use vstd::string::*;

verus! {

/// The preview URLs of a sandbox.
#[derive(Debug)]
pub struct Urls {
    /// The ports that it exposes, each with its URL.
    pub ports: Vec<(u16, String)>,
    pub vnc: Option<String>,
    pub cdp: Option<String>,
}

/// The URL is that of the port.
pub open spec fn leads_to(url: Option<String>, s: ServerConfig, id: Seq<char>, port: u16) -> bool {
    url matches Some(u) && u@ == preview_text(s, id, port)
}

/// The preview URLs of a sandbox: one for each port, and those of a browser where it
/// has one.
pub fn urls_view(server: &ServerConfig, sb: &Sandbox) -> (r: Urls)
    ensures
        r.ports@.len() == sb.ports@.len(),
        forall|i: int|
            0 <= i < sb.ports@.len() ==> (#[trigger] r.ports@[i]).0 == sb.ports@[i]
                && r.ports@[i].1@ == preview_text(*server, sb.id@, sb.ports@[i]),
        sb.has_browser() ==> leads_to(r.vnc, *server, sb.id@, VNC_PORT) && leads_to(
            r.cdp,
            *server,
            sb.id@,
            CDP_PORT,
        ),
        !sb.has_browser() ==> r.vnc is None && r.cdp is None,
{
    let mut ports: Vec<(u16, String)> = Vec::new();
    let mut i: usize = 0;
    while i < sb.ports.len()
        invariant
            i <= sb.ports@.len(),
            ports@.len() == i,
            forall|k: int|
                0 <= k < i ==> (#[trigger] ports@[k]).0 == sb.ports@[k] && ports@[k].1@
                    == preview_text(*server, sb.id@, sb.ports@[k]),
        decreases sb.ports@.len() - i,
    {
        let p: u16 = sb.ports[i];
        ports.push((p, server.preview_url(sb.id.as_str(), p)));
        i = i + 1;
    }
    if sb.browser_enabled() {
        Urls {
            ports,
            vnc: Some(server.preview_url(sb.id.as_str(), VNC_PORT)),
            cdp: Some(server.preview_url(sb.id.as_str(), CDP_PORT)),
        }
    } else {
        Urls { ports, vnc: None, cdp: None }
    }
}

/// What a sandbox costs and has cost.
#[derive(Debug, Clone, Copy, PartialEq, Eq, Structural)]
pub struct CostView {
    pub quote: PriceQuote,
    pub uptime_seconds: i64,
    /// Millionths of a US dollar.
    pub cost_estimate_micro_usd: u128,
}

/// What a sandbox costs and, while it holds resources, has cost so far. A stopped or
/// parked one costs nothing.
pub fn cost_view(cfg: &PricingConfig, sb: &Sandbox, now: Nanos) -> (r: CostView)
    requires
        cfg.wf(),
    ensures
        exists|c: ImageClass| #[trigger]
            priced_as(c, sb.image@) && quotes(r.quote, *cfg, sb.resources, c),
        r.uptime_seconds == uptime(sb.created_at, now),
        r.cost_estimate_micro_usd == (if sb.state.active() {
            r.quote.price_micro_usd_second * r.uptime_seconds
        } else {
            0
        }),
{
    let class = match classify(sb.image.as_str()) {
        Ok(c) => c,
        Err(_) => ImageClass::Base,
    };
    assert(priced_as(class, sb.image@));
    let q = quote(cfg, &sb.resources, &class);
    let s: i64 = elapsed_seconds(sb.created_at, now);
    let up: i64 = if s < 0 {
        0
    } else {
        s
    };
    proof {
        lemma_second_price(*cfg, sb.resources, class, q.price_micro_usd_second as int);
        assert(q.price_micro_usd_second * up <= 200_000_000_000_000_000_000_000 * 18_446_744_074)
            by (nonlinear_arith)
            requires
                0 <= q.price_micro_usd_second <= 200_000_000_000_000_000_000_000,
                0 <= up <= 18_446_744_074,
        ;
        assert(0 <= q.price_micro_usd_second * up) by (nonlinear_arith)
            requires
                0 <= q.price_micro_usd_second,
                0 <= up,
        ;
    }
    let cost: u128 = if sb.state.is_active() {
        q.price_micro_usd_second * up as u128
    } else {
        0
    };
    CostView { quote: q, uptime_seconds: up, cost_estimate_micro_usd: cost }
}

proof fn lemma_second_price(cfg: PricingConfig, r: crate::knobs::Resources, class: ImageClass, p: int)
    requires
        cfg.wf(),
        p == nearest(price(cfg, r, class), 3600 * PRICE_STEPS_PER_MICRO as int),
    ensures
        0 <= p <= 200_000_000_000_000_000_000_000,
{
    crate::pricing::lemma_price_bound(cfg, r, class);
    let n = price(cfg, r, class);
    let d = 3600 * PRICE_STEPS_PER_MICRO as int;
    assert(d == 921_600_000_000_000);
    let x = 2 * n + d;
    assert(0 <= x / 1_843_200_000_000_000 <= 200_000_000_000_000_000_000_000)
        by (nonlinear_arith)
        requires
            0 <= x <= 200_000_000_000_000_000_000_000 * 1_843_200_000_000_000,
    ;
}

} // verus!
