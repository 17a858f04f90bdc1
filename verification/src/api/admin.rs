//! Administration: orgs, keys, the kill switch and the operational metrics.

use crate::admission::fault;
use crate::auth::{hash_shaped, is_hash, opens, AuthContext};
use crate::capacity::{capacity_of, CapacityRule, UNIT_MEMORY_MB};
use crate::catalog::{classify, ImageClass};
use crate::create::priced_as;
use crate::error::{ApiError, ApiResult, ErrorView};
use crate::lifecycle::State;
use crate::model::{BootPath, Sandbox};
use crate::nodes::{Nanos, Node};
use crate::pricing::{nearest, price, quote, PricingConfig, PRICE_STEPS_PER_MICRO};
use crate::registry::{names_ascend, Registry};
use crate::runtime::NetStats;
use crate::text::{concat2, concat3, same};
use crate::usage::{
    elapsed_seconds, seconds_between, ApiKey, Org, OrgStatus, COST_STEPS_PER_USD,
};
use vstd::prelude::*;
use vstd::string::*;

verus! {

/// Why a caller may not administrate.
pub open spec fn admin_fault(ctx: AuthContext) -> Option<ErrorView> {
    if ctx.admin {
        None
    } else {
        Some(ErrorView::Forbidden("admin only"@))
    }
}

/// May the caller administrate?
pub fn require_admin(ctx: &AuthContext) -> (r: ApiResult<()>)
    ensures
        fault(r) == admin_fault(*ctx),
{
    if ctx.admin {
        Ok(())
    } else {
        Err(ApiError::Forbidden(String::from_str("admin only")))
    }
}

// ---------------------------------------------------------------------------
// Orgs
// ---------------------------------------------------------------------------

/// A request for an org. Credits are in cost steps and the quota in MiB.
#[derive(Debug)]
pub struct CreateOrgReq {
    pub id: String,
    pub name: String,
    pub prepaid_credits: Option<i128>,
    pub quota_mb: Option<i64>,
}

/// Credits that a new org begins with: five dollars, in cost steps.
pub const STARTER_CREDITS: i128 = 180_000_000_000_000_000_000_000;

/// Why an org is not created.
pub open spec fn org_request_fault(
    ctx: AuthContext,
    req: CreateOrgReq,
    existing: Result<Option<Org>, String>,
) -> Option<ErrorView> {
    match admin_fault(ctx) {
        Some(e) => Some(e),
        None => if req.id@.len() == 0 {
            Some(ErrorView::BadRequest("org id required"@))
        } else {
            match existing {
                Err(e) => Some(ErrorView::Internal(e@)),
                Ok(_) => None,
            }
        },
    }
}

/// The org that a request leads to: an existing one keeps its status, its age and
/// what it has spent.
pub open spec fn org_after(req: CreateOrgReq, existing: Option<Org>, now: Nanos) -> Org {
    match existing {
        Some(o) => Org {
            name: req.name,
            prepaid_credits: match req.prepaid_credits {
                Some(c) => c,
                None => o.prepaid_credits,
            },
            quota_mb: match req.quota_mb {
                Some(q) => q,
                None => o.quota_mb,
            },
            ..o
        },
        None => Org {
            id: req.id,
            name: req.name,
            status: OrgStatus::Active,
            prepaid_credits: match req.prepaid_credits {
                Some(c) => c,
                None => STARTER_CREDITS,
            },
            spent: 0,
            quota_mb: match req.quota_mb {
                Some(q) => q,
                None => 0,
            },
            created_at: now,
        },
    }
}

/// Create an org or change one.
pub fn create_org(
    ctx: &AuthContext,
    req: CreateOrgReq,
    existing: Result<Option<Org>, String>,
    now: Nanos,
) -> (r: ApiResult<Org>)
    ensures
        fault(r) == org_request_fault(*ctx, req, existing),
        r matches Ok(o) ==> o == org_after(req, existing->Ok_0, now),
{
    if let Err(e) = require_admin(ctx) {
        return Err(e);
    }
    if req.id.as_str().is_empty() {
        return Err(ApiError::BadRequest(String::from_str("org id required")));
    }
    match existing {
        Err(e) => Err(ApiError::Internal(e)),
        Ok(Some(o)) => {
            let mut o = o;
            o.name = req.name;
            if let Some(c) = req.prepaid_credits {
                o.prepaid_credits = c;
            }
            if let Some(q) = req.quota_mb {
                o.quota_mb = q;
            }
            Ok(o)
        },
        Ok(None) => {
            let prepaid_credits: i128 = match req.prepaid_credits {
                Some(c) => c,
                None => STARTER_CREDITS,
            };
            let quota_mb: i64 = match req.quota_mb {
                Some(q) => q,
                None => 0,
            };
            Ok(
                Org {
                    id: req.id,
                    name: req.name,
                    status: OrgStatus::Active,
                    prepaid_credits,
                    spent: 0,
                    quota_mb,
                    created_at: now,
                },
            )
        },
    }
}

/// The starter credits are five dollars.
pub proof fn law_starter_credits()
    ensures
        STARTER_CREDITS == 5 * COST_STEPS_PER_USD,
{
}

/// A second identical request changes nothing.
pub proof fn law_create_org_is_idempotent(
    req: CreateOrgReq,
    existing: Option<Org>,
    now: Nanos,
    later: Nanos,
)
    ensures
        org_after(req, Some(org_after(req, existing, now)), later) == org_after(
            req,
            existing,
            now,
        ),
{
}

/// Why the kill switch of an org is not moved.
pub open spec fn switch_fault(
    ctx: AuthContext,
    org: Seq<char>,
    protected: Option<Seq<char>>,
    found: Result<Option<Org>, String>,
) -> Option<ErrorView> {
    match admin_fault(ctx) {
        Some(e) => Some(e),
        None => if protected == Some(org) {
            Some(ErrorView::BadRequest("refusing to suspend the bootstrap admin org"@))
        } else {
            match found {
                Err(e) => Some(ErrorView::Internal(e@)),
                Ok(None) => Some(ErrorView::NotFound("org "@ + org)),
                Ok(Some(_)) => None,
            }
        },
    }
}

/// Suspend an org: nothing is created for it any more, and what runs is stopped.
/// The operator's own org cannot be suspended.
pub fn org_suspend(
    ctx: &AuthContext,
    org: &str,
    bootstrap_org: &str,
    found: Result<Option<Org>, String>,
) -> (r: ApiResult<Org>)
    ensures
        fault(r) == switch_fault(*ctx, org@, Some(bootstrap_org@), found),
        r matches Ok(o) ==> o == (Org { status: OrgStatus::Suspended, ..found->Ok_0->Some_0 }),
{
    if let Err(e) = require_admin(ctx) {
        return Err(e);
    }
    if same(org, bootstrap_org) {
        return Err(
            ApiError::BadRequest(
                String::from_str("refusing to suspend the bootstrap admin org"),
            ),
        );
    }
    match found {
        Err(e) => Err(ApiError::Internal(e)),
        Ok(None) => Err(ApiError::NotFound(concat2("org ", org))),
        Ok(Some(o)) => {
            let mut o = o;
            o.status = OrgStatus::Suspended;
            Ok(o)
        },
    }
}

/// Lift the suspension of an org.
pub fn org_unsuspend(ctx: &AuthContext, org: &str, found: Result<Option<Org>, String>) -> (r: ApiResult<
    Org,
>)
    ensures
        fault(r) == switch_fault(*ctx, org@, None, found),
        r matches Ok(o) ==> o == (Org { status: OrgStatus::Active, ..found->Ok_0->Some_0 }),
{
    if let Err(e) = require_admin(ctx) {
        return Err(e);
    }
    match found {
        Err(e) => Err(ApiError::Internal(e)),
        Ok(None) => Err(ApiError::NotFound(concat2("org ", org))),
        Ok(Some(o)) => {
            let mut o = o;
            o.status = OrgStatus::Active;
            Ok(o)
        },
    }
}

// ---------------------------------------------------------------------------
// Keys
// ---------------------------------------------------------------------------

/// A request to accept a key, which is named by its hash only.
#[derive(Debug)]
pub struct RegisterKeyReq {
    pub org_id: String,
    /// SHA-256 hex of the full key.
    pub key_hash: String,
    pub name: Option<String>,
}

/// Why a key is not accepted.
pub open spec fn key_fault(ctx: AuthContext, req: RegisterKeyReq, org_exists: Result<bool, String>) -> Option<
    ErrorView,
> {
    match admin_fault(ctx) {
        Some(e) => Some(e),
        None => match org_exists {
            Err(e) => Some(ErrorView::Internal(e@)),
            Ok(false) => Some(
                ErrorView::BadRequest("org '"@ + req.org_id@ + "' does not exist"@),
            ),
            Ok(true) => if !hash_shaped(req.key_hash@) {
                Some(ErrorView::BadRequest("key_hash must be a SHA-256 hex digest"@))
            } else {
                None
            },
        },
    }
}

/// The key of a request. It is never an admin's.
pub fn register_key(
    ctx: &AuthContext,
    req: RegisterKeyReq,
    org_exists: Result<bool, String>,
    now: Nanos,
) -> (r: ApiResult<ApiKey>)
    ensures
        fault(r) == key_fault(*ctx, req, org_exists),
        r matches Ok(k) ==> {
            &&& k.key_hash@ == req.key_hash@
            &&& k.org_id@ == req.org_id@
            &&& k.name@ == (match req.name {
                Some(n) => n@,
                None => "dashboard"@,
            })
            &&& !k.admin
            &&& !k.disabled
            &&& k.created_at == now
        },
{
    if let Err(e) = require_admin(ctx) {
        return Err(e);
    }
    match org_exists {
        Err(e) => return Err(ApiError::Internal(e)),
        Ok(exists) => {
            if !exists {
                return Err(
                    ApiError::BadRequest(
                        concat3("org '", req.org_id.as_str(), "' does not exist"),
                    ),
                );
            }
        },
    }
    if !is_hash(req.key_hash.as_str()) {
        return Err(
            ApiError::BadRequest(String::from_str("key_hash must be a SHA-256 hex digest")),
        );
    }
    let name = match req.name {
        Some(n) => n,
        None => String::from_str("dashboard"),
    };
    Ok(
        ApiKey {
            key_hash: req.key_hash,
            org_id: req.org_id,
            name,
            admin: false,
            disabled: false,
            created_at: now,
        },
    )
}

/// Disable a key. It is kept, so that its use can be traced.
pub fn revoke_key(ctx: &AuthContext, found: Result<Option<ApiKey>, String>) -> (r: ApiResult<ApiKey>)
    ensures
        fault(r) == (match admin_fault(*ctx) {
            Some(e) => Some(e),
            None => match found {
                Err(e) => Some(ErrorView::Internal(e@)),
                Ok(None) => Some(ErrorView::NotFound("key"@)),
                Ok(Some(_)) => None,
            },
        }),
        r matches Ok(k) ==> {
            &&& k == (ApiKey { disabled: true, ..found->Ok_0->Some_0 })
            &&& forall|token: Seq<char>| !opens(Some(&k), token)
        },
{
    if let Err(e) = require_admin(ctx) {
        return Err(e);
    }
    match found {
        Err(e) => Err(ApiError::Internal(e)),
        Ok(None) => Err(ApiError::NotFound(String::from_str("key"))),
        Ok(Some(k)) => {
            let mut k = k;
            k.disabled = true;
            Ok(k)
        },
    }
}

// ---------------------------------------------------------------------------
// Metrics
// ---------------------------------------------------------------------------

/// What the dashboard shows of a sandbox.
#[derive(Debug)]
pub struct SandboxRow {
    pub id: String,
    pub org_id: String,
    pub image: String,
    pub cpu_milli: u32,
    pub memory_mb: u32,
    pub disk_gb: u32,
    pub state: State,
    pub boot_path: BootPath,
    pub created_at: Nanos,
    pub uptime_seconds: i64,
    pub docker: bool,
    pub browser: bool,
    pub secret_count: usize,
    pub node_id: Option<String>,
    /// Millionths of a US dollar per hour.
    pub price_micro_usd_hr: u128,
    pub net: Option<NetStats>,
}

/// Seconds since a moment, none before it.
pub open spec fn uptime(created_at: Nanos, now: Nanos) -> int {
    let s = seconds_between(created_at, now);
    if s < 0 {
        0
    } else {
        s
    }
}

/// The row shows the sandbox.
pub open spec fn shows(row: SandboxRow, sb: Sandbox, net: Option<NetStats>, cfg: PricingConfig, now: Nanos) -> bool {
    &&& row.id@ == sb.id@
    &&& row.org_id@ == sb.org_id@
    &&& row.image@ == sb.image@
    &&& row.cpu_milli == sb.resources.cpu_milli
    &&& row.memory_mb == sb.resources.memory_mb
    &&& row.disk_gb == sb.resources.disk_gb
    &&& row.state == sb.state
    &&& row.boot_path == sb.boot_path
    &&& row.created_at == sb.created_at
    &&& row.uptime_seconds == uptime(sb.created_at, now)
    &&& row.docker == sb.docker
    &&& row.browser == sb.has_browser()
    &&& row.secret_count == sb.secret_names@.len()
    &&& row.node_id == sb.node_id
    &&& row.net == net
    &&& exists|c: ImageClass| #[trigger]
        priced_as(c, sb.image@) && row.price_micro_usd_hr == nearest(
            price(cfg, sb.resources, c),
            PRICE_STEPS_PER_MICRO as int,
        )
}

fn show(sb: &Sandbox, net: Option<NetStats>, cfg: &PricingConfig, now: Nanos) -> (row: SandboxRow)
    requires
        cfg.wf(),
    ensures
        shows(row, *sb, net, *cfg, now),
{
    let class = match classify(sb.image.as_str()) {
        Ok(c) => c,
        Err(_) => ImageClass::Base,
    };
    assert(priced_as(class, sb.image@));
    let q = quote(cfg, &sb.resources, &class);
    let s: i64 = elapsed_seconds(sb.created_at, now);
    let uptime_seconds: i64 = if s < 0 {
        0
    } else {
        s
    };
    SandboxRow {
        id: sb.id.clone(),
        org_id: sb.org_id.clone(),
        image: sb.image.clone(),
        cpu_milli: sb.resources.cpu_milli,
        memory_mb: sb.resources.memory_mb,
        disk_gb: sb.resources.disk_gb,
        state: sb.state,
        boot_path: sb.boot_path,
        created_at: sb.created_at,
        uptime_seconds,
        docker: sb.docker,
        browser: sb.browser_enabled(),
        secret_count: sb.secret_names.len(),
        node_id: sb.node_id.clone(),
        price_micro_usd_hr: q.price_micro_usd_hr,
        net,
    }
}

/// How often a word stands among the first `n`.
pub open spec fn times(words: Seq<Seq<char>>, w: Seq<char>, n: int) -> int
    decreases n,
{
    if n <= 0 {
        0
    } else {
        times(words, w, n - 1) + if words[n - 1] == w {
            1int
        } else {
            0int
        }
    }
}

/// The map counts the words.
pub open spec fn counts(m: Map<Seq<char>, u64>, words: Seq<Seq<char>>) -> bool {
    counts_first(m, words, words.len() as int)
}

/// The map counts the first `n` words.
pub open spec fn counts_first(m: Map<Seq<char>, u64>, words: Seq<Seq<char>>, n: int) -> bool {
    &&& forall|w: Seq<char>| #[trigger] m.contains_key(w) <==> times(words, w, n) > 0
    &&& forall|w: Seq<char>| #[trigger] m.contains_key(w) ==> m[w] == times(words, w, n)
}

proof fn lemma_times_bound(words: Seq<Seq<char>>, w: Seq<char>, n: int)
    requires
        0 <= n,
    ensures
        0 <= times(words, w, n) <= n,
    decreases n,
{
    if n > 0 {
        lemma_times_bound(words, w, n - 1);
    }
}

fn count_one(m: &mut Registry<u64>, word: &str, Ghost(words): Ghost<Seq<Seq<char>>>, n: usize)
    requires
        n < words.len(),
        n < 0xffff_ffff,
        words[n as int] == word@,
        counts_first(old(m)@, words, n as int),
    ensures
        counts_first(final(m)@, words, n + 1),
        names_ascend(final(m).pairs()),
{
    let was: u64 = match m.get(word) {
        Some(c) => *c,
        None => 0,
    };
    proof {
        lemma_times_bound(words, word@, n as int);
    }
    let ghost before = m@;
    m.insert(word, was + 1);
    proof {
        assert(was == times(words, word@, n as int)) by {
            lemma_times_bound(words, word@, n as int);
        }
        assert forall|w: Seq<char>| #[trigger]
            m@.contains_key(w) <==> times(words, w, n + 1) > 0 by {
            lemma_times_bound(words, w, n as int);
            assert(before.contains_key(w) <==> times(words, w, n as int) > 0);
        }
        assert forall|w: Seq<char>| #[trigger] m@.contains_key(w) implies m@[w] == times(
            words,
            w,
            n + 1,
        ) by {
            if w != word@ {
                assert(before.contains_key(w));
            }
        }
    }
}

/// The states of sandboxes, by name.
pub open spec fn state_names(s: Seq<Sandbox>) -> Seq<Seq<char>> {
    Seq::new(s.len(), |i: int| s[i].state.name())
}

/// The images of sandboxes.
pub open spec fn image_names(s: Seq<Sandbox>) -> Seq<Seq<char>> {
    Seq::new(s.len(), |i: int| s[i].image@)
}

/// The memory of the first `n` sandboxes in MiB.
pub open spec fn memory_of(s: Seq<Sandbox>, n: int) -> int
    decreases n,
{
    if n <= 0 {
        0
    } else {
        memory_of(s, n - 1) + s[n - 1].resources.memory_mb
    }
}

/// Tenths of a unit that an amount of memory takes, a tie upwards.
pub open spec fn rounded_tenths(mb: nat) -> nat {
    (mb * 10 + 1024) / 2048
}

/// What a node can take and what is taken.
#[derive(Debug, Clone, Copy, PartialEq, Eq, Structural)]
pub struct CapacityView {
    pub practical_units: u32,
    pub theoretical_units: u32,
    /// Tenths of a unit.
    pub committed_tenths: u64,
    /// Memory below the admission ceiling that is not committed, in MiB.
    pub free_mb: u64,
}

/// Real-time operational metrics.
#[derive(Debug)]
pub struct Metrics {
    pub by_state: Registry<u64>,
    pub by_image: Registry<u64>,
    pub committed_memory_mb: u64,
    /// Tenths of a unit.
    pub committed_tenths: u64,
    pub capacity: Option<CapacityView>,
    pub sandboxes: Vec<SandboxRow>,
}

/// The capacity shown of a node.
pub open spec fn capacity_view(node: Node, rule: CapacityRule, committed_mb: nat) -> CapacityView {
    let cap = capacity_of(node.total_memory_kb, rule);
    let ceiling = cap.practical_units * UNIT_MEMORY_MB;
    CapacityView {
        practical_units: cap.practical_units,
        theoretical_units: cap.theoretical_units,
        committed_tenths: rounded_tenths(committed_mb) as u64,
        free_mb: if ceiling > committed_mb {
            (ceiling - committed_mb) as u64
        } else {
            0
        },
    }
}

/// Tenths of a unit that an amount of memory takes.
pub fn round_tenths(mb: u128) -> (r: u128)
    ensures
        r == rounded_tenths(mb as nat),
        mb <= u64::MAX ==> r <= u64::MAX,
{
    mb / 2048 * 10 + (mb % 2048 * 10 + 1024) / 2048
}

fn show_capacity(node: &Node, rule: &CapacityRule, committed_mb: u64) -> (r: CapacityView)
    ensures
        r == capacity_view(*node, *rule, committed_mb as nat),
{
    let cap = node.capacity(rule);
    let ceiling: u64 = cap.practical_units as u64 * UNIT_MEMORY_MB as u64;
    CapacityView {
        practical_units: cap.practical_units,
        theoretical_units: cap.theoretical_units,
        committed_tenths: round_tenths(committed_mb as u128) as u64,
        free_mb: if ceiling > committed_mb {
            ceiling - committed_mb
        } else {
            0
        },
    }
}

/// The operational metrics of all live sandboxes, given the network counters of
/// each.
pub fn metrics(
    active: &Vec<Sandbox>,
    nets: &Vec<Option<NetStats>>,
    node: &Option<Node>,
    rule: &CapacityRule,
    cfg: &PricingConfig,
    now: Nanos,
) -> (r: Metrics)
    requires
        cfg.wf(),
        active@.len() == nets@.len(),
        active@.len() <= 0xffff_ffff,
    ensures
        counts(r.by_state@, state_names(active@)),
        counts(r.by_image@, image_names(active@)),
        names_ascend(r.by_state.pairs()),
        names_ascend(r.by_image.pairs()),
        r.committed_memory_mb == memory_of(active@, active@.len() as int),
        r.committed_tenths == rounded_tenths(r.committed_memory_mb as nat),
        r.capacity == (match *node {
            Some(n) => Some(capacity_view(n, *rule, r.committed_memory_mb as nat)),
            None => None,
        }),
        r.sandboxes@.len() == active@.len(),
        forall|i: int|
            0 <= i < active@.len() ==> shows(
                #[trigger] r.sandboxes@[i],
                active@[i],
                nets@[i],
                *cfg,
                now,
            ),
{
    let mut by_state: Registry<u64> = Registry::new();
    let mut by_image: Registry<u64> = Registry::new();
    let mut committed: u64 = 0;
    let mut rows: Vec<SandboxRow> = Vec::new();
    let ghost states = state_names(active@);
    let ghost images = image_names(active@);
    let n: usize = active.len();
    let mut i: usize = 0;
    while i < n
        invariant
            i <= n == active@.len() == nets@.len(),
            n <= 0xffff_ffff,
            cfg.wf(),
            states == state_names(active@),
            images == image_names(active@),
            counts_first(by_state@, states, i as int),
            counts_first(by_image@, images, i as int),
            names_ascend(by_state.pairs()),
            names_ascend(by_image.pairs()),
            committed == memory_of(active@, i as int),
            committed <= i * 0xffff_ffff,
            rows@.len() == i,
            forall|k: int|
                0 <= k < i ==> shows(#[trigger] rows@[k], active@[k], nets@[k], *cfg, now),
        decreases n - i,
    {
        let sb = &active[i];
        proof {
            assert(i * 0xffff_ffff + 0xffff_ffff == (i + 1) * 0xffff_ffff) by (nonlinear_arith);
            assert((i + 1) * 0xffff_ffff <= 0xffff_ffff * 0xffff_ffff) by (nonlinear_arith)
                requires
                    i < 0xffff_ffff,
            ;
        }
        committed = committed + sb.resources.memory_mb as u64;
        count_one(&mut by_state, sb.state.as_str(), Ghost(states), i);
        count_one(&mut by_image, sb.image.as_str(), Ghost(images), i);
        rows.push(show(sb, nets[i], cfg, now));
        i = i + 1;
    }
    let capacity: Option<CapacityView> = match node {
        Some(nd) => Some(show_capacity(nd, rule, committed)),
        None => None,
    };
    Metrics {
        by_state,
        by_image,
        committed_memory_mb: committed,
        committed_tenths: round_tenths(committed as u128) as u64,
        capacity,
        sandboxes: rows,
    }
}

// ---------------------------------------------------------------------------
// Lists
// ---------------------------------------------------------------------------

/// Is the sandbox listed? A deleted one is not.
pub fn is_listed(sb: &Sandbox) -> (r: bool)
    ensures
        r == !(sb.state is Deleted),
{
    sb.state != State::Deleted
}

/// The positions are those of `keys`, by falling key, equal keys in their order.
pub open spec fn newest_order(order: Seq<usize>, keys: Seq<Nanos>) -> bool {
    &&& forall|i: int| 0 <= i < order.len() ==> (#[trigger] order[i]) < keys.len()
    &&& forall|i: int, j: int|
        0 <= i < j < order.len() ==> {
            let a = #[trigger] order[i];
            let b = #[trigger] order[j];
            keys[a as int] > keys[b as int] || (keys[a as int] == keys[b as int] && a < b)
        }
}

/// The order in which sandboxes are listed, given when they were created: the
/// newest first, equals as they come.
pub fn newest_first(created: &Vec<Nanos>) -> (r: Vec<usize>)
    ensures
        r@.len() == created@.len(),
        newest_order(r@, created@),
        forall|k: usize| k < created@.len() ==> #[trigger] r@.contains(k),
{
    let mut order: Vec<usize> = Vec::new();
    let mut i: usize = 0;
    while i < created.len()
        invariant
            i <= created@.len(),
            order@.len() == i,
            newest_order(order@, created@),
            forall|k: int| 0 <= k < order@.len() ==> (#[trigger] order@[k]) < i,
            forall|k: usize| k < i ==> #[trigger] order@.contains(k),
        decreases created@.len() - i,
    {
        let mut at: usize = 0;
        while at < order.len() && created[order[at]] >= created[i]
            invariant
                at <= order@.len(),
                i < created@.len(),
                newest_order(order@, created@),
                forall|k: int| 0 <= k < at ==> created@[(#[trigger] order@[k]) as int]
                    >= created@[i as int],
            decreases order@.len() - at,
        {
            at = at + 1;
        }
        let ghost before = order@;
        order.insert(at, i);
        proof {
            let now = order@;
            assert forall|k: int| 0 <= k < now.len() implies (#[trigger] now[k]) < i + 1 by {
                if k < at {
                    assert(now[k] == before[k]);
                } else if k > at {
                    assert(now[k] == before[k - 1]);
                }
            }
            assert forall|a: int, b: int| 0 <= a < b < now.len() implies {
                let x = #[trigger] now[a];
                let y = #[trigger] now[b];
                created@[x as int] > created@[y as int] || (created@[x as int] == created@[y as int]
                    && x < y)
            } by {
                if b < at {
                    assert(now[a] == before[a] && now[b] == before[b]);
                } else if b == at {
                    assert(now[a] == before[a]);
                } else if a < at {
                    assert(now[a] == before[a] && now[b] == before[b - 1]);
                } else if a == at {
                    assert(now[b] == before[b - 1]);
                    assert(at < before.len());
                    assert(created@[before[at as int] as int] < created@[i as int]);
                    if b - 1 > at {
                        assert(before[at as int] < created@.len());
                        let x = before[at as int];
                        let y = before[b - 1];
                        assert(created@[x as int] > created@[y as int] || (created@[x as int]
                            == created@[y as int] && x < y));
                    }
                } else {
                    assert(now[a] == before[a - 1] && now[b] == before[b - 1]);
                }
            }
            assert forall|k: usize| k < i + 1 implies #[trigger] now.contains(k) by {
                if k < i {
                    assert(before.contains(k));
                    let j = choose|j: int| 0 <= j < before.len() && before[j] == k;
                    if j < at {
                        assert(now[j] == k);
                    } else {
                        assert(now[j + 1] == k);
                    }
                } else {
                    assert(now[at as int] == i);
                }
            }
        }
        i = i + 1;
    }
    order
}

} // verus!
