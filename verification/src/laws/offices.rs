//! What the API keeps for orgs: the orgs themselves, their keys, images and volumes, and
//! what they are shown of their use.

use crate::api::admin::{
    create_org, image_names, is_listed, memory_of, metrics, newest_first, newest_order, org_suspend,
    org_unsuspend, register_key, require_admin, revoke_key, round_tenths, shows, state_names, times,
    CreateOrgReq, Metrics, RegisterKeyReq, SandboxRow,
};
use crate::api::images::{create as create_image, load_owned as load_image, owned_image};
use crate::api::nodes::{cluster_units, cluster_used, drain, row_of};
use crate::api::usage::{
    admin_overview, cost_of, delivered_in_month, delivered_since, intervals_of, millis_of,
    millis_since, usage, Overview, UsageView,
};
use crate::api::volumes::{
    check_delete, create as create_volume, format_command, image_bytes, load_owned as load_volume,
    valid_name,
};
use crate::auth::{authenticate, AuthContext, AuthOutcome};
use crate::capacity::{node_capacity, CapacityRule, NodeCapacity};
use crate::config::ServerConfig;
use crate::error::{ApiError, ApiResult};
use crate::images::{CreateImageRequest, CustomImage, ImageSource, ImageStatus};
use crate::laws::money::{apart, lemma_nearest_is_near};
use crate::lifecycle::State;
use crate::model::{CreateVolumeRequest, Sandbox, Volume};
use crate::nodes::{Nanos, Node};
use crate::placement::NodeLoad;
use crate::pricing::PricingConfig;
use crate::runtime::NetStats;
use crate::store::active_memory;
use crate::text::{is_alnum, views};
use crate::usage::{ApiKey, Org, OrgStatus, UsageInterval};
use crate::views::{urls_view, Urls};
use vstd::prelude::*;
use vstd::string::*;

verus! {

// ---------------------------------------------------------------------------
// Orgs and keys
// ---------------------------------------------------------------------------

/// A new org is active, has spent nothing, and has five dollars unless it is given another
/// amount. An org that exists keeps what it was and what it spent, and changes only in what
/// the request names.
pub proof fn law_orgs_are_created(
    ctx: AuthContext,
    req: CreateOrgReq,
    existing: Option<Org>,
    now: Nanos,
    r: ApiResult<Org>,
)
    requires
        call_ensures(create_org, (&ctx, req, Ok(existing), now), r),
    ensures
        r is Ok <==> ctx.admin && req.id@.len() > 0,
        !ctx.admin ==> (r matches Err(e) && e is Forbidden),
        r matches Ok(o) ==> {
            &&& o.name == req.name
            &&& req.prepaid_credits matches Some(c) ==> o.prepaid_credits == c
            &&& req.quota_mb matches Some(q) ==> o.quota_mb == q
            &&& existing matches Some(was) ==> {
                &&& o.id == was.id && o.status == was.status && o.spent == was.spent
                &&& o.created_at == was.created_at
                &&& req.prepaid_credits is None ==> o.prepaid_credits == was.prepaid_credits
                &&& req.quota_mb is None ==> o.quota_mb == was.quota_mb
            }
            &&& existing is None ==> {
                &&& o.id == req.id && o.status == OrgStatus::Active && o.spent == 0
                &&& o.created_at == now
                &&& req.prepaid_credits is None ==> o.prepaid_credits == 5
                    * crate::usage::COST_STEPS_PER_USD
                &&& req.quota_mb is None ==> o.quota_mb == 0
            }
        },
{
}

/// An admin suspends an org, except the operator's own, and lifts it again; nothing else of
/// the org changes.
pub proof fn law_kill_switch(
    ctx: AuthContext,
    org: &str,
    own: &str,
    found: Org,
    off: ApiResult<Org>,
    on: ApiResult<Org>,
)
    requires
        call_ensures(org_suspend, (&ctx, org, own, Ok(Some(found))), off),
        call_ensures(org_unsuspend, (&ctx, org, Ok(Some(found))), on),
    ensures
        off is Ok <==> ctx.admin && org@ != own@,
        on is Ok <==> ctx.admin,
        off matches Ok(o) ==> o.status == OrgStatus::Suspended && o.prepaid_credits
            == found.prepaid_credits && o.spent == found.spent && o.id == found.id && o.quota_mb
            == found.quota_mb,
        on matches Ok(o) ==> o.status == OrgStatus::Active && o.prepaid_credits
            == found.prepaid_credits && o.spent == found.spent && o.id == found.id && o.quota_mb
            == found.quota_mb,
{
}

/// A key that is registered is nobody's admin key, belongs to the org it was asked for, and
/// opens to what its hash was made of.
pub proof fn law_keys_are_registered(
    ctx: AuthContext,
    req: RegisterKeyReq,
    org_exists: bool,
    now: Nanos,
    shaped: bool,
    hash: &str,
    r: ApiResult<ApiKey>,
)
    requires
        call_ensures(register_key, (&ctx, req, Ok(org_exists), now), r),
        hash@ == req.key_hash@,
        call_ensures(crate::auth::is_hash, (hash,), shaped),
    ensures
        r is Ok <==> ctx.admin && org_exists && shaped,
        r matches Ok(k) ==> !k.admin && !k.disabled && k.org_id@ == req.org_id@ && k.key_hash@
            == req.key_hash@ && k.created_at == now,
        !ctx.admin ==> (r matches Err(e) && e is Forbidden),
{
}

/// A key that was revoked lets nobody in.
pub proof fn law_revoked_keys_open_nothing(
    ctx: AuthContext,
    key: ApiKey,
    r: ApiResult<ApiKey>,
    bearer: Option<&str>,
    org: Option<&Org>,
    who: AuthOutcome,
)
    requires
        call_ensures(revoke_key, (&ctx, Ok(Some(key))), r),
        r matches Ok(k) ==> call_ensures(authenticate, (bearer, Some(&k), org), who),
    ensures
        r is Ok <==> ctx.admin,
        r is Ok ==> !(who is Granted),
        r matches Ok(k) ==> k.key_hash == key.key_hash && k.org_id == key.org_id && k.admin
            == key.admin,
{
}

/// Only admins administrate.
pub proof fn law_admins(ctx: AuthContext, r: ApiResult<()>)
    requires
        call_ensures(require_admin, (&ctx,), r),
    ensures
        r is Ok <==> ctx.admin,
        r matches Err(e) ==> e is Forbidden,
{
}

// ---------------------------------------------------------------------------
// Images and volumes
// ---------------------------------------------------------------------------

/// An image is built from what its request names, under a custom name, for the org that
/// asks. It is not ready before it is built, and it expires where it is to be kept for a
/// time only.
pub proof fn law_images_are_requested(
    ctx: AuthContext,
    req: CreateImageRequest,
    now: Nanos,
    r: ApiResult<CustomImage>,
)
    requires
        call_ensures(create_image, (&ctx, req, now), r),
    ensures
        r is Ok ==> req.name@.len() >= 7 && req.name@.subrange(0, 7) == "custom/"@,
        r is Ok ==> req.source.source_type@ == "dockerfile"@ && req.source.context_url is Some
            || req.source.source_type@ == "oci"@ && req.source.image_ref is Some,
        req.name@.len() >= 7 && req.name@.subrange(0, 7) == "custom/"@ && req.source.source_type@
            == "oci"@ && req.source.image_ref is Some ==> r is Ok,
        req.name@.len() >= 7 && req.name@.subrange(0, 7) == "custom/"@ && req.source.source_type@
            == "dockerfile"@ && req.source.context_url is Some ==> r is Ok,
        r matches Err(e) ==> e is BadRequest,
        r matches Ok(img) ==> {
            &&& img.org_id@ == ctx.org_id@ && img.name@ == req.name@
            &&& img.status == ImageStatus::Building && img.storage_bytes == 0
            &&& img.source matches ImageSource::Dockerfile { context_url, dockerfile } ==> {
                &&& req.source.source_type@ == "dockerfile"@
                &&& req.source.context_url == Some(context_url)
                &&& req.source.dockerfile matches Some(d) ==> dockerfile@ == d@
                &&& req.source.dockerfile is None ==> dockerfile@ == "Dockerfile"@
            }
            &&& img.source matches ImageSource::Oci { image_ref } ==> req.source.image_ref == Some(
                image_ref,
            ) && req.source.source_type@ != "dockerfile"@
            &&& img.ephemeral == req.ephemeral
            &&& !req.ephemeral ==> img.expires_at is None
            &&& req.ephemeral && req.ttl_seconds is None && now <= 9_000_000_000_000_000_000
                ==> img.expires_at == Some((now + 3600 * 1_000_000_000) as i64)
            &&& req.ephemeral && (req.ttl_seconds matches Some(t) && t <= 100_000_000) && now
                <= 9_000_000_000_000_000_000 ==> img.expires_at == Some(
                (now + req.ttl_seconds->0 * 1_000_000_000) as i64,
            )
            &&& img.created_at == now && img.updated_at == now
        },
{
    reveal_strlit("dockerfile");
    reveal_strlit("oci");
    reveal_strlit("custom/");
    assert("oci"@.len() == 3 && "dockerfile"@.len() == 10);
}

/// An image is its org's and the admins'; to anybody else it does not exist.
pub proof fn law_own_images_only(
    ctx: AuthContext,
    org: &str,
    id: &str,
    img: CustomImage,
    a: ApiResult<CustomImage>,
    b: ApiResult<CustomImage>,
)
    requires
        call_ensures(load_image, (&ctx, id, Ok(Some(img))), a),
        call_ensures(owned_image, (org, id, Ok(Some(img))), b),
    ensures
        a is Ok <==> img.org_id@ == ctx.org_id@ || ctx.admin,
        b is Ok <==> img.org_id@ == org@,
        a matches Ok(i) ==> i == img,
        b matches Ok(i) ==> i == img,
        a matches Err(e) ==> (e matches ApiError::NotFound(m) && m@ == "image "@ + id@),
        b matches Err(e) ==> (e matches ApiError::NotFound(m) && m@ == "image "@ + id@),
{
}

/// A volume is created for the org that asks, in a size that there is, under a name that is
/// free; and it is attached to nothing.
pub proof fn law_volumes_are_created(
    ctx: AuthContext,
    req: CreateVolumeRequest,
    taken: bool,
    id: String,
    now: Nanos,
    name: &str,
    named: bool,
    r: ApiResult<Volume>,
)
    requires
        call_ensures(create_volume, (&ctx, req, Ok(taken), id, now), r),
        name@ == req.name@,
        call_ensures(valid_name, (name,), named),
    ensures
        r is Ok <==> {
            &&& named && !taken
            &&& req.size_gb == 1 || req.size_gb == 5 || req.size_gb == 10 || req.size_gb == 20
                || req.size_gb == 50 || req.size_gb == 100 || req.size_gb == 250
        },
        r matches Ok(v) ==> v.org_id@ == ctx.org_id@ && v.name@ == req.name@ && v.size_gb
            == req.size_gb && v.attached_to is None && v.id@ == id@ && v.created_at == now,
{
}

/// A volume's name has letters, digits, dashes and underscores, sixty-four at most.
pub proof fn law_volume_names(name: &str, i: int, ok: bool)
    requires
        call_ensures(valid_name, (name,), ok),
    ensures
        name@.len() == 0 || name@.len() > 64 ==> !ok,
        ok && 0 <= i < name@.len() ==> is_alnum(name@[i]) || name@[i] == '-' || name@[i] == '_',
        1 <= name@.len() <= 64 && (forall|k: int|
            0 <= k < name@.len() ==> is_alnum(#[trigger] name@[k])) ==> ok,
{
}

/// A volume is its org's and the admins'. It is deleted only when no sandbox holds it.
pub proof fn law_own_volumes_only(
    ctx: AuthContext,
    id: &str,
    v: Volume,
    a: ApiResult<Volume>,
    free: ApiResult<()>,
)
    requires
        call_ensures(load_volume, (&ctx, id, Ok(Some(v))), a),
        call_ensures(check_delete, (&v,), free),
    ensures
        a is Ok <==> v.org_id@ == ctx.org_id@ || ctx.admin,
        a matches Ok(got) ==> got == v,
        a matches Err(e) ==> (e matches ApiError::NotFound(m) && m@ == "volume "@ + id@),
        free is Ok <==> v.attached_to is None,
        free matches Err(e) ==> e is Conflict,
{
}

/// A volume's image has the bytes of its size, and is formatted under its label.
pub proof fn law_volume_images(gb: u32, bytes: u64, path: &str, label: &str, argv: Vec<String>)
    requires
        call_ensures(image_bytes, (gb,), bytes),
        call_ensures(format_command, (path, label), argv),
    ensures
        bytes == gb * 1024 * 1024 * 1024,
        argv@.len() == 6 && argv@[0]@ == "mkfs.ext4"@ && argv@[3]@ == "-L"@ && argv@[4]@ == label@
            && argv@[5]@ == path@,
{
    assert(views(argv@).len() == 6);
    assert(views(argv@)[0] == argv@[0]@ && views(argv@)[3] == argv@[3]@ && views(argv@)[4]
        == argv@[4]@ && views(argv@)[5] == argv@[5]@);
}

// ---------------------------------------------------------------------------
// Use
// ---------------------------------------------------------------------------

/// What a sandbox ran and cost is the sum over its intervals and over no others: one more
/// interval adds to its own sandbox only.
pub proof fn law_use_adds_up(ivs: Seq<UsageInterval>, id: Seq<char>, now: Nanos)
    requires
        ivs.len() > 0,
    ensures
        ({
            let (last, n) = (ivs.last(), ivs.len() as int);
            &&& last.sandbox_id@ == id ==> {
                &&& millis_of(ivs, id, now, n) == millis_of(ivs, id, now, n - 1) + last.millis(now)
                &&& cost_of(ivs, id, now, n) == cost_of(ivs, id, now, n - 1) + last.cost(now)
                &&& intervals_of(ivs, id, n) == intervals_of(ivs, id, n - 1) + 1
            }
            &&& last.sandbox_id@ != id ==> {
                &&& millis_of(ivs, id, now, n) == millis_of(ivs, id, now, n - 1)
                &&& cost_of(ivs, id, now, n) == cost_of(ivs, id, now, n - 1)
                &&& intervals_of(ivs, id, n) == intervals_of(ivs, id, n - 1)
            }
        }),
        millis_of(ivs, id, now, 0) == 0 && cost_of(ivs, id, now, 0) == 0,
{
}

/// What is delivered since a moment: only time after it, at the units and the multiplier of
/// each interval.
pub proof fn law_delivered_since(iv: UsageInterval, from: Nanos, now: Nanos)
    requires
        iv.ended_at is None,
        iv.started_at <= now,
        now - iv.started_at <= i64::MAX,
        now - from <= i64::MAX,
    ensures
        iv.started_at >= from ==> apart(
            millis_since(iv, from, now) * 1_000_000,
            now - iv.started_at,
        ) < 1_000_000,
        iv.started_at <= from <= now ==> apart(
            millis_since(iv, from, now) * 1_000_000,
            now - from,
        ) < 1_000_000,
        from > now ==> millis_since(iv, from, now) == 0,
        delivered_since(iv, from, now) == millis_since(iv, from, now) * iv.resource_units_e4
            * iv.image_multiplier_milli,
{
}

/// What an org is shown: what it was metered for and what it has left.
pub proof fn law_orgs_see_their_use(
    org: Org,
    ivs: Vec<UsageInterval>,
    now: Nanos,
    cost: i128,
    delivered: u128,
    r: UsageView,
)
    requires
        call_ensures(usage, (&Some(org), &ivs, now), r),
        call_ensures(crate::usage::metered_cost, (&ivs, now), cost),
        call_ensures(delivered_in_month, (&ivs, i64::MIN, now), delivered),
        org.wf(),
    ensures
        r.total_cost == cost,
        r.delivered == delivered,
        r.prepaid_credits == Some(org.prepaid_credits),
        r.balance == Some((org.prepaid_credits - org.spent) as i128),
        r.quota_mb == Some(org.quota_mb),
{
}

/// What a unit-hour comes to: the nodes' cost and a quarter more, spread over what was
/// delivered.
pub proof fn law_overview(cfg: PricingConfig, nodes: u32, delivered: u128, r: Overview)
    requires
        call_ensures(admin_overview, (&cfg, nodes, delivered), r),
    ensures
        nodes > 0 ==> r.monthly_node_cost_micro_usd == cfg.monthly_node_cost_micro_usd * nodes,
        nodes == 0 ==> r.monthly_node_cost_micro_usd == cfg.monthly_node_cost_micro_usd,
        r.platform_overhead_e8_usd * 4 == r.monthly_node_cost_micro_usd * 100,
        apart(r.delivered_unit_hours_micro * 36_000_000, delivered as int) * 2 <= 36_000_000,
{
    lemma_nearest_is_near(delivered as int, 36_000_000);
}

/// A sandbox has a preview URL for each port that it exposes, that of the port; a browser's
/// previews have theirs.
pub proof fn law_urls(s: ServerConfig, sb: Sandbox, id: &str, i: int, url: String, r: Urls)
    requires
        call_ensures(urls_view, (&s, &sb), r),
        id@ == sb.id@,
        0 <= i < sb.ports@.len(),
        call_ensures(ServerConfig::preview_url, (&s, id, sb.ports@[i]), url),
    ensures
        r.ports@.len() == sb.ports@.len(),
        r.ports@[i].0 == sb.ports@[i] && r.ports@[i].1@ == url@,
        r.vnc is Some <==> (sb.browser matches Some(b) && b.enabled),
        r.cdp is Some <==> (sb.browser matches Some(b) && b.enabled),
{
}

// ---------------------------------------------------------------------------
// Nodes and metrics
// ---------------------------------------------------------------------------

/// What is shown of a node: its capacity, and what is used of it and free, which come to
/// the admitted units as near as tenths can tell.
pub proof fn law_shown_nodes(
    load: NodeLoad,
    rule: CapacityRule,
    cap: NodeCapacity,
)
    requires
        call_ensures(node_capacity, (load.node.total_memory_kb, &rule), cap),
        load.active@.len() <= 0xffff_ffff,
        0 <= active_memory(load.active@, load.active@.len() as int) <= cap.practical_units * 2048,
    ensures
        ({
            let row = row_of(load, rule);
            &&& row.usable_kb == cap.usable_for_sandboxes_kb
            &&& row.theoretical_units == cap.theoretical_units
            &&& row.practical_units == cap.practical_units
            &&& row.active_sandboxes == load.active@.len()
            &&& apart(
                row.used_tenths * 2048,
                active_memory(load.active@, load.active@.len() as int) * 10,
            ) <= 1024
            &&& apart(row.used_tenths + row.free_tenths, cap.practical_units * 10) <= 1
        }),
{
}

/// The cluster can take what its nodes can take together.
pub proof fn law_cluster_adds_up(loads: Seq<NodeLoad>, rule: CapacityRule, cap: NodeCapacity)
    requires
        loads.len() > 0,
        call_ensures(node_capacity, (loads.last().node.total_memory_kb, &rule), cap),
    ensures
        cluster_units(loads, rule, loads.len() as int) == cluster_units(
            loads,
            rule,
            loads.len() - 1,
        ) + cap.practical_units,
        cluster_used(loads, loads.len() as int) == cluster_used(loads, loads.len() - 1)
            + active_memory(loads.last().active@, loads.last().active@.len() as int),
        cluster_units(loads, rule, 0) == 0 && cluster_used(loads, 0) == 0,
{
}

/// An admin takes a node out of rotation, and nobody else does.
pub proof fn law_who_drains(ctx: AuthContext, id: &str, node: Node, now: Nanos, r: ApiResult<Node>)
    requires
        call_ensures(drain, (&ctx, id, Ok(Some(node)), now), r),
    ensures
        r is Ok <==> ctx.admin,
        r matches Ok(n) ==> n.draining && !n.schedulable && n.id == node.id && n.total_memory_kb
            == node.total_memory_kb && n.last_heartbeat_at == now,
{
}

/// Memory in tenths of a unit is as near as tenths can be.
pub proof fn law_rounded_tenths(mb: u128, r: u128)
    requires
        call_ensures(round_tenths, (mb,), r),
    ensures
        apart(r * 2048, mb * 10) <= 1024,
{
}

/// A row of the dashboard tells what its sandbox is.
pub proof fn law_rows_tell(
    row: SandboxRow,
    sb: Sandbox,
    net: Option<NetStats>,
    cfg: PricingConfig,
    now: Nanos,
)
    requires
        shows(row, sb, net, cfg, now),
    ensures
        row.id@ == sb.id@ && row.org_id@ == sb.org_id@ && row.image@ == sb.image@,
        row.cpu_milli == sb.resources.cpu_milli && row.memory_mb == sb.resources.memory_mb
            && row.disk_gb == sb.resources.disk_gb,
        row.state == sb.state && row.boot_path == sb.boot_path && row.docker == sb.docker,
        row.secret_count == sb.secret_names@.len() && row.net == net,
        row.node_id == sb.node_id && row.created_at == sb.created_at,
        sb.created_at >= now ==> row.uptime_seconds == 0,
        sb.created_at <= now && now - sb.created_at <= i64::MAX ==> apart(
            row.uptime_seconds * 1_000_000_000,
            now - sb.created_at,
        ) < 1_000_000_000,
{
}

/// What is committed is the memory of all sandboxes together.
pub proof fn law_committed_memory(s: Seq<Sandbox>)
    requires
        s.len() > 0,
    ensures
        memory_of(s, s.len() as int) == memory_of(s, s.len() - 1) + s.last().resources.memory_mb,
        memory_of(s, 0) == 0,
{
}

/// A word is counted as often as it stands there.
pub proof fn law_counting(words: Seq<Seq<char>>, w: Seq<char>)
    requires
        words.len() > 0,
    ensures
        words.last() == w ==> times(words, w, words.len() as int) == times(
            words,
            w,
            words.len() - 1,
        ) + 1,
        words.last() != w ==> times(words, w, words.len() as int) == times(
            words,
            w,
            words.len() - 1,
        ),
        times(words, w, 0) == 0,
{
}

/// The metrics count the sandboxes by state and by image, and show each of them.
pub proof fn law_metrics(
    active: Vec<Sandbox>,
    nets: Vec<Option<NetStats>>,
    node: Option<Node>,
    rule: CapacityRule,
    cfg: PricingConfig,
    now: Nanos,
    word: Seq<char>,
    r: Metrics,
)
    requires
        call_ensures(metrics, (&active, &nets, &node, &rule, &cfg, now), r),
    ensures
        r.by_state@.contains_key(word) ==> r.by_state@[word] == times(
            state_names(active@),
            word,
            active@.len() as int,
        ),
        r.by_image@.contains_key(word) ==> r.by_image@[word] == times(
            image_names(active@),
            word,
            active@.len() as int,
        ),
        r.committed_memory_mb == memory_of(active@, active@.len() as int),
        r.sandboxes@.len() == active@.len(),
        r.capacity is Some <==> node is Some,
        r.capacity matches Some(c) ==> c.free_mb == 0 || c.free_mb + r.committed_memory_mb
            == c.practical_units * 2048,
{
}

/// Deleted sandboxes are not listed, all others are; and the newest comes first.
pub proof fn law_lists(sb: Sandbox, listed: bool, created: Vec<Nanos>, r: Vec<usize>, i: int, j: int)
    requires
        call_ensures(is_listed, (&sb,), listed),
        call_ensures(newest_first, (&created,), r),
        0 <= i < j < r@.len(),
    ensures
        listed <==> sb.state != State::Deleted,
        r@.len() == created@.len(),
        r@[i] < created@.len() && r@[j] < created@.len(),
        created@[r@[i] as int] >= created@[r@[j] as int],
{
    assert(newest_order(r@, created@));
}

} // verus!
