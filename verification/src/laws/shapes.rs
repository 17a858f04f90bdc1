//! Which shapes there are, which images need which, how much of a node they may fill, and
//! what the settings come to.

use crate::capacity::{node_capacity, units_for_memory_mb, CapacityRule, NodeCapacity};
use crate::catalog::{
    classify, curated_images, default_hot_pools, CuratedImage, DefaultPool, HotPoolPriority,
    ImageClass,
};
use crate::config::{
    first_nonempty, host_name, runtime_kind, total_memory_kb, CapacityConfig, Config, Overrides,
    RuntimeConfig, RuntimeKind, ServerConfig,
};
use crate::knobs::{validate_auto_stop, Resources, ResourcesRequest};
use crate::nodes::Node;
use crate::numeral::decimal;
use crate::runtime::vm::Settings;
use vstd::prelude::*;
use vstd::string::*;

verus! {

// ---------------------------------------------------------------------------
// Shapes
// ---------------------------------------------------------------------------

/// A part of a shape is what was asked for, or the default.
pub open spec fn given(asked: Option<u32>, default: u32, got: u32) -> bool {
    asked == Some(got) || asked is None && got == default
}

/// A shape that is granted has what was asked for, and one vCPU, two GB and eight GB of
/// disk where nothing was. It has half a vCPU or one, two or four; its memory is one GB
/// doubled up to four times, its disk eight GB doubled up to three times.
pub proof fn law_granted_shapes(req: ResourcesRequest, r: Result<Resources, String>)
    requires
        call_ensures(Resources::validate, (&req,), r),
    ensures
        r matches Ok(s) ==> {
            &&& given(req.cpu_milli, 1000, s.cpu_milli)
            &&& given(req.memory_mb, 2048, s.memory_mb)
            &&& given(req.disk_gb, 8, s.disk_gb)
            &&& s.cpu_milli == 500 || s.cpu_milli == 1000 || s.cpu_milli == 2000 || s.cpu_milli
                == 4000
            &&& s.memory_mb == 1024 || s.memory_mb == 2048 || s.memory_mb == 4096 || s.memory_mb
                == 8192 || s.memory_mb == 16384
            &&& s.disk_gb == 8 || s.disk_gb == 16 || s.disk_gb == 32 || s.disk_gb == 64
        },
{
}

/// Every such shape can be had, whichever of its parts are named.
pub proof fn law_shapes_that_can_be_had(
    req: ResourcesRequest,
    s: Resources,
    r: Result<Resources, String>,
)
    requires
        call_ensures(Resources::validate, (&req,), r),
        given(req.cpu_milli, 1000, s.cpu_milli),
        given(req.memory_mb, 2048, s.memory_mb),
        given(req.disk_gb, 8, s.disk_gb),
    ensures
        r is Ok <==> {
            &&& s.cpu_milli == 500 || s.cpu_milli == 1000 || s.cpu_milli == 2000 || s.cpu_milli
                == 4000
            &&& s.memory_mb == 1024 || s.memory_mb == 2048 || s.memory_mb == 4096 || s.memory_mb
                == 8192 || s.memory_mb == 16384
            &&& s.disk_gb == 8 || s.disk_gb == 16 || s.disk_gb == 32 || s.disk_gb == 64
        },
        r is Ok ==> r == Ok::<Resources, String>(s),
{
}

/// An idle window is between half a minute and an hour, and two minutes where none was
/// asked for.
pub proof fn law_idle_windows(asked: Option<u32>, r: Result<u32, String>)
    requires
        call_ensures(validate_auto_stop, (asked,), r),
    ensures
        asked is None ==> r == Ok::<u32, String>(120),
        asked matches Some(s) ==> (r is Ok <==> 30 <= s <= 60 * 60) && (r is Ok ==> r == Ok::<
            u32,
            String,
        >(s)),
{
}

// ---------------------------------------------------------------------------
// Images
// ---------------------------------------------------------------------------

/// Of two shapes the first has at least what the second has.
pub open spec fn covers(a: Resources, b: Resources) -> bool {
    a.cpu_milli >= b.cpu_milli && a.memory_mb >= b.memory_mb && a.disk_gb >= b.disk_gb
}

/// An image that is known by its name is of the family of that name; `custom/` begins the
/// names of custom images, and nothing else is an image.
pub proof fn law_images_by_name(image: &str, r: Result<ImageClass, String>)
    requires
        call_ensures(classify, (image,), r),
    ensures
        image@ == "base"@ ==> r matches Ok(ImageClass::Base),
        image@ == "node-python"@ ==> r matches Ok(ImageClass::NodePython),
        image@ == "browser"@ ==> r matches Ok(ImageClass::Browser),
        image@ == "heavy-build"@ ==> r matches Ok(ImageClass::HeavyBuild),
        image@.len() >= 7 && image@.subrange(0, 7) == "custom/"@ ==> (r matches Ok(
            ImageClass::Custom(name),
        ) && name@ == image@),
        r is Ok ==> image@ == "base"@ || image@ == "node-python"@ || image@ == "browser"@ || image@
            == "heavy-build"@ || image@.len() >= 7 && image@.subrange(0, 7) == "custom/"@,
{
    reveal_strlit("custom/");
    reveal_strlit("base");
    reveal_strlit("node-python");
    reveal_strlit("browser");
    reveal_strlit("heavy-build");
    assert("node-python"@[0] == 'n' && "heavy-build"@[0] == 'h');
    if image@.len() >= 7 && image@.subrange(0, 7) == "custom/"@ {
        assert(image@.subrange(0, 7)[0] == 'c');
        assert(image@[0] == 'c');
    }
}

/// The same key, in words: the family's name, and `custom` for what users build.
pub proof fn law_keys(c: ImageClass, key: &str)
    requires
        call_ensures(ImageClass::key, (&c,), key),
    ensures
        c is Base ==> key@ == "base"@,
        c is NodePython ==> key@ == "node-python"@,
        c is Browser ==> key@ == "browser"@,
        c is HeavyBuild ==> key@ == "heavy-build"@,
        c is Custom ==> key@ == "custom"@,
{
}

/// What each family costs and needs at least. A custom image needs what the base image
/// needs; every family needs at least that much, and costs at least as much.
pub proof fn law_families(c: ImageClass, least: Resources, multiplier: u32)
    requires
        call_ensures(ImageClass::minimum_resources, (&c,), least),
        call_ensures(ImageClass::default_multiplier, (&c,), multiplier),
    ensures
        covers(least, Resources { cpu_milli: 1000, memory_mb: 2048, disk_gb: 8 }),
        multiplier >= 1000,
        c is Base || c is Custom ==> least.cpu_milli == 1000 && least.memory_mb == 2048
            && least.disk_gb == 8,
        c is NodePython ==> least.cpu_milli == 1000 && least.memory_mb == 2048 && least.disk_gb
            == 16,
        c is Browser ==> least.cpu_milli == 2000 && least.memory_mb == 4096 && least.disk_gb == 16,
        c is HeavyBuild ==> least.cpu_milli == 2000 && least.memory_mb == 8192 && least.disk_gb
            == 32,
        c is Base ==> multiplier == 1000,
        c is NodePython ==> multiplier == 1100,
        c is Custom ==> multiplier == 1200,
        c is HeavyBuild ==> multiplier == 2000,
        c is Browser ==> multiplier == 2500,
{
}

/// What each family is treated as: which are custom, which have a browser, which can share
/// a read-only root disk, and how eagerly they are warmed.
pub proof fn law_how_families_are_treated(
    c: ImageClass,
    custom: bool,
    browser: bool,
    shares: bool,
    warm: HotPoolPriority,
)
    requires
        call_ensures(ImageClass::is_custom, (&c,), custom),
        call_ensures(ImageClass::is_browser, (&c,), browser),
        call_ensures(ImageClass::supports_shared_rootfs, (&c,), shares),
        call_ensures(ImageClass::hot_pool_priority, (&c,), warm),
    ensures
        custom <==> !(c is Base || c is NodePython || c is Browser || c is HeavyBuild),
        browser <==> c is Browser,
        shares <==> c is Base || c is Browser,
        warm is Never <==> custom,
        c is Base ==> warm is Highest,
        c is NodePython ==> warm is High,
        c is Browser ==> warm is Medium,
        c is HeavyBuild ==> warm is Low,
{
}

/// The pools that are warmed by default hold curated images in a shape that runs them.
pub proof fn law_default_pools(r: Vec<DefaultPool>)
    requires
        call_ensures(default_hot_pools, (), r),
    ensures
        r@.len() == 3,
        r@[0].image_key@ == "base"@ && r@[0].target == 2,
        r@[1].image_key@ == "node-python"@ && r@[1].target == 1,
        r@[2].image_key@ == "browser"@ && r@[2].target == 1,
        r@[0].shape == (Resources { cpu_milli: 1000, memory_mb: 2048, disk_gb: 8 }),
        r@[1].shape == (Resources { cpu_milli: 1000, memory_mb: 2048, disk_gb: 16 }),
        r@[2].shape == (Resources { cpu_milli: 2000, memory_mb: 4096, disk_gb: 16 }),
{
}

/// An entry of the catalog names a family and the least that it needs.
pub open spec fn listed(e: CuratedImage, key: Seq<char>, least: Resources) -> bool {
    &&& e.id@ == key
    &&& e.kind@ == "curated"@
    &&& e.immutable
    &&& e.min_cpu_milli == least.cpu_milli
    &&& e.min_memory_mb == least.memory_mb
    &&& e.min_disk_gb == least.disk_gb
}

/// The catalog lists the four curated families, each immutable and with the least that it
/// needs.
pub proof fn law_catalog(r: Vec<CuratedImage>)
    requires
        call_ensures(curated_images, (), r),
    ensures
        r@.len() == 4,
        listed(r@[0], "base"@, Resources { cpu_milli: 1000, memory_mb: 2048, disk_gb: 8 }),
        listed(r@[1], "node-python"@, Resources { cpu_milli: 1000, memory_mb: 2048, disk_gb: 16 }),
        listed(r@[2], "browser"@, Resources { cpu_milli: 2000, memory_mb: 4096, disk_gb: 16 }),
        listed(r@[3], "heavy-build"@, Resources { cpu_milli: 2000, memory_mb: 8192, disk_gb: 32 }),
{
}

// ---------------------------------------------------------------------------
// Nodes
// ---------------------------------------------------------------------------

/// What a node can hold: as many default sandboxes of two GB as fit beside the host's
/// reserve, no more and no fewer; of these the admitted fraction, rounded down.
pub proof fn law_what_a_node_holds(total: u64, rule: CapacityRule, r: NodeCapacity)
    requires
        call_ensures(node_capacity, (total, &rule), r),
        total < 0x20_0000_0000_0000,
        rule.practical_derate.parts <= rule.practical_derate.whole,
    ensures
        r.total_memory_kb == total,
        r.host_reserve_kb == rule.host_reserve_kb,
        total >= rule.host_reserve_kb ==> r.usable_for_sandboxes_kb + rule.host_reserve_kb == total,
        total < rule.host_reserve_kb ==> r.usable_for_sandboxes_kb == 0,
        r.theoretical_units * 2_097_152 <= r.usable_for_sandboxes_kb < (r.theoretical_units + 1)
            * 2_097_152,
        r.practical_units <= r.theoretical_units,
        rule.practical_derate.whole == 0 ==> r.practical_units == 0,
        rule.practical_derate.whole > 0 ==> r.practical_units * rule.practical_derate.whole
            <= r.theoretical_units * rule.practical_derate.parts < (r.practical_units + 1)
            * rule.practical_derate.whole,
{
    let u = r.usable_for_sandboxes_kb as int;
    let t = u / 2_097_152;
    assert(t < 0x1_0000_0000);
    let (x, y) = (rule.practical_derate.parts as int, rule.practical_derate.whole as int);
    if y > 0 {
        let q = t * x / y;
        vstd::arithmetic::div_mod::lemma_fundamental_div_mod(t * x, y);
        assert(0 <= q <= t) by (nonlinear_arith)
            requires
                0 <= x <= y,
                0 <= t,
                q == t * x / y,
                y > 0,
        ;
        assert(q * y <= t * x < (q + 1) * y) by (nonlinear_arith)
            requires
                t * x == y * q + t * x % y,
                0 <= t * x % y < y,
        ;
    }
}

/// By default a node keeps twelve GB for itself, and admits twenty of every twenty-six
/// default sandboxes that would fit.
pub proof fn law_default_rule(r: CapacityRule)
    requires
        call_ensures(CapacityRule::default, (), r),
    ensures
        r.host_reserve_kb == 12 * 1024 * 1024,
        r.practical_derate.parts == 20,
        r.practical_derate.whole == 26,
{
}

/// A node's capacity is that of its memory, and it takes sandboxes exactly when it is in
/// rotation, is not being drained and can run VMs.
pub proof fn law_nodes(node: Node, rule: CapacityRule, a: NodeCapacity, b: NodeCapacity, takes: bool)
    requires
        call_ensures(Node::capacity, (&node, &rule), a),
        call_ensures(node_capacity, (node.total_memory_kb, &rule), b),
        call_ensures(Node::is_available, (&node,), takes),
    ensures
        a == b,
        takes <==> node.schedulable && !node.draining && node.kvm_ok,
{
}

/// Memory in tenths of a default sandbox is as near as tenths can be.
pub proof fn law_tenths_are_near(mb: u64, r: u64)
    requires
        call_ensures(units_for_memory_mb, (mb,), r),
    ensures
        r * 2048 - mb * 10 <= 1024,
        mb * 10 - r * 2048 <= 1024,
        mb % 2048 == 0 ==> r * 2048 == mb * 10,
{
}

/// Measured memory is handed out beyond the ceiling only where that is enabled, and only
/// what is left beside the headroom.
pub proof fn law_measured_memory(cfg: CapacityConfig, available: Option<u64>, r: Option<u64>)
    requires
        call_ensures(CapacityConfig::measured_spare_kb, (&cfg, available), r),
    ensures
        !cfg.overcommit ==> r is None,
        available is None ==> r is None,
        r matches Some(spare) ==> spare + cfg.overcommit_headroom_mb * 1024 == available->Some_0,
        cfg.overcommit && (available matches Some(a) && a >= cfg.overcommit_headroom_mb * 1024)
            ==> r is Some,
{
}

/// The rule by which a node's memory is counted is the configured one.
pub proof fn law_configured_rule(cfg: CapacityConfig, r: CapacityRule)
    requires
        call_ensures(CapacityConfig::rule, (&cfg,), r),
    ensures
        r.host_reserve_kb == cfg.host_reserve_kb,
        r.practical_derate == cfg.practical_derate,
{
}

// ---------------------------------------------------------------------------
// Settings
// ---------------------------------------------------------------------------

/// The environment wins where it says something, and what was configured stays otherwise.
pub open spec fn wins(said: Option<String>, was: String, is: String) -> bool {
    match said {
        Some(v) => is == v,
        None => is == was,
    }
}

/// A switch is turned on by `1`, `true` or `yes`, and off by anything else.
pub open spec fn turns(said: Option<String>, was: bool, is: bool) -> bool {
    match said {
        Some(v) => is <==> v@ == "1"@ || v@ == "true"@ || v@ == "yes"@,
        None => is == was,
    }
}

/// What the environment says counts, and only where it says something.
pub proof fn law_environment_counts(c: Config, over: Overrides, r: Config)
    requires
        call_ensures(Config::settle, (c, over), r),
    ensures
        wins(over.bind, c.server.bind, r.server.bind),
        wins(over.data_dir, c.server.data_dir, r.server.data_dir),
        wins(over.public_domain, c.server.public_domain, r.server.public_domain),
        wins(
            over.capacity_exhausted_message,
            c.server.capacity_exhausted_message,
            r.server.capacity_exhausted_message,
        ),
        wins(over.runtime, c.runtime.kind, r.runtime.kind),
        wins(over.rpc_token, c.node.rpc_token, r.node.rpc_token),
        wins(over.admin_key, c.auth.bootstrap_admin_key, r.auth.bootstrap_admin_key),
        turns(over.public_https, c.server.public_https, r.server.public_https),
        turns(over.standby, c.standby.enabled, r.standby.enabled),
        turns(over.no_seccomp, c.runtime.firecracker_no_seccomp, r.runtime.firecracker_no_seccomp),
        over.public_port is None ==> r.server.public_port == c.server.public_port,
        r.pricing == c.pricing && r.hotpool == c.hotpool && r.capacity == c.capacity,
        r.node.join_token == c.node.join_token && r.node.role == c.node.role,
        r.node.node_id == c.node.node_id && r.node.total_memory_kb == c.node.total_memory_kb,
        r.auth.bootstrap_org == c.auth.bootstrap_org,
        r.standby.balloon_idle_seconds == c.standby.balloon_idle_seconds,
        r.runtime.use_jailer == c.runtime.use_jailer,
        r.runtime.firecracker_bin == c.runtime.firecracker_bin,
{
}

/// A place that is configured is kept, and the others are in the data directory that
/// counts, each under its own name.
pub proof fn law_places_are_filled_in(c: Config, over: Overrides, r: Config)
    requires
        call_ensures(Config::settle, (c, over), r),
    ensures
        c.runtime.images_dir@.len() > 0 ==> r.runtime.images_dir@ == c.runtime.images_dir@,
        c.runtime.workspace_dir@.len() > 0 ==> r.runtime.workspace_dir@ == c.runtime.workspace_dir@,
        c.runtime.volumes_dir@.len() > 0 ==> r.runtime.volumes_dir@ == c.runtime.volumes_dir@,
        c.runtime.kernel_image@.len() > 0 ==> r.runtime.kernel_image@ == c.runtime.kernel_image@,
        c.runtime.images_dir@.len() == 0 ==> r.runtime.images_dir@ == crate::paths::under(
            r.server.data_dir@,
            "images"@,
        ),
        c.runtime.workspace_dir@.len() == 0 ==> r.runtime.workspace_dir@ == crate::paths::under(
            r.server.data_dir@,
            "workspaces"@,
        ),
        c.runtime.volumes_dir@.len() == 0 ==> r.runtime.volumes_dir@ == crate::paths::under(
            r.server.data_dir@,
            "volumes"@,
        ),
        c.runtime.kernel_image@.len() == 0 ==> r.runtime.kernel_image@ == crate::paths::under(
            r.server.data_dir@,
            "kernel/vmlinux"@,
        ),
{
}

/// The runtime is set up as configured.
pub proof fn law_runtime_is_set_up_as_configured(c: RuntimeConfig, shares: bool, r: Settings)
    requires
        call_ensures(RuntimeConfig::settings, (&c, shares), r),
    ensures
        r.firecracker_bin == c.firecracker_bin && r.jailer_bin == c.jailer_bin,
        r.kernel_image == c.kernel_image && r.images_dir == c.images_dir,
        r.volumes_dir == c.volumes_dir && r.workspace_dir == c.workspace_dir,
        r.use_jailer == c.use_jailer && r.jailer_uid_base == c.jailer_uid_base,
        r.cpu_template == c.cpu_template && r.shared_rootfs == c.shared_rootfs,
        r.balloon == c.balloon && r.quiet_boot == c.quiet_guest_boot,
        r.no_seccomp == c.firecracker_no_seccomp && r.jailer_pool_size == c.jailer_pool_size,
        r.prewarm_mem_cache == c.prewarm_mem_cache,
        r.require_reflink == c.require_reflink && r.shares_blocks == shares,
{
}

/// Firecracker runs where it is asked for. What isolates nothing runs only where that was
/// acknowledged, and nothing else runs at all.
pub proof fn law_runtime_kinds(kind: &str, acknowledged: bool, r: Result<RuntimeKind, String>)
    requires
        call_ensures(runtime_kind, (kind, acknowledged), r),
    ensures
        kind@ == "firecracker"@ ==> r == Ok::<RuntimeKind, String>(RuntimeKind::Firecracker),
        r == Ok::<RuntimeKind, String>(RuntimeKind::Firecracker) ==> kind@ == "firecracker"@,
        r == Ok::<RuntimeKind, String>(RuntimeKind::Mock) <==> kind@ == "mock"@ && acknowledged,
{
    reveal_strlit("firecracker");
    reveal_strlit("mock");
    if kind@ == "mock"@ {
        assert("mock"@.len() == 4);
    }
}

/// A default of a host: VMs where they can run, and simulated ones elsewhere.
pub proof fn law_hosts(linux: bool, r: RuntimeConfig)
    requires
        call_ensures(RuntimeConfig::of_host, (linux,), r),
    ensures
        linux ==> r.kind@ == "firecracker"@,
        !linux ==> r.kind@ == "mock"@,
        !r.use_jailer && !r.balloon && !r.shared_rootfs && !r.require_reflink
            && !r.firecracker_no_seccomp,
        r.jailer_pool_size == 0 && r.prewarm_mem_cache && r.quiet_guest_boot,
        r.images_dir@ == r.workspace_dir@ && r.images_dir@ == r.volumes_dir@ && r.images_dir@
            == ""@,
{
}

/// A node has the memory it is configured with, where it is.
pub proof fn law_configured_memory(configured: u64, meminfo: &str, r: u64)
    requires
        call_ensures(total_memory_kb, (configured, meminfo), r),
    ensures
        configured > 0 ==> r == configured,
        configured == 0 && crate::text::line_list(meminfo@).len() == 0 ==> r == 64 * 1024 * 1024,
{
}

/// A host is named by the environment, where that says anything; by the system, where it
/// reports anything; and as the local one otherwise.
pub proof fn law_host_names(environment: Option<&str>, reported: Option<&str>, r: String)
    requires
        call_ensures(host_name, (environment, reported), r),
    ensures
        environment matches Some(e) ==> e@.len() > 0 ==> r@ == e@,
        environment is None && reported is None ==> r@ == "localhost"@,
{
}

/// Of two texts the first counts unless it is empty.
pub proof fn law_first_text_counts(a: &str, b: &str, r: String)
    requires
        call_ensures(first_nonempty, (a, b), r),
    ensures
        a@.len() > 0 ==> r@ == a@,
        a@.len() == 0 ==> r@ == b@,
{
}

/// The public URL of a port has the configured scheme, names sandbox and port in its host
/// under the public domain, and names the public port only where a browser would not
/// guess it.
pub proof fn law_preview_urls(s: ServerConfig, id: &str, port: u16, r: String)
    requires
        call_ensures(ServerConfig::preview_url, (&s, id, port), r),
        !id@.contains('_'),
    ensures
        s.public_https && (s.public_port is None || s.public_port == Some(443u16)) ==> r@
            == "https://"@ + id@ + "-"@ + decimal(port as nat) + "."@ + s.public_domain@,
        !s.public_https && (s.public_port is None || s.public_port == Some(80u16)) ==> r@
            == "http://"@ + id@ + "-"@ + decimal(port as nat) + "."@ + s.public_domain@,
        s.public_port matches Some(p) ==> p != 80 && p != 443 && s.public_https ==> r@
            == "https://"@ + id@ + "-"@ + decimal(port as nat) + "."@ + s.public_domain@ + ":"@
            + decimal(p as nat),
        s.public_port matches Some(p) ==> p != 80 && p != 443 && !s.public_https ==> r@
            == "http://"@ + id@ + "-"@ + decimal(port as nat) + "."@ + s.public_domain@ + ":"@
            + decimal(p as nat),
{
    assert(crate::text::with_char(id@, '_', '-') =~= id@);
    let host = id@ + "-"@ + decimal(port as nat) + "."@ + s.public_domain@;
    assert("https://"@ + host =~= "https://"@ + id@ + "-"@ + decimal(port as nat) + "."@
        + s.public_domain@);
    assert("http://"@ + host =~= "http://"@ + id@ + "-"@ + decimal(port as nat) + "."@
        + s.public_domain@);
}

} // verus!
