use sandboxd::auth::AuthContext;
use sandboxd::capacity::{node_capacity, units_for_memory_mb, CapacityRule, Fraction};
use sandboxd::config::CapacityConfig;
use sandboxd::catalog::ImageClass;
use sandboxd::error::ApiError;
use sandboxd::knobs::Resources;
use sandboxd::lifecycle::State;
use sandboxd::model::{BootPath, NetworkPolicy, Sandbox, Timings};
use sandboxd::nodes::Node;
use sandboxd::placement::{
    check_quota, gather_node_snapshots, place_locally, show_units, LocalStock, NodeLoad,
};
use sandboxd::pricing::{
    quote, reconciled_unit_price_usd_hr, resource_units, sandbox_price_usd_hr, PricingConfig,
    PRICE_STEPS_PER_USD, UNIT_PARTS,
};
use sandboxd::scheduler::{score_node, select, show_gb, NodeSnapshot, PlacementRequest};
use sandboxd::usage::{Org, OrgStatus, COST_STEPS_PER_USD};

const GB_KB: u64 = 1_048_576;

fn node(id: &str, mem_gb: u64) -> Node {
    Node {
        id: id.to_string(),
        hostname: id.to_string(),
        role: "all-in-one".to_string(),
        total_memory_kb: mem_gb * GB_KB,
        advertise_addr: "127.0.0.1:9000".to_string(),
        schedulable: true,
        draining: false,
        kvm_ok: true,
        registered_at: 0,
        last_heartbeat_at: 0,
    }
}

fn snap(node: Node) -> NodeSnapshot {
    let capacity = node.capacity(&CapacityRule::default());
    NodeSnapshot {
        node,
        capacity,
        measured_spare_kb: None,
        used_memory_mb: 0,
        active_count: 0,
        org_active_count: 0,
        hot_pool_available: 0,
        image_cached: true,
        snapshot_available: false,
        pressure_whole: 1_000_000,
        cpu_pressure: 0,
        io_pressure: 0,
        custom_image_cache_pressure: 0,
    }
}

fn base_req() -> PlacementRequest {
    PlacementRequest {
        org_id: "o1".to_string(),
        image_key: "base".to_string(),
        resources: Resources::default(),
        browser_required: false,
        is_custom_image: false,
    }
}

fn sandbox(id: &str, org: &str, memory_mb: u32, state: State) -> Sandbox {
    Sandbox {
        id: id.to_string(),
        org_id: org.to_string(),
        state,
        node_id: Some("local".to_string()),
        image: "base".to_string(),
        resources: Resources { cpu_milli: 1000, memory_mb, disk_gb: 8 },
        auto_stop_seconds: 120,
        snapshot_enabled: false,
        browser: None,
        startup: None,
        boot_path: BootPath::ColdBoot,
        timings: Timings::default(),
        secret_names: vec![],
        docker: false,
        coding_agent: None,
        mounts: vec![],
        volumes: vec![],
        network: NetworkPolicy::default(),
        ports: vec![],
        runtime_handle: None,
        error: None,
        created_at: 0,
        updated_at: 0,
        last_active_at: 0,
    }
}

fn org(quota_mb: i64) -> Org {
    Org {
        id: "o1".to_string(),
        name: "one".to_string(),
        status: OrgStatus::Active,
        prepaid_credits: 5 * COST_STEPS_PER_USD,
        spent: 0,
        quota_mb,
        created_at: 0,
    }
}

#[test]
fn sixty_four_gb_node_matches_spec() {
    let c = node_capacity(64 * GB_KB, &CapacityRule::default());
    assert_eq!(c.usable_for_sandboxes_kb, 52 * GB_KB);
    assert_eq!(c.theoretical_units, 26);
    assert_eq!(c.practical_units, 20);
}

#[test]
fn units_are_counted_in_tenths() {
    assert_eq!(units_for_memory_mb(2048), 10);
    assert_eq!(units_for_memory_mb(0), 0);
    assert_eq!(units_for_memory_mb(3072), 15);
    assert_eq!(show_units(3072), "1.5");
    assert_eq!(show_units(40960), "20.0");
}

#[test]
fn base_shape_is_one_unit() {
    let base = Resources::default();
    assert_eq!(resource_units(&base), UNIT_PARTS);
}

#[test]
fn memory_is_primary_constraint() {
    let r = Resources { cpu_milli: 1000, memory_mb: 16384, disk_gb: 8 };
    assert_eq!(resource_units(&r), 8 * UNIT_PARTS);
}

#[test]
fn base_is_cheapest() {
    let cfg = PricingConfig::default();
    let base = sandbox_price_usd_hr(&cfg, &Resources::default(), &ImageClass::Base);
    let browser = sandbox_price_usd_hr(
        &cfg,
        &Resources { cpu_milli: 2000, memory_mb: 4096, disk_gb: 16 },
        &ImageClass::Browser,
    );
    assert!(base < browser, "base {base} should be cheaper than browser {browser}");
}

#[test]
fn base_price_under_target_ceiling() {
    let cfg = PricingConfig::default();
    let base = sandbox_price_usd_hr(&cfg, &Resources::default(), &ImageClass::Base);
    assert!(
        (base as f64) / (PRICE_STEPS_PER_USD as f64) < 0.015,
        "base price {base} must stay under 0.015/hr"
    );
}

#[test]
fn base_quote_is_exact() {
    let q = quote(&PricingConfig::default(), &Resources::default(), &ImageClass::Base);
    assert_eq!(q.resource_units_e4, 10_000);
    assert_eq!(q.image_multiplier_milli, 1000);
    assert_eq!(q.price_micro_usd_hr, 9_000);
    assert_eq!(q.price_micro_usd_second, 3);
}

#[test]
fn unit_price_is_reconciled_with_delivery() {
    // 48 dollars and a quarter for 1000 unit-hours.
    let hours = 36_000_000_000_000u128;
    let cents = |n: u128| n * 1_000_000;
    let p = reconciled_unit_price_usd_hr(cents(4800), cents(1200), 1000 * hours);
    assert_eq!(p.micro_usd_hr(), 60_000);
    let p = reconciled_unit_price_usd_hr(cents(4800), cents(1200), 0);
    assert_eq!(p.micro_usd_hr(), 0);
    // Two dollars for three unit-hours: the fraction is kept, and rounded to be shown.
    let p = reconciled_unit_price_usd_hr(cents(200), 0, 3 * hours);
    assert_eq!((p.cost_e8_usd, p.delivered), (200_000_000, 3 * hours));
    assert_eq!(p.micro_usd_hr(), 666_667);
}

#[test]
fn capacity_follows_its_settings() {
    let rule = CapacityRule {
        host_reserve_kb: 4 * GB_KB,
        practical_derate: Fraction { parts: 1, whole: 2 },
    };
    let c = node_capacity(64 * GB_KB, &rule);
    assert_eq!(c.host_reserve_kb, 4 * GB_KB);
    assert_eq!(c.usable_for_sandboxes_kb, 60 * GB_KB);
    assert_eq!((c.theoretical_units, c.practical_units), (30, 15));
    let none = CapacityRule { practical_derate: Fraction { parts: 1, whole: 0 }, ..rule };
    assert_eq!(node_capacity(64 * GB_KB, &none).practical_units, 0);
}

#[test]
fn measured_memory_admits_past_the_ceiling() {
    let mut full = snap(node("a", 64));
    full.used_memory_mb = 40 * 1024;
    assert_eq!(select(&base_req(), &[full]).unwrap_err().reason, "memory_admission");
    let mut idle = snap(node("a", 64));
    idle.used_memory_mb = 40 * 1024;
    idle.measured_spare_kb = Some(2 * GB_KB);
    assert_eq!(select(&base_req(), &[idle]).unwrap().node_id, "a");
    let mut tight = snap(node("a", 64));
    tight.used_memory_mb = 40 * 1024;
    tight.measured_spare_kb = Some(2 * GB_KB - 1);
    assert!(select(&base_req(), &[tight]).is_err());
    let cfg = CapacityConfig { overcommit: true, ..CapacityConfig::default() };
    assert_eq!(cfg.measured_spare_kb(Some(8 * GB_KB)), Some(0));
    assert_eq!(cfg.measured_spare_kb(Some(8 * GB_KB - 1)), None);
    assert_eq!(cfg.measured_spare_kb(None), None);
    assert_eq!(CapacityConfig::default().measured_spare_kb(Some(64 * GB_KB)), None);
}

#[test]
fn scores_are_exact() {
    let s = score_node(&base_req(), &snap(node("a", 64))).unwrap();
    // 60 for the cache, 50 * 38/40 for the memory, 30 for no pressure.
    assert_eq!((s.whole, s.part * 2), (137, s.of));
    // A difference far below a millionth decides.
    let mut a = snap(node("a", 64));
    a.pressure_whole = 1_000_000_000_000_000;
    a.cpu_pressure = 2;
    let mut b = snap(node("b", 64));
    b.pressure_whole = 1_000_000_000_000_000;
    b.cpu_pressure = 1;
    assert_eq!(select(&base_req(), &[a, b]).unwrap().node_id, "b");
    // A custom image that is not in the cache is held against the node.
    let mut req = base_req();
    req.is_custom_image = true;
    let mut c = snap(node("c", 64));
    c.image_cached = false;
    c.custom_image_cache_pressure = 500_000;
    c.org_active_count = 10;
    let s = score_node(&req, &c).unwrap();
    // 47.5 + 30 - 80 - 20 - 150.
    assert_eq!((s.whole, s.part * 2), (-173, s.of));
}

#[test]
fn prefers_hot_pool_node() {
    let mut a = snap(node("a", 64));
    let mut b = snap(node("b", 64));
    a.hot_pool_available = 0;
    b.hot_pool_available = 1;
    let p = select(&base_req(), &[a, b]).unwrap();
    assert_eq!(p.node_id, "b");
    assert_eq!(p.boot_path_hint, BootPath::HotPool);
}

#[test]
fn refuses_when_no_memory() {
    let mut a = snap(node("a", 64));
    a.used_memory_mb = 40 * 1024; // at the 20-unit ceiling
    let err = select(&base_req(), &[a]).unwrap_err();
    assert_eq!(err.reason, "memory_admission");
    assert_eq!(
        err.detail,
        "no node can admit 2 GB without exceeding its practical capacity"
    );
}

#[test]
fn skips_draining_nodes() {
    let mut a = snap(node("a", 64));
    a.node.draining = true;
    let err = select(&base_req(), &[a]).unwrap_err();
    assert_eq!(err.reason, "no_schedulable_nodes");
}

#[test]
fn anti_affinity_spreads_orgs() {
    let mut a = snap(node("a", 64));
    let b = snap(node("b", 64));
    a.org_active_count = 5; // org already crowded on a
    let p = select(&base_req(), &[a, b]).unwrap();
    assert_eq!(p.node_id, "b");
}

#[test]
fn equal_nodes_are_taken_in_order() {
    let p = select(&base_req(), &[snap(node("a", 64)), snap(node("b", 64))]).unwrap();
    assert_eq!(p.node_id, "a");
    assert_eq!(p.boot_path_hint, BootPath::ColdBoot);
}

#[test]
fn no_nodes_and_small_browser_nodes_are_told_apart() {
    assert_eq!(select(&base_req(), &[]).unwrap_err().reason, "no_nodes");
    let mut req = base_req();
    req.browser_required = true;
    let err = select(&req, &[snap(node("a", 15))]).unwrap_err();
    assert_eq!(err.reason, "no_browser_capable_node");
}

#[test]
fn memory_is_shown_in_gigabytes() {
    assert_eq!(show_gb(2048), "2");
    assert_eq!(show_gb(512), "0.5");
    assert_eq!(show_gb(1280), "1.25");
}

#[test]
fn quota_counts_active_memory() {
    let held = [
        sandbox("a", "o1", 2048, State::Running),
        sandbox("b", "o1", 4096, State::Stopped),
    ];
    let want = Resources::default();
    assert!(check_quota(false, &org(4096), &held, &want).is_ok());
    let err = check_quota(false, &org(4095), &held, &want).unwrap_err();
    match err {
        ApiError::Forbidden(m) => {
            assert_eq!(m, "org quota exceeded: 1.0 + 1.0 > 2.0 units")
        }
        other => panic!("{other:?}"),
    }
    // Admins and orgs without a quota are not limited.
    assert!(check_quota(true, &org(1), &held, &want).is_ok());
    assert!(check_quota(false, &org(0), &held, &want).is_ok());
}

#[test]
fn snapshots_describe_the_nodes() {
    let loads = vec![
        NodeLoad {
            node: node("local", 64),
            active: vec![
                sandbox("a", "o1", 26 * 1024, State::Running),
                sandbox("b", "o2", 2048, State::Stopped),
            ],
        },
        NodeLoad { node: node("far", 64), active: vec![] },
    ];
    let stock = LocalStock { hot: 2, golden: true, available_kb: Some(20 * GB_KB) };
    let cfg = CapacityConfig::default();
    let s = gather_node_snapshots(&loads, &base_req(), "local", stock, &cfg);
    assert_eq!(s.len(), 2);
    assert_eq!(s[0].used_memory_mb, 26 * 1024);
    assert_eq!(s[0].active_count, 2);
    assert_eq!(s[0].org_active_count, 1);
    assert_eq!(s[0].hot_pool_available, 2);
    assert!(s[0].snapshot_available);
    // Half of the 52 GB is in use.
    assert_eq!(s[0].pressure_whole, 520 * GB_KB);
    assert_eq!(s[0].cpu_pressure, 182 * GB_KB);
    assert_eq!(s[0].io_pressure, 130 * GB_KB);
    assert_eq!(s[0].measured_spare_kb, None);
    let open = CapacityConfig { overcommit: true, ..CapacityConfig::default() };
    let t = gather_node_snapshots(&loads, &base_req(), "local", stock, &open);
    assert_eq!(t[0].measured_spare_kb, Some(12 * GB_KB));
    assert_eq!(t[1].measured_spare_kb, None);
    assert_eq!(s[1].hot_pool_available, 0);
    assert!(!s[1].snapshot_available);
}

#[test]
fn only_the_local_node_can_be_used() {
    let near = snap(node("local", 64));
    let p = place_locally(&base_req(), &vec![near], "local").unwrap();
    assert_eq!(p.node_id, "local");
    let far = snap(node("far", 64));
    match place_locally(&base_req(), &vec![far], "local").unwrap_err() {
        ApiError::NoCapacity { reason, detail } => {
            assert_eq!(reason, "remote_placement_unsupported");
            assert_eq!(
                detail,
                "scheduler chose node far but worker data-plane RPC is not enabled in this build"
            );
        }
        other => panic!("{other:?}"),
    }
    let ctx = AuthContext { org_id: "o1".to_string(), admin: false };
    assert!(!ctx.admin);
}
