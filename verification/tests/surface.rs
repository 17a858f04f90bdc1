//! Keys, previews, configuration, images, volumes, usage, nodes and benchmarks.

use sandboxd::api::admin::{
    create_org, is_listed, metrics, newest_first, org_suspend, org_unsuspend, register_key,
    require_admin, revoke_key, CreateOrgReq, RegisterKeyReq, STARTER_CREDITS,
};
use sandboxd::api::images;
use sandboxd::api::internal::{node_auth, node_err, Gate};
use sandboxd::api::nodes;
use sandboxd::api::preview::{
    bearer_token, do_preview, is_hop_by_hop, parse_preview_label, preview_target, preview_token, Refusal,
    strip_key_query, PreviewAuth,
};
use sandboxd::api::pty::pty_handle;
use sandboxd::api::secrets as secret_api;
use sandboxd::capacity::CapacityRule;
use sandboxd::api::usage::{admin_overview, delivered_in_month, per_sandbox, usage};
use sandboxd::api::volumes;
use sandboxd::auth::{
    authenticate, bootstrap, hash_key, is_hash, require_key, AuthContext, AuthOutcome,
};
use sandboxd::bench::{
    boot_times_fit, echo_request, live_samples, percentile, ready_time, rounds, series, sorted_values, sweep_targets,
    BenchmarkSample,
};
use sandboxd::builder::{
    advance, finish, log_entry, missing_agent_text, next_action, BuildAction, BuildEvent, BuildJob,
    Stage,
};
use sandboxd::config::{
    first_nonempty, host_name, runtime_kind, total_memory_kb, AuthConfig, CapacityConfig, Config,
    HotPoolConfig, NodeConfig, Overrides, RuntimeConfig, RuntimeKind, ServerConfig, StandbyConfig,
    FALLBACK_MEMORY_KB,
};
use sandboxd::config_example::EXAMPLE_CONFIG;
use sandboxd::create::new_interval;
use sandboxd::images::{CreateImageRequest, CreateImageSource, ImageSource, ImageStatus};
use sandboxd::knobs::{Resources, ResourcesRequest};
use sandboxd::lifecycle::State;
use sandboxd::model::{
    BootPath, BrowserConfig, CreateVolumeRequest, NetworkPolicy, Sandbox, Timings, Volume,
};
use sandboxd::node::{
    file_not_found, is_file_not_found, local_node, node_base, node_for, remote_error,
    remote_file, remote_outcome, resolve_node_id, NodeError, RemoteReply, Route,
};
use sandboxd::nodes::Node;
use sandboxd::placement::NodeLoad;
use sandboxd::pricing::PricingConfig;
use sandboxd::secrets;
use sandboxd::time::{date_text, month_start};
use sandboxd::usage::{ApiKey, Org, OrgStatus, UsageInterval, COST_LIMIT, COST_STEPS_PER_USD};
use sandboxd::views::{cost_view, urls_view};

const SECOND: i64 = 1_000_000_000;
/// 2026-02-18 12:34:56 UTC.
const MOMENT: i64 = 1_771_418_096 * SECOND;

fn admin() -> AuthContext {
    AuthContext { org_id: "org_admin".to_string(), admin: true }
}

fn user() -> AuthContext {
    AuthContext { org_id: "o1".to_string(), admin: false }
}

fn org(id: &str) -> Org {
    Org {
        id: id.to_string(),
        name: id.to_string(),
        status: OrgStatus::Active,
        prepaid_credits: COST_STEPS_PER_USD,
        spent: 7,
        quota_mb: 0,
        created_at: 3,
    }
}

fn sandbox(id: &str, state: State) -> Sandbox {
    Sandbox {
        id: id.to_string(),
        org_id: "o1".to_string(),
        state,
        node_id: Some("local".to_string()),
        image: "base".to_string(),
        resources: Resources::default(),
        auto_stop_seconds: 120,
        snapshot_enabled: false,
        browser: None,
        startup: None,
        boot_path: BootPath::ColdBoot,
        timings: Timings::default(),
        secret_names: vec![],
        docker: false,
        coding_agent: None,
        mounts: vec![],
        volumes: vec![],
        network: NetworkPolicy::default(),
        ports: vec![3000],
        runtime_handle: Some("vm_1".to_string()),
        error: None,
        created_at: 0,
        updated_at: 0,
        last_active_at: 0,
    }
}

fn node(id: &str) -> Node {
    Node {
        id: id.to_string(),
        hostname: "h".to_string(),
        role: "worker".to_string(),
        total_memory_kb: 64 * 1_048_576,
        advertise_addr: String::new(),
        schedulable: true,
        draining: false,
        kvm_ok: true,
        registered_at: 0,
        last_heartbeat_at: 0,
    }
}

fn config() -> Config {
    Config {
        server: ServerConfig::default(),
        node: NodeConfig::default(),
        runtime: RuntimeConfig::default(),
        pricing: PricingConfig::default(),
        hotpool: HotPoolConfig::default(),
        auth: AuthConfig::default(),
        standby: StandbyConfig::default(),
        capacity: CapacityConfig::default(),
    }
}

fn no_overrides() -> Overrides {
    Overrides {
        bind: None,
        data_dir: None,
        public_domain: None,
        public_https: None,
        public_port: None,
        capacity_exhausted_message: None,
        runtime: None,
        admin_key: None,
        rpc_token: None,
        standby: None,
        no_seccomp: None,
    }
}

// --- keys and orgs ----------------------------------------------------------

#[test]
fn hashing_is_stable() {
    assert_eq!(hash_key("abc"), hash_key("abc"));
    assert_ne!(hash_key("abc"), hash_key("abd"));
    assert_eq!(
        hash_key("abc"),
        "ba7816bf8f01cfea414140de5dae2223b00361a396177a9cb410ff61f20015ad"
    );
    assert!(is_hash(&hash_key("x")));
    assert!(!is_hash("abc"));
}

#[test]
fn bootstrap_then_authenticate() {
    let b = bootstrap("org_admin", false, false, None, 1);
    let o = b.org.unwrap();
    let (key, plain) = b.key.unwrap();
    assert_eq!(key.key_hash, hash_key(&plain));
    match authenticate(Some(&plain), Some(&key), Some(&o)) {
        AuthOutcome::Granted(ctx) => {
            assert_eq!(ctx.org_id, "org_admin");
            assert!(ctx.admin);
        }
        other => panic!("expected a grant, got {other:?}"),
    }
    assert!(matches!(authenticate(Some("nope"), None, None), AuthOutcome::Invalid));
    assert!(matches!(authenticate(None, None, None), AuthOutcome::Missing));
    let mut suspended = org("org_admin");
    suspended.status = OrgStatus::Suspended;
    assert!(matches!(
        authenticate(Some(&plain), Some(&key), Some(&suspended)),
        AuthOutcome::Suspended
    ));
    assert!(matches!(
        authenticate(Some("sk_live_other"), Some(&key), Some(&o)),
        AuthOutcome::Invalid
    ));
    assert_eq!(require_key(AuthOutcome::Invalid).unwrap_err().status(), 401);
    assert_eq!(require_key(AuthOutcome::Missing).unwrap_err().status(), 401);
    assert_eq!(require_key(AuthOutcome::Suspended).unwrap_err().status(), 403);
    assert!(require_key(AuthOutcome::Granted(user())).is_ok());
    let again = bootstrap("org_admin", true, true, None, 1);
    assert!(again.org.is_none() && again.key.is_none());
    let given = bootstrap("org_admin", true, false, Some("sk_live_test"), 1);
    assert_eq!(given.key.unwrap().1, "sk_live_test");
}

#[test]
fn only_admins_manage_orgs() {
    assert!(require_admin(&admin()).is_ok());
    assert_eq!(require_admin(&user()).unwrap_err().status(), 403);
    let req = || CreateOrgReq {
        id: "o9".to_string(),
        name: "nine".to_string(),
        prepaid_credits: None,
        quota_mb: None,
    };
    let made = create_org(&admin(), req(), Ok(None), 5).unwrap();
    assert_eq!(made.prepaid_credits, STARTER_CREDITS);
    assert_eq!(made.prepaid_credits, 5 * COST_STEPS_PER_USD);
    assert_eq!(made.created_at, 5);
    let kept = create_org(&admin(), req(), Ok(Some(org("o9"))), 6).unwrap();
    assert_eq!((kept.spent, kept.created_at, kept.name.as_str()), (7, 3, "nine"));
    let mut empty = req();
    empty.id = String::new();
    assert_eq!(create_org(&admin(), empty, Ok(None), 5).unwrap_err().status(), 400);
}

#[test]
fn orgs_are_suspended_and_restored() {
    let s = org_suspend(&admin(), "o1", "org_admin", Ok(Some(org("o1")))).unwrap();
    assert_eq!(s.status, OrgStatus::Suspended);
    let a = org_unsuspend(&admin(), "o1", Ok(Some(s))).unwrap();
    assert_eq!(a.status, OrgStatus::Active);
    let own = org_suspend(&admin(), "org_admin", "org_admin", Ok(Some(org("org_admin"))));
    assert_eq!(own.unwrap_err().status(), 400);
    assert_eq!(org_suspend(&admin(), "o2", "org_admin", Ok(None)).unwrap_err().status(), 404);
}

#[test]
fn keys_are_registered_and_revoked() {
    let req = |hash: &str| RegisterKeyReq {
        org_id: "o1".to_string(),
        key_hash: hash.to_string(),
        name: None,
    };
    let k = register_key(&admin(), req(&hash_key("x")), Ok(true), 4).unwrap();
    assert_eq!((k.name.as_str(), k.admin, k.disabled), ("dashboard", false, false));
    assert_eq!(register_key(&admin(), req("short"), Ok(true), 4).unwrap_err().status(), 400);
    assert_eq!(register_key(&admin(), req(&hash_key("x")), Ok(false), 4).unwrap_err().status(), 400);
    let gone: ApiKey = revoke_key(&admin(), Ok(Some(k))).unwrap();
    assert!(gone.disabled);
    assert!(matches!(
        authenticate(Some("x"), Some(&gone), Some(&org("o1"))),
        AuthOutcome::Invalid
    ));
}

// --- previews ---------------------------------------------------------------

#[test]
fn preview_label_maps_hostname_safe_id_back_to_canonical() {
    assert_eq!(
        parse_preview_label("sbx-ab12cd34ef56-3000"),
        Some(("sbx_ab12cd34ef56".to_string(), 3000))
    );
    assert_eq!(
        parse_preview_label("sbx_ab12cd34ef56-8080"),
        Some(("sbx_ab12cd34ef56".to_string(), 8080))
    );
    assert_eq!(
        parse_preview_label("sbx-deadbeef0000-6080"),
        Some(("sbx_deadbeef0000".to_string(), 6080))
    );
    assert_eq!(parse_preview_label("api"), None);
    assert_eq!(parse_preview_label("foo-3000"), None);
}

#[test]
fn preview_urls_lead_back() {
    let mut s = ServerConfig::default();
    s.public_https = true;
    s.public_domain = "test.local".to_string();
    s.public_port = None;
    assert_eq!(s.preview_url("sbx_ab12", 3000), "https://sbx-ab12-3000.test.local");
    assert_eq!(
        preview_target("sbx-ab12-3000.test.local"),
        Some(("sbx_ab12".to_string(), 3000))
    );
    s.public_https = false;
    s.public_port = Some(8080);
    assert_eq!(s.preview_url("sbx_ab12", 3000), "http://sbx-ab12-3000.test.local:8080");
    s.public_port = Some(80);
    assert_eq!(s.preview_url("sbx_ab12", 3000), "http://sbx-ab12-3000.test.local");
}

#[test]
fn preview_tokens_are_not_forwarded() {
    assert_eq!(strip_key_query(Some("a=1&key=sk_live_x&b=2")), "?a=1&b=2");
    assert_eq!(strip_key_query(Some("key=sk_live_x")), "");
    assert_eq!(strip_key_query(None), "");
    assert_eq!(bearer_token(Some("Bearer abc")).as_deref(), Some("abc"));
    assert_eq!(bearer_token(Some("Basic abc")), None);
    assert_eq!(
        preview_token(None, PreviewAuth { key: Some("q".to_string()) }).as_deref(),
        Some("q")
    );
    assert!(is_hop_by_hop("connection"));
    assert!(!is_hop_by_hop("content-type"));
}

#[test]
fn previews_reach_exposed_ports_only() {
    let granted = AuthOutcome::Granted(user());
    let sb = Some(sandbox("sbx_1", State::Running));
    assert_eq!(do_preview(&sb, &granted, "sbx_1", 3000, 8080).unwrap(), "vm_1");
    assert_eq!(do_preview(&sb, &granted, "sbx_1", 3001, 8080).unwrap_err().status(), 403);
    assert_eq!(do_preview(&sb, &granted, "sbx_1", 3000, 3000).unwrap_err().status(), 403);
    let stopped = Some(sandbox("sbx_1", State::Stopped));
    match do_preview(&stopped, &granted, "sbx_1", 3000, 8080).unwrap_err() {
        Refusal::Plain(status, text) => {
            assert_eq!((status, text), (409, "sandbox is stopped".to_string()))
        }
        other => panic!("{other:?}"),
    }
    let mut bare = sandbox("sbx_1", State::Running);
    bare.runtime_handle = None;
    match do_preview(&Some(bare), &granted, "sbx_1", 3000, 8080).unwrap_err() {
        Refusal::Api(e) => {
            assert_eq!((e.status(), e.code()), (409, "conflict"));
            assert_eq!(e.message(), "conflict: no runtime handle");
        }
        other => panic!("{other:?}"),
    }
    let stranger = AuthOutcome::Granted(AuthContext { org_id: "o2".to_string(), admin: false });
    let hidden = do_preview(&sb, &stranger, "sbx_1", 3000, 8080).unwrap_err();
    let missing = do_preview(&None, &stranger, "sbx_1", 3000, 8080).unwrap_err();
    match (hidden, missing) {
        (Refusal::Api(a), Refusal::Api(b)) => {
            assert_eq!((a.status(), a.message()), (b.status(), b.message()));
            assert_eq!((a.status(), a.code()), (404, "not_found"));
            assert_eq!(a.message(), "sandbox sbx_1 not found");
        }
        other => panic!("{other:?}"),
    }
}

// --- configuration ----------------------------------------------------------

#[test]
fn runtime_defaults_are_safe() {
    let r = RuntimeConfig::default();
    assert_eq!(r.restore_mem_backend, "file");
    assert!(r.prewarm_mem_cache);
    assert!(!r.shared_rootfs);
    assert!(r.cpu_template.is_empty());
    assert!(!r.require_reflink);
}

#[test]
fn example_config_deserializes() {
    let cfg: toml::Value =
        toml::from_str(EXAMPLE_CONFIG).expect("example config must deserialize");
    let runtime = &cfg["runtime"];
    assert_eq!(runtime["restore_mem_backend"].as_str(), Some("file"));
    assert_eq!(runtime["prewarm_mem_cache"].as_bool(), Some(true));
    assert_eq!(runtime["shared_rootfs"].as_bool(), Some(false));
    assert_eq!(runtime["require_reflink"].as_bool(), Some(false));
    assert_eq!(cfg["auth"]["bootstrap_org"].as_str(), Some("org_admin"));
    // Each setting of the admission rules is one that the configuration holds.
    let capacity = cfg["capacity"].as_table().unwrap();
    let d = CapacityConfig::default();
    let gb = |name: &str| capacity[name].as_float().unwrap();
    assert_eq!(gb("host_reserve_gb") * 1_048_576.0, d.host_reserve_kb as f64);
    let derate = d.practical_derate.parts as f64 / d.practical_derate.whole as f64;
    assert!((gb("practical_derate") - derate).abs() < 0.0001);
    assert_eq!(capacity["overcommit"].as_bool(), Some(d.overcommit));
    assert_eq!(gb("overcommit_headroom_gb") * 1024.0, d.overcommit_headroom_mb as f64);
    assert_eq!(gb("psi_standby_threshold") * 1000.0, d.psi_standby_threshold_milli as f64);
    assert_eq!(capacity.len(), 5);
}

#[test]
fn the_environment_wins() {
    let mut over = no_overrides();
    over.data_dir = Some("/srv/data".to_string());
    over.public_https = Some("true".to_string());
    over.public_port = Some("8443".to_string());
    over.standby = Some("0".to_string());
    let c = config().settle(over);
    assert_eq!(c.server.data_dir, "/srv/data");
    assert_eq!(c.runtime.workspace_dir, "/srv/data/workspaces");
    assert_eq!(c.runtime.kernel_image, "/srv/data/kernel/vmlinux");
    assert!(c.server.public_https);
    assert_eq!(c.server.public_port, Some(8443));
    assert!(!c.standby.enabled);
    assert!(c.db_path().starts_with("/srv/data/"));
}

#[test]
fn the_simulated_runtime_must_be_acknowledged() {
    assert!(matches!(runtime_kind("firecracker", false), Ok(RuntimeKind::Firecracker)));
    assert!(matches!(runtime_kind("mock", true), Ok(RuntimeKind::Mock)));
    assert!(runtime_kind("mock", false).is_err());
    assert!(runtime_kind("docker", true).is_err());
}

#[test]
fn memory_is_read_from_the_system() {
    assert_eq!(total_memory_kb(5, ""), 5);
    assert_eq!(total_memory_kb(0, "MemTotal:       16384 kB\nMemFree: 1 kB\n"), 16384);
    assert_eq!(total_memory_kb(0, "nothing"), FALLBACK_MEMORY_KB);
    assert_eq!(first_nonempty("", "b"), "b");
    assert_eq!(first_nonempty("a", "b"), "a");
}

// --- nodes ------------------------------------------------------------------

#[test]
fn nodes_are_found_and_described() {
    assert_eq!(node_base("10.0.0.2:8080"), "http://10.0.0.2:8080");
    assert!(matches!(node_for("a", "a", &None), Route::Local));
    assert_eq!(resolve_node_id("n1", None, "f".to_string()).0, "n1");
    assert_eq!(
        resolve_node_id("", Some("s".to_string()), "f".to_string()),
        ("s".to_string(), false)
    );
    assert_eq!(resolve_node_id("", None, "f".to_string()), ("f".to_string(), true));
    let n = local_node(
        &config(),
        RuntimeKind::Firecracker,
        "n1".to_string(),
        "host".to_string(),
        "MemTotal: 16384 kB\n",
        false,
        9,
    );
    assert_eq!((n.total_memory_kb, n.kvm_ok, n.registered_at), (16384, false, 9));
    assert!(is_file_not_found(&file_not_found("/a")));
    assert_eq!(file_not_found("/a").message(), "file not found: /a");
    assert!(!is_file_not_found(&NodeError::Failed("x".to_string())));
    assert_eq!(
        remote_error("n1", "/exec", "500 Internal Server Error", "boom"),
        "remote node n1 /exec -> 500 Internal Server Error: boom"
    );
    let reply = |code: u16| RemoteReply {
        code,
        status: format!("{code} Status"),
        text: "t".to_string(),
        body: b"t".to_vec(),
    };
    assert!(remote_outcome("n1", "/exec", &reply(204)).is_ok());
    assert_eq!(
        remote_outcome("n1", "/exec", &reply(300)).unwrap_err().message(),
        "remote node n1 /exec -> 300 Status: t"
    );
    assert_eq!(remote_file("n1", "/a", &reply(200), "aGVsbG8=").unwrap(), b"hello");
    assert!(is_file_not_found(&remote_file("n1", "/a", &reply(404), "").unwrap_err()));
    assert_eq!(
        remote_file("n1", "/a", &reply(200), "!").unwrap_err().message(),
        "invalid base64"
    );
    assert_eq!(host_name(Some("h1"), Some("h2")), "h1");
    assert_eq!(host_name(Some(""), Some(" h2\n")), "h2");
    assert_eq!(host_name(None, Some(" \n")), "localhost");
}

#[test]
fn the_worker_channel_is_closed_without_a_secret() {
    assert_eq!(node_auth("", "x"), Gate::Closed);
    assert_eq!(node_auth("  ", ""), Gate::Closed);
    assert_eq!(node_auth("tok", "tok"), Gate::Open);
    assert_eq!(node_auth("tok", "tox"), Gate::Denied);
    assert_eq!(node_auth("tok", "to"), Gate::Denied);
    assert_eq!(node_err(&file_not_found("/a")), (404, "not_found".to_string()));
}

#[test]
fn a_cluster_is_summed_up() {
    let loads = vec![NodeLoad {
        node: node("a"),
        active: vec![sandbox("sbx_1", State::Running)],
    }];
    let c = nodes::list(&loads, &CapacityRule::default());
    assert_eq!(c.nodes[0].practical_units, 20);
    assert_eq!(c.nodes[0].theoretical_units, 26);
    assert_eq!((c.total_units, c.used_tenths, c.free_tenths), (20, 10, 190));
    let d = nodes::drain(&admin(), "a", Ok(Some(node("a"))), 4).unwrap();
    assert!(d.draining);
    assert_eq!(nodes::drain(&user(), "a", Ok(None), 4).unwrap_err().status(), 403);
    assert!(nodes::install_command("x.dev").contains("https://api.x.dev"));
}

// --- images and volumes -----------------------------------------------------

fn image_request(kind: &str) -> CreateImageRequest {
    CreateImageRequest {
        source: CreateImageSource {
            source_type: kind.to_string(),
            context_url: Some("https://x/y.git".to_string()),
            dockerfile: None,
            image_ref: Some("alpine:3".to_string()),
        },
        name: "custom/acme/app".to_string(),
        resources_hint: ResourcesRequest::default(),
        ephemeral: false,
        ttl_seconds: None,
    }
}

#[test]
fn images_are_queued() {
    let img = images::create(&user(), image_request("oci"), MOMENT).unwrap();
    assert_eq!(img.status, ImageStatus::Building);
    assert!(img.version.starts_with("2026-02-18-"));
    assert!(matches!(&img.source, ImageSource::Oci { image_ref } if image_ref == "alpine:3"));
    let img = images::create(&user(), image_request("dockerfile"), MOMENT).unwrap();
    assert!(matches!(&img.source, ImageSource::Dockerfile { dockerfile, .. } if dockerfile == "Dockerfile"));
    let mut short = image_request("oci");
    short.ephemeral = true;
    short.ttl_seconds = Some(60);
    assert_eq!(
        images::create(&user(), short, MOMENT).unwrap().expires_at,
        Some(MOMENT + 60 * SECOND)
    );
    assert_eq!(images::create(&user(), image_request("tar"), 0).unwrap_err().status(), 400);
    let mut named = image_request("oci");
    named.name = "acme".to_string();
    assert_eq!(images::create(&user(), named, 0).unwrap_err().status(), 400);
    assert_eq!(
        images::owned_image("o2", "img_1", Ok(Some(images::create(&user(), image_request("oci"), 0).unwrap())))
            .unwrap_err()
            .status(),
        404
    );
    let mut gone = images::create(&user(), image_request("oci"), 0).unwrap();
    images::delete(&mut gone, 8);
    assert_eq!((gone.status, gone.updated_at), (ImageStatus::Deleted, 8));
    assert_eq!(images::simulated_steps().len(), 8);
}

fn build_job() -> BuildJob {
    BuildJob {
        image_id: "img_1".to_string(),
        name: "custom/acme/app".to_string(),
        source: ImageSource::Oci { image_ref: "alpine:3".to_string() },
        disk_hint_gb: None,
        data_dir: "/data".to_string(),
        images_dir: "/data/images".to_string(),
    }
}

#[test]
fn a_failed_build_cleans_up() {
    let job = build_job();
    let first = Stage::Docker;
    assert!(matches!(next_action(&job, &first), BuildAction::Shell { .. }));
    let e = BuildEvent::Refused(" no docker\n".to_string());
    assert_eq!(log_entry(&job, &first, &e, 3), "[     3ms] docker available FAILED\nno docker\n");
    let s = advance(&job, first, e);
    assert!(matches!(s, Stage::Failed(_)));
    assert!(matches!(next_action(&job, &s), BuildAction::Rest));
    let mut img = images::create(&user(), image_request("oci"), 0).unwrap();
    finish(&mut img, &s, "log", 5, 9);
    assert_eq!(img.status, ImageStatus::Failed);
}

#[test]
fn a_failed_build_tells_why() {
    let job = build_job();
    let why = |stage: Stage<String>, e: BuildEvent<String>| match advance(&job, stage, e) {
        Stage::Failed(m) => m,
        other => panic!("{other:?}"),
    };
    let io = || "no such file".to_string();
    let container = || Stage::Container("alpine:3".to_string());
    assert_eq!(why(container(), BuildEvent::NotStarted(io())), "docker create: no such file");
    assert_eq!(
        why(container(), BuildEvent::Refused(io())),
        "docker create: command failed: docker create 'alpine:3'"
    );
    assert_eq!(why(Stage::Allocate(4, 9), BuildEvent::NotSized(io())), "size image file: no such file");
    assert_eq!(why(Stage::Allocate(4, 9), BuildEvent::Refused(io())), "create image file: no such file");
    let mut odd = build_job();
    odd.data_dir = "/da\"ta".to_string();
    match advance(&odd, Stage::Agent, BuildEvent::Existing(false, false)) {
        Stage::Failed(m) => assert_eq!(
            m,
            "guest agent binary missing at \"/da\\\"ta/sandbox-guest-agent\" (the installer stages it)"
        ),
        other => panic!("{other:?}"),
    }
    assert_eq!(
        missing_agent_text("\"/a\""),
        "guest agent binary missing at \"/a\" (the installer stages it)"
    );
}

#[test]
fn a_build_reaches_an_image() {
    let job = build_job();
    let mut s: Stage<String> = Stage::Docker;
    let mut turns = 0;
    let mut ran: Vec<String> = vec![];
    while !matches!(s, Stage::Done(_) | Stage::Failed(_)) && turns < 60 {
        let e = match next_action(&job, &s) {
            BuildAction::Shell { cmd, .. } => {
                ran.push(cmd);
                BuildEvent::Finished
            }
            BuildAction::Capture(_) => BuildEvent::Output("cid123\n".to_string()),
            BuildAction::OnlySubdir(_) => BuildEvent::Subdir(None),
            BuildAction::Exist(_, _) => BuildEvent::Existing(true, true),
            BuildAction::DiskUse(_) => BuildEvent::Bytes(1_000_000),
            _ => BuildEvent::Finished,
        };
        s = advance(&job, s, e);
        turns += 1;
    }
    assert!(matches!(s, Stage::Done(_)), "{s:?}");
    assert!(ran.iter().any(|c| c.contains("alpine:3")));
    let mut img = images::create(&user(), image_request("oci"), 0).unwrap();
    finish(&mut img, &s, "log", 5, 9);
    assert_eq!(img.status, ImageStatus::Ready);
}

#[test]
fn volumes_have_fixed_sizes() {
    let req = |name: &str, gb: u32| CreateVolumeRequest { name: name.to_string(), size_gb: gb };
    let v: Volume =
        volumes::create(&user(), req("data", 5), Ok(false), "vol_a".to_string(), 3).unwrap();
    assert_eq!((v.id.as_str(), v.size_gb, v.attached_to.is_none()), ("vol_a", 5, true));
    let status = |r: Result<Volume, sandboxd::error::ApiError>| r.unwrap_err().status();
    assert_eq!(status(volumes::create(&user(), req("odd", 7), Ok(false), String::new(), 3)), 400);
    assert_eq!(status(volumes::create(&user(), req("a b", 5), Ok(false), String::new(), 3)), 400);
    assert_eq!(status(volumes::create(&user(), req("data", 5), Ok(true), String::new(), 3)), 409);
    assert!(volumes::valid_name("a-b_C9"));
    assert!(!volumes::valid_name(""));
    assert_eq!(volumes::image_bytes(5), 5_368_709_120);
    assert_eq!(volumes::format_command("/p", "l").join(" "), "mkfs.ext4 -F -q -L l /p");
    let mut held = volumes::load_owned(&user(), "vol_a", Ok(Some(v))).unwrap();
    assert!(volumes::check_delete(&held).is_ok());
    held.attached_to = Some("sbx_1".to_string());
    assert_eq!(volumes::check_delete(&held).unwrap_err().status(), 409);
}

#[test]
fn secrets_are_stored_sealed() {
    let key = [9u8; 32];
    let body = secret_api::PutSecretBody { value: "v1".to_string() };
    let rec = secret_api::put(&key, "o1", "TOKEN", &body, 4).unwrap();
    assert!(!format!("{rec:?}").contains("v1"));
    assert!(secrets::has_fitting_nonce(&rec));
    assert_eq!(secrets::decrypt(&key, &rec).unwrap(), "v1");
    assert_eq!(secret_api::put(&key, "o1", "1bad", &body, 4).unwrap_err().status(), 400);
    let big = secret_api::PutSecretBody { value: "x".repeat(65_537) };
    assert_eq!(secret_api::put(&key, "o1", "T", &big, 4).unwrap_err().status(), 400);
    assert_eq!(secret_api::removed("T", Ok(false)).unwrap_err().status(), 404);
}

#[test]
fn terminals_need_a_local_running_sandbox() {
    let sb = sandbox("sbx_1", State::Running);
    assert_eq!(pty_handle(&sb, "local").unwrap(), "vm_1");
    assert!(pty_handle(&sb, "elsewhere").is_err());
}

// --- money and time ---------------------------------------------------------

fn interval(id: &str, from: i64, to: Option<i64>) -> UsageInterval {
    let mut iv =
        new_interval(&PricingConfig::default(), &sandbox(id, State::Running), "b".to_string(), from);
    iv.ended_at = to;
    iv
}

#[test]
fn usage_is_summed_per_sandbox() {
    let ivs = vec![
        interval("sbx_1", 0, Some(3600 * SECOND)),
        interval("sbx_1", 7200 * SECOND, Some(10800 * SECOND)),
        interval("sbx_2", 0, None),
    ];
    let m = per_sandbox(&ivs, 1800 * SECOND);
    assert_eq!(m.len(), 2);
    let one = m.get("sbx_1").unwrap();
    assert_eq!(one.millis, 7_200_000);
    assert_eq!(one.cost as i128, COST_STEPS_PER_USD * 18 / 1000);
    assert_eq!(m.get("sbx_2").unwrap().millis, 1_800_000);
    let u = usage(&Some(org("o1")), &ivs, 1800 * SECOND);
    assert_eq!(u.total_cost, COST_STEPS_PER_USD * 225 / 10_000);
    assert_eq!(u.delivered, 9_000_000 * 10_000 * 1000);
    assert_eq!(u.balance, Some(COST_STEPS_PER_USD - 7));
    assert_eq!(u.sandboxes.len(), 2);
    assert_eq!(usage(&None, &ivs, 0).balance, None);
    let mut dear = interval("sbx_1", 0, Some(3600 * SECOND));
    dear.image_multiplier_milli = 4_000_000;
    assert_eq!(usage(&None, &vec![dear], 1).total_cost, COST_STEPS_PER_USD * 36);
    let mut beyond = interval("sbx_1", 0, Some(i64::MAX));
    beyond.image_multiplier_milli = u32::MAX;
    beyond.unit_price_nano_usd_hr = u64::MAX;
    let u = usage(&None, &vec![beyond], 1);
    assert_eq!(u.total_cost, COST_LIMIT);
    assert_eq!(u.sandboxes.get("sbx_1").unwrap().cost as i128, COST_LIMIT);
}

#[test]
fn usage_is_told_in_the_order_of_the_sandboxes() {
    let ivs = vec![
        interval("sbx_2", 0, Some(SECOND)),
        interval("sbx_3", 0, Some(SECOND)),
        interval("sbx_1", 0, Some(SECOND)),
        interval("sbx_2", 2 * SECOND, Some(3 * SECOND)),
    ];
    let m = usage(&None, &ivs, 4 * SECOND).sandboxes;
    assert_eq!((m.at(0).0, m.at(1).0, m.at(2).0), ("sbx_1", "sbx_2", "sbx_3"));
    assert_eq!(m.at(1).1.millis, 2000);
}

#[test]
fn months_are_clipped() {
    assert_eq!(date_text(MOMENT), "2026-02-18");
    assert_eq!(month_start(MOMENT), 1_769_904_000 * SECOND);
    let from = month_start(MOMENT);
    let across = vec![interval("sbx_1", from - 3600 * SECOND, Some(from + 3600 * SECOND))];
    let within = vec![interval("sbx_1", from, Some(from + 3600 * SECOND))];
    assert_eq!(
        delivered_in_month(&across, from, MOMENT),
        delivered_in_month(&within, from, MOMENT)
    );
}

#[test]
fn delivered_hours_set_the_unit_price() {
    let cfg = PricingConfig::default();
    let o = admin_overview(&cfg, 0, 0);
    assert_eq!(o.monthly_node_cost_micro_usd, u128::from(cfg.monthly_node_cost_micro_usd));
    assert_eq!(o.platform_overhead_e8_usd, 1_200_000_000);
    assert_eq!(o.delivered_unit_hours_micro, 0);
    // As if a millionth of a unit-hour had been delivered.
    assert_eq!(o.reconciled_micro_usd_hr, 60_000_000_000_000);
    let o = admin_overview(&cfg, 2, 36_000_000_000_000);
    assert_eq!(o.delivered_unit_hours_micro, 1_000_000);
    assert_eq!(o.reconciled_micro_usd_hr, 120_000_000);
    // 120 dollars for 7 unit-hours.
    let o = admin_overview(&cfg, 2, 7 * 36_000_000_000_000);
    assert_eq!(o.reconciled_micro_usd_hr, 17_142_857);
    let o = admin_overview(&cfg, 2, 54_000_000);
    assert_eq!(o.delivered_unit_hours_micro, 2);
}

#[test]
fn views_show_urls_and_cost() {
    let mut server = ServerConfig::default();
    server.public_domain = "test.local".to_string();
    let mut sb = sandbox("sbx_1", State::Running);
    assert!(urls_view(&server, &sb).vnc.is_none());
    sb.browser = Some(BrowserConfig { enabled: true, vnc: true, cdp: true });
    let urls = urls_view(&server, &sb);
    assert!(urls.vnc.unwrap().contains("-6080."));
    assert!(urls.cdp.unwrap().contains("-9222."));
    assert_eq!(urls.ports.len(), 1);
    sb.browser = None;
    let c = cost_view(&PricingConfig::default(), &sb, 3600 * SECOND);
    assert_eq!((c.uptime_seconds, c.cost_estimate_micro_usd), (3600, 10_800));
    sb.state = State::Standby;
    let c = cost_view(&PricingConfig::default(), &sb, 3600 * SECOND);
    assert_eq!(c.cost_estimate_micro_usd, 0);
}

#[test]
fn metrics_count_live_sandboxes() {
    let live = vec![sandbox("sbx_1", State::Running), sandbox("sbx_2", State::Creating)];
    let m = metrics(
        &live,
        &vec![None, None],
        &Some(node("a")),
        &CapacityRule::default(),
        &PricingConfig::default(),
        60 * SECOND,
    );
    assert_eq!(m.by_state.get("running"), Some(&1));
    assert_eq!(m.by_image.get("base"), Some(&2));
    assert_eq!(m.committed_memory_mb, 4096);
    assert_eq!(m.committed_tenths, 20);
    assert_eq!(m.capacity.unwrap().practical_units, 20);
    assert_eq!(m.sandboxes[0].uptime_seconds, 60);
    assert_eq!(newest_first(&vec![1, 3, 2]), vec![1, 2, 0]);
    assert!(!is_listed(&sandbox("x", State::Deleted)));
}

// --- benchmarks -------------------------------------------------------------

#[test]
fn percentiles_pick_expected_ranks() {
    let v: Vec<u64> = (1..=100).collect();
    assert_eq!(percentile(&v, 50), 51);
    assert_eq!(percentile(&v, 90), 90);
    assert_eq!(percentile(&v, 95), 95);
    assert_eq!(percentile(&v, 100), 100);
    assert_eq!(percentile(&v, 0), 1);
    assert_eq!(percentile(&[], 50), 0);
    assert_eq!(percentile(&[7], 99), 7);
}

#[test]
fn benchmarks_keep_paths_apart() {
    let sample = |path: BootPath, ms: u64| BenchmarkSample {
        id: "b".to_string(),
        image: "base".to_string(),
        boot_path: path,
        ready_ms: ms,
        create_to_echo_ms: ms + 1,
        recorded_at: 0,
    };
    let s = series(&vec![
        sample(BootPath::ColdBoot, 900),
        sample(BootPath::HotPool, 20),
        sample(BootPath::ColdBoot, 700),
    ]);
    assert_eq!(s.len(), 2);
    let cold = s.iter().find(|x| x.boot_path == BootPath::ColdBoot).unwrap();
    assert_eq!((cold.samples, cold.ready_ms_p50), (2, 900));
    assert_eq!(sorted_values(&vec![3, 1, 2]), vec![1, 2, 3]);
    let mut sb = sandbox("sbx_1", State::Running);
    sb.timings.boot_ms = 40;
    sb.timings.image_cache_ms = 2;
    let live = vec![sb, sandbox("sbx_2", State::Running)];
    assert!(boot_times_fit(&live));
    let times: Vec<u64> = live_samples(&live).iter().map(|s| s.create_to_echo_ms).collect();
    assert_eq!(times, vec![42, 1]);
    let mut huge = sandbox("sbx_3", State::Running);
    huge.timings.boot_ms = u64::MAX;
    huge.timings.image_cache_ms = 1;
    assert!(!boot_times_fit(&vec![huge]));
    let all: Vec<String> = sweep_targets("all").into_iter().map(|t| t.image).collect();
    for want in ["base", "node-python", "browser", "heavy-build"] {
        assert!(all.iter().any(|i| i == want));
    }
    assert_eq!(sweep_targets("base").len(), 1);
    assert!(rounds(0) >= 1);
    assert!(echo_request().cmd.contains("echo"));
    assert!(ready_time(5, 9) >= 5);
}
