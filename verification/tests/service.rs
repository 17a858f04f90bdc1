//! Admission, creation, lifecycle, background decisions and the ledger.

use sandboxd::admission::{
    build_ephemeral_files, check_request, image_reference, parse_startup, validate_mounts, Lookups,
    StartupValue,
};
use sandboxd::auth::AuthContext;
use sandboxd::background::{
    balloon_step, credit_used_up, idle_step, memory_pressure_avg10, orgs_of, pick_pressure_victim,
    retire_image, stops_for_credit, under_pressure, watches_balloons, watches_pressure, BalloonStep,
    IdleStep,
};
use sandboxd::config::{CapacityConfig, RuntimeConfig, StandbyConfig};
use sandboxd::create::{
    browser_ports, command_requests, create_sandbox, git_request, new_interval, note_boot_failed,
    note_booted, note_git, note_port, ready_request, World,
};
use sandboxd::envmap::EnvMap;
use sandboxd::error::ApiError;
use sandboxd::images::{CustomImage, ImageSource, ImageStatus};
use sandboxd::knobs::{Resources, ResourcesRequest};
use sandboxd::lifecycle::State;
use sandboxd::model::{
    BootPath, BrowserConfig, CodingAgentConfig, CommandSpec, CreateSandboxRequest, DockerConfig,
    EphemeralFile, GitSpec, MountSpec, NetworkPolicy, ReadyCheck, Sandbox, StartupRecipe, Timings,
    Volume, VolumeAttach, VolumeAttachRequest,
};
use sandboxd::nodes::Node;
use sandboxd::placement::{LocalStock, NodeLoad};
use sandboxd::pricing::PricingConfig;
use sandboxd::runtime::{ExecResult, SnapshotArtifact, VmInstance};
use sandboxd::secrets;
use sandboxd::service::{
    attach_volume, begin, check_fork, check_snapshot, detach_volume, finish_delete, finish_resume,
    finish_standby, finish_stop, fork_record, load_owned, recompute_org_spend, snapshot_record,
    standby_sandbox, touch_activity, wake_of, wakes_on_request, Op, Wake,
};
use sandboxd::store::{
    close_open_usage, open_usage_if_none, reconcile_interrupted, ExecJob, ExecJobState,
};
use sandboxd::usage::{Org, OrgStatus, UsageInterval, COST_STEPS_PER_USD};

const SECOND: i64 = 1_000_000_000;
const KEY: [u8; 32] = [7u8; 32];

fn ctx() -> AuthContext {
    AuthContext { org_id: "o1".to_string(), admin: false }
}

fn org() -> Org {
    Org {
        id: "o1".to_string(),
        name: "one".to_string(),
        status: OrgStatus::Active,
        prepaid_credits: 5 * COST_STEPS_PER_USD,
        spent: 0,
        quota_mb: 0,
        created_at: 0,
    }
}

fn request() -> CreateSandboxRequest {
    CreateSandboxRequest::default()
}

fn lookups() -> Lookups {
    Lookups { org: Ok(Some(org())), published: Ok(false), secrets: vec![], volumes: vec![] }
}

fn recipe() -> StartupRecipe {
    StartupRecipe {
        git: None,
        env: EnvMap::new(),
        secrets: vec![],
        cache: None,
        commands: vec![],
        ports: vec![],
        ready: None,
        network: NetworkPolicy::default(),
    }
}

fn sandbox(state: State) -> Sandbox {
    Sandbox {
        id: "sbx_1".to_string(),
        org_id: "o1".to_string(),
        state,
        node_id: Some("local".to_string()),
        image: "base".to_string(),
        resources: Resources::default(),
        auto_stop_seconds: 120,
        snapshot_enabled: false,
        browser: None,
        startup: None,
        boot_path: BootPath::ColdBoot,
        timings: Timings::default(),
        secret_names: vec![],
        docker: false,
        coding_agent: None,
        mounts: vec![],
        volumes: vec![],
        network: NetworkPolicy::default(),
        ports: vec![],
        runtime_handle: Some("vm_sbx_1".to_string()),
        error: None,
        created_at: 0,
        updated_at: 0,
        last_active_at: 0,
    }
}

fn node() -> Node {
    Node {
        id: "local".to_string(),
        hostname: "h".to_string(),
        role: "all-in-one".to_string(),
        total_memory_kb: 64 * 1_048_576,
        advertise_addr: String::new(),
        schedulable: true,
        draining: false,
        kvm_ok: true,
        registered_at: 0,
        last_heartbeat_at: 0,
    }
}

fn world() -> World {
    World {
        org_sandboxes: vec![],
        loads: vec![NodeLoad { node: node(), active: vec![] }],
        local_id: "local".to_string(),
        stock: LocalStock { hot: 0, golden: false, available_kb: None },
        capacity: CapacityConfig::default(),
    }
}

fn refused(req: CreateSandboxRequest, found: Lookups) -> ApiError {
    check_request(&ctx(), &KEY, req, found).unwrap_err()
}

fn message(e: ApiError) -> String {
    format!("{}:{}", e.status(), e.message())
}

fn volume(id: &str, attached: Option<&str>) -> Volume {
    Volume {
        id: id.to_string(),
        org_id: "o1".to_string(),
        name: id.to_string(),
        size_gb: 5,
        attached_to: attached.map(|s| s.to_string()),
        created_at: 0,
        updated_at: 0,
    }
}

// --- admission --------------------------------------------------------------

#[test]
fn a_plain_request_is_admitted_with_defaults() {
    let a = check_request(&ctx(), &KEY, request(), lookups()).unwrap();
    assert_eq!(a.image, "base");
    assert_eq!(a.resources, Resources::default());
    assert_eq!(a.auto_stop_seconds, 120);
    assert!(!a.snapshot);
    assert!(a.features.coding_agent.is_none());
}

#[test]
fn the_org_decides_first() {
    let mut found = lookups();
    found.org = Ok(None);
    assert_eq!(refused(request(), found).status(), 401);
    let mut suspended = org();
    suspended.status = OrgStatus::Suspended;
    let mut found = lookups();
    found.org = Ok(Some(suspended));
    assert_eq!(message(refused(request(), found)), "403:forbidden: org suspended");
    let mut broke = org();
    broke.spent = broke.prepaid_credits;
    let mut found = lookups();
    found.org = Ok(Some(broke.clone()));
    assert_eq!(message(refused(request(), found)), "403:forbidden: no prepaid credits remaining");
    // An admin needs no credits.
    let mut found = lookups();
    found.org = Ok(Some(broke));
    let admin = AuthContext { org_id: "o1".to_string(), admin: true };
    assert!(check_request(&admin, &KEY, request(), found).is_ok());
    let mut found = lookups();
    found.org = Err("disk".to_string());
    assert_eq!(refused(request(), found).status(), 500);
}

#[test]
fn images_must_be_known_and_published() {
    let mut req = request();
    req.image = Some("ubuntu".to_string());
    assert_eq!(refused(req, lookups()).status(), 400);
    let mut req = request();
    req.image = Some("custom/acme/app".to_string());
    req.image_version = Some("v1".to_string());
    assert_eq!(
        message(refused(req, lookups())),
        "400:custom image 'custom/acme/app:v1' is not published; create and wait for it via POST /v1/images"
    );
    let mut req = request();
    req.image = Some("custom/acme/app".to_string());
    let mut found = lookups();
    found.published = Ok(true);
    assert!(check_request(&ctx(), &KEY, req, found).is_ok());
    assert_eq!(image_reference(&Some("a".to_string()), &Some("b".to_string())), "a:b");
    assert_eq!(image_reference(&None, &None), "base");
}

#[test]
fn shapes_must_be_allowed_and_large_enough() {
    let mut req = request();
    req.resources = Some(ResourcesRequest {
        cpu_milli: None,
        memory_mb: Some(13312),
        disk_gb: None,
    });
    assert_eq!(refused(req, lookups()).status(), 400);
    let mut req = request();
    req.image = Some("browser".to_string());
    assert_eq!(
        message(refused(req, lookups())),
        "400:image 'browser' requires at least 2 vCPU / 4096 MB / 16 GB; request explicit resources"
    );
    let mut req = request();
    req.auto_stop_seconds = Some(29);
    assert_eq!(refused(req, lookups()).status(), 400);
}

#[test]
fn a_browser_needs_its_image() {
    let mut req = request();
    req.browser = Some(BrowserConfig { enabled: true, vnc: true, cdp: true });
    assert_eq!(
        message(refused(req, lookups())),
        "400:browser requires the 'browser' curated image"
    );
    let mut req = request();
    req.image = Some("browser".to_string());
    req.resources = Some(ResourcesRequest {
        cpu_milli: Some(2000),
        memory_mb: Some(4096),
        disk_gb: Some(16),
    });
    req.browser = Some(BrowserConfig { enabled: true, vnc: true, cdp: true });
    let a = check_request(&ctx(), &KEY, req, lookups()).unwrap();
    assert!(a.features.browser.is_some());
}

#[test]
fn docker_needs_a_capable_image() {
    let mut req = request();
    req.docker = Some(DockerConfig { enabled: true });
    assert_eq!(refused(req, lookups()).status(), 400);
    let mut req = request();
    req.image = Some("heavy-build".to_string());
    req.resources = Some(ResourcesRequest {
        cpu_milli: Some(2000),
        memory_mb: Some(8192),
        disk_gb: Some(32),
    });
    req.docker = Some(DockerConfig { enabled: true });
    assert!(check_request(&ctx(), &KEY, req, lookups()).unwrap().features.docker);
}

#[test]
fn a_coding_agent_is_opt_in() {
    let mut req = request();
    req.coding_agent =
        Some(CodingAgentConfig { enabled: true, kind: Some("cursor".to_string()), version: None });
    assert_eq!(refused(req, lookups()).status(), 400);
    let mut req = request();
    req.coding_agent = Some(CodingAgentConfig { enabled: true, kind: None, version: None });
    let a = check_request(&ctx(), &KEY, req, lookups()).unwrap();
    assert_eq!(a.features.coding_agent.unwrap().kind(), "opencode");
}

#[test]
fn startup_recipes_are_checked() {
    let mut req = request();
    req.startup = Err("missing field".to_string());
    assert_eq!(
        message(refused(req, lookups())),
        "400:invalid startup recipe: missing field"
    );
}

#[test]
fn secrets_are_resolved_and_kept_apart() {
    let rec = secrets::encrypt(&KEY, "o1", "MY_TOKEN", "top-secret-xyz", 1).unwrap();
    let mut r = recipe();
    r.secrets = vec!["MY_TOKEN".to_string()];
    let mut req = request();
    req.startup = Ok(Some(r));
    let mut found = lookups();
    found.secrets = vec![Ok(Some(rec))];
    let a = check_request(&ctx(), &KEY, req, found).unwrap();
    assert_eq!(a.features.secret_names, vec!["MY_TOKEN".to_string()]);
    assert_eq!(
        a.features.secret_env.list(),
        &vec![("MY_TOKEN".to_string(), "top-secret-xyz".to_string())]
    );
    let (spec, sb) = create_sandbox(&ctx(), a, &world(), "sbx_9", 5).unwrap();
    assert_eq!(spec.secret_env.list().len(), 1);
    assert!(!format!("{sb:?}").contains("top-secret-xyz"));

    let mut r = recipe();
    r.secrets = vec!["GONE".to_string()];
    let mut req = request();
    req.startup = Ok(Some(r));
    let mut found = lookups();
    found.secrets = vec![Ok(None)];
    assert_eq!(
        message(refused(req, found)),
        "400:secret 'GONE' is not defined for this org"
    );
}

#[test]
fn a_secret_of_another_key_cannot_be_read() {
    let rec = secrets::encrypt(&[1u8; 32], "o1", "T", "v", 1).unwrap();
    let mut r = recipe();
    r.secrets = vec!["T".to_string()];
    let mut req = request();
    req.startup = Ok(Some(r));
    let mut found = lookups();
    found.secrets = vec![Ok(Some(rec))];
    match refused(req, found) {
        ApiError::Internal(m) => assert_eq!(m, "decrypt secret 'T': decryption failed"),
        other => panic!("{other:?}"),
    }
}

#[test]
fn inline_files_are_decoded() {
    let files = vec![
        EphemeralFile {
            path: "a.txt".to_string(),
            content: "hi".to_string(),
            encoding: None,
        },
        EphemeralFile {
            path: "b.bin".to_string(),
            content: "AAEC".to_string(),
            encoding: Some("base64".to_string()),
        },
    ];
    let built = build_ephemeral_files(&files).unwrap();
    assert_eq!(built[0], ("a.txt".to_string(), b"hi".to_vec()));
    assert_eq!(built[1], ("b.bin".to_string(), vec![0, 1, 2]));
    let bad = vec![EphemeralFile {
        path: "c".to_string(),
        content: "!!".to_string(),
        encoding: Some("base64".to_string()),
    }];
    assert_eq!(
        message(build_ephemeral_files(&bad).unwrap_err()),
        "400:file 'c': invalid base64"
    );
}

#[test]
fn mounts_are_checked() {
    let mount = |kind: &str, bucket: &str, path: &str| MountSpec {
        kind: kind.to_string(),
        bucket: bucket.to_string(),
        prefix: None,
        mount_path: path.to_string(),
        read_only: true,
        region: None,
        endpoint: None,
    };
    assert!(validate_mounts(&vec![mount("s3", "b", "/mnt")]).is_ok());
    assert_eq!(
        message(validate_mounts(&vec![mount("nfs", "b", "/mnt")]).unwrap_err()),
        "400:unsupported mount type 'nfs' (only 's3')"
    );
    assert_eq!(
        message(validate_mounts(&vec![mount("s3", "", "/mnt")]).unwrap_err()),
        "400:mount requires a bucket"
    );
    assert_eq!(
        message(validate_mounts(&vec![mount("s3", "b", "mnt")]).unwrap_err()),
        "400:mount_path 'mnt' must be absolute"
    );
}

#[test]
fn volumes_attach_exclusively() {
    let ask = |ids: &[&str]| {
        let mut req = request();
        req.volumes = ids
            .iter()
            .map(|i| VolumeAttachRequest {
                volume_id: i.to_string(),
                mount_path: "/data".to_string(),
            })
            .collect();
        req
    };
    let mut found = lookups();
    found.volumes = vec![Ok(Some(volume("vol_a", None)))];
    let a = check_request(&ctx(), &KEY, ask(&["vol_a"]), found).unwrap();
    assert_eq!(a.features.volumes.len(), 1);
    let mut found = lookups();
    found.volumes = vec![Ok(Some(volume("vol_a", Some("sbx_2"))))];
    assert_eq!(refused(ask(&["vol_a"]), found).status(), 409);
    let mut found = lookups();
    found.volumes = vec![Ok(Some(volume("vol_a", None))), Ok(Some(volume("vol_a", None)))];
    assert_eq!(refused(ask(&["vol_a", "vol_a"]), found).status(), 409);
    let mut other = volume("vol_a", None);
    other.org_id = "o2".to_string();
    let mut found = lookups();
    found.volumes = vec![Ok(Some(other))];
    assert_eq!(message(refused(ask(&["vol_a"]), found)), "404:volume vol_a not found");
}

// --- creation ---------------------------------------------------------------

#[test]
fn a_record_is_reserved_before_the_boot() {
    let a = check_request(&ctx(), &KEY, request(), lookups()).unwrap();
    let mut w = world();
    w.stock = LocalStock { hot: 1, golden: true, available_kb: None };
    let (spec, sb) = create_sandbox(&ctx(), a, &w, "sbx_9", 5).unwrap();
    assert_eq!(spec.sandbox_id, "sbx_9");
    assert_eq!(spec.image_key, "base");
    assert_eq!(sb.state, State::Creating);
    assert_eq!(sb.boot_path, BootPath::HotPool);
    assert_eq!(sb.created_at, 5);
    let a = check_request(&ctx(), &KEY, request(), lookups()).unwrap();
    let mut w = world();
    w.stock = LocalStock { hot: 0, golden: true, available_kb: None };
    let (_, sb) = create_sandbox(&ctx(), a, &w, "sbx_9", 5).unwrap();
    assert_eq!(sb.boot_path, BootPath::SnapshotRestore);
    let a = check_request(&ctx(), &KEY, request(), lookups()).unwrap();
    let mut w = world();
    w.loads = vec![];
    assert_eq!(create_sandbox(&ctx(), a, &w, "sbx_9", 5).unwrap_err().status(), 503);
}

#[test]
fn a_boot_is_noted() {
    let mut sb = sandbox(State::Creating);
    note_booted(
        &mut sb,
        VmInstance {
            handle: "vm_x".to_string(),
            boot_path: BootPath::HotPool,
            boot_ms: 40,
            image_cache_ms: 1,
            browser_ready_ms: 2,
            agent_ms: 3,
        },
    );
    assert_eq!(sb.state, State::Running);
    assert_eq!(sb.runtime_handle.as_deref(), Some("vm_x"));
    assert_eq!(sb.timings.boot_ms, 40);
    let mut sb = sandbox(State::Creating);
    let e = note_boot_failed(&mut sb, "no kernel", 9);
    assert_eq!(e.status(), 500);
    assert_eq!(sb.state, State::Failed);
    assert_eq!(sb.error.as_deref(), Some("boot failed: no kernel"));
}

#[test]
fn startup_recipes_are_run_in_order() {
    let g = GitSpec { url: "https://x/y'z".to_string(), git_ref: "main".to_string(), depth: 1 };
    assert_eq!(
        git_request(&g).cmd,
        "git clone --depth 1 --branch main 'https://x/y'\\''z' . 2>&1 || git clone --depth 1 'https://x/y'\\''z' ."
    );
    let mut sb = sandbox(State::Running);
    note_git(
        &mut sb,
        &Ok(ExecResult { exit_code: 128, stdout: String::new(), stderr: "denied".to_string() }),
        7,
    );
    assert_eq!(sb.error.as_deref(), Some("git clone exit 128: denied"));
    assert_eq!(sb.timings.git_ms, 7);
    note_git(&mut sb, &Err("gone".to_string()), 8);
    assert_eq!(sb.error.as_deref(), Some("git clone failed: gone"));

    let mut r = recipe();
    r.commands = vec![
        CommandSpec {
            name: "install".to_string(),
            run: "npm ci".to_string(),
            cache_key: None,
            background: false,
        },
        CommandSpec {
            name: "serve".to_string(),
            run: "npm start".to_string(),
            cache_key: None,
            background: true,
        },
    ];
    r.ready = Some(ReadyCheck {
        http: Some("http://127.0.0.1:3000".to_string()),
        timeout_seconds: 30,
    });
    let c = command_requests(&r);
    assert_eq!((c[0].cmd.as_str(), c[0].background), ("npm ci", false));
    assert_eq!((c[1].cmd.as_str(), c[1].background), ("npm start", true));
    assert_eq!(ready_request(&r), Some(("http://127.0.0.1:3000".to_string(), 30)));
}

#[test]
fn ports_are_listed_once() {
    let mut sb = sandbox(State::Running);
    note_port(&mut sb, 3000);
    note_port(&mut sb, 3000);
    assert_eq!(sb.ports, vec![3000]);
    assert!(browser_ports(&sb).is_empty());
    sb.browser = Some(BrowserConfig { enabled: true, vnc: true, cdp: true });
    assert_eq!(browser_ports(&sb), vec![6080, 9222]);
}

// --- lifecycle --------------------------------------------------------------

#[test]
fn operations_begin_where_they_may() {
    let next = begin(Op::Stop, "sbx_1", Some(sandbox(State::Running))).unwrap().unwrap();
    assert_eq!(next.state, State::Stopping);
    assert!(begin(Op::Stop, "sbx_1", Some(sandbox(State::Stopped))).unwrap().is_none());
    assert_eq!(
        message(begin(Op::Stop, "sbx_1", Some(sandbox(State::Failed))).unwrap_err()),
        "409:conflict: cannot stop from failed"
    );
    assert_eq!(
        message(begin(Op::Resume, "sbx_1", Some(sandbox(State::Running))).unwrap_err()),
        "409:conflict: cannot resume from running"
    );
    assert_eq!(message(begin(Op::Delete, "sbx_1", None).unwrap_err()), "404:sandbox sbx_1 not found");
    assert!(begin(Op::Delete, "sbx_1", Some(sandbox(State::Deleted))).unwrap().is_none());
    for s in [
        State::Creating,
        State::Running,
        State::Resuming,
        State::Stopping,
        State::Stopped,
        State::Standby,
        State::Failed,
    ] {
        let gone = begin(Op::Delete, "sbx_1", Some(sandbox(s))).unwrap().unwrap();
        assert_eq!(gone.state, State::Deleting);
    }
}

#[test]
fn one_of_two_resumes_wins() {
    let first = begin(Op::Resume, "sbx_1", Some(sandbox(State::Stopped))).unwrap().unwrap();
    let second = begin(Op::Resume, "sbx_1", Some(first));
    assert_eq!(second.unwrap_err().status(), 409);
}

#[test]
fn a_stop_ends_stopped_or_failed() {
    let ok = finish_stop(Some(sandbox(State::Stopping)), Ok(3), 9).unwrap();
    assert_eq!((ok.state, ok.updated_at), (State::Stopped, 9));
    let bad = finish_stop(Some(sandbox(State::Stopping)), Err("x".to_string()), 9).unwrap();
    assert_eq!(bad.state, State::Failed);
    assert_eq!(bad.error.as_deref(), Some("pause failed: x"));
    assert!(finish_stop(Some(sandbox(State::Deleting)), Ok(3), 9).is_none());
}

#[test]
fn standby_comes_back_as_it_was() {
    let mut sb = sandbox(State::Running);
    sb.ports = vec![3000];
    let going = standby_sandbox("sbx_1", Some(sb)).unwrap().unwrap();
    let parked = finish_standby(Some(going), Ok(100), 9).unwrap();
    assert_eq!(parked.state, State::Standby);
    assert!(wakes_on_request(parked.state));
    assert_eq!(wake_of(parked.state), Wake::Restore);
    let waking = begin(Op::Resume, "sbx_1", Some(parked)).unwrap().unwrap();
    let woken = finish_resume(Some(waking), Ok(15), 11).unwrap();
    assert_eq!(woken.state, State::Running);
    assert_eq!(woken.timings.ready_ms, 15);
    assert_eq!(woken.last_active_at, 11);
    assert_eq!(woken.ports, vec![3000]);
    assert_eq!(wake_of(State::Stopped), Wake::Resume);
    let bad = finish_resume(Some(sandbox(State::Resuming)), Err("x".to_string()), 1).unwrap();
    assert_eq!(bad.error.as_deref(), Some("resume failed: x"));
}

#[test]
fn secrets_are_never_snapshotted() {
    let mut sb = sandbox(State::Running);
    assert!(check_snapshot(&sb).is_ok());
    assert!(check_fork(&sb).is_ok());
    sb.secret_names = vec!["T".to_string()];
    assert_eq!(
        message(check_snapshot(&sb).unwrap_err()),
        "409:conflict: cannot snapshot a sandbox with resident secrets; remove secrets and retry"
    );
    assert_eq!(check_fork(&sb).unwrap_err().status(), 409);
    assert_eq!(standby_sandbox("sbx_1", Some(sb)).unwrap_err().status(), 409);
    let mut sb = sandbox(State::Running);
    sb.volumes =
        vec![VolumeAttach { volume_id: "vol_a".to_string(), mount_path: "/d".to_string() }];
    assert_eq!(check_fork(&sb).unwrap_err().status(), 409);
    let sb = sandbox(State::Stopped);
    assert_eq!(message(check_fork(&sb).unwrap_err()), "409:conflict: cannot fork from stopped");
}

#[test]
fn snapshots_and_forks_are_recorded() {
    let sb = sandbox(State::Running);
    let art = SnapshotArtifact { handle: "snap_1".to_string(), storage_bytes: 77 };
    let s = snapshot_record(&sb, &art, 9);
    assert_eq!((s.id.as_str(), s.storage_bytes, s.created_at), ("snap_1", 77, 9));
    let f = fork_record(&sb, "sbx_2", 9);
    assert_eq!(f.id, "sbx_2");
    assert_eq!(f.boot_path, BootPath::Fork);
    assert_eq!(f.image, sb.image);
}

#[test]
fn deletion_ends_deleted_and_frees_volumes() {
    let gone = finish_delete(Some(sandbox(State::Deleting)), 9).unwrap();
    assert_eq!(gone.state, State::Deleted);
    let mut v = volume("vol_a", None);
    assert!(attach_volume(&mut v, "sbx_1", 3));
    assert!(!attach_volume(&mut v, "sbx_2", 4));
    assert!(!detach_volume(&mut v, "sbx_2", 5));
    assert!(detach_volume(&mut v, "sbx_1", 6));
    assert!(v.attached_to.is_none());
}

#[test]
fn other_orgs_are_invisible() {
    let other = AuthContext { org_id: "o2".to_string(), admin: false };
    let hidden = load_owned(&other, "sbx_1", Ok(Some(sandbox(State::Running)))).unwrap_err();
    let missing = load_owned(&other, "sbx_1", Ok(None)).unwrap_err();
    assert_eq!(message(hidden), message(missing));
    let admin = AuthContext { org_id: "o2".to_string(), admin: true };
    assert!(load_owned(&admin, "sbx_1", Ok(Some(sandbox(State::Running)))).is_ok());
}

#[test]
fn restarts_leave_standby_alone() {
    assert!(reconcile_interrupted(sandbox(State::Standby), 9).is_none());
    assert!(reconcile_interrupted(sandbox(State::Running), 9).is_some());
    let mut sb = sandbox(State::Running);
    touch_activity(&mut sb, 44);
    assert_eq!(sb.last_active_at, 44);
}

// --- the ledger -------------------------------------------------------------

fn interval() -> UsageInterval {
    new_interval(&PricingConfig::default(), &sandbox(State::Running), "b1".to_string(), 0)
}

#[test]
fn a_sandbox_is_metered_once() {
    let mut ivs = vec![];
    assert!(open_usage_if_none(&mut ivs, interval()));
    assert!(!open_usage_if_none(&mut ivs, interval()));
    close_open_usage(&mut ivs, "sbx_1", 3600 * SECOND);
    assert!(ivs.iter().all(|iv| iv.ended_at.is_some()));
    assert!(open_usage_if_none(&mut ivs, interval()));
    assert_eq!(ivs.len(), 2);
}

#[test]
fn an_hour_of_base_costs_nine_tenths_of_a_cent() {
    let mut ivs = vec![];
    open_usage_if_none(&mut ivs, interval());
    close_open_usage(&mut ivs, "sbx_1", 3600 * SECOND);
    let mut o = org();
    recompute_org_spend(&mut o, &ivs, 9999 * SECOND);
    assert_eq!(o.spent, COST_STEPS_PER_USD * 9 / 1000);
    assert_eq!(credit_used_up(&o, &ivs, "admin", 9999 * SECOND), false);
    o.prepaid_credits = COST_STEPS_PER_USD * 9 / 1000;
    assert_eq!(credit_used_up(&o, &ivs, "admin", 9999 * SECOND), true);
    assert_eq!(credit_used_up(&o, &ivs, "o1", 9999 * SECOND), false);
    // A price of a million dollars an hour is charged like any other.
    let dear = PricingConfig {
        default_unit_price_nano_usd_hr: 1_000_000_000_000_000,
        ..PricingConfig::default()
    };
    let iv = new_interval(&dear, &sandbox(State::Running), "b2".to_string(), 0);
    let ivs = vec![iv];
    recompute_org_spend(&mut o, &ivs, 3600 * SECOND);
    assert_eq!(o.spent, COST_STEPS_PER_USD * 1_000_000);
    assert!(credit_used_up(&o, &ivs, "admin", 3600 * SECOND));
    let mut other = sandbox(State::Running);
    other.org_id = "a".to_string();
    let all = vec![sandbox(State::Running), other, sandbox(State::Stopped)];
    assert_eq!(orgs_of(&all), vec!["a".to_string(), "o1".to_string()]);
    assert!(stops_for_credit(&all[0], "o1"));
    assert!(!stops_for_credit(&all[2], "o1"));
}

// --- background -------------------------------------------------------------

fn job(state: ExecJobState) -> ExecJob {
    ExecJob {
        id: "cmd_1".to_string(),
        sandbox_id: "sbx_1".to_string(),
        org_id: "o1".to_string(),
        state,
        error: None,
        started_at: 0,
        finished_at: None,
    }
}

#[test]
fn idle_sandboxes_are_parked_or_stopped() {
    let sb = sandbox(State::Running);
    assert_eq!(idle_step(&sb, &vec![], true, 119 * SECOND), IdleStep::Keep);
    assert_eq!(idle_step(&sb, &vec![], true, 120 * SECOND), IdleStep::Standby);
    assert_eq!(idle_step(&sb, &vec![], false, 120 * SECOND), IdleStep::Stop);
    let busy = vec![job(ExecJobState::Running)];
    assert_eq!(idle_step(&sb, &busy, true, 120 * SECOND), IdleStep::Keep);
    let mut secret = sandbox(State::Running);
    secret.secret_names = vec!["T".to_string()];
    assert_eq!(idle_step(&secret, &vec![], true, 120 * SECOND), IdleStep::Stop);
    assert_eq!(idle_step(&sandbox(State::Stopped), &vec![], true, 999 * SECOND), IdleStep::Keep);
}

#[test]
fn balloons_follow_activity() {
    let sb = sandbox(State::Running);
    assert_eq!(balloon_step(&sb, false, 60, 60 * SECOND), BalloonStep::Inflate(2048 - 384));
    assert_eq!(balloon_step(&sb, true, 60, 60 * SECOND), BalloonStep::Keep);
    assert_eq!(balloon_step(&sb, true, 60, 59 * SECOND), BalloonStep::Deflate);
    assert_eq!(balloon_step(&sandbox(State::Stopped), true, 60, 0), BalloonStep::Forget);
    let mut standby = StandbyConfig::default();
    let mut runtime = RuntimeConfig::default();
    standby.balloon_idle_seconds = 60;
    runtime.balloon = true;
    assert!(watches_balloons(&standby, &runtime));
    standby.balloon_idle_seconds = 0;
    assert!(!watches_balloons(&standby, &runtime));
}

#[test]
fn pressure_is_read_off_the_kernels_report() {
    let report = "some avg10=12.34 avg60=1.00 avg300=0.20 total=123\n\
                  full avg10=99.99 avg60=0.00 avg300=0.00 total=7\n";
    assert_eq!(memory_pressure_avg10(report), Some(12_340));
    assert_eq!(memory_pressure_avg10("some avg10=0.00 avg60=0.00\n"), Some(0));
    assert_eq!(memory_pressure_avg10("full avg10=1.00\n"), None);
    assert_eq!(memory_pressure_avg10("some avg60=1.00\n"), None);
    assert_eq!(memory_pressure_avg10("some avg10=nan\n"), None);
    assert_eq!(memory_pressure_avg10(""), None);
}

#[test]
fn a_startup_of_none_is_no_startup() {
    assert!(matches!(parse_startup(StartupValue::Absent), Ok(None)));
    let text = |t: &str| StartupValue::Text { text: t.to_string(), fault: "why".to_string() };
    assert!(matches!(parse_startup(text("none")), Ok(None)));
    assert_eq!(parse_startup(text("None")).err(), Some("why".to_string()));
    let unreadable = StartupValue::Unreadable("odd".to_string());
    assert_eq!(parse_startup(unreadable).err(), Some("odd".to_string()));
}

#[test]
fn pressure_parks_the_longest_idle() {
    let mut a = sandbox(State::Running);
    a.last_active_at = 5;
    let mut b = sandbox(State::Running);
    b.id = "sbx_2".to_string();
    b.last_active_at = 3;
    let mut c = sandbox(State::Running);
    c.id = "sbx_3".to_string();
    c.last_active_at = 1;
    c.secret_names = vec!["T".to_string()];
    assert_eq!(pick_pressure_victim(&vec![a, b, c], &vec![]), Some(1));
    assert_eq!(pick_pressure_victim(&vec![sandbox(State::Stopped)], &vec![]), None);
    let mut capacity = CapacityConfig::default();
    let mut standby = StandbyConfig::default();
    standby.enabled = true;
    capacity.psi_standby_threshold_milli = 10_000;
    assert!(watches_pressure(&capacity, &standby));
    assert!(under_pressure(&capacity, 10_000));
    assert!(!under_pressure(&capacity, 9_999));
    capacity.psi_standby_threshold_milli = 0;
    assert!(!watches_pressure(&capacity, &standby));
}

#[test]
fn expired_images_are_retired_when_unused() {
    let image = || CustomImage {
        id: "img_1".to_string(),
        org_id: "o1".to_string(),
        name: "custom/acme/app".to_string(),
        version: "v1".to_string(),
        source: ImageSource::Oci { image_ref: "alpine".to_string() },
        status: ImageStatus::Ready,
        resources_hint: ResourcesRequest::default(),
        build_log: String::new(),
        first_node_cache_miss_ms: None,
        storage_bytes: 0,
        ephemeral: true,
        expires_at: Some(10),
        created_at: 0,
        updated_at: 0,
    };
    let mut i = image();
    assert!(!retire_image(&mut i, &vec![], 9));
    let mut user = sandbox(State::Running);
    user.image = "custom/acme/app:v1".to_string();
    assert!(!retire_image(&mut i, &vec![user], 10));
    assert!(retire_image(&mut i, &vec![], 10));
    assert_eq!(i.status, ImageStatus::Deleted);
}
