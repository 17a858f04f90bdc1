//! The runtimes: restarts, plans, parking, the simulated runtime, workspaces and
//! the guest agent.

use sandboxd::agent::{
    bad_request, handle, is_blank, poll_step, read_answer, PollStep, Request, Response, Work,
};
use sandboxd::config::RuntimeConfig;
use sandboxd::envmap::EnvMap;
use sandboxd::hotpool::HotPools;
use sandboxd::knobs::Resources;
use sandboxd::model::{BootPath, NetworkPolicy, VolumeAttach};
use sandboxd::bench::bench_spec;
use sandboxd::node::{claim_warm, pool_spec};
use sandboxd::paths::parent_dir;
use sandboxd::runtime::features::{jail_guest_path, mount_fault};
use sandboxd::runtime::firecracker::FirecrackerRuntime;
use sandboxd::runtime::mock::{jitter, warm_handle, MockRuntime};
use sandboxd::runtime::parking::{choose_boot_path, GoldenNeed};
use sandboxd::runtime::plan::{Action, Outcome, PlanBuilder, Run, RunStatus};
use sandboxd::runtime::restart::{can_rehydrate, rehydrate, AgedDir, FoundJail};
use sandboxd::runtime::vm::{VmRecord, NO_REFLINK};
use sandboxd::runtime::wire::{
    agent_accepted, agent_failure, api_failure, api_get_reply, api_reply_ok, balloon_target, counter_value,
    http_request, next_delay_ms, parse_rss, GetReply,
};
use sandboxd::runtime::workspace::{same_path, Workspaces};
use sandboxd::runtime::{finished, started, ExecRequest, VmSpec, WarmVm};

fn cfg_at(dir: &str) -> RuntimeConfig {
    let mut cfg = RuntimeConfig::default();
    cfg.workspace_dir = dir.to_string();
    cfg.images_dir = format!("{dir}/images");
    cfg.volumes_dir = format!("{dir}/volumes");
    cfg
}

/// A record as standby keeps it: no process, the artifacts in a restore chroot.
fn standby_record(jail_id: &str, tap_idx: u32, cid: u32) -> VmRecord {
    let root = format!("/data/jail/firecracker/{jail_id}/root");
    VmRecord {
        api_sock: format!("{root}/api.sock"),
        vsock_uds: format!("{root}/vsock.sock"),
        vsock_fc: "vsock.sock".to_string(),
        cid,
        pid: None,
        image_key: "base".to_string(),
        tap: Some(format!("wdtap{tap_idx}")),
        tap_idx: Some(tap_idx),
        guest_ip: Some(format!("10.200.0.{}", tap_idx + 2)),
        resident_env: EnvMap::new(),
        has_secrets: false,
        standby: true,
        snapshotted: true,
        volumes: vec![],
        ballooned_mib: 0,
    }
}

fn jail(name: &str, record: VmRecord, alive: bool) -> FoundJail {
    FoundJail { name: name.to_string(), record: Some(record), alive }
}

fn aged(names: &[&str]) -> Vec<AgedDir> {
    names.iter().map(|n| AgedDir { name: n.to_string(), age: Some(0) }).collect()
}

fn runtime() -> FirecrackerRuntime {
    rehydrate(cfg_at("/data").settings(true), vec![], &vec![]).runtime
}

fn spec(id: &str) -> VmSpec {
    VmSpec {
        sandbox_id: id.to_string(),
        org_id: "o1".to_string(),
        image_key: "base".to_string(),
        image_ref: "base".to_string(),
        resources: Resources::default(),
        env: EnvMap::new(),
        secret_env: EnvMap::new(),
        browser: None,
        docker: false,
        coding_agent: None,
        mounts: vec![],
        volumes: vec![],
        files: vec![],
        network: NetworkPolicy::default(),
    }
}

#[test]
fn restart_rehydrates_standby_records_and_counters() {
    let found = vec![jail("vm_sb_x", standby_record("vm-sb-x-r2", 7, 11), false)];
    let chroots = vec!["vm-sb-x-r2".to_string()];
    assert!(can_rehydrate(&found, &chroots));
    let rt = rehydrate(cfg_at("/data").settings(true), found, &chroots).runtime;
    assert!(rt.vms.contains("vm_sb_x"));
    assert_eq!(rt.next_tap, 8);
    assert!(rt.next_cid >= 12);
    assert_eq!(rt.next_restore, 3);
}

#[test]
fn restart_gc_spares_standby_artifacts_and_sweeps_orphans() {
    let found = vec![
        jail("vm_sb_live", standby_record("vm-sb-live-r0", 3, 5), false),
        FoundJail { name: "vm_sb_dead".to_string(), record: None, alive: false },
    ];
    let chroots = vec!["vm-sb-live-r0".to_string(), "vm-sb-dead".to_string()];
    let rt = rehydrate(cfg_at("/data").settings(true), found, &chroots).runtime;
    let (jails, roots) = rt.gc_stale_jails_min_age(
        &aged(&["vm_sb_live", "vm_sb_dead", "firecracker"]),
        &aged(&["vm-sb-live-r0", "vm-sb-dead"]),
        0,
    );
    assert_eq!(jails.len() + roots.len(), 2);
    assert_eq!(jails, vec!["vm_sb_dead".to_string()]);
    assert_eq!(roots, vec!["vm-sb-dead".to_string()]);
}

#[test]
fn rehydrate_drops_dead_running_records() {
    let mut rec = standby_record("vm-sb-gone-r0", 1, 4);
    rec.standby = false;
    rec.pid = Some(3_999_999);
    let r = rehydrate(
        cfg_at("/data").settings(true),
        vec![jail("vm_sb_gone", rec, false)],
        &vec![],
    );
    assert!(!r.runtime.vms.contains("vm_sb_gone"));
    assert_eq!(r.tombstones, vec!["vm_sb_gone".to_string()]);
    let (jails, roots) =
        r.runtime.gc_stale_jails_min_age(&aged(&["vm_sb_gone", "firecracker"]), &aged(&[]), 0);
    assert_eq!(jails.len() + roots.len(), 1);
}

#[test]
fn restart_removes_stale_pool_chroots() {
    let chroots: Vec<String> =
        ["pool-0", "pool-7", "vm-sbx-x-r1"].iter().map(|s| s.to_string()).collect();
    let r = rehydrate(cfg_at("/data").settings(true), vec![], &chroots);
    assert_eq!(r.stale_pools, vec!["pool-0".to_string(), "pool-7".to_string()]);
    assert_eq!(r.runtime.next_restore, 2);
}

#[test]
fn young_directories_are_left_alone() {
    let rt = runtime();
    let dirs = vec![
        AgedDir { name: "vm_a".to_string(), age: Some(119) },
        AgedDir { name: "vm_b".to_string(), age: Some(120) },
        AgedDir { name: "vm_c".to_string(), age: None },
    ];
    assert_eq!(rt.gc_stale_jails_min_age(&dirs, &vec![], 120).0, vec!["vm_b".to_string()]);
}

#[test]
fn numbers_that_are_used_up_stop_a_restart() {
    let found = vec![jail("vm_a", standby_record("vm-a-r0", 1, u32::MAX), false)];
    assert!(!can_rehydrate(&found, &vec![]));
}

#[test]
fn a_boot_takes_fresh_numbers() {
    let mut rt = runtime();
    assert!(rt.has_room());
    let ticket = rt.begin_boot(&spec("sbx_1")).unwrap();
    assert_eq!(ticket.handle, "vm_sbx_1");
    assert_eq!(ticket.cid, 3);
    assert_eq!(rt.next_cid, 4);
    let launch = rt.boot(&spec("sbx_1"), ticket.cid).unwrap();
    assert_eq!(launch.record.cid, 3);
    assert_eq!(launch.record.image_key, "base");
    let starts = launch.plan.steps.iter().filter(|s| {
        matches!(&s.action, Action::Api(_, _, path, _, _) if path.as_str() == "/actions")
    });
    assert_eq!(starts.count(), 1);
}

#[test]
fn full_copies_can_be_refused() {
    let mut cfg = cfg_at("/data");
    cfg.require_reflink = true;
    let rt = |cfg: &RuntimeConfig, shares: bool| rehydrate(cfg.settings(shares), vec![], &vec![]).runtime;
    assert!(rt(&cfg, true).begin_boot(&spec("sbx_1")).is_ok());
    let mut strict = rt(&cfg, false);
    assert_eq!(strict.begin_boot(&spec("sbx_1")).unwrap_err(), NO_REFLINK);
    assert_eq!(strict.boot(&spec("sbx_1"), 3).unwrap_err(), NO_REFLINK);
    assert_eq!((strict.next_cid, strict.next_tap), (rt(&cfg, true).next_cid, rt(&cfg, true).next_tap));
    assert_eq!(strict.begin_golden(&spec("sbx_1")).unwrap_err(), NO_REFLINK);
    assert_eq!(strict.fork("/p", "base", &spec("sbx_2"), 1, 4).unwrap_err(), NO_REFLINK);
    // A shared disk is linked, and never copied instead.
    cfg.shared_rootfs = true;
    cfg.use_jailer = true;
    let launch = rt(&cfg, false).boot(&spec("sbx_1"), 3).unwrap();
    let copies = launch.plan.steps.iter().filter(|s| {
        matches!(&s.action, Action::Run(argv) if argv.iter().any(|a| a.starts_with("--reflink")))
    });
    assert_eq!(copies.count(), 0);
    cfg.require_reflink = false;
    assert!(rt(&cfg, false).begin_boot(&spec("sbx_1")).is_ok());
}

#[test]
fn a_sweep_knows_a_chroot_however_it_is_spelled() {
    assert!(same_path("/data//jail/./x/", "/data/jail/x"));
    assert!(!same_path("/data/jail/../x", "/data/x"));
    assert!(!same_path("data/x", "/data/x"));
}

#[test]
fn parents_are_those_of_the_last_component() {
    let p = |s: &str| parent_dir(s);
    let some = |s: &str| Some(s.to_string());
    assert_eq!(p("/workspace/a/."), some("/workspace"));
    assert_eq!(p("/workspace/a"), some("/workspace"));
    assert_eq!(p("/workspace/a//./"), some("/workspace"));
    assert_eq!(p("/a/./b"), some("/a"));
    assert_eq!(p("/a/.."), some("/a"));
    assert_eq!(p("/a"), some("/"));
    assert_eq!(p("a"), some(""));
    assert_eq!(p("./a"), some("."));
    assert_eq!(p("."), some(""));
    assert_eq!(p("/"), None);
    assert_eq!(p("/."), None);
    assert_eq!(p(""), None);
    for s in ["/w/a/.", "/w//a", "./a/b", ".", "", "/", "//x", "a/./", "a/..", "/.hidden", "./.", ".//a"] {
        let std = std::path::Path::new(s).parent().map(|p| p.to_str().unwrap().to_string());
        assert_eq!(p(s), std, "{s}");
    }
}

#[test]
fn a_plan_is_walked_step_by_step() {
    let mut p = PlanBuilder::new();
    p.attempt(Action::RemoveFile("/a".to_string()));
    p.need(Action::RequireFile("/b".to_string()));
    let mut run = Run::start(p, None);
    assert_eq!(run.status(), RunStatus::Going);
    assert!(matches!(run.action(), Action::RemoveFile(f) if f == "/a"));
    run.report(Outcome::Failed);
    assert!(matches!(run.action(), Action::RequireFile(f) if f == "/b"));
    run.report(Outcome::Failed);
    assert_eq!(run.status(), RunStatus::Failed);
}

#[test]
fn a_started_process_is_remembered() {
    let mut p = PlanBuilder::new();
    p.need_or_reclaim(Action::Spawn(vec!["x".to_string()], "/log".to_string()));
    p.need_or_reclaim(Action::WaitFor("/sock".to_string(), 10));
    let mut run = Run::start(p, None);
    run.report(Outcome::Started(Some(42)));
    assert_eq!(run.pid(), Some(42));
    run.report(Outcome::Failed);
    assert_eq!(run.status(), RunStatus::Reclaim);
}

#[test]
fn parked_machines_keep_no_process() {
    let mut rt = runtime();
    let mut rec = standby_record("vm-sbx-1", 0, 3);
    rec.standby = false;
    rec.pid = Some(9);
    rt.vms.insert("vm_sbx_1", rec);
    assert!(rt.standby("vm_sbx_1").is_ok());
    rt.note_parked("vm_sbx_1");
    let parked = rt.vms.get("vm_sbx_1").unwrap();
    assert!(parked.standby && parked.snapshotted && parked.pid.is_none());
    assert!(rt.begin_restore("vm_sbx_1").is_ok());
    assert!(rt.standby("vm_nope").is_err());
    let mut secret = standby_record("vm-sbx-2", 1, 4);
    secret.has_secrets = true;
    rt.vms.insert("vm_sbx_2", secret);
    assert!(rt.standby("vm_sbx_2").is_err());
}

#[test]
fn deletion_forgets_the_machine() {
    let mut rt = runtime();
    rt.vms.insert("vm_sbx_1", standby_record("vm-sbx-1-r0", 0, 3));
    rt.delete("vm_sbx_1");
    assert!(!rt.vms.contains("vm_sbx_1"));
}

#[test]
fn the_fastest_path_is_chosen() {
    assert_eq!(choose_boot_path(true, true, false, true), BootPath::HotPool);
    assert_eq!(choose_boot_path(false, true, false, true), BootPath::SnapshotRestore);
    assert_eq!(choose_boot_path(false, true, true, true), BootPath::ColdBoot);
    assert_eq!(choose_boot_path(false, true, false, false), BootPath::ColdBoot);
}

#[test]
fn golden_snapshots_need_a_jailer() {
    let mut cfg = cfg_at("/data");
    cfg.use_jailer = true;
    let rt = rehydrate(cfg.settings(true), vec![], &vec![]).runtime;
    assert!(matches!(rt.ensure_golden_snapshot(false), GoldenNeed::Produce));
    assert!(matches!(rt.ensure_golden_snapshot(true), GoldenNeed::Settled));
    assert!(rt.golden_snapshot_available(true));
    assert!(!runtime().golden_snapshot_available(true));
}

#[test]
fn jails_traversal() {
    let ws = Workspaces::new("/tmp/ws-test");
    assert!(ws.resolve("sbx_x", "a/b.txt").is_ok());
    assert!(ws.resolve("sbx_x", "../../etc/passwd").is_err());
    assert_eq!(ws.resolve("sbx_x", "/a/./b/../c").unwrap(), "/tmp/ws-test/sbx_x/workspace/a/c");
}

#[test]
fn guest_paths_stay_in_the_workspace() {
    assert_eq!(jail_guest_path("note.txt").unwrap(), "/workspace/note.txt");
    assert!(jail_guest_path("../etc/passwd").is_err());
    let v = VolumeAttach { volume_id: "vol_a".to_string(), mount_path: "/data".to_string() };
    assert!(mount_fault(&v, 32, "no such device").contains("vol_a"));
}

#[test]
fn simulated_boots_are_ordered_by_path() {
    let mut rt = MockRuntime::new("/w", "/v");
    let s = spec("sbx_1");
    let warm = WarmVm {
        handle: "warm_base_1".to_string(),
        image_key: "base".to_string(),
        resources: Resources::default(),
    };
    let hot = rt.create(&s, Some(warm), false);
    let restored = rt.create(&s, None, true);
    let cold = rt.create(&s, None, false);
    assert_eq!(hot.boot_path, BootPath::HotPool);
    assert_eq!(restored.boot_path, BootPath::SnapshotRestore);
    assert_eq!(cold.boot_path, BootPath::ColdBoot);
    assert!(hot.boot_ms < cold.boot_ms && restored.boot_ms < cold.boot_ms);
    assert!(rt.restore(&cold.handle).unwrap() <= 50);
    assert!(jitter("abc", 10) < 10);
    assert_eq!(jitter("abc", 10), jitter("abc", 10));
    assert!(warm_handle("base", "1").contains("base"));
}

#[test]
fn simulated_standby_keeps_the_environment() {
    let mut rt = MockRuntime::new("/w", "/v");
    let mut s = spec("sbx_1");
    s.env.set("A", "1");
    let vm = rt.create(&s, None, false);
    assert!(rt.standby(&vm.handle).is_ok());
    let ms = rt.restore(&vm.handle).unwrap();
    assert!(ms < 200);
    let req = ExecRequest {
        cmd: "env".to_string(),
        cwd: None,
        env: EnvMap::new(),
        background: false,
    };
    assert_eq!(
        rt.exec_env(&vm.handle, &req).list(),
        &vec![("A".to_string(), "1".to_string())]
    );
    assert!(rt.restore("vm_nope").is_err());
    assert_eq!(MockRuntime::started_text(Some(7)), "started background pid 7");
    assert_eq!(MockRuntime::ready_timeout("http://x", 3), "ready check timed out after 3s for http://x");
    let done = finished(None, "out".to_string(), "err".to_string());
    assert_eq!((done.exit_code, done.stdout.as_str(), done.stderr.as_str()), (-1, "out", "err"));
    assert_eq!(finished(Some(3), String::new(), String::new()).exit_code, 3);
    assert_eq!(started("pid".to_string()).stdout, "pid");
    rt.delete(&vm.handle);
    assert!(!rt.state.contains(&vm.handle));
}

#[test]
fn warm_machines_are_claimed_by_shape() {
    let mut pools = HotPools::new();
    assert!(claim_warm(&mut pools, &spec("sbx_1")).is_none());
    let b = bench_spec("b1".to_string(), "base", Resources::default());
    assert_eq!((b.org_id.as_str(), b.image_ref.as_str()), ("bench", "base"));
    let s = pool_spec("p1".to_string(), "base", Resources::default());
    assert_eq!(s.org_id, "pool");
}

#[test]
fn replies_are_read() {
    assert_eq!(
        http_request("PUT", "/actions", "{}"),
        "PUT /actions HTTP/1.1\r\nHost: localhost\r\nAccept: application/json\r\nContent-Type: application/json\r\nContent-Length: 2\r\nConnection: close\r\n\r\n{}"
    );
    assert!(api_reply_ok(b"HTTP/1.1 204 No Content\r\n\r\n"));
    assert!(!api_reply_ok(b"HTTP/1.1 400 Bad Request\r\n\r\nno"));
    assert!(!api_reply_ok(b"\xff\xfe"));
    assert!(api_failure("PUT", "/x", b"HTTP/1.1 400 Bad\r\n\r\nwhy\xff").contains('\u{fffd}'));
    let resp = b"HTTP/1.1 200 OK\r\nContent-Length: 2\r\n\r\n{}";
    match api_get_reply("/m", resp) {
        GetReply::Body(from, to) => assert_eq!(&resp[from..to], b"{}"),
        other => panic!("{other:?}"),
    }
    assert!(matches!(api_get_reply("/m", b"HTTP/1.1 200"), GetReply::Incomplete));
    assert!(agent_accepted(b"OK 52\n"));
    assert!(!agent_accepted(b"NO"));
    assert_eq!(agent_failure(Some("no")), "guest agent error: no");
    assert_eq!(agent_failure(None), "guest agent error: ?");
    assert_eq!(counter_value("17\n"), 17);
    assert_eq!(counter_value("x"), 0);
    assert_eq!(parse_rss("Name:\tfc\nVmRSS:\t  2048 kB\n"), Some(2048 * 1024));
    assert_eq!(balloon_target(0), None);
    assert_eq!(balloon_target(7), Some(7));
    assert!(next_delay_ms(1) >= 1);
}

#[test]
fn the_agent_serves_requests() {
    assert!(matches!(handle(Request::Ping), Work::Answer(Response::AgentReady)));
    let w = handle(Request::Exec {
        cmd: "echo ok".to_string(),
        cwd: None,
        env: vec![],
        background: None,
    });
    match w {
        Work::Run { argv, background, .. } => {
            assert_eq!(argv, vec!["/bin/sh", "-lc", "echo ok"]);
            assert!(!background);
        }
        other => panic!("{other:?}"),
    }
    let w = handle(Request::WriteFile {
        path: "/workspace/a/b.txt".to_string(),
        content_b64: "aGVsbG8=".to_string(),
    });
    match w {
        Work::Write { dir, path, bytes } => {
            assert_eq!(dir.as_deref(), Some("/workspace/a"));
            assert_eq!(path, "/workspace/a/b.txt");
            assert_eq!(bytes, b"hello");
            match read_answer(&bytes) {
                Response::Content { content_b64 } => assert_eq!(content_b64, "aGVsbG8="),
                other => panic!("{other:?}"),
            }
        }
        other => panic!("{other:?}"),
    }
    let w = handle(Request::WriteFile { path: "/a".to_string(), content_b64: "!".to_string() });
    assert!(matches!(w, Work::Answer(Response::Error { message }) if message == "invalid base64"));
    match handle(Request::Pty { cols: None, rows: Some(5), command: None }) {
        Work::Open { argv, home, vars, cols, rows } => {
            assert_eq!(home, "/workspace");
            assert_eq!(vars, vec![("TERM".to_string(), "xterm-256color".to_string())]);
            assert_eq!((argv, cols, rows), (vec!["/bin/sh".to_string(), "-l".to_string()], 120, 5));
        }
        other => panic!("{other:?}"),
    }
    assert!(matches!(poll_step(true, true, 3), PollStep::Answer(Response::HttpReady)));
    assert!(matches!(poll_step(false, false, 3), PollStep::Again));
    assert!(matches!(poll_step(false, true, 3), PollStep::Answer(Response::Error { .. })));
    assert!(is_blank(" \t\n"));
    assert!(matches!(bad_request("x"), Response::Error { message } if message == "bad request: x"));
}
