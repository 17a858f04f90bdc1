//! What a guest is given and asked, what its answers mean, and what of it survives a
//! restart of the host's daemon.

use crate::agent::{handle, poll_step, read_answer, PollStep, Request, Response, Work};
use crate::base64::{decoded, encoded, law_decode_undoes_encode};
use crate::envmap::EnvMap;
use crate::ids::label_text;
use crate::laws::boots::{has_step, must_succeed};
use crate::runtime::answer::{answer_of, checked, contents, entry, ran, Checked};
use crate::runtime::features::{
    agent_steps, bucket_mounts, feature_steps, file_writes, first_escape, guest_exec, guest_path,
    jail_guest_path, mount_bucket, resident, start_docker, volume_mounts,
};
use crate::runtime::firecracker::FirecrackerRuntime;
use crate::runtime::plan::{
    run_next, run_start, Action, AgentRequest, Flow, Outcome, RunStatus, RunView, StepView,
};
use crate::runtime::restart::{
    first_free_cid, first_free_tap, rehydrate, survivor, survivors, sweeps_chroot, sweeps_jail,
    swept_chroots, swept_jails, tombstones, AgedDir, FoundJail, Rehydrated,
};
use crate::runtime::vm::{RecordView, Settings};
use crate::runtime::wire::{accepts, agent_hello, balloon_target, names_firecracker, next_delay_ms};
use crate::runtime::{finished, started, DirEntry, ExecRequest, ExecResult, VmSpec};
use crate::text::{quoted, views};
use vstd::prelude::*;
use vstd::string::*;

verus! {

// ---------------------------------------------------------------------------
// Carrying out a plan
// ---------------------------------------------------------------------------

/// An action that went well leads on as the step says for that, and one that did not as
/// it says for that: to the next step, past some, or to the end.
pub proof fn law_outcomes_lead_on(r: RunView, o: Outcome, good: bool)
    requires
        r.status == RunStatus::Going,
        0 <= r.at < r.steps.len(),
        call_ensures(Outcome::is_good, (&o,), good),
    ensures
        ({
            let flow = if good {
                r.steps[r.at].ok
            } else {
                r.steps[r.at].err
            };
            let next = run_next(r, o);
            &&& flow == Flow::Fail ==> next.status == RunStatus::Failed
            &&& flow == Flow::Reclaim ==> next.status == RunStatus::Reclaim
            &&& flow == Flow::Next && r.at + 1 < r.steps.len() ==> next.status == RunStatus::Going
                && next.at == r.at + 1
            &&& flow == Flow::Next && r.at + 1 == r.steps.len() ==> next.status == RunStatus::Done
            &&& flow matches Flow::Skip(n) ==> r.at + 1 + n < r.steps.len() ==> next.status
                == RunStatus::Going && next.at == r.at + 1 + n
            &&& flow matches Flow::Skip(n) ==> r.at + 1 + n >= r.steps.len() ==> next.status
                == RunStatus::Done
        }),
        o matches Outcome::Started(pid) ==> run_next(r, o).pid == pid,
        !(o is Started) ==> run_next(r, o).pid == r.pid,
{
}

/// A command went well when it ended with zero, and anything else when it was done.
pub proof fn law_good_outcomes(o: Outcome, good: bool)
    requires
        call_ensures(Outcome::is_good, (&o,), good),
    ensures
        o is Done ==> good,
        o is Failed ==> !good,
        o is Started ==> good,
        o matches Outcome::Exited(code) ==> (good <==> code == Some(0i64)),
{
}

/// A run begins at the first step, and a plan without steps is done.
pub proof fn law_runs_begin(steps: Seq<StepView>, pid: Option<u32>)
    ensures
        steps.len() == 0 <==> run_start(steps, pid).status == RunStatus::Done,
        steps.len() > 0 <==> run_start(steps, pid).status == RunStatus::Going,
        run_start(steps, pid).at == 0 && run_start(steps, pid).pid == pid,
        run_start(steps, pid).steps == steps,
{
}

// ---------------------------------------------------------------------------
// What a guest is given
// ---------------------------------------------------------------------------

/// Where the files are written among the steps.
spec fn files_at(spec: VmSpec) -> int {
    spec.volumes@.len() as int
}

/// The volumes are mounted first, each where it was asked for, found by its label or else
/// by its place behind the root disk; a boot whose volume cannot be mounted fails.
pub proof fn law_volumes_are_mounted_first(spec: VmSpec, i: int)
    requires
        0 <= i < spec.volumes@.len(),
    ensures
        feature_steps(spec).len() >= spec.volumes@.len(),
        must_succeed(feature_steps(spec)[i]),
        feature_steps(spec)[i].action matches Action::AgentChecked(cmd) && ({
            let at = quoted(spec.volumes@[i].mount_path@);
            cmd == "mkdir -p "@ + at + " && (mount -L "@ + label_text(spec.volumes@[i].volume_id@)
                + " "@ + at + " 2>/dev/null || mount /dev/vd"@ + seq![((98 + i) as u8) as char]
                + " "@ + at + ")"@
        }),
{
    assert(feature_steps(spec)[i] == volume_mounts(spec.volumes@)[i]);
}

proof fn lemma_no_escape(files: Seq<(String, Vec<u8>)>, from: int, i: int)
    requires
        0 <= from <= i < files.len(),
        first_escape(files, from) is None,
    ensures
        guest_path(files[i].0@) is Some,
    decreases i - from,
{
    if from < i {
        lemma_no_escape(files, from + 1, i);
    }
}

proof fn lemma_first_escape(files: Seq<(String, Vec<u8>)>, from: int)
    requires
        0 <= from <= files.len(),
    ensures
        first_escape(files, from) matches Some(k) ==> from <= k < files.len() && guest_path(
            files[k].0@,
        ) is None && (forall|j: int|
            from <= j < k ==> guest_path((#[trigger] files[j]).0@) is Some),
    decreases files.len() - from,
{
    if from < files.len() && guest_path(files[from].0@) is Some {
        lemma_first_escape(files, from + 1);
    }
}

/// A file that was brought along is written after the volumes are mounted, with its own
/// bytes, under its path in the workspace.
pub proof fn law_files_are_written(spec: VmSpec, i: int, name: &str, path: String)
    requires
        0 <= i < spec.files@.len(),
        name@ == spec.files@[i].0@,
        call_ensures(jail_guest_path, (name,), Ok(path)),
        forall|k: int|
            0 <= k < spec.files@.len() ==> guest_path((#[trigger] spec.files@[k]).0@) is Some,
    ensures
        ({
            let at = spec.volumes@.len() + i;
            &&& at < feature_steps(spec).len()
            &&& feature_steps(spec)[at as int].action matches Action::Agent(
                AgentRequest::WriteFile { path: p, content_b64 },
            ) && p == path@ && decoded(content_b64) == Some(spec.files@[i].1@)
        }),
{
    lemma_first_escape(spec.files@, 0);
    let at = files_at(spec) + i;
    let writes = file_writes(spec.files@, spec.files@.len() as int);
    assert(feature_steps(spec)[at] == writes[i]);
    law_decode_undoes_encode(spec.files@[i].1@);
}

/// Where a path leaves the workspace nothing is done beyond the files before it.
pub proof fn law_escaping_files_end_the_boot(spec: VmSpec, k: int)
    requires
        0 <= k < spec.files@.len(),
        guest_path(spec.files@[k].0@) is None,
    ensures
        feature_steps(spec).len() <= spec.volumes@.len() + k,
{
    if first_escape(spec.files@, 0) is None {
        lemma_no_escape(spec.files@, 0, k);
    }
    lemma_first_escape(spec.files@, 0);
}

/// A path of the file API stands for one below the workspace, or is refused.
pub proof fn law_paths_are_below_the_workspace(path: &str, r: Result<String, String>)
    requires
        call_ensures(jail_guest_path, (path,), r),
    ensures
        r matches Ok(p) ==> p@.len() >= 11 && p@.subrange(0, 11) == "/workspace/"@,
        r matches Err(m) ==> m@ == "path escapes workspace: "@ + path@,
{
    reveal_strlit("/workspace/");
    if r is Ok {
        let p = r->Ok_0@;
        assert(p.subrange(0, 11) =~= "/workspace/"@);
    }
}

proof fn lemma_prefix_of_features(spec: VmSpec)
    requires
        first_escape(spec.files@, 0) is None,
    ensures
        feature_steps(spec).len() == spec.volumes@.len() + spec.files@.len() + agent_steps(
            spec.coding_agent,
        ).len() + (if spec.docker {
            1int
        } else {
            0
        }) + bucket_mounts(spec.mounts@, spec.mounts@.len() as int, spec.secret_env.pairs()).len(),
{
}

/// A coding agent is installed exactly where one is turned on, in the version that was
/// asked for, and the time that it takes is measured.
pub proof fn law_coding_agent_is_installed(spec: VmSpec)
    requires
        first_escape(spec.files@, 0) is None,
    ensures
        ({
            let at = (spec.volumes@.len() + spec.files@.len()) as int;
            let steps = feature_steps(spec);
            &&& spec.coding_agent matches Some(c) ==> c.enabled ==> {
                &&& steps.len() >= at + 3
                &&& steps[at].action is StartClock
                &&& steps[at + 1].action matches Action::Agent(
                    AgentRequest::Exec { cmd, background },
                ) && !background && (c.version matches Some(v) ==> cmd.len() >= ("export VERSION="@
                    + quoted(v@)).len() && cmd.subrange(0, ("export VERSION="@ + quoted(v@)).len() as int)
                    == "export VERSION="@ + quoted(v@))
                &&& steps[at + 2].action is StopClock
            }
            &&& (spec.coding_agent matches Some(c) ==> !c.enabled) && !spec.docker
                && spec.mounts@.len() == 0 ==> steps.len() == at
        }),
{
    lemma_prefix_of_features(spec);
    let at = (spec.volumes@.len() + spec.files@.len()) as int;
    let steps = feature_steps(spec);
    if spec.coding_agent is Some && spec.coding_agent->0.enabled {
        let c = spec.coding_agent->0;
        let a = agent_steps(spec.coding_agent);
        assert(steps[at] == a[0]);
        assert(steps[at + 1] == a[1]);
        assert(steps[at + 2] == a[2]);
        if c.version is Some {
            let v = c.version->0;
            let cmd = crate::runtime::features::install_agent(c);
            let head = "export VERSION="@ + quoted(v@);
            assert(cmd.subrange(0, head.len() as int) =~= head);
        }
    }
}

/// Docker is started exactly where it was asked for.
pub proof fn law_docker_is_started(spec: VmSpec)
    requires
        first_escape(spec.files@, 0) is None,
    ensures
        spec.docker ==> has_step(feature_steps(spec), guest_exec(start_docker()).action),
        feature_steps(spec).len() == feature_steps(VmSpec { docker: false, ..spec }).len() + (
        if spec.docker {
            1int
        } else {
            0
        }),
{
    lemma_prefix_of_features(spec);
    lemma_prefix_of_features(VmSpec { docker: false, ..spec });
    if spec.docker {
        let at = (spec.volumes@.len() + spec.files@.len() + agent_steps(
            spec.coding_agent,
        ).len()) as int;
        assert(feature_steps(spec)[at] == guest_exec(start_docker()));
    }
}

proof fn lemma_bucket(
    mounts: Seq<crate::model::MountSpec>,
    n: int,
    secrets: Seq<(Seq<char>, Seq<char>)>,
    i: int,
)
    requires
        0 <= i < n <= mounts.len(),
        mounts[i].kind@ == "s3"@,
    ensures
        exists|k: int|
            0 <= k < bucket_mounts(mounts, n, secrets).len() && #[trigger] bucket_mounts(
                mounts,
                n,
                secrets,
            )[k] == guest_exec(mount_bucket(mounts[i], secrets)),
    decreases n,
{
    let b = bucket_mounts(mounts, n, secrets);
    if i == n - 1 {
        assert(b[b.len() - 1] == guest_exec(mount_bucket(mounts[i], secrets)));
    } else {
        lemma_bucket(mounts, n - 1, secrets, i);
        let before = bucket_mounts(mounts, n - 1, secrets);
        let k = choose|k: int|
            0 <= k < before.len() && #[trigger] before[k] == guest_exec(
                mount_bucket(mounts[i], secrets),
            );
        assert(b[k] == before[k]);
    }
}

/// Every bucket is mounted, with the options that its mount has: under its path, read-only
/// where it says so, and with the credentials among the secrets.
pub proof fn law_buckets_are_mounted(spec: VmSpec, i: int)
    requires
        first_escape(spec.files@, 0) is None,
        0 <= i < spec.mounts@.len(),
        spec.mounts@[i].kind@ == "s3"@,
        spec.secret_env.pairs().len() == 0,
    ensures
        has_step(
            feature_steps(spec),
            Action::Agent(
                AgentRequest::Exec {
                    cmd: ({
                        let m = spec.mounts@[i];
                        let prefix = match m.prefix {
                            Some(p) => " --prefix "@ + quoted(p@),
                            None => ""@,
                        };
                        let region = match m.region {
                            Some(p) => " --region "@ + quoted(p@),
                            None => ""@,
                        };
                        let endpoint = match m.endpoint {
                            Some(p) => " --endpoint-url "@ + quoted(p@),
                            None => ""@,
                        };
                        let read_only = if m.read_only {
                            " --read-only"@
                        } else {
                            ""@
                        };
                        "mkdir -p "@ + quoted(m.mount_path@) + "; "@ + "mount-s3 "@ + quoted(
                            m.bucket@,
                        ) + " "@ + quoted(m.mount_path@) + prefix + read_only + region + endpoint
                    }),
                    background: false,
                },
            ),
        ),
{
    let (mounts, secrets) = (spec.mounts@, spec.secret_env.pairs());
    let n = mounts.len() as int;
    lemma_bucket(mounts, n, secrets, i);
    let b = bucket_mounts(mounts, n, secrets);
    let k = choose|k: int|
        0 <= k < b.len() && #[trigger] b[k] == guest_exec(mount_bucket(mounts[i], secrets));
    lemma_prefix_of_features(spec);
    let steps = feature_steps(spec);
    let at = steps.len() - b.len() + k;
    assert(steps[at] == b[k]);
    let m = mounts[i];
    let head = "mkdir -p "@ + quoted(m.mount_path@) + "; "@;
    assert(crate::runtime::features::exports(secrets, 0) =~= Seq::<char>::empty());
    assert(head + crate::runtime::features::exports(secrets, 0) =~= head);
}

/// What is resident of a sandbox: its variables and its secrets, a secret before a variable
/// of the same name.
pub proof fn law_residents(rec: RecordView, spec: VmSpec, k: Seq<char>, empty: bool)
    requires
        call_ensures(EnvMap::is_empty, (&spec.secret_env,), empty),
    ensures
        ({
            let env = resident(rec, spec).resident_env;
            &&& spec.secret_env@.dom().contains(k) ==> env.dom().contains(k) && env[k]
                == spec.secret_env@[k]
            &&& !spec.secret_env@.dom().contains(k) && spec.env@.dom().contains(k)
                ==> env.dom().contains(k) && env[k] == spec.env@[k]
            &&& !spec.secret_env@.dom().contains(k) && !spec.env@.dom().contains(k)
                ==> !env.dom().contains(k)
        }),
        resident(rec, spec).has_secrets <==> !empty,
        resident(rec, spec).cid == rec.cid && resident(rec, spec).pid == rec.pid,
{
}

/// A command sees what is resident and what its request brings, and the request comes
/// before what is resident.
pub proof fn law_commands_see_the_environment(
    rt: FirecrackerRuntime,
    handle: &str,
    req: ExecRequest,
    k: Seq<char>,
    r: EnvMap,
)
    requires
        call_ensures(FirecrackerRuntime::exec_env, (&rt, handle, &req), r),
    ensures
        req.env@.dom().contains(k) ==> r@.dom().contains(k) && r@[k] == req.env@[k],
        !rt.vms@.contains_key(handle@) ==> r@ == req.env@,
        rt.vms@.contains_key(handle@) && !req.env@.dom().contains(k) ==> {
            let env = rt.vms@[handle@].resident_env@;
            &&& r@.dom().contains(k) <==> env.dom().contains(k)
            &&& env.dom().contains(k) ==> r@[k] == env[k]
        },
{
}

// ---------------------------------------------------------------------------
// What a guest does
// ---------------------------------------------------------------------------

/// A command is run by a login shell, where it was to be run and with the variables it was
/// given, in the background only where that was asked for.
pub proof fn law_guest_runs_commands(
    cmd: String,
    cwd: Option<String>,
    env: Vec<(String, String)>,
    background: Option<bool>,
    w: Work,
)
    requires
        call_ensures(handle, (Request::Exec { cmd, cwd, env, background },), w),
    ensures
        w matches Work::Run { argv, cwd: dir, env: vars, background: bg } && {
            &&& argv@.len() == 3
            &&& argv@[0]@ == "/bin/sh"@ && argv@[1]@ == "-lc"@ && argv@[2]@ == cmd@
            &&& dir == cwd && vars == env
            &&& bg <==> background == Some(true)
        },
{
    let argv = w->Run_argv;
    assert(views(argv@).len() == 3);
    assert(views(argv@)[0] == argv@[0]@ && views(argv@)[1] == argv@[1]@ && views(argv@)[2]
        == argv@[2]@);
}

/// Files are written, read and listed at the path that was asked for.
pub proof fn law_guest_keeps_files(
    path: String,
    content_b64: String,
    written: Work,
    read: Work,
    listed: Work,
)
    requires
        call_ensures(handle, (Request::WriteFile { path, content_b64 },), written),
        call_ensures(handle, (Request::ReadFile { path },), read),
        call_ensures(handle, (Request::ListDir { path },), listed),
    ensures
        decoded(content_b64@) matches Some(b) ==> (written matches Work::Write { path: p, bytes, .. }
            && p == path && bytes@ == b),
        decoded(content_b64@) is None ==> (written matches Work::Answer(Response::Error { message })
            && message@ == "invalid base64"@),
        read == (Work::Read { path }),
        listed == (Work::List { path }),
{
}

/// What is read comes back byte for byte.
pub proof fn law_guest_answers_with_the_bytes(bytes: Vec<u8>, r: Response)
    requires
        call_ensures(read_answer, (&bytes,), r),
    ensures
        r matches Response::Content { content_b64 } && decoded(content_b64@) == Some(bytes@),
{
    law_decode_undoes_encode(bytes@);
}

/// A ping is answered at once. A terminal opens in the workspace, in the size that was
/// asked for, and runs a shell.
pub proof fn law_guest_opens_terminals(
    cols: Option<u16>,
    rows: Option<u16>,
    command: Option<String>,
    ping: Work,
    w: Work,
)
    requires
        call_ensures(handle, (Request::Ping,), ping),
        call_ensures(handle, (Request::Pty { cols, rows, command },), w),
    ensures
        ping matches Work::Answer(Response::AgentReady),
        w matches Work::Open { argv, home, vars, cols: c, rows: r } && {
            &&& home@ == "/workspace"@
            &&& c == (if cols is Some {
                cols->0
            } else {
                120
            })
            &&& r == (if rows is Some {
                rows->0
            } else {
                32
            })
            &&& argv@[0]@ == "/bin/sh"@
            &&& command matches Some(line) ==> argv@.len() == 3 && argv@[1]@ == "-lc"@
                && argv@[2]@ == line@
            &&& command is None ==> argv@.len() == 2 && argv@[1]@ == "-l"@
        },
{
    let argv = w->Open_argv;
    assert(views(argv@).len() == argv@.len());
    assert(views(argv@)[0] == argv@[0]@ && views(argv@)[1] == argv@[1]@);
    if command is Some {
        assert(views(argv@)[2] == argv@[2]@);
    }
}

/// A ready check asks the URL that was given, until it succeeds or its time is over.
pub proof fn law_guest_checks_readiness(
    url: String,
    seconds: u64,
    w: Work,
    succeeded: bool,
    over: bool,
    step: PollStep,
)
    requires
        call_ensures(handle, (Request::ReadyHttp { url, timeout_seconds: seconds },), w),
        call_ensures(poll_step, (succeeded, over, seconds), step),
    ensures
        w matches Work::Poll { argv, timeout_seconds } && timeout_seconds == seconds && argv@.len()
            > 0 && argv@[0]@ == "curl"@ && argv@[argv@.len() - 1]@ == url@,
        step is Again <==> !succeeded && !over,
        step matches PollStep::Answer(Response::HttpReady) <==> succeeded,
{
    let argv = w->Poll_argv;
    assert(views(argv@).len() == argv@.len());
    assert(views(argv@)[0] == argv@[0]@ && views(argv@)[6] == argv@[6]@);
}

// ---------------------------------------------------------------------------
// What its answers mean
// ---------------------------------------------------------------------------

/// A reply whose status is an error is one, with its message; any other answers with its
/// result.
pub proof fn law_replies(
    status: Option<String>,
    message: Option<String>,
    result: Option<String>,
    r: Result<String, String>,
)
    requires
        call_ensures(answer_of, (status, message, result), r),
    ensures
        r is Err <==> (status matches Some(s) && s@ == "error"@),
        r matches Err(e) ==> (message matches Some(m) ==> e@ == "guest agent error: "@ + m@),
        r matches Ok(t) ==> (result matches Some(x) ==> t@ == x@),
        r matches Ok(t) ==> (result is None ==> t@ == "null"@),
{
}

/// A command's exit code is what was answered, and a failure where none was.
pub proof fn law_exit_codes(
    code: Option<i64>,
    out: Option<String>,
    err: Option<String>,
    a: ExecResult,
    b: Checked,
)
    requires
        call_ensures(ran, (code, out, err), a),
        call_ensures(checked, (code, err), b),
    ensures
        code is None ==> a.exit_code == -1 && b.code == -1,
        code matches Some(c) ==> b.code == c,
        code matches Some(c) ==> i32::MIN <= c <= i32::MAX ==> a.exit_code == c,
        out matches Some(t) ==> a.stdout@ == t@,
        err matches Some(t) ==> a.stderr@ == t@ && b.stderr@ == t@,
        out is None ==> a.stdout@ == ""@,
        err is None ==> a.stderr@ == ""@ && b.stderr@ == ""@,
{
}

/// A command that a signal ended has failed; one in the background is not waited for.
pub proof fn law_ended_and_started(
    code: Option<i32>,
    out: String,
    err: String,
    a: ExecResult,
    b: ExecResult,
)
    requires
        call_ensures(finished, (code, out, err), a),
        call_ensures(started, (out,), b),
    ensures
        code is None ==> a.exit_code == -1,
        code matches Some(c) ==> a.exit_code == c,
        a.stdout == out && a.stderr == err,
        b.exit_code == 0 && b.stdout == out && b.stderr@.len() == 0,
{
}

/// The bytes of a file are those that were sent, and an entry of a directory is a file
/// unless it is said to be a directory.
pub proof fn law_contents(
    content: String,
    bytes: Seq<u8>,
    name: String,
    dir: Option<bool>,
    r: Result<Vec<u8>, String>,
    e: DirEntry,
)
    requires
        call_ensures(contents, (Some(content),), r),
        content@ == encoded(bytes),
        call_ensures(entry, (Some(name), dir), e),
    ensures
        r matches Ok(b) && b@ == bytes,
        e.name@ == name@,
        e.dir <==> dir == Some(true),
{
    law_decode_undoes_encode(bytes);
}

/// How long to wait: twice as long each time, twenty milliseconds at most.
pub proof fn law_waiting(delay: u64, r: u64)
    requires
        call_ensures(next_delay_ms, (delay,), r),
    ensures
        r <= 20,
        r == 2 * delay || r == 20 && 2 * delay >= 20,
{
}

/// The agent is reached at its port, and only a line that begins with `OK` accepts.
pub proof fn law_handshake(hello: String, ack: &str, ok: bool)
    requires
        call_ensures(agent_hello, (), hello),
        call_ensures(accepts, (ack,), ok),
    ensures
        hello@ == "CONNECT 5005\n"@,
        ok <==> ack@.len() >= 2 && ack@[0] == 'O' && ack@[1] == 'K',
{
    reveal_strlit("OK");
    if ack@.len() >= 2 {
        assert(ack@.subrange(0, 2)[0] == ack@[0] && ack@.subrange(0, 2)[1] == ack@[1]);
        if ack@[0] == 'O' && ack@[1] == 'K' {
            assert(ack@.subrange(0, 2) =~= "OK"@);
        }
    }
}

/// A process is a VM's exactly when it is named as one, and a balloon is reported exactly
/// when it holds something.
pub proof fn law_what_the_kernel_says(comm: &str, is_vm: bool, mib: u32, balloon: Option<u32>)
    requires
        call_ensures(names_firecracker, (comm,), is_vm),
        call_ensures(balloon_target, (mib,), balloon),
    ensures
        is_vm <==> crate::text::trimmed(comm@) == "firecracker"@ || crate::text::trimmed(comm@)
            == "jailer"@,
        balloon is None <==> mib == 0,
        balloon matches Some(m) ==> m == mib,
{
}

// ---------------------------------------------------------------------------
// What survives a restart
// ---------------------------------------------------------------------------

/// No jail after the one at `i` has its name.
pub open spec fn last_of_its_name(jails: Seq<FoundJail>, i: int, n: int) -> bool {
    forall|k: int| i < k < n ==> (#[trigger] jails[k]).name@ != jails[i].name@
}

proof fn lemma_survivors(jails: Seq<FoundJail>, n: int, i: int)
    requires
        0 <= i < n <= jails.len(),
        last_of_its_name(jails, i, n),
        survivor(jails[i]) is Some,
    ensures
        survivors(jails, n).contains_key(jails[i].name@),
        survivors(jails, n)[jails[i].name@] == survivor(jails[i])->0,
    decreases n,
{
    if i < n - 1 {
        lemma_survivors(jails, n - 1, i);
        assert(jails[n - 1].name@ != jails[i].name@);
    }
}

proof fn lemma_only_survivors(jails: Seq<FoundJail>, n: int, name: Seq<char>)
    requires
        0 <= n <= jails.len(),
        survivors(jails, n).contains_key(name),
    ensures
        exists|i: int|
            0 <= i < n && (#[trigger] jails[i]).name@ == name && survivor(jails[i]) is Some,
    decreases n,
{
    if n > 0 {
        if !(jails[n - 1].name@ == name && survivor(jails[n - 1]) is Some) {
            lemma_only_survivors(jails, n - 1, name);
        }
    }
}

/// A VM is taken over exactly when it was parked or its process still runs; a parked one
/// without a process, and a running one with the process that it has.
pub proof fn law_what_survives(
    settings: Settings,
    jails: Vec<FoundJail>,
    chroots: Vec<String>,
    i: int,
    r: Rehydrated,
)
    requires
        call_ensures(rehydrate, (settings, jails, &chroots), r),
        0 <= i < jails@.len(),
        last_of_its_name(jails@, i, jails@.len() as int),
        jails@[i].name@ != "firecracker"@ && jails@[i].name@ != "snapshots"@ && jails@[i].name@
            != "jailer-pool"@,
        jails@[i].record is Some,
    ensures
        ({
            let rec = jails@[i].record->0;
            let name = jails@[i].name@;
            &&& rec.standby || (jails@[i].alive && rec.pid is Some) ==> {
                &&& r.runtime.vms@.contains_key(name)
                &&& r.runtime.vms@[name].cid == rec.cid
                &&& r.runtime.vms@[name].tap_idx == rec.tap_idx
                &&& r.runtime.vms@[name].standby == rec.standby
                &&& r.runtime.vms@[name].api_sock == rec.api_sock
                &&& jails@[i].alive ==> r.runtime.vms@[name].pid == rec.pid
                &&& !jails@[i].alive ==> r.runtime.vms@[name].pid is None
                &&& rec.cid < r.runtime.next_cid
                &&& rec.tap_idx matches Some(t) ==> t < r.runtime.next_tap
            }
        }),
        r.runtime.settings == settings,
        r.runtime.next_cid >= 3,
{
    let n = jails@.len() as int;
    if survivor(jails@[i]) is Some {
        lemma_survivors(jails@, n, i);
    }
    lemma_counters(jails@, n, i);
}

proof fn lemma_counters(jails: Seq<FoundJail>, n: int, i: int)
    requires
        0 <= i < n <= jails.len(),
    ensures
        survivor(jails[i]) matches Some(rec) ==> rec.cid < first_free_cid(jails, n) && (
        rec.tap_idx matches Some(t) ==> t < first_free_tap(jails, n)),
        first_free_cid(jails, n) >= 3,
    decreases n,
{
    reveal_with_fuel(first_free_cid, 2);
    reveal_with_fuel(first_free_tap, 2);
    if n > 1 {
        if i < n - 1 {
            lemma_counters(jails, n - 1, i);
        } else {
            lemma_counters(jails, n - 1, 0);
        }
    }
}

proof fn lemma_tombstones(jails: Seq<FoundJail>, n: int, i: int)
    requires
        0 <= i < n <= jails.len(),
        crate::runtime::restart::tombstone(jails[i]),
    ensures
        tombstones(jails, n).contains(jails[i].name@),
    decreases n,
{
    let t = tombstones(jails, n);
    if i == n - 1 {
        assert(t[t.len() - 1] == jails[i].name@);
    } else {
        lemma_tombstones(jails, n - 1, i);
        let before = tombstones(jails, n - 1);
        let k = choose|k: int| 0 <= k < before.len() && before[k] == jails[i].name@;
        assert(t[k] == before[k]);
    }
}

/// A VM that ran and whose process is gone is not taken over, and its record is removed.
pub proof fn law_what_does_not_survive(
    settings: Settings,
    jails: Vec<FoundJail>,
    chroots: Vec<String>,
    i: int,
    r: Rehydrated,
)
    requires
        call_ensures(rehydrate, (settings, jails, &chroots), r),
        0 <= i < jails@.len(),
        jails@[i].name@ != "firecracker"@ && jails@[i].name@ != "snapshots"@ && jails@[i].name@
            != "jailer-pool"@,
        jails@[i].record matches Some(rec) && !rec.standby && !(jails@[i].alive && rec.pid is Some),
        forall|k: int|
            0 <= k < jails@.len() && k != i ==> (#[trigger] jails@[k]).name@ != jails@[i].name@,
    ensures
        !r.runtime.vms@.contains_key(jails@[i].name@),
        views(r.tombstones@).contains(jails@[i].name@),
{
    let n = jails@.len() as int;
    lemma_tombstones(jails@, n, i);
    if survivors(jails@, n).contains_key(jails@[i].name@) {
        lemma_only_survivors(jails@, n, jails@[i].name@);
        let k = choose|k: int|
            0 <= k < n && (#[trigger] jails@[k]).name@ == jails@[i].name@ && survivor(
                jails@[k],
            ) is Some;
        assert(k == i);
    }
}

proof fn lemma_swept(
    rt: FirecrackerRuntime,
    dirs: Seq<AgedDir>,
    n: int,
    min_age: u64,
    name: Seq<char>,
)
    requires
        0 <= n <= dirs.len(),
    ensures
        swept_jails(rt, dirs, n, min_age).contains(name) <==> exists|i: int|
            0 <= i < n && (#[trigger] dirs[i]).name@ == name && sweeps_jail(rt, dirs[i], min_age),
        swept_chroots(rt, dirs, n, min_age).contains(name) <==> exists|i: int|
            0 <= i < n && (#[trigger] dirs[i]).name@ == name && sweeps_chroot(rt, dirs[i], min_age),
    decreases n,
{
    if n > 0 {
        lemma_swept(rt, dirs, n - 1, min_age, name);
        let d = dirs[n - 1];
        let (a, a0) = (swept_jails(rt, dirs, n, min_age), swept_jails(rt, dirs, n - 1, min_age));
        let (b, b0) = (
            swept_chroots(rt, dirs, n, min_age),
            swept_chroots(rt, dirs, n - 1, min_age),
        );
        if sweeps_jail(rt, d, min_age) {
            lemma_push(a0, d.name@, name);
            assert(a == a0.push(d.name@));
        }
        if sweeps_chroot(rt, d, min_age) {
            lemma_push(b0, d.name@, name);
            assert(b == b0.push(d.name@));
        }
    }
}

proof fn lemma_push(s: Seq<Seq<char>>, x: Seq<char>, y: Seq<char>)
    ensures
        s.push(x).contains(y) <==> s.contains(y) || x == y,
{
    let t = s.push(x);
    if s.contains(y) {
        let k = choose|k: int| 0 <= k < s.len() && s[k] == y;
        assert(t[k] == y);
    }
    if x == y {
        assert(t[s.len() as int] == y);
    }
    if t.contains(y) {
        let k = choose|k: int| 0 <= k < t.len() && t[k] == y;
        if k < s.len() {
            assert(s[k] == y);
        }
    }
}

/// The sweep removes no directory of a VM, none that is shared, and none that has changed
/// lately.
pub proof fn law_sweep_spares_what_is_owned(
    rt: FirecrackerRuntime,
    jails: Vec<AgedDir>,
    chroots: Vec<AgedDir>,
    min_age: u64,
    name: Seq<char>,
    r: (Vec<String>, Vec<String>),
)
    requires
        call_ensures(
            FirecrackerRuntime::gc_stale_jails_min_age,
            (&rt, &jails, &chroots, min_age),
            r,
        ),
    ensures
        rt.vms@.contains_key(name) ==> !views(r.0@).contains(name),
        name == "firecracker"@ || name == "snapshots"@ || name == "jailer-pool"@ ==> !views(
            r.0@,
        ).contains(name),
        (forall|i: int|
            0 <= i < jails@.len() && (#[trigger] jails@[i]).name@ == name ==> !(
            jails@[i].age matches Some(a) && a >= min_age)) ==> !views(r.0@).contains(name),
        (forall|i: int|
            0 <= i < chroots@.len() && (#[trigger] chroots@[i]).name@ == name ==> !(
            chroots@[i].age matches Some(a) && a >= min_age)) ==> !views(r.1@).contains(name),
        (exists|i: int| 0 <= i < rt.pool@.len() && (#[trigger] rt.pool@[i]).jail_id@ == name)
            ==> !views(r.1@).contains(name),
{
    lemma_swept(rt, jails@, jails@.len() as int, min_age, name);
    lemma_swept(rt, chroots@, chroots@.len() as int, min_age, name);
}

/// The sweep removes what no VM owns and what is old enough.
pub proof fn law_sweep_removes_the_rest(
    rt: FirecrackerRuntime,
    jails: Vec<AgedDir>,
    chroots: Vec<AgedDir>,
    min_age: u64,
    i: int,
    r: (Vec<String>, Vec<String>),
)
    requires
        call_ensures(
            FirecrackerRuntime::gc_stale_jails_min_age,
            (&rt, &jails, &chroots, min_age),
            r,
        ),
        0 <= i < jails@.len(),
        !rt.vms@.contains_key(jails@[i].name@),
        jails@[i].name@ != "firecracker"@ && jails@[i].name@ != "snapshots"@ && jails@[i].name@
            != "jailer-pool"@,
        jails@[i].age matches Some(a) && a >= min_age,
    ensures
        views(r.0@).contains(jails@[i].name@),
{
    lemma_swept(rt, jails@, jails@.len() as int, min_age, jails@[i].name@);
    assert(sweeps_jail(rt, jails@[i], min_age));
}

/// So it is with the chroots, once no VM lives there and no jailer waits there.
pub proof fn law_sweep_removes_empty_chroots(
    rt: FirecrackerRuntime,
    jails: Vec<AgedDir>,
    chroots: Vec<AgedDir>,
    min_age: u64,
    i: int,
    r: (Vec<String>, Vec<String>),
)
    requires
        call_ensures(
            FirecrackerRuntime::gc_stale_jails_min_age,
            (&rt, &jails, &chroots, min_age),
            r,
        ),
        0 <= i < chroots@.len(),
        forall|h: Seq<char>| !(#[trigger] rt.vms@.contains_key(h)),
        rt.pool@.len() == 0,
        chroots@[i].age matches Some(a) && a >= min_age,
    ensures
        views(r.1@).contains(chroots@[i].name@),
{
    lemma_swept(rt, chroots@, chroots@.len() as int, min_age, chroots@[i].name@);
    assert(sweeps_chroot(rt, chroots@[i], min_age));
}

/// The sweep spares the chroot that a VM's socket lies in.
pub proof fn law_sweep_spares_live_chroots(
    rt: FirecrackerRuntime,
    jails: Vec<AgedDir>,
    chroots: Vec<AgedDir>,
    min_age: u64,
    r: (Vec<String>, Vec<String>),
    h: Seq<char>,
    name: &str,
    sock: &str,
    root: String,
    inside: &str,
    home: String,
    dir: &str,
    chroot: String,
    named: &str,
)
    requires
        call_ensures(
            FirecrackerRuntime::gc_stale_jails_min_age,
            (&rt, &jails, &chroots, min_age),
            r,
        ),
        rt.vms@.contains_key(h),
        sock@ == rt.vms@[h].api_sock@,
        call_ensures(crate::paths::parent_dir, (sock,), Some(root)),
        inside@ == root@,
        call_ensures(crate::paths::parent_dir, (inside,), Some(home)),
        dir@ == home@,
        call_ensures(Settings::chroot_dir_of, (&rt.settings, name), chroot),
        named@ == chroot@,
        call_ensures(crate::runtime::workspace::same_path, (dir, named), true),
    ensures
        !views(r.1@).contains(name@),
{
    lemma_swept(rt, chroots@, chroots@.len() as int, min_age, name@);
    assert(crate::runtime::restart::lives_in(sock@, rt.settings.chroot_dir(name@)));
    assert(crate::runtime::restart::in_use(rt, rt.settings.chroot_dir(name@)));
}

/// A variable that is exported, as a shell reads it.
pub open spec fn export_of(v: (Seq<char>, Seq<char>)) -> Seq<char> {
    "export "@ + v.0 + "="@ + quoted(v.1) + "; "@
}

/// A mount sees every credential that it is given, each under its own name.
pub proof fn law_every_variable_is_exported(vars: Seq<(Seq<char>, Seq<char>)>, n: int, i: int)
    requires
        0 <= i < n <= vars.len(),
    ensures
        exists|front: Seq<char>, back: Seq<char>|
            crate::runtime::features::exports(vars, n) == #[trigger] (front + export_of(vars[i])
                + back),
    decreases n,
{
    let all = crate::runtime::features::exports(vars, n);
    let before = crate::runtime::features::exports(vars, n - 1);
    if i == n - 1 {
        assert(all =~= before + export_of(vars[i]) + Seq::<char>::empty());
    } else {
        law_every_variable_is_exported(vars, n - 1, i);
        let (f, b) = choose|front: Seq<char>, back: Seq<char>|
            before == #[trigger] (front + export_of(vars[i]) + back);
        assert(all =~= f + export_of(vars[i]) + (b + export_of(vars[n - 1])));
    }
}

} // verus!
