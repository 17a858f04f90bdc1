//! Plans: the outside work of a VM operation as a list of steps, and the
//! bookkeeping of a plan that is being carried out.
//!
//! A plan is data. Whoever carries it out performs the current action and reports
//! how it went; where the plan goes from there is decided here.

use crate::text::views;
use vstd::prelude::*;
use vstd::string::*;

verus! {

/// A body for Firecracker's API.
#[derive(Debug)]
pub enum ApiBody<S> {
    Vsock { guest_cid: u32, uds_path: S },
    Machine {
        vcpu_count: u32,
        mem_size_mib: u32,
        smt: bool,
        /// Without it the guest's memory is not dirty-logged, and no snapshot
        /// can be taken.
        track_dirty_pages: bool,
        cpu_template: Option<S>,
    },
    Balloon { amount_mib: u32, deflate_on_oom: bool, stats_polling_interval_s: u32 },
    BalloonTarget { amount_mib: u32 },
    BootSource { kernel_image_path: S, boot_args: S },
    Drive { drive_id: S, path_on_host: S, is_root_device: bool, is_read_only: bool },
    Network { iface_id: S, host_dev_name: S, guest_mac: S },
    Act { action_type: S },
    Vm { state: S },
    SnapshotCreate { snapshot_type: S, snapshot_path: S, mem_file_path: S },
    SnapshotLoad {
        snapshot_path: S,
        backend_path: S,
        backend_type: S,
        enable_diff_snapshots: bool,
        /// Interface and host device, where the snapshot's own is not to be used.
        network_override: Option<(S, S)>,
        resume_vm: bool,
    },
}

/// A request to the agent inside the guest.
#[derive(Debug)]
pub enum AgentRequest<S> {
    Ping,
    Exec { cmd: S, background: bool },
    WriteFile { path: S, content_b64: S },
    ReadFile { path: S },
    ListDir { path: S },
    ReadyHttp { url: S, timeout_seconds: u32 },
}

/// One piece of outside work. `S` is a text and `L` a list of texts.
#[derive(Debug)]
pub enum Action<S, L> {
    /// Create a directory and those above it.
    CreateDir(S),
    /// The file must exist.
    RequireFile(S),
    /// The host must have this network device.
    RequireDevice(S),
    RemoveFile(S),
    /// Remove a directory and all it holds.
    RemoveDir(S),
    /// Hard-link the first path at the second.
    HardLink(S, S),
    /// Copy the first path to the second.
    CopyFile(S, S),
    /// Run a program to its end, whatever status it ends with.
    Run(L),
    /// Run a program to its end; it must succeed.
    RunChecked(L),
    /// Start a program that stays, with its output in a log file.
    Spawn(L, S),
    /// Give a path some seconds to appear.
    WaitFor(S, u32),
    /// Call the API at a socket, and give it some seconds to answer.
    Api(S, S, S, ApiBody<S>, u32),
    /// Give the guest agent some seconds to answer.
    AwaitAgent(u32),
    /// Ask the guest agent.
    Agent(AgentRequest<S>),
    /// Have the guest agent run a command that must end with status zero.
    AgentChecked(S),
    /// Bring a file into the page cache, in the background.
    Prewarm(S),
    /// Time is measured from here.
    StartClock,
    /// The time since the clock was started is the coding agent's.
    StopClock,
    /// Enter the VM into the table, and write its record to disk.
    Record,
    /// Make a file readable by everyone.
    MakeReadable(S),
}

/// Where a plan goes on.
#[derive(Debug, Clone, Copy, PartialEq, Eq, Structural)]
pub enum Flow {
    Next,
    /// Behind the next so many steps.
    Skip(usize),
    /// The operation has failed.
    Fail,
    /// The operation has failed, and what the VM holds is to be reclaimed.
    Reclaim,
}

/// An action, and where the plan goes on when it has succeeded or failed.
#[derive(Debug)]
pub struct Step<S, L> {
    pub action: Action<S, L>,
    pub ok: Flow,
    pub err: Flow,
}

/// A step as it is carried out.
pub type PlanStep = Step<String, Vec<String>>;

/// A step by the views of its texts.
pub type StepView = Step<Seq<char>, Seq<Seq<char>>>;

/// The view of an optional text.
pub open spec fn opt_text(o: Option<String>) -> Option<Seq<char>> {
    match o {
        Some(s) => Some(s@),
        None => None,
    }
}

impl View for ApiBody<String> {
    type V = ApiBody<Seq<char>>;

    open spec fn view(&self) -> ApiBody<Seq<char>> {
        match *self {
            ApiBody::Vsock { guest_cid, uds_path } => ApiBody::Vsock { guest_cid, uds_path: uds_path@ },
            ApiBody::Machine { vcpu_count, mem_size_mib, smt, track_dirty_pages, cpu_template } =>
                ApiBody::Machine {
                vcpu_count,
                mem_size_mib,
                smt,
                track_dirty_pages,
                cpu_template: opt_text(cpu_template),
            },
            ApiBody::Balloon { amount_mib, deflate_on_oom, stats_polling_interval_s } =>
                ApiBody::Balloon { amount_mib, deflate_on_oom, stats_polling_interval_s },
            ApiBody::BalloonTarget { amount_mib } => ApiBody::BalloonTarget { amount_mib },
            ApiBody::BootSource { kernel_image_path, boot_args } => ApiBody::BootSource {
                kernel_image_path: kernel_image_path@,
                boot_args: boot_args@,
            },
            ApiBody::Drive { drive_id, path_on_host, is_root_device, is_read_only } =>
                ApiBody::Drive {
                drive_id: drive_id@,
                path_on_host: path_on_host@,
                is_root_device,
                is_read_only,
            },
            ApiBody::Network { iface_id, host_dev_name, guest_mac } => ApiBody::Network {
                iface_id: iface_id@,
                host_dev_name: host_dev_name@,
                guest_mac: guest_mac@,
            },
            ApiBody::Act { action_type } => ApiBody::Act { action_type: action_type@ },
            ApiBody::Vm { state } => ApiBody::Vm { state: state@ },
            ApiBody::SnapshotCreate { snapshot_type, snapshot_path, mem_file_path } =>
                ApiBody::SnapshotCreate {
                snapshot_type: snapshot_type@,
                snapshot_path: snapshot_path@,
                mem_file_path: mem_file_path@,
            },
            ApiBody::SnapshotLoad {
                snapshot_path,
                backend_path,
                backend_type,
                enable_diff_snapshots,
                network_override,
                resume_vm,
            } => ApiBody::SnapshotLoad {
                snapshot_path: snapshot_path@,
                backend_path: backend_path@,
                backend_type: backend_type@,
                enable_diff_snapshots,
                network_override: match network_override {
                    Some((a, b)) => Some((a@, b@)),
                    None => None,
                },
                resume_vm,
            },
        }
    }
}

impl View for AgentRequest<String> {
    type V = AgentRequest<Seq<char>>;

    open spec fn view(&self) -> AgentRequest<Seq<char>> {
        match *self {
            AgentRequest::Ping => AgentRequest::Ping,
            AgentRequest::Exec { cmd, background } => AgentRequest::Exec { cmd: cmd@, background },
            AgentRequest::WriteFile { path, content_b64 } => AgentRequest::WriteFile {
                path: path@,
                content_b64: content_b64@,
            },
            AgentRequest::ReadFile { path } => AgentRequest::ReadFile { path: path@ },
            AgentRequest::ListDir { path } => AgentRequest::ListDir { path: path@ },
            AgentRequest::ReadyHttp { url, timeout_seconds } => AgentRequest::ReadyHttp {
                url: url@,
                timeout_seconds,
            },
        }
    }
}

impl View for Action<String, Vec<String>> {
    type V = Action<Seq<char>, Seq<Seq<char>>>;

    open spec fn view(&self) -> Action<Seq<char>, Seq<Seq<char>>> {
        match *self {
            Action::CreateDir(p) => Action::CreateDir(p@),
            Action::RequireFile(p) => Action::RequireFile(p@),
            Action::RequireDevice(d) => Action::RequireDevice(d@),
            Action::RemoveFile(p) => Action::RemoveFile(p@),
            Action::RemoveDir(p) => Action::RemoveDir(p@),
            Action::HardLink(a, b) => Action::HardLink(a@, b@),
            Action::CopyFile(a, b) => Action::CopyFile(a@, b@),
            Action::Run(argv) => Action::Run(views(argv@)),
            Action::RunChecked(argv) => Action::RunChecked(views(argv@)),
            Action::Spawn(argv, log) => Action::Spawn(views(argv@), log@),
            Action::WaitFor(p, s) => Action::WaitFor(p@, s),
            Action::Api(sock, method, path, body, s) => Action::Api(
                sock@,
                method@,
                path@,
                body@,
                s,
            ),
            Action::AwaitAgent(s) => Action::AwaitAgent(s),
            Action::Agent(r) => Action::Agent(r@),
            Action::AgentChecked(c) => Action::AgentChecked(c@),
            Action::Prewarm(p) => Action::Prewarm(p@),
            Action::StartClock => Action::StartClock,
            Action::StopClock => Action::StopClock,
            Action::Record => Action::Record,
            Action::MakeReadable(p) => Action::MakeReadable(p@),
        }
    }
}

impl View for Step<String, Vec<String>> {
    type V = Step<Seq<char>, Seq<Seq<char>>>;

    open spec fn view(&self) -> Step<Seq<char>, Seq<Seq<char>>> {
        Step { action: self.action@, ok: self.ok, err: self.err }
    }
}

/// The views of a plan's steps.
pub open spec fn step_views(v: Seq<PlanStep>) -> Seq<StepView> {
    Seq::new(v.len(), |i: int| v[i]@)
}

/// A step without which the operation fails.
pub open spec fn need(action: Action<Seq<char>, Seq<Seq<char>>>) -> StepView {
    Step { action, ok: Flow::Next, err: Flow::Fail }
}

/// A step without which the operation fails, at a point where the VM already
/// holds resources.
pub open spec fn need_or_reclaim(action: Action<Seq<char>, Seq<Seq<char>>>) -> StepView {
    Step { action, ok: Flow::Next, err: Flow::Reclaim }
}

/// A step whose failure changes nothing.
pub open spec fn attempt(action: Action<Seq<char>, Seq<Seq<char>>>) -> StepView {
    Step { action, ok: Flow::Next, err: Flow::Next }
}

/// A step that, when it succeeds, makes the next `n` unnecessary.
pub open spec fn or_else(action: Action<Seq<char>, Seq<Seq<char>>>, n: usize) -> StepView {
    Step { action, ok: Flow::Skip(n), err: Flow::Next }
}

/// A step that decides whether the next `n` are done: they are skipped when it
/// fails.
pub open spec fn only_if(action: Action<Seq<char>, Seq<Seq<char>>>, n: usize) -> StepView {
    Step { action, ok: Flow::Next, err: Flow::Skip(n) }
}

/// A plan under construction.
#[derive(Debug)]
pub struct PlanBuilder {
    pub steps: Vec<PlanStep>,
}

impl View for PlanBuilder {
    type V = Seq<StepView>;

    open spec fn view(&self) -> Seq<StepView> {
        step_views(self.steps@)
    }
}

impl PlanBuilder {
    pub fn new() -> (r: PlanBuilder)
        ensures
            r@ == Seq::<StepView>::empty(),
    {
        let r = PlanBuilder { steps: Vec::new() };
        assert(r@ =~= Seq::<StepView>::empty());
        r
    }

    fn push(&mut self, action: Action<String, Vec<String>>, ok: Flow, err: Flow)
        ensures
            final(self)@ == old(self)@.push(Step { action: action@, ok, err }),
    {
        self.steps.push(Step { action, ok, err });
        assert(self@ =~= old(self)@.push(Step { action: action@, ok, err }));
    }

    /// Add a step without which the operation fails.
    pub fn need(&mut self, action: Action<String, Vec<String>>)
        ensures
            final(self)@ == old(self)@.push(need(action@)),
    {
        self.push(action, Flow::Next, Flow::Fail);
    }

    /// Add a step without which the operation fails and the VM is reclaimed.
    pub fn need_or_reclaim(&mut self, action: Action<String, Vec<String>>)
        ensures
            final(self)@ == old(self)@.push(need_or_reclaim(action@)),
    {
        self.push(action, Flow::Next, Flow::Reclaim);
    }

    /// Add a step whose failure changes nothing.
    pub fn attempt(&mut self, action: Action<String, Vec<String>>)
        ensures
            final(self)@ == old(self)@.push(attempt(action@)),
    {
        self.push(action, Flow::Next, Flow::Next);
    }

    /// Add a step that, when it succeeds, makes the next `n` unnecessary.
    pub fn or_else(&mut self, action: Action<String, Vec<String>>, n: usize)
        ensures
            final(self)@ == old(self)@.push(or_else(action@, n)),
    {
        self.push(action, Flow::Skip(n), Flow::Next);
    }

    /// Add a step on whose success the next `n` depend.
    pub fn only_if(&mut self, action: Action<String, Vec<String>>, n: usize)
        ensures
            final(self)@ == old(self)@.push(only_if(action@, n)),
    {
        self.push(action, Flow::Next, Flow::Skip(n));
    }
}

// ---------------------------------------------------------------------------
// Carrying out a plan
// ---------------------------------------------------------------------------

/// How an action went.
#[derive(Debug, Clone, Copy, PartialEq, Eq, Structural)]
pub enum Outcome {
    Done,
    Failed,
    /// A program was started; its process id, if the host gave one.
    Started(Option<u32>),
    /// A command ran to its end with this status; nothing where none was
    /// reported.
    Exited(Option<i64>),
}

impl Outcome {
    /// The action has done what it was for: a command, that it ended with status
    /// zero.
    pub open spec fn good(self) -> bool {
        match self {
            Outcome::Done => true,
            Outcome::Failed => false,
            Outcome::Started(_) => true,
            Outcome::Exited(code) => code == Some(0i64),
        }
    }

    pub fn is_good(&self) -> (r: bool)
        ensures
            r == self.good(),
    {
        match self {
            Outcome::Done => true,
            Outcome::Failed => false,
            Outcome::Started(_) => true,
            Outcome::Exited(Some(code)) => *code == 0,
            Outcome::Exited(None) => false,
        }
    }
}

/// Where a run stands.
#[derive(Debug, Clone, Copy, PartialEq, Eq, Structural)]
pub enum RunStatus {
    Going,
    Done,
    Failed,
    /// Failed, and what the VM holds is to be reclaimed.
    Reclaim,
}

/// A plan that is being carried out.
#[derive(Debug)]
pub struct Run {
    steps: Vec<PlanStep>,
    at: usize,
    pid: Option<u32>,
    status: RunStatus,
}

/// A run by the views of its parts.
pub struct RunView {
    pub steps: Seq<StepView>,
    pub at: int,
    pub pid: Option<u32>,
    pub status: RunStatus,
}

impl View for Run {
    type V = RunView;

    closed spec fn view(&self) -> RunView {
        RunView {
            steps: step_views(self.steps@),
            at: self.at as int,
            pid: self.pid,
            status: self.status,
        }
    }
}

/// A run at the beginning of a plan, with the process that it takes over.
pub open spec fn run_start(steps: Seq<StepView>, pid: Option<u32>) -> RunView {
    RunView {
        steps,
        at: 0,
        pid,
        status: if steps.len() == 0 {
            RunStatus::Done
        } else {
            RunStatus::Going
        },
    }
}

/// A run that goes on at step `i`, or has arrived behind the last one.
pub open spec fn run_at(r: RunView, i: int) -> RunView {
    if i < r.steps.len() {
        RunView { at: i, ..r }
    } else {
        RunView { at: r.steps.len() as int, status: RunStatus::Done, ..r }
    }
}

/// A run once its current action has been reported on.
pub open spec fn run_next(r: RunView, o: Outcome) -> RunView {
    let step = r.steps[r.at];
    let noted = RunView {
        pid: match o {
            Outcome::Started(pid) => pid,
            _ => r.pid,
        },
        ..r
    };
    match if o.good() {
        step.ok
    } else {
        step.err
    } {
        Flow::Next => run_at(noted, r.at + 1),
        Flow::Skip(n) => run_at(noted, r.at + 1 + n),
        Flow::Fail => RunView { status: RunStatus::Failed, ..noted },
        Flow::Reclaim => RunView { status: RunStatus::Reclaim, ..noted },
    }
}

impl Run {
    #[verifier::type_invariant]
    spec fn inv(self) -> bool {
        &&& self.at <= self.steps@.len()
        &&& self.status == RunStatus::Going ==> self.at < self.steps@.len()
    }

    /// Begin a plan, with the process that it takes over, if there is one.
    pub fn start(plan: PlanBuilder, pid: Option<u32>) -> (r: Run)
        ensures
            r@ == run_start(plan@, pid),
    {
        let empty = plan.steps.len() == 0;
        let status = if empty {
            RunStatus::Done
        } else {
            RunStatus::Going
        };
        Run { steps: plan.steps, at: 0, pid, status }
    }

    pub fn status(&self) -> (r: RunStatus)
        ensures
            r == self@.status,
            r == RunStatus::Going ==> 0 <= self@.at < self@.steps.len(),
    {
        proof {
            use_type_invariant(self);
        }
        self.status
    }

    /// The process that was started last, or taken over.
    pub fn pid(&self) -> (r: Option<u32>)
        ensures
            r == self@.pid,
    {
        self.pid
    }

    /// The action to perform now.
    pub fn action(&self) -> (r: &Action<String, Vec<String>>)
        requires
            self@.status == RunStatus::Going,
        ensures
            r@ == self@.steps[self@.at].action,
    {
        proof {
            use_type_invariant(self);
        }
        &self.steps[self.at].action
    }

    /// Report how the current action went.
    pub fn report(&mut self, outcome: Outcome)
        requires
            old(self)@.status == RunStatus::Going,
        ensures
            final(self)@ == run_next(old(self)@, outcome),
    {
        proof {
            use_type_invariant(&*self);
        }
        let n: usize = self.steps.len();
        let at: usize = self.at;
        assert(self@.steps[at as int] == self.steps@[at as int]@);
        let flow = if outcome.is_good() {
            self.steps[at].ok
        } else {
            self.steps[at].err
        };
        if let Outcome::Started(pid) = outcome {
            self.pid = pid;
        }
        match flow {
            Flow::Next => {
                self.go_to(at + 1);
            },
            Flow::Skip(k) => {
                if k < n - at {
                    self.go_to(at + 1 + k);
                } else {
                    self.go_to(n);
                }
            },
            Flow::Fail => {
                self.status = RunStatus::Failed;
            },
            Flow::Reclaim => {
                self.status = RunStatus::Reclaim;
            },
        }
    }

    fn go_to(&mut self, i: usize)
        requires
            i <= old(self)@.steps.len(),
        ensures
            final(self)@ == run_at(old(self)@, i as int),
    {
        proof {
            use_type_invariant(&*self);
        }
        if i < self.steps.len() {
            self.at = i;
        } else {
            self.status = RunStatus::Done;
            self.at = i;
        }
    }
}

// ---------------------------------------------------------------------------
// Laws
// ---------------------------------------------------------------------------

/// Every report moves a run forward or ends it, so that a plan is carried out
/// in at most as many actions as it has steps.
pub proof fn law_runs_make_progress(r: RunView, o: Outcome)
    requires
        r.status == RunStatus::Going,
        0 <= r.at < r.steps.len(),
    ensures
        run_next(r, o).steps == r.steps,
        run_next(r, o).status == RunStatus::Going ==> r.at < run_next(r, o).at < r.steps.len(),
        run_next(r, o).at <= r.steps.len(),
{
}

/// The steps from `from` on reclaim the VM when they fail, unless their failure
/// changes nothing.
pub open spec fn reclaims_from(steps: Seq<StepView>, from: int) -> bool {
    forall|i: int|
        from <= i < steps.len() ==> (#[trigger] steps[i]).err != Flow::Fail && steps[i].ok
            != Flow::Fail
}

/// The outcomes of a run so far: `trace[i]` is reported for the action at hand
/// after the first `i`.
pub open spec fn run_after(r: RunView, trace: Seq<Outcome>) -> RunView
    decreases trace.len(),
{
    if trace.len() == 0 {
        r
    } else {
        let before = run_after(r, trace.drop_last());
        if before.status == RunStatus::Going {
            run_next(before, trace.last())
        } else {
            before
        }
    }
}

/// A plan that reclaims from step `from` on never ends in a plain failure once
/// it has come that far: whatever fails there, the VM is reclaimed.
pub proof fn law_no_leak_behind(r: RunView, from: int, trace: Seq<Outcome>)
    requires
        r.status == RunStatus::Going,
        from <= r.at < r.steps.len(),
        0 <= r.at,
        reclaims_from(r.steps, from),
    ensures
        run_after(r, trace).status != RunStatus::Failed,
        run_after(r, trace).steps == r.steps,
        run_after(r, trace).at >= r.at,
        run_after(r, trace).status == RunStatus::Going ==> run_after(r, trace).at < r.steps.len(),
    decreases trace.len(),
{
    if trace.len() > 0 {
        law_no_leak_behind(r, from, trace.drop_last());
        let before = run_after(r, trace.drop_last());
        if before.status == RunStatus::Going {
            assert(before.steps[before.at].err != Flow::Fail);
        }
    }
}

} // verus!
