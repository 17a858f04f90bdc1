//! What is done with stored records: compare-and-set transitions of sandboxes,
//! recovery after a restart, and the ledger of metered intervals.

use crate::images::{CustomImage, ImageStatus};
use crate::lifecycle::State;
use crate::model::{Sandbox, Timings};
use crate::nodes::Nanos;
use crate::order::{before, is_before, lemma_irreflexive, lemma_transitive};
use crate::text::{cut_last, rsplit_once, same};
use crate::usage::UsageInterval;
use vstd::prelude::*;
use vstd::string::*;

verus! {

/// A stored snapshot of a sandbox.
#[derive(Debug)]
pub struct Snapshot {
    pub id: String,
    pub sandbox_id: String,
    pub org_id: String,
    pub image: String,
    pub created_at: Nanos,
    /// Approximate stored size, billed separately.
    pub storage_bytes: u64,
    /// Opaque runtime handle of the stored artifact.
    pub handle: String,
}

// ---------------------------------------------------------------------------
// Compare and set
// ---------------------------------------------------------------------------

/// A change of a sandbox that comes with a transition. What is left out stays as
/// it is.
#[derive(Debug)]
pub struct Change {
    pub state: State,
    /// The new error, which may be none.
    pub error: Option<Option<String>>,
    pub ready_ms: Option<u64>,
    pub updated_at: Option<Nanos>,
    pub last_active_at: Option<Nanos>,
}

/// A change of the state alone.
pub fn only_state(state: State) -> (r: Change)
    ensures
        r == (Change {
            state,
            error: None,
            ready_ms: None,
            updated_at: None,
            last_active_at: None,
        }),
{
    Change { state, error: None, ready_ms: None, updated_at: None, last_active_at: None }
}

/// A sandbox once a change is applied.
pub open spec fn changed(sb: Sandbox, c: Change) -> Sandbox {
    Sandbox {
        state: c.state,
        error: match c.error {
            Some(e) => e,
            None => sb.error,
        },
        timings: match c.ready_ms {
            Some(ms) => Timings { ready_ms: ms, ..sb.timings },
            None => sb.timings,
        },
        updated_at: match c.updated_at {
            Some(t) => t,
            None => sb.updated_at,
        },
        last_active_at: match c.last_active_at {
            Some(t) => t,
            None => sb.last_active_at,
        },
        ..sb
    }
}

/// What came of a transition.
#[derive(Debug)]
pub enum CasOutcome {
    Updated(Sandbox),
    /// The sandbox was in none of the allowed states; the one it is in.
    Conflict(State),
    NotFound,
}

fn among(states: &[State], s: State) -> (r: bool)
    ensures
        r == states@.contains(s),
{
    let mut i: usize = 0;
    while i < states.len()
        invariant
            i <= states@.len(),
            forall|k: int| 0 <= k < i ==> states@[k] != s,
        decreases states@.len() - i,
    {
        if states[i] == s {
            assert(states@[i as int] == s);
            return true;
        }
        i = i + 1;
    }
    false
}

/// Apply a change to a stored sandbox if it is in one of the allowed states. Every
/// lifecycle change goes through here, under the store's lock, so that a stale
/// copy cannot bring a sandbox back or have it processed twice.
pub fn cas_sandbox(current: Option<Sandbox>, allowed: &[State], change: Change) -> (r: CasOutcome)
    ensures
        match current {
            None => r is NotFound,
            Some(sb) => if allowed@.contains(sb.state) {
                r == CasOutcome::Updated(changed(sb, change))
            } else {
                r == CasOutcome::Conflict(sb.state)
            },
        },
{
    let mut sb = match current {
        None => return CasOutcome::NotFound,
        Some(sb) => sb,
    };
    if !among(allowed, sb.state) {
        return CasOutcome::Conflict(sb.state);
    }
    sb.state = change.state;
    if let Some(e) = change.error {
        sb.error = e;
    }
    if let Some(ms) = change.ready_ms {
        sb.timings.ready_ms = ms;
    }
    if let Some(t) = change.updated_at {
        sb.updated_at = t;
    }
    if let Some(t) = change.last_active_at {
        sb.last_active_at = t;
    }
    CasOutcome::Updated(sb)
}

/// Of two transitions out of the same state, applied one after the other, the
/// second fails unless the first leads to a state that it allows: a sandbox is
/// resumed, stopped or deleted by one of two rivals only.
pub proof fn law_one_rival_wins(sb: Sandbox, allowed: Seq<State>, c: Change)
    requires
        allowed.contains(sb.state),
        !allowed.contains(c.state),
    ensures
        !allowed.contains(changed(sb, c).state),
{
}

// ---------------------------------------------------------------------------
// After a restart
// ---------------------------------------------------------------------------

/// A sandbox in this state has lost its VM when the control plane restarts.
pub open spec fn loses_vm(s: State) -> bool {
    s is Creating || s is Running || s is Resuming || s is Stopping
}

/// Mark a sandbox failed that a restart of the control plane has interrupted;
/// nothing for one that was stopped or parked.
pub fn reconcile_interrupted(sb: Sandbox, now: Nanos) -> (r: Option<Sandbox>)
    ensures
        r is Some <==> loses_vm(sb.state),
        r matches Some(s) ==> {
            &&& s.error matches Some(e) && e@ == "interrupted by control-plane restart"@
            &&& s == (Sandbox { state: State::Failed, error: s.error, updated_at: now, ..sb })
        },
{
    let interrupted = match sb.state {
        State::Creating | State::Running | State::Resuming | State::Stopping => true,
        _ => false,
    };
    if !interrupted {
        return None;
    }
    let mut s = sb;
    s.state = State::Failed;
    s.error = Some(String::from_str("interrupted by control-plane restart"));
    s.updated_at = now;
    Some(s)
}

/// A parked sandbox survives a restart as it is.
pub proof fn law_standby_survives_restart()
    ensures
        !loses_vm(State::Standby),
        !loses_vm(State::Stopped),
        forall|s: State| #[trigger] s.active() ==> loses_vm(s),
{
}

/// Where a command that runs in a sandbox stands.
#[derive(Debug, Clone, Copy, PartialEq, Eq, Structural)]
pub enum ExecJobState {
    Running,
    Succeeded,
    Failed,
}

/// A command that runs in a sandbox in the background.
#[derive(Debug)]
pub struct ExecJob {
    pub id: String,
    pub sandbox_id: String,
    pub org_id: String,
    pub state: ExecJobState,
    pub error: Option<String>,
    pub started_at: Nanos,
    pub finished_at: Option<Nanos>,
}

/// Mark a command failed that a restart of the control plane has interrupted.
pub fn reconcile_interrupted_exec_job(job: ExecJob, now: Nanos) -> (r: Option<ExecJob>)
    ensures
        r is Some <==> job.state == ExecJobState::Running,
        r matches Some(j) ==> {
            &&& j.error matches Some(e) && e@ == "interrupted by control-plane restart"@
            &&& j == (ExecJob {
                state: ExecJobState::Failed,
                error: j.error,
                finished_at: Some(now),
                ..job
            })
        },
{
    if job.state != ExecJobState::Running {
        return None;
    }
    let mut j = job;
    j.state = ExecJobState::Failed;
    j.error = Some(String::from_str("interrupted by control-plane restart"));
    j.finished_at = Some(now);
    Some(j)
}

/// Some command still runs in the sandbox.
pub open spec fn runs_job(jobs: Seq<ExecJob>, sandbox_id: Seq<char>) -> bool {
    exists|i: int|
        0 <= i < jobs.len() && (#[trigger] jobs[i]).sandbox_id@ == sandbox_id && jobs[i].state
            == ExecJobState::Running
}

/// Does some command still run in the sandbox?
pub fn has_running_exec_jobs(jobs: &Vec<ExecJob>, sandbox_id: &str) -> (r: bool)
    ensures
        r == runs_job(jobs@, sandbox_id@),
{
    let mut i: usize = 0;
    while i < jobs.len()
        invariant
            i <= jobs@.len(),
            forall|k: int|
                0 <= k < i ==> (#[trigger] jobs@[k]).sandbox_id@ != sandbox_id@ || jobs@[k].state
                    != ExecJobState::Running,
        decreases jobs@.len() - i,
    {
        if jobs[i].state == ExecJobState::Running && same(jobs[i].sandbox_id.as_str(), sandbox_id) {
            return true;
        }
        i = i + 1;
    }
    false
}

// ---------------------------------------------------------------------------
// The ledger
// ---------------------------------------------------------------------------

/// The interval belongs to the sandbox and is still open.
pub open spec fn open_for(iv: UsageInterval, sandbox_id: Seq<char>) -> bool {
    iv.sandbox_id@ == sandbox_id && iv.ended_at is None
}

/// The sandbox is being metered.
pub open spec fn has_open(ivs: Seq<UsageInterval>, sandbox_id: Seq<char>) -> bool {
    exists|i: int| 0 <= i < ivs.len() && #[trigger] open_for(ivs[i], sandbox_id)
}

/// No sandbox is metered twice at the same time.
pub open spec fn metered_once(ivs: Seq<UsageInterval>) -> bool {
    forall|i: int, j: int, s: Seq<char>|
        0 <= i < j < ivs.len() ==> !(#[trigger] open_for(ivs[i], s) && #[trigger] open_for(
            ivs[j],
            s,
        ))
}

/// The intervals once those of a sandbox are closed.
pub open spec fn closed_at(ivs: Seq<UsageInterval>, sandbox_id: Seq<char>, end: Nanos) -> Seq<
    UsageInterval,
> {
    Seq::new(
        ivs.len(),
        |i: int|
            if open_for(ivs[i], sandbox_id) {
                UsageInterval { ended_at: Some(end), ..ivs[i] }
            } else {
                ivs[i]
            },
    )
}

fn any_open(ivs: &Vec<UsageInterval>, sandbox_id: &str) -> (r: bool)
    ensures
        r == has_open(ivs@, sandbox_id@),
{
    let mut i: usize = 0;
    while i < ivs.len()
        invariant
            i <= ivs@.len(),
            forall|k: int| 0 <= k < i ==> !(#[trigger] open_for(ivs@[k], sandbox_id@)),
        decreases ivs@.len() - i,
    {
        if ivs[i].ended_at.is_none() && same(ivs[i].sandbox_id.as_str(), sandbox_id) {
            assert(open_for(ivs@[i as int], sandbox_id@));
            return true;
        }
        i = i + 1;
    }
    false
}

/// Begin to meter a sandbox unless it is metered already; says whether a new
/// interval was opened.
pub fn open_usage_if_none(ivs: &mut Vec<UsageInterval>, iv: UsageInterval) -> (r: bool)
    ensures
        r == !has_open(old(ivs)@, iv.sandbox_id@),
        final(ivs)@ == (if r {
            old(ivs)@.push(iv)
        } else {
            old(ivs)@
        }),
        metered_once(old(ivs)@) && iv.ended_at is None ==> metered_once(final(ivs)@),
{
    if any_open(ivs, iv.sandbox_id.as_str()) {
        return false;
    }
    ivs.push(iv);
    proof {
        let was = old(ivs)@;
        let now = ivs@;
        if metered_once(was) {
            assert forall|i: int, j: int, s: Seq<char>| 0 <= i < j < now.len() implies !(
            #[trigger] open_for(now[i], s) && #[trigger] open_for(now[j], s)) by {
                if j == was.len() {
                    assert(!open_for(was[i], iv.sandbox_id@));
                } else {
                    assert(!(open_for(was[i], s) && open_for(was[j], s)));
                }
            }
        }
    }
    true
}

/// Close the open intervals of a sandbox.
pub fn close_open_usage(ivs: &mut Vec<UsageInterval>, sandbox_id: &str, ended_at: Nanos)
    ensures
        final(ivs)@ == closed_at(old(ivs)@, sandbox_id@, ended_at),
{
    let ghost was = ivs@;
    let n: usize = ivs.len();
    let mut i: usize = 0;
    while i < n
        invariant
            i <= n == ivs@.len(),
            was.len() == n,
            forall|k: int| i <= k < n ==> ivs@[k] == was[k],
            forall|k: int|
                0 <= k < i ==> (#[trigger] ivs@[k]) == closed_at(was, sandbox_id@, ended_at)[k],
        decreases n - i,
    {
        if ivs[i].ended_at.is_none() && same(ivs[i].sandbox_id.as_str(), sandbox_id) {
            let old_iv = &ivs[i];
            let closed = UsageInterval {
                id: old_iv.id.clone(),
                sandbox_id: old_iv.sandbox_id.clone(),
                org_id: old_iv.org_id.clone(),
                resources: old_iv.resources,
                image_key: old_iv.image_key.clone(),
                resource_units_e4: old_iv.resource_units_e4,
                image_multiplier_milli: old_iv.image_multiplier_milli,
                unit_price_nano_usd_hr: old_iv.unit_price_nano_usd_hr,
                started_at: old_iv.started_at,
                ended_at: Some(ended_at),
            };
            ivs.set(i, closed);
        }
        i = i + 1;
    }
    assert(ivs@ =~= closed_at(was, sandbox_id@, ended_at));
}

/// A stopped, parked or deleted sandbox costs nothing from then on: once its
/// intervals are closed, none is open.
pub proof fn law_closing_stops_the_meter(ivs: Seq<UsageInterval>, sandbox_id: Seq<char>, end: Nanos)
    ensures
        !has_open(closed_at(ivs, sandbox_id, end), sandbox_id),
        metered_once(ivs) ==> metered_once(closed_at(ivs, sandbox_id, end)),
{
    let now = closed_at(ivs, sandbox_id, end);
    assert forall|i: int| 0 <= i < now.len() implies !(#[trigger] open_for(now[i], sandbox_id)) by {
    }
    if metered_once(ivs) {
        assert forall|i: int, j: int, s: Seq<char>| 0 <= i < j < now.len() implies !(
        #[trigger] open_for(now[i], s) && #[trigger] open_for(now[j], s)) by {
            assert(!(open_for(ivs[i], s) && open_for(ivs[j], s)));
        }
    }
}

// ---------------------------------------------------------------------------
// Images and capacity
// ---------------------------------------------------------------------------

/// The name and the version that an image reference asks for.
pub open spec fn asked_for(reference: Seq<char>) -> (Seq<char>, Option<Seq<char>>) {
    match cut_last(reference, ':') {
        Some((name, version)) => (name, Some(version)),
        None => (reference, None),
    }
}

/// A published image answers a reference: by name, and by version where it gives
/// one.
pub open spec fn answers(img: CustomImage, reference: Seq<char>) -> bool {
    let (name, version) = asked_for(reference);
    &&& img.status == ImageStatus::Ready
    &&& img.name@ == name
    &&& version matches Some(v) ==> img.version@ == v
}

/// Find the published image that a reference names: the newest version where the
/// reference gives none.
pub fn find_ready_image(images: &Vec<CustomImage>, reference: &str) -> (r: Option<usize>)
    ensures
        r is Some <==> exists|i: int| 0 <= i < images@.len() && answers(#[trigger] images@[i], reference@),
        r matches Some(i) ==> {
            &&& i < images@.len()
            &&& answers(images@[i as int], reference@)
            &&& forall|k: int|
                0 <= k < images@.len() && answers(#[trigger] images@[k], reference@) ==> !before(
                    images@[i as int].version@,
                    images@[k].version@,
                )
        },
{
    let (name, version): (String, Option<String>) = match rsplit_once(reference, ':') {
        Some((n, v)) => (n, Some(v)),
        None => (String::from_str(reference), None),
    };
    let mut best: Option<usize> = None;
    let mut i: usize = 0;
    while i < images.len()
        invariant
            i <= images@.len(),
            name@ == asked_for(reference@).0,
            (match version {
                Some(v) => Some(v@),
                None => None,
            }) == asked_for(reference@).1,
            best is Some <==> exists|k: int|
                0 <= k < i && answers(#[trigger] images@[k], reference@),
            best matches Some(b) ==> {
                &&& b < i
                &&& answers(images@[b as int], reference@)
                &&& forall|k: int|
                    0 <= k < i && answers(#[trigger] images@[k], reference@) ==> !before(
                        images@[b as int].version@,
                        images@[k].version@,
                    )
            },
        decreases images@.len() - i,
    {
        let img = &images[i];
        let right_version = match &version {
            Some(v) => same(img.version.as_str(), v.as_str()),
            None => true,
        };
        if img.status == ImageStatus::Ready && same(img.name.as_str(), name.as_str())
            && right_version {
            assert(answers(images@[i as int], reference@));
            match best {
                None => {
                    proof {
                        lemma_irreflexive(images@[i as int].version@);
                    }
                    best = Some(i);
                },
                Some(b) => {
                    if is_before(images[b].version.as_str(), img.version.as_str()) {
                        proof {
                            let vi = images@[i as int].version@;
                            let vb = images@[b as int].version@;
                            lemma_irreflexive(vi);
                            assert forall|k: int|
                                0 <= k < i && answers(#[trigger] images@[k], reference@) implies !before(
                                vi,
                                images@[k].version@,
                            ) by {
                                let vk = images@[k].version@;
                                if before(vi, vk) {
                                    lemma_transitive(vb, vi, vk);
                                }
                            }
                        }
                        best = Some(i);
                    }
                },
            }
        }
        i = i + 1;
    }
    best
}

/// How many sandboxes among the first `n` are active.
pub open spec fn active_among(s: Seq<Sandbox>, n: int) -> int
    decreases n,
{
    if n <= 0 {
        0
    } else {
        active_among(s, n - 1) + if s[n - 1].state.active() {
            1int
        } else {
            0int
        }
    }
}

/// The memory that the active sandboxes among the first `n` hold, in MiB.
pub open spec fn active_memory(s: Seq<Sandbox>, n: int) -> int
    decreases n,
{
    if n <= 0 {
        0
    } else {
        active_memory(s, n - 1) + if s[n - 1].state.active() {
            s[n - 1].resources.memory_mb as int
        } else {
            0int
        }
    }
}

/// How many of the sandboxes are active.
pub fn count_active(sandboxes: &[Sandbox]) -> (r: usize)
    ensures
        r == active_among(sandboxes@, sandboxes@.len() as int),
{
    let n: usize = sandboxes.len();
    let mut count: usize = 0;
    let mut i: usize = 0;
    while i < n
        invariant
            i <= n == sandboxes@.len(),
            count <= i,
            count == active_among(sandboxes@, i as int),
        decreases n - i,
    {
        if sandboxes[i].state.is_active() {
            count = count + 1;
        }
        i = i + 1;
    }
    count
}

/// The memory that the active sandboxes hold, in MiB.
pub fn active_memory_mb(sandboxes: &[Sandbox]) -> (r: u64)
    requires
        sandboxes@.len() <= 0xffff_ffff,
    ensures
        r == active_memory(sandboxes@, sandboxes@.len() as int),
{
    let n: usize = sandboxes.len();
    let mut sum: u64 = 0;
    let mut i: usize = 0;
    while i < n
        invariant
            i <= n == sandboxes@.len(),
            n <= 0xffff_ffff,
            sum == active_memory(sandboxes@, i as int),
            sum <= i * 0xffff_ffff,
        decreases n - i,
    {
        if sandboxes[i].state.is_active() {
            proof {
                assert(i * 0xffff_ffff + 0xffff_ffff <= 0xffff_ffff * 0xffff_ffff)
                    by (nonlinear_arith)
                    requires
                        i < 0xffff_ffff,
                ;
            }
            sum = sum + sandboxes[i].resources.memory_mb as u64;
        }
        i = i + 1;
    }
    sum
}

/// Does a sandbox in this state count as active?
pub fn is_state_active(state: State) -> (r: bool)
    ensures
        r == state.active(),
{
    state.is_active()
}

} // verus!
