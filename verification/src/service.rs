//! Lifecycle operations. Each begins with a transition under the store's lock,
//! then the runtime is asked to do its part, and a second transition records how
//! that went. Of two rivals one wins the first transition; the other is told what
//! the sandbox is doing, or that there is nothing left to do.

use crate::admission::fault;
use crate::auth::AuthContext;
use crate::error::{ApiError, ApiResult, ErrorView};
use crate::lifecycle::State;
use crate::model::{BootPath, Sandbox, Timings, Volume};
use crate::envmap::EnvMap;
use crate::nodes::Nanos;
use crate::runtime::{SnapshotArtifact, VmSpec};
use crate::store::{cas_sandbox, only_state, CasOutcome, Change, Snapshot};
use crate::text::{concat2, concat3, same};
use crate::usage::{bounded, metered_cost, total_cost, Org, UsageInterval};
use vstd::prelude::*;
use vstd::string::*;

verus! {

// ---------------------------------------------------------------------------
// Whose sandbox it is
// ---------------------------------------------------------------------------

/// Why a caller does not get at a sandbox. Another org's sandbox is answered like
/// one that does not exist.
pub open spec fn owned_fault(ctx: AuthContext, id: Seq<char>, found: Result<Option<Sandbox>, String>) -> Option<
    ErrorView,
> {
    match found {
        Err(e) => Some(ErrorView::Internal(e@)),
        Ok(None) => Some(ErrorView::NotFound("sandbox "@ + id)),
        Ok(Some(sb)) => if sb.org_id@ != ctx.org_id@ && !ctx.admin {
            Some(ErrorView::NotFound("sandbox "@ + id))
        } else {
            None
        },
    }
}

/// The sandbox that was found, if it is the caller's.
pub fn load_owned(ctx: &AuthContext, id: &str, found: Result<Option<Sandbox>, String>) -> (r: ApiResult<
    Sandbox,
>)
    ensures
        fault(r) == owned_fault(*ctx, id@, found),
        r matches Ok(sb) ==> found == Ok::<Option<Sandbox>, String>(Some(sb)),
{
    match found {
        Err(e) => Err(ApiError::Internal(e)),
        Ok(None) => Err(ApiError::NotFound(concat2("sandbox ", id))),
        Ok(Some(sb)) => {
            if !same(sb.org_id.as_str(), ctx.org_id.as_str()) && !ctx.admin {
                return Err(ApiError::NotFound(concat2("sandbox ", id)));
            }
            Ok(sb)
        },
    }
}

/// A caller who is no admin cannot tell another org's sandbox from one that does
/// not exist.
pub proof fn law_other_orgs_are_invisible(ctx: AuthContext, id: Seq<char>, sb: Sandbox)
    requires
        !ctx.admin,
        sb.org_id@ != ctx.org_id@,
    ensures
        owned_fault(ctx, id, Ok(Some(sb))) == owned_fault(ctx, id, Ok(None)),
{
}

/// Why a request of an org's dashboard does not get at a sandbox.
pub fn owned_sandbox(org: &str, id: &str, found: Result<Option<Sandbox>, String>) -> (r: ApiResult<
    Sandbox,
>)
    ensures
        fault(r) == (match found {
            Err(e) => Some(ErrorView::Internal(e@)),
            Ok(Some(sb)) if sb.org_id@ == org@ => None,
            _ => Some(ErrorView::NotFound("sandbox "@ + id@)),
        }),
        r matches Ok(sb) ==> found == Ok::<Option<Sandbox>, String>(Some(sb)),
{
    match found {
        Err(e) => Err(ApiError::Internal(e)),
        Ok(None) => Err(ApiError::NotFound(concat2("sandbox ", id))),
        Ok(Some(sb)) => {
            if !same(sb.org_id.as_str(), org) {
                return Err(ApiError::NotFound(concat2("sandbox ", id)));
            }
            Ok(sb)
        },
    }
}

// ---------------------------------------------------------------------------
// The first transition
// ---------------------------------------------------------------------------

/// A lifecycle operation.
#[derive(Debug, Clone, Copy, PartialEq, Eq, Structural)]
pub enum Op {
    Stop,
    Resume,
    Delete,
    /// Snapshot and give the memory back.
    Park,
}

impl Op {
    pub open spec fn verb(self) -> Seq<char> {
        match self {
            Op::Stop => "stop"@,
            Op::Resume => "resume"@,
            Op::Delete => "delete"@,
            Op::Park => "park"@,
        }
    }

    /// The states from which the operation begins.
    pub open spec fn starts_from(self, s: State) -> bool {
        match self {
            Op::Stop | Op::Park => s is Running,
            Op::Resume => s is Stopped || s is Standby,
            Op::Delete => !(s is Deleting || s is Deleted),
        }
    }

    /// The states in which the operation has nothing left to do.
    pub open spec fn is_done_in(self, s: State) -> bool {
        match self {
            Op::Stop => s is Stopped || s is Stopping,
            Op::Resume => false,
            Op::Delete => s is Deleting || s is Deleted,
            Op::Park => s is Standby || s is Stopping,
        }
    }

    /// The state while the runtime works on it.
    pub open spec fn under_way(self) -> State {
        match self {
            Op::Stop | Op::Park => State::Stopping,
            Op::Resume => State::Resuming,
            Op::Delete => State::Deleting,
        }
    }

    fn word(&self) -> (r: &'static str)
        ensures
            r@ == self.verb(),
    {
        match self {
            Op::Stop => "stop",
            Op::Resume => "resume",
            Op::Delete => "delete",
            Op::Park => "park",
        }
    }

    fn transient(&self) -> (r: State)
        ensures
            r == self.under_way(),
    {
        match self {
            Op::Stop => State::Stopping,
            Op::Park => State::Stopping,
            Op::Resume => State::Resuming,
            Op::Delete => State::Deleting,
        }
    }

    fn done_in(&self, s: State) -> (r: bool)
        ensures
            r == self.is_done_in(s),
    {
        match self {
            Op::Stop => s == State::Stopped || s == State::Stopping,
            Op::Resume => false,
            Op::Delete => s == State::Deleting || s == State::Deleted,
            Op::Park => s == State::Standby || s == State::Stopping,
        }
    }

    fn origins(&self) -> (r: Vec<State>)
        ensures
            forall|s: State| r@.contains(s) == self.starts_from(s),
    {
        let r: Vec<State> = match self {
            Op::Stop => vec![State::Running],
            Op::Park => vec![State::Running],
            Op::Resume => vec![State::Stopped, State::Standby],
            Op::Delete => vec![
                State::Creating,
                State::Running,
                State::Resuming,
                State::Stopping,
                State::Stopped,
                State::Standby,
                State::Failed,
            ],
        };
        proof {
            assert forall|s: State| r@.contains(s) == self.starts_from(s) by {
                if *self is Delete {
                    assert(r@[0] == State::Creating && r@[1] == State::Running && r@[2]
                        == State::Resuming && r@[3] == State::Stopping && r@[4] == State::Stopped
                        && r@[5] == State::Standby && r@[6] == State::Failed);
                } else if *self is Resume {
                    assert(r@[0] == State::Stopped && r@[1] == State::Standby);
                } else {
                    assert(r@[0] == State::Running);
                }
            }
        }
        r
    }
}

/// Why an operation cannot begin on the stored sandbox.
pub open spec fn begin_fault(op: Op, id: Seq<char>, current: Option<Sandbox>) -> Option<ErrorView> {
    match current {
        None => Some(ErrorView::NotFound("sandbox "@ + id)),
        Some(sb) => if op.starts_from(sb.state) || op.is_done_in(sb.state) {
            None
        } else {
            Some(
                ErrorView::Conflict("cannot "@ + op.verb() + " from "@ + sb.state.name()),
            )
        },
    }
}

/// Begin an operation on the stored sandbox: the record with the new state, or
/// nothing where there is nothing left to do. Billing stops with a stop, a parking
/// and a delete, before the runtime is asked, whether it then succeeds or not.
pub fn begin(op: Op, id: &str, current: Option<Sandbox>) -> (r: ApiResult<Option<Sandbox>>)
    ensures
        fault(r) == begin_fault(op, id@, current),
        r matches Ok(next) ==> {
            &&& current is Some
            &&& next == (if op.starts_from(current->Some_0.state) {
                Some(Sandbox { state: op.under_way(), ..current->Some_0 })
            } else {
                None
            })
        },
{
    match cas_sandbox(current, op.origins().as_slice(), only_state(op.transient())) {
        CasOutcome::Updated(s) => Ok(Some(s)),
        CasOutcome::Conflict(other) => {
            if op.done_in(other) {
                return Ok(None);
            }
            let mut m = concat3("cannot ", op.word(), " from ");
            m.append(other.as_str());
            Err(ApiError::Conflict(m))
        },
        CasOutcome::NotFound => Err(ApiError::NotFound(concat2("sandbox ", id))),
    }
}

/// Of two callers that begin the same operation one after the other, the second
/// does nothing to the sandbox.
pub proof fn law_operation_begins_once(op: Op, sb: Sandbox)
    requires
        op.starts_from(sb.state),
    ensures
        !op.starts_from((Sandbox { state: op.under_way(), ..sb }).state),
{
}

/// A stop, a parking and a resume move along the edges of the state machine, as
/// does a delete of a sandbox that runs, is stopped or is parked.
pub proof fn law_operations_follow_the_edges(op: Op, s: State)
    requires
        op.starts_from(s),
        op is Delete ==> s is Running || s is Stopped || s is Standby,
    ensures
        s.edge(op.under_way()),
{
}

/// A sandbox that is deleted cannot be stopped, parked or resumed again.
pub proof fn law_deleted_stays_deleted(op: Op, id: Seq<char>, sb: Sandbox)
    requires
        sb.state is Deleted || sb.state is Deleting,
    ensures
        !op.starts_from(sb.state),
        op is Delete || begin_fault(op, id, Some(sb)) == Some(
            ErrorView::Conflict("cannot "@ + op.verb() + " from "@ + sb.state.name()),
        ),
{
}

// ---------------------------------------------------------------------------
// The second transition
// ---------------------------------------------------------------------------

/// A text of an optional error.
pub open spec fn error_text(e: Option<String>) -> Option<Seq<char>> {
    match e {
        Some(m) => Some(m@),
        None => None,
    }
}

/// The record once the runtime has been asked to pause or to park.
pub open spec fn after_stopping(
    sb: Sandbox,
    next: Sandbox,
    target: State,
    what: Seq<char>,
    done: Result<u64, String>,
    now: Nanos,
) -> bool {
    &&& next == Sandbox { state: next.state, error: next.error, updated_at: now, ..sb }
    &&& match done {
        Ok(_) => next.state == target && next.error is None,
        Err(e) => next.state is Failed && error_text(next.error) == Some(what + " failed: "@ + e@),
    }
}

fn finish_stopping(
    current: Option<Sandbox>,
    target: State,
    what: &str,
    done: Result<u64, String>,
    now: Nanos,
) -> (r: Option<Sandbox>)
    ensures
        match current {
            Some(sb) if sb.state is Stopping => r matches Some(next) && after_stopping(
                sb,
                next,
                target,
                what@,
                done,
                now,
            ),
            _ => r is None,
        },
{
    let (state, error): (State, Option<String>) = match done {
        Ok(_) => (target, None),
        Err(e) => (State::Failed, Some(concat3(what, " failed: ", e.as_str()))),
    };
    let change = Change {
        state,
        error: Some(error),
        ready_ms: None,
        updated_at: Some(now),
        last_active_at: None,
    };
    let allowed: Vec<State> = vec![State::Stopping];
    assert(allowed@[0] == State::Stopping);
    match cas_sandbox(current, allowed.as_slice(), change) {
        CasOutcome::Updated(s) => Some(s),
        _ => None,
    }
}

/// Record how the pause of a stop went, unless another caller has moved the
/// sandbox on. A failed pause leaves it failed.
pub fn finish_stop(current: Option<Sandbox>, paused: Result<u64, String>, now: Nanos) -> (r: Option<
    Sandbox,
>)
    ensures
        match current {
            Some(sb) if sb.state is Stopping => r matches Some(next) && after_stopping(
                sb,
                next,
                State::Stopped,
                "pause"@,
                paused,
                now,
            ),
            _ => r is None,
        },
{
    finish_stopping(current, State::Stopped, "pause", paused, now)
}

/// Record how a parking went, unless another caller has moved the sandbox on.
pub fn finish_standby(current: Option<Sandbox>, parked: Result<u64, String>, now: Nanos) -> (r: Option<
    Sandbox,
>)
    ensures
        match current {
            Some(sb) if sb.state is Stopping => r matches Some(next) && after_stopping(
                sb,
                next,
                State::Standby,
                "standby"@,
                parked,
                now,
            ),
            _ => r is None,
        },
{
    finish_stopping(current, State::Standby, "standby", parked, now)
}

/// What the runtime is asked to do to wake a sandbox.
#[derive(Debug, Clone, Copy, PartialEq, Eq, Structural)]
pub enum Wake {
    /// Let a paused VM run on.
    Resume,
    /// Load a parked VM from its snapshot.
    Restore,
}

/// How a sandbox is woken: a parked one from its snapshot.
pub fn wake_of(before: State) -> (r: Wake)
    ensures
        r == (if before is Standby {
            Wake::Restore
        } else {
            Wake::Resume
        }),
{
    if before == State::Standby {
        Wake::Restore
    } else {
        Wake::Resume
    }
}

/// Does a request to the sandbox wake it? A parked one wakes by itself; a stopped
/// one is resumed on demand only.
pub fn wakes_on_request(s: State) -> (r: bool)
    ensures
        r == (s is Standby),
{
    s == State::Standby
}

/// The record once the runtime has been asked to wake the VM.
pub open spec fn after_waking(sb: Sandbox, next: Sandbox, woken: Result<u64, String>, now: Nanos) -> bool {
    match woken {
        Ok(ms) => next == Sandbox {
            state: State::Running,
            timings: Timings { ready_ms: ms, ..sb.timings },
            updated_at: now,
            last_active_at: now,
            ..sb
        },
        Err(e) => {
            &&& next == Sandbox { state: State::Failed, error: next.error, ..sb }
            &&& error_text(next.error) == Some("resume failed: "@ + e@)
        },
    }
}

/// Record how waking went, unless another caller has moved the sandbox on.
pub fn finish_resume(current: Option<Sandbox>, woken: Result<u64, String>, now: Nanos) -> (r: Option<
    Sandbox,
>)
    ensures
        match current {
            Some(sb) if sb.state is Resuming => r matches Some(next) && after_waking(
                sb,
                next,
                woken,
                now,
            ),
            _ => r is None,
        },
{
    let change = match woken {
        Ok(ms) => Change {
            state: State::Running,
            error: None,
            ready_ms: Some(ms),
            updated_at: Some(now),
            last_active_at: Some(now),
        },
        Err(e) => Change {
            state: State::Failed,
            error: Some(Some(concat2("resume failed: ", e.as_str()))),
            ready_ms: None,
            updated_at: None,
            last_active_at: None,
        },
    };
    let allowed: Vec<State> = vec![State::Resuming];
    assert(allowed@[0] == State::Resuming);
    match cas_sandbox(current, allowed.as_slice(), change) {
        CasOutcome::Updated(s) => Some(s),
        _ => None,
    }
}

/// Record that a delete is over, unless another caller has done so. The runtime's
/// part may have failed: the sandbox is gone for its user all the same.
pub fn finish_delete(current: Option<Sandbox>, now: Nanos) -> (r: Option<Sandbox>)
    ensures
        r == (match current {
            Some(sb) if sb.state is Deleting => Some(
                Sandbox { state: State::Deleted, updated_at: now, ..sb },
            ),
            _ => None,
        }),
{
    let change = Change {
        state: State::Deleted,
        error: None,
        ready_ms: None,
        updated_at: Some(now),
        last_active_at: None,
    };
    let allowed: Vec<State> = vec![State::Deleting];
    assert(allowed@[0] == State::Deleting);
    match cas_sandbox(current, allowed.as_slice(), change) {
        CasOutcome::Updated(s) => Some(s),
        _ => None,
    }
}

/// A parked sandbox comes back as it was: parked and woken without a fault, it
/// differs from before in its state, its error, its clock and the time the wake
/// took.
pub proof fn law_standby_is_transparent(
    sb: Sandbox,
    parked: Sandbox,
    woken: Sandbox,
    took: u64,
    ms: u64,
    t0: Nanos,
    t1: Nanos,
)
    requires
        sb.state is Running,
        after_stopping(
            Sandbox { state: State::Stopping, ..sb },
            parked,
            State::Standby,
            "standby"@,
            Ok(took),
            t0,
        ),
        after_waking(Sandbox { state: State::Resuming, ..parked }, woken, Ok(ms), t1),
    ensures
        woken == (Sandbox {
            error: woken.error,
            timings: Timings { ready_ms: ms, ..sb.timings },
            updated_at: t1,
            last_active_at: t1,
            ..sb
        }),
        woken.error is None,
{
}

// ---------------------------------------------------------------------------
// Snapshots, parking and forks
// ---------------------------------------------------------------------------

/// Why a sandbox may not be snapshotted: secrets in its memory would be stored
/// with it.
pub open spec fn snapshot_fault(sb: Sandbox) -> Option<ErrorView> {
    if sb.secret_names@.len() > 0 {
        Some(
            ErrorView::Conflict(
                "cannot snapshot a sandbox with resident secrets; remove secrets and retry"@,
            ),
        )
    } else {
        None
    }
}

/// May the sandbox be snapshotted?
pub fn check_snapshot(sb: &Sandbox) -> (r: ApiResult<()>)
    ensures
        fault(r) == snapshot_fault(*sb),
{
    if sb.secret_names.len() > 0 {
        return Err(
            ApiError::Conflict(
                String::from_str(
                    "cannot snapshot a sandbox with resident secrets; remove secrets and retry",
                ),
            ),
        );
    }
    Ok(())
}

/// Begin to park a sandbox. One with resident secrets is never parked.
pub fn standby_sandbox(id: &str, current: Option<Sandbox>) -> (r: ApiResult<Option<Sandbox>>)
    ensures
        fault(r) == (match current {
            Some(sb) if snapshot_fault(sb) is Some => snapshot_fault(sb),
            _ => begin_fault(Op::Park, id@, current),
        }),
        r matches Ok(next) ==> {
            &&& current is Some
            &&& next == (if Op::Park.starts_from(current->Some_0.state) {
                Some(Sandbox { state: State::Stopping, ..current->Some_0 })
            } else {
                None
            })
        },
{
    if let Some(sb) = &current {
        if let Err(e) = check_snapshot(sb) {
            return Err(e);
        }
    }
    begin(Op::Park, id, current)
}

/// The record of a snapshot that the runtime has taken.
pub fn snapshot_record(sb: &Sandbox, artifact: &SnapshotArtifact, now: Nanos) -> (r: Snapshot)
    ensures
        r.id@ == artifact.handle@,
        r.sandbox_id@ == sb.id@,
        r.org_id@ == sb.org_id@,
        r.image@ == sb.image@,
        r.created_at == now,
        r.storage_bytes == artifact.storage_bytes,
        r.handle@ == artifact.handle@,
{
    Snapshot {
        id: artifact.handle.clone(),
        sandbox_id: sb.id.clone(),
        org_id: sb.org_id.clone(),
        image: sb.image.clone(),
        created_at: now,
        storage_bytes: artifact.storage_bytes,
        handle: artifact.handle.clone(),
    }
}

/// Why a sandbox may not be forked: a sibling would share its secrets or its
/// volumes, or it does not run.
pub open spec fn fork_fault(sb: Sandbox) -> Option<ErrorView> {
    if sb.secret_names@.len() > 0 {
        Some(
            ErrorView::Conflict(
                "cannot fork a sandbox with resident secrets; remove secrets and retry"@,
            ),
        )
    } else if sb.volumes@.len() > 0 {
        Some(ErrorView::Conflict("cannot fork a sandbox with attached volumes"@))
    } else if !(sb.state is Running) {
        Some(ErrorView::Conflict("cannot fork from "@ + sb.state.name()))
    } else {
        None
    }
}

/// May the sandbox be forked?
pub fn check_fork(sb: &Sandbox) -> (r: ApiResult<()>)
    ensures
        fault(r) == fork_fault(*sb),
{
    if sb.secret_names.len() > 0 {
        return Err(
            ApiError::Conflict(
                String::from_str(
                    "cannot fork a sandbox with resident secrets; remove secrets and retry",
                ),
            ),
        );
    }
    if sb.volumes.len() > 0 {
        return Err(
            ApiError::Conflict(String::from_str("cannot fork a sandbox with attached volumes")),
        );
    }
    if sb.state != State::Running {
        return Err(ApiError::Conflict(concat2("cannot fork from ", sb.state.as_str())));
    }
    Ok(())
}

/// The VM that a fork of a sandbox is booted as: the same image and shape, and
/// nothing to set up, because the parent's memory holds it already.
pub fn fork_spec(parent: &Sandbox, image_key: &str, id: &str) -> (r: VmSpec)
    ensures
        r.sandbox_id@ == id@,
        r.org_id@ == parent.org_id@,
        r.image_key@ == image_key@,
        r.image_ref@ == parent.image@,
        r.resources == parent.resources,
        r.env@ == Map::<Seq<char>, Seq<char>>::empty(),
        r.secret_env@ == Map::<Seq<char>, Seq<char>>::empty(),
        r.browser == parent.browser,
        r.docker == parent.docker,
        r.coding_agent is None,
        r.mounts@.len() == 0,
        r.volumes@.len() == 0,
        r.files@.len() == 0,
        r.network@ == parent.network@,
{
    VmSpec {
        sandbox_id: String::from_str(id),
        org_id: parent.org_id.clone(),
        image_key: String::from_str(image_key),
        image_ref: parent.image.clone(),
        resources: parent.resources,
        env: EnvMap::new(),
        secret_env: EnvMap::new(),
        browser: parent.browser,
        docker: parent.docker,
        coding_agent: None,
        mounts: Vec::new(),
        volumes: Vec::new(),
        files: Vec::new(),
        network: parent.network.clone(),
    }
}

/// The record of a fork before it runs.
pub fn fork_record(parent: &Sandbox, id: &str, now: Nanos) -> (r: Sandbox)
    ensures
        r.id@ == id@,
        r.org_id@ == parent.org_id@,
        r.state is Creating,
        r.node_id == parent.node_id,
        r.image@ == parent.image@,
        r.resources == parent.resources,
        r.auto_stop_seconds == parent.auto_stop_seconds,
        r.snapshot_enabled == parent.snapshot_enabled,
        r.browser == parent.browser,
        r.startup is None,
        r.boot_path is Fork,
        r.timings == Timings::zero(),
        r.secret_names@.len() == 0,
        r.docker == parent.docker,
        r.coding_agent == parent.coding_agent,
        r.mounts@.len() == 0,
        r.volumes@.len() == 0,
        r.network@ == parent.network@,
        r.ports@.len() == 0,
        r.runtime_handle is None,
        r.error is None,
        r.created_at == now && r.updated_at == now && r.last_active_at == now,
{
    Sandbox {
        id: String::from_str(id),
        org_id: parent.org_id.clone(),
        state: State::Creating,
        node_id: parent.node_id.clone(),
        image: parent.image.clone(),
        resources: parent.resources,
        auto_stop_seconds: parent.auto_stop_seconds,
        snapshot_enabled: parent.snapshot_enabled,
        browser: parent.browser,
        startup: None,
        boot_path: BootPath::Fork,
        timings: Timings::default(),
        secret_names: Vec::new(),
        docker: parent.docker,
        coding_agent: parent.coding_agent.clone(),
        mounts: Vec::new(),
        volumes: Vec::new(),
        network: parent.network.clone(),
        ports: Vec::new(),
        runtime_handle: None,
        error: None,
        created_at: now,
        updated_at: now,
        last_active_at: now,
    }
}

// ---------------------------------------------------------------------------
// Volumes
// ---------------------------------------------------------------------------

/// Attach a volume to a sandbox; says whether it was free.
pub fn attach_volume(v: &mut Volume, sandbox_id: &str, now: Nanos) -> (r: bool)
    ensures
        r == old(v).attached_to is None,
        r ==> error_text(final(v).attached_to) == Some(sandbox_id@) && *final(v) == (Volume {
            attached_to: final(v).attached_to,
            updated_at: now,
            ..*old(v)
        }),
        !r ==> *final(v) == *old(v),
{
    if v.attached_to.is_some() {
        return false;
    }
    v.attached_to = Some(String::from_str(sandbox_id));
    v.updated_at = now;
    true
}

/// Detach a volume from a sandbox that goes away; says whether it was attached to
/// that one. What is on the volume stays.
pub fn detach_volume(v: &mut Volume, sandbox_id: &str, now: Nanos) -> (r: bool)
    ensures
        r == (error_text(old(v).attached_to) == Some(sandbox_id@)),
        r ==> *final(v) == (Volume { attached_to: None, updated_at: now, ..*old(v) }),
        !r ==> *final(v) == *old(v),
{
    let held = match &v.attached_to {
        Some(s) => same(s.as_str(), sandbox_id),
        None => false,
    };
    if held {
        v.attached_to = None;
        v.updated_at = now;
    }
    held
}

// ---------------------------------------------------------------------------
// Accounting and activity
// ---------------------------------------------------------------------------

/// Draw the org's balance down by everything it was metered for.
pub fn recompute_org_spend(org: &mut Org, intervals: &Vec<UsageInterval>, now: Nanos)
    ensures
        *final(org) == (Org { spent: bounded(total_cost(intervals@, now)) as i128, ..*old(org) }),
{
    org.spent = metered_cost(intervals, now);
}

/// Note activity, so that the idle detector leaves the sandbox alone. Nothing
/// else of the record changes.
pub fn touch_activity(sb: &mut Sandbox, now: Nanos)
    ensures
        *final(sb) == (Sandbox { last_active_at: now, ..*old(sb) }),
{
    sb.last_active_at = now;
}

} // verus!
