//! What a sandbox's state may become, who brings it about, and what the record keeps
//! meanwhile.

use crate::auth::AuthContext;
use crate::error::{ApiError, ApiResult};
use crate::lifecycle::State;
use crate::model::{BootPath, Sandbox};
use crate::nodes::Nanos;
use crate::runtime::{SnapshotArtifact, VmSpec};
use crate::service::{
    begin, check_fork, check_snapshot, finish_delete, finish_resume, finish_standby, finish_stop,
    fork_record, fork_spec, load_owned, owned_sandbox, snapshot_record, standby_sandbox, wake_of,
    wakes_on_request, Op, Wake,
};
use crate::store::Snapshot;
use vstd::prelude::*;
use vstd::string::*;

verus! {

// ---------------------------------------------------------------------------
// The states
// ---------------------------------------------------------------------------

/// What leads to each state: a sandbox runs after it was created or resumed; it fails
/// while it holds a VM; it is stopped or parked by way of stopping, resumed from there,
/// and deleted by way of deleting. Nothing leads back to its creation.
pub proof fn law_what_leads_to_a_state(from: State, to: State, r: bool)
    requires
        call_ensures(State::can_transition_to, (&from, to), r),
    ensures
        to is Creating ==> !r,
        to is Running ==> (r <==> from is Creating || from is Resuming),
        to is Failed ==> (r <==> from is Creating || from is Running || from is Resuming),
        to is Stopping ==> (r <==> from is Running),
        to is Stopped || to is Standby ==> (r <==> from is Stopping),
        to is Resuming ==> (r <==> from is Stopped || from is Standby),
        to is Deleting ==> (r <==> from is Running || from is Stopped || from is Standby),
        to is Deleted ==> (r <==> from is Deleting),
{
}

/// Memory and CPU are held from the creation to the stop, and from the resume on. The
/// states that nothing leads out of are those of a deleted and of a failed sandbox.
pub proof fn law_active_and_terminal(s: State, active: bool, terminal: bool)
    requires
        call_ensures(State::is_active, (&s,), active),
        call_ensures(State::is_terminal, (&s,), terminal),
    ensures
        active <==> s is Running || s.edge(State::Running),
        terminal <==> forall|next: State| !s.edge(next),
        active ==> !terminal,
{
    assert(s is Creating ==> s.edge(State::Running));
    assert(s is Running ==> s.edge(State::Stopping));
    assert(s is Stopping ==> s.edge(State::Stopped));
    assert(s is Stopped ==> s.edge(State::Resuming));
    assert(s is Standby ==> s.edge(State::Resuming));
    assert(s is Resuming ==> s.edge(State::Running));
    assert(s is Deleting ==> s.edge(State::Deleted));
}

/// A state is read back from the word it is written as, and that word is its name.
pub proof fn law_states_are_written_and_read(s: State, word: &str, read: Option<State>)
    requires
        call_ensures(State::as_str, (&s,), word),
        call_ensures(State::parse, (word,), read),
    ensures
        s is Creating <==> word@ == "creating"@,
        s is Running <==> word@ == "running"@,
        s is Stopping <==> word@ == "stopping"@,
        s is Stopped <==> word@ == "stopped"@,
        s is Standby <==> word@ == "standby"@,
        s is Resuming <==> word@ == "resuming"@,
        s is Deleting <==> word@ == "deleting"@,
        s is Deleted <==> word@ == "deleted"@,
        s is Failed <==> word@ == "failed"@,
        read matches Some(t) ==> t == s,
{
    crate::lifecycle::law_names_are_distinct(s, s);
    assert forall|t: State| #[trigger] t.name() == s.name() implies t == s by {
        crate::lifecycle::law_names_are_distinct(t, s);
    }
    assert(State::Creating.name() == "creating"@);
    assert(State::Running.name() == "running"@);
    assert(State::Stopping.name() == "stopping"@);
    assert(State::Stopped.name() == "stopped"@);
    assert(State::Standby.name() == "standby"@);
    assert(State::Resuming.name() == "resuming"@);
    assert(State::Deleting.name() == "deleting"@);
    assert(State::Deleted.name() == "deleted"@);
    assert(State::Failed.name() == "failed"@);
}

// ---------------------------------------------------------------------------
// Beginning an operation
// ---------------------------------------------------------------------------

/// Only the state of the record differs, and it is this one.
pub open spec fn moved_to(before: Sandbox, after: Sandbox, s: State) -> bool {
    after.state == s && before == (Sandbox { state: before.state, ..after })
}

/// The operation began and moved the record to a state.
pub open spec fn begun(r: ApiResult<Option<Sandbox>>, before: Sandbox, s: State) -> bool {
    r matches Ok(Some(after)) && moved_to(before, after, s)
}

/// There was nothing left to do.
pub open spec fn was_done(r: ApiResult<Option<Sandbox>>) -> bool {
    r matches Ok(None)
}

/// The operation was refused: it conflicts with what the sandbox is doing.
pub open spec fn conflicts(r: ApiResult<Option<Sandbox>>, text: Seq<char>) -> bool {
    r matches Err(ApiError::Conflict(m)) && m@ == text
}

/// A running sandbox is stopped. One that is stopped or being stopped needs nothing, and
/// any other cannot be.
pub proof fn law_stop_begins(id: &str, sb: Sandbox, r: ApiResult<Option<Sandbox>>)
    requires
        call_ensures(begin, (Op::Stop, id, Some(sb)), r),
    ensures
        sb.state is Running ==> begun(r, sb, State::Stopping),
        sb.state is Stopped || sb.state is Stopping ==> was_done(r),
        !(sb.state is Running || sb.state is Stopped || sb.state is Stopping) ==> conflicts(
            r,
            "cannot "@ + "stop"@ + " from "@ + sb.state.name(),
        ),
{
}

/// A stopped or a parked sandbox is resumed, and no other.
pub proof fn law_resume_begins(id: &str, sb: Sandbox, r: ApiResult<Option<Sandbox>>)
    requires
        call_ensures(begin, (Op::Resume, id, Some(sb)), r),
    ensures
        sb.state is Stopped || sb.state is Standby ==> begun(r, sb, State::Resuming),
        !(sb.state is Stopped || sb.state is Standby) ==> conflicts(
            r,
            "cannot "@ + "resume"@ + " from "@ + sb.state.name(),
        ),
{
}

/// A sandbox can be deleted in any state, and a second time there is nothing to do.
pub proof fn law_delete_begins(id: &str, sb: Sandbox, r: ApiResult<Option<Sandbox>>)
    requires
        call_ensures(begin, (Op::Delete, id, Some(sb)), r),
    ensures
        sb.state is Deleting || sb.state is Deleted ==> was_done(r),
        !(sb.state is Deleting || sb.state is Deleted) ==> begun(r, sb, State::Deleting),
{
}

/// A running sandbox is parked, unless it holds secrets: its memory would be written to
/// disk with them.
pub proof fn law_parking_begins(id: &str, sb: Sandbox, r: ApiResult<Option<Sandbox>>)
    requires
        call_ensures(standby_sandbox, (id, Some(sb)), r),
    ensures
        sb.secret_names@.len() > 0 ==> r matches Err(ApiError::Conflict(_)),
        sb.secret_names@.len() == 0 && sb.state is Running ==> begun(r, sb, State::Stopping),
        sb.secret_names@.len() == 0 && (sb.state is Standby || sb.state is Stopping) ==> was_done(
            r,
        ),
        sb.secret_names@.len() == 0 && !(sb.state is Running || sb.state is Standby
            || sb.state is Stopping) ==> conflicts(
            r,
            "cannot "@ + "park"@ + " from "@ + sb.state.name(),
        ),
{
}

/// Nothing begins on a sandbox that does not exist.
pub proof fn law_nothing_begins_on_nothing(op: Op, id: &str, r: ApiResult<Option<Sandbox>>)
    requires
        call_ensures(begin, (op, id, None), r),
    ensures
        r matches Err(ApiError::NotFound(m)) && m@ == "sandbox "@ + id@,
{
}

/// Of two that begin the same operation, one after the other, only the first moves the
/// sandbox.
pub proof fn law_second_caller_moves_nothing(
    op: Op,
    id: &str,
    sb: Sandbox,
    next: Sandbox,
    first: ApiResult<Option<Sandbox>>,
    second: ApiResult<Option<Sandbox>>,
)
    requires
        call_ensures(begin, (op, id, Some(sb)), first),
        first matches Ok(Some(n)) && n == next,
        call_ensures(begin, (op, id, Some(next)), second),
    ensures
        !(second matches Ok(Some(_))),
        !(op is Resume) ==> was_done(second),
{
}

// ---------------------------------------------------------------------------
// Ending an operation
// ---------------------------------------------------------------------------

/// An optional text, by its characters.
pub open spec fn says(e: Option<String>, text: Seq<char>) -> bool {
    e matches Some(m) && m@ == text
}

/// The record keeps everything but its state, its error and the time of its last change.
pub open spec fn keeps_the_rest(before: Sandbox, after: Sandbox, now: Nanos) -> bool {
    after.updated_at == now && before == (Sandbox {
        state: before.state,
        error: before.error,
        updated_at: before.updated_at,
        ..after
    })
}

/// A stop ends with a stopped sandbox, a parking with a parked one, and either with a
/// failed one where the runtime failed, with the cause. One that is no longer being
/// stopped is left alone.
pub proof fn law_stopping_ends(
    sb: Sandbox,
    done: Result<u64, String>,
    now: Nanos,
    stop: Option<Sandbox>,
    park: Option<Sandbox>,
)
    requires
        call_ensures(finish_stop, (Some(sb), done, now), stop),
        call_ensures(finish_standby, (Some(sb), done, now), park),
    ensures
        stop is Some <==> sb.state is Stopping,
        park is Some <==> sb.state is Stopping,
        stop matches Some(after) ==> {
            &&& keeps_the_rest(sb, after, now)
            &&& done is Ok ==> after.state is Stopped && after.error is None
            &&& done matches Err(e) ==> after.state is Failed && says(
                after.error,
                "pause"@ + " failed: "@ + e@,
            )
        },
        park matches Some(after) ==> {
            &&& keeps_the_rest(sb, after, now)
            &&& done is Ok ==> after.state is Standby && after.error is None
            &&& done matches Err(e) ==> after.state is Failed && says(
                after.error,
                "standby"@ + " failed: "@ + e@,
            )
        },
{
}

/// A resume ends with a running sandbox that counts as just used, with the time that it
/// took, or with a failed one and the cause. One that is no longer being resumed is left
/// alone.
pub proof fn law_resuming_ends(
    sb: Sandbox,
    woken: Result<u64, String>,
    now: Nanos,
    r: Option<Sandbox>,
)
    requires
        call_ensures(finish_resume, (Some(sb), woken, now), r),
    ensures
        r is Some <==> sb.state is Resuming,
        r matches Some(after) ==> {
            &&& after.id == sb.id && after.org_id == sb.org_id && after.resources == sb.resources
            &&& after.runtime_handle == sb.runtime_handle && after.network == sb.network
            &&& after.secret_names == sb.secret_names && after.volumes == sb.volumes
            &&& woken matches Ok(ms) ==> {
                &&& after.state is Running
                &&& after.timings.ready_ms == ms
                &&& after.timings.boot_ms == sb.timings.boot_ms
                &&& after.updated_at == now && after.last_active_at == now
                &&& after.error == sb.error
            }
            &&& woken matches Err(e) ==> {
                &&& after.state is Failed
                &&& says(after.error, "resume failed: "@ + e@)
                &&& after.timings == sb.timings && after.last_active_at == sb.last_active_at
            }
        },
{
}

/// A delete ends with a deleted sandbox; one that is not being deleted is left alone.
pub proof fn law_deleting_ends(sb: Sandbox, now: Nanos, r: Option<Sandbox>)
    requires
        call_ensures(finish_delete, (Some(sb), now), r),
    ensures
        r is Some <==> sb.state is Deleting,
        r matches Some(after) ==> after.state is Deleted && after.error == sb.error
            && keeps_the_rest(sb, after, now),
{
}

/// No operation ends on a sandbox that does not exist.
pub proof fn law_nothing_ends_on_nothing(
    done: Result<u64, String>,
    now: Nanos,
    a: Option<Sandbox>,
    b: Option<Sandbox>,
    c: Option<Sandbox>,
    d: Option<Sandbox>,
)
    requires
        call_ensures(finish_stop, (None, done, now), a),
        call_ensures(finish_standby, (None, done, now), b),
        call_ensures(finish_resume, (None, done, now), c),
        call_ensures(finish_delete, (None, now), d),
    ensures
        a is None && b is None && c is None && d is None,
{
}

/// A parked sandbox wakes from its snapshot and by itself; a stopped one is let run on,
/// when somebody asks for it.
pub proof fn law_waking(s: State, how: Wake, itself: bool)
    requires
        call_ensures(wake_of, (s,), how),
        call_ensures(wakes_on_request, (s,), itself),
    ensures
        how is Restore <==> s is Standby,
        itself <==> s is Standby,
{
}

// ---------------------------------------------------------------------------
// Whose sandbox it is
// ---------------------------------------------------------------------------

/// A caller gets at a sandbox exactly when it exists and is the caller's org's, or when
/// the caller is an admin. Whatever else it is, it reads as not found.
pub proof fn law_own_sandboxes_only(
    ctx: AuthContext,
    id: &str,
    found: Option<Sandbox>,
    r: ApiResult<Sandbox>,
)
    requires
        call_ensures(load_owned, (&ctx, id, Ok(found)), r),
    ensures
        match found {
            Some(sb) if sb.org_id@ == ctx.org_id@ || ctx.admin => r == Ok::<Sandbox, ApiError>(sb),
            _ => r matches Err(ApiError::NotFound(m)) && m@ == "sandbox "@ + id@,
        },
{
}

/// The dashboard of an org gets at its own sandboxes only.
pub proof fn law_dashboard_shows_own_sandboxes(
    org: &str,
    id: &str,
    found: Option<Sandbox>,
    r: ApiResult<Sandbox>,
)
    requires
        call_ensures(owned_sandbox, (org, id, Ok(found)), r),
    ensures
        match found {
            Some(sb) if sb.org_id@ == org@ => r == Ok::<Sandbox, ApiError>(sb),
            _ => r matches Err(ApiError::NotFound(m)) && m@ == "sandbox "@ + id@,
        },
{
}

/// A store that cannot be read is reported as such, to owners and admins alike.
pub proof fn law_unreadable_store(
    ctx: AuthContext,
    org: &str,
    id: &str,
    why: String,
    a: ApiResult<Sandbox>,
    b: ApiResult<Sandbox>,
)
    requires
        call_ensures(load_owned, (&ctx, id, Err(why)), a),
        call_ensures(owned_sandbox, (org, id, Err(why)), b),
    ensures
        a matches Err(ApiError::Internal(m)) && m@ == why@,
        b matches Err(ApiError::Internal(m)) && m@ == why@,
{
}

// ---------------------------------------------------------------------------
// Snapshots and forks
// ---------------------------------------------------------------------------

/// A sandbox is snapshotted exactly when it holds no secrets, and forked exactly when it
/// runs and has neither secrets nor volumes to share.
pub proof fn law_what_may_be_copied(sb: Sandbox, snapshot: ApiResult<()>, fork: ApiResult<()>)
    requires
        call_ensures(check_snapshot, (&sb,), snapshot),
        call_ensures(check_fork, (&sb,), fork),
    ensures
        snapshot is Ok <==> sb.secret_names@.len() == 0,
        fork is Ok <==> sb.secret_names@.len() == 0 && sb.volumes@.len() == 0
            && sb.state is Running,
        snapshot matches Err(e) ==> e is Conflict,
        fork matches Err(e) ==> e is Conflict,
{
}

/// The record of a snapshot says what it is a snapshot of, whose it is, how large it is
/// and under which handle the runtime finds it.
pub proof fn law_snapshot_record(
    sb: Sandbox,
    artifact: SnapshotArtifact,
    now: Nanos,
    r: Snapshot,
)
    requires
        call_ensures(snapshot_record, (&sb, &artifact, now), r),
    ensures
        r.sandbox_id@ == sb.id@ && r.org_id@ == sb.org_id@ && r.image@ == sb.image@,
        r.handle@ == artifact.handle@ && r.id@ == artifact.handle@,
        r.storage_bytes == artifact.storage_bytes && r.created_at == now,
{
}

/// A fork is booted as its parent was, under its own name, with nothing to set up: no
/// environment, no secrets, no files, no mounts and no volumes.
pub proof fn law_fork_is_booted_as_its_parent(
    parent: Sandbox,
    image_key: &str,
    id: &str,
    r: VmSpec,
)
    requires
        call_ensures(fork_spec, (&parent, image_key, id), r),
    ensures
        r.sandbox_id@ == id@ && r.org_id@ == parent.org_id@,
        r.image_key@ == image_key@ && r.image_ref@ == parent.image@,
        r.resources == parent.resources && r.browser == parent.browser,
        r.docker == parent.docker && r.network@ == parent.network@,
        forall|k: Seq<char>| !(#[trigger] r.env@.dom().contains(k)),
        forall|k: Seq<char>| !(#[trigger] r.secret_env@.dom().contains(k)),
        r.coding_agent is None && r.mounts@.len() == 0 && r.volumes@.len() == 0,
        r.files@.len() == 0,
{
}

/// The record of a fork is its parent's, under its own name and as new: it runs no
/// recipe, has no ports, no secrets, no volumes and no VM yet.
pub proof fn law_fork_is_recorded_as_new(parent: Sandbox, id: &str, now: Nanos, r: Sandbox)
    requires
        call_ensures(fork_record, (&parent, id, now), r),
    ensures
        r.id@ == id@ && r.org_id@ == parent.org_id@ && r.node_id == parent.node_id,
        r.image@ == parent.image@ && r.resources == parent.resources,
        r.auto_stop_seconds == parent.auto_stop_seconds,
        r.snapshot_enabled == parent.snapshot_enabled && r.browser == parent.browser,
        r.docker == parent.docker && r.coding_agent == parent.coding_agent,
        r.network@ == parent.network@,
        r.state is Creating && r.boot_path == BootPath::Fork && r.startup is None,
        r.runtime_handle is None && r.error is None,
        r.ports@.len() == 0 && r.secret_names@.len() == 0 && r.volumes@.len() == 0
            && r.mounts@.len() == 0,
        r.timings.boot_ms == 0 && r.timings.total_ms == 0,
        r.created_at == now && r.updated_at == now && r.last_active_at == now,
{
}

} // verus!
