//! What is done with sandboxes that nobody asks for: idle ones, those whose org has no
//! credit left, and those that a restart has cut off. And what is metered meanwhile.

use crate::background::{
    balloon_step, credit_used_up, idle_step, in_use, is_expired, longest_idle, may_be_parked,
    pick_pressure_victim, stops_for_credit, under_pressure, watches_balloons, watches_pressure,
    BalloonStep, IdleStep,
};
use crate::catalog::ImageClass;
use crate::config::{CapacityConfig, RuntimeConfig, StandbyConfig};
use crate::create::{
    booted, browser_ports, clone_command, clone_error, command_requests, new_interval,
};
use crate::images::{CustomImage, ImageStatus};
use crate::laws::money::apart;
use crate::lifecycle::State;
use crate::model::{GitSpec, Sandbox, StartupRecipe};
use crate::nodes::Nanos;
use crate::pricing::{units, PricingConfig};
use crate::runtime::{ExecRequest, ExecResult, VmInstance};
use crate::store::{
    active_memory, active_among, answers, cas_sandbox, closed_at, has_open, reconcile_interrupted,
    reconcile_interrupted_exec_job, runs_job, CasOutcome, Change, ExecJob, ExecJobState,
};
use crate::usage::{live_balance_usd, metered_cost, total_cost, Org, UsageInterval, COST_LIMIT};
use vstd::prelude::*;
use vstd::string::*;

verus! {

// ---------------------------------------------------------------------------
// Idle sandboxes
// ---------------------------------------------------------------------------

/// A sandbox is put away exactly when it runs, has not been used for at least its
/// window and runs no command. It is parked where parking is enabled and it holds no
/// secrets, and stopped otherwise.
pub proof fn law_idle_sandboxes_are_put_away(
    sb: Sandbox,
    jobs: Vec<ExecJob>,
    standby: bool,
    now: Nanos,
    r: IdleStep,
)
    requires
        call_ensures(idle_step, (&sb, &jobs, standby, now), r),
        sb.last_active_at <= now,
    ensures
        r != IdleStep::Keep <==> {
            &&& sb.state == State::Running
            &&& now - sb.last_active_at >= sb.auto_stop_seconds * 1_000_000_000
            &&& forall|i: int|
                0 <= i < jobs@.len() ==> (#[trigger] jobs@[i]).sandbox_id@ != sb.id@
                    || jobs@[i].state != ExecJobState::Running
        },
        r == IdleStep::Standby ==> standby && sb.secret_names@.len() == 0,
        r == IdleStep::Stop ==> !standby || sb.secret_names@.len() > 0,
{
    if runs_job(jobs@, sb.id@) {
        let i = choose|i: int|
            0 <= i < jobs@.len() && (#[trigger] jobs@[i]).sandbox_id@ == sb.id@ && jobs@[i].state
                == ExecJobState::Running;
        assert(jobs@[i].sandbox_id@ == sb.id@);
    }
}

/// Guest memory is reclaimed from a running VM that has been idle for the window, down
/// to what the guest keeps, and given back once it is used again; a sandbox that does
/// not run is forgotten.
pub proof fn law_idle_memory_is_reclaimed(
    sb: Sandbox,
    ballooned: bool,
    window: u64,
    now: Nanos,
    r: BalloonStep,
)
    requires
        call_ensures(balloon_step, (&sb, ballooned, window, now), r),
        sb.last_active_at <= now,
        window <= i64::MAX,
    ensures
        r == BalloonStep::Forget <==> sb.state != State::Running,
        r is Inflate <==> sb.state == State::Running && sb.runtime_handle is Some && !ballooned
            && now - sb.last_active_at >= window * 1_000_000_000,
        r == BalloonStep::Deflate <==> sb.state == State::Running && sb.runtime_handle is Some
            && ballooned && now - sb.last_active_at < window * 1_000_000_000,
        r matches BalloonStep::Inflate(mb) ==> (sb.resources.memory_mb >= 384 ==> mb + 384
            == sb.resources.memory_mb) && (sb.resources.memory_mb < 384 ==> mb == 0),
{
}

/// Under memory pressure the sandbox goes that was used longest ago, among those that
/// run, hold no secrets and run no command.
pub proof fn law_pressure_takes_the_longest_idle(
    active: Vec<Sandbox>,
    jobs: Vec<ExecJob>,
    v: usize,
    k: int,
)
    requires
        call_ensures(pick_pressure_victim, (&active, &jobs), Some(v)),
        0 <= k < active@.len(),
        active@[k].state == State::Running,
        active@[k].secret_names@.len() == 0,
        forall|i: int|
            0 <= i < jobs@.len() ==> (#[trigger] jobs@[i]).sandbox_id@ != active@[k].id@
                || jobs@[i].state != ExecJobState::Running,
    ensures
        v < active@.len(),
        active@[v as int].state == State::Running,
        active@[v as int].secret_names@.len() == 0,
        active@[v as int].last_active_at <= active@[k].last_active_at,
{
    assert(!runs_job(jobs@, active@[k].id@));
    assert(may_be_parked(active@[k], jobs@));
    assert(longest_idle(active@, jobs@, v as int));
}

/// Who may be parked ahead of time: a running sandbox without secrets and commands.
pub proof fn law_who_may_be_parked(sb: Sandbox, jobs: Seq<ExecJob>)
    ensures
        may_be_parked(sb, jobs) <==> {
            &&& sb.state == State::Running
            &&& sb.secret_names@.len() == 0
            &&& forall|i: int|
                0 <= i < jobs.len() ==> (#[trigger] jobs[i]).sandbox_id@ != sb.id@ || jobs[i].state
                    != ExecJobState::Running
        },
{
    if runs_job(jobs, sb.id@) {
        let i = choose|i: int|
            0 <= i < jobs.len() && (#[trigger] jobs[i]).sandbox_id@ == sb.id@ && jobs[i].state
                == ExecJobState::Running;
        assert(jobs[i].sandbox_id@ == sb.id@);
    }
}

/// When sandboxes are watched for pressure and for idle memory, and when memory counts
/// as short.
pub proof fn law_what_is_watched(
    capacity: CapacityConfig,
    standby: StandbyConfig,
    runtime: RuntimeConfig,
    stalled: u64,
    a: bool,
    b: bool,
    c: bool,
)
    requires
        call_ensures(watches_pressure, (&capacity, &standby), a),
        call_ensures(watches_balloons, (&standby, &runtime), b),
        call_ensures(under_pressure, (&capacity, stalled), c),
    ensures
        a <==> standby.enabled && capacity.psi_standby_threshold_milli > 0,
        b <==> runtime.balloon && standby.balloon_idle_seconds > 0,
        c <==> capacity.psi_standby_threshold_milli <= stalled,
{
}

// ---------------------------------------------------------------------------
// Credit
// ---------------------------------------------------------------------------

/// An org's sandboxes are stopped for want of credit exactly when what it was charged,
/// open intervals included, has reached what it has paid; the operator's own org's
/// never are.
pub proof fn law_credit_runs_out(
    org: Org,
    ivs: Vec<UsageInterval>,
    admin_org: &str,
    now: Nanos,
    r: bool,
    balance: i128,
)
    requires
        call_ensures(credit_used_up, (&org, &ivs, admin_org, now), r),
        call_ensures(live_balance_usd, (&org, &ivs, now), balance),
        total_cost(ivs@, now) <= COST_LIMIT,
    ensures
        r <==> org.id@ != admin_org@ && balance <= 0,
        balance + total_cost(ivs@, now) == org.prepaid_credits,
{
}

/// What is metered is the exact sum, up to the largest amount that can be held.
pub proof fn law_metered_cost_is_the_sum(ivs: Vec<UsageInterval>, now: Nanos, r: i128)
    requires
        call_ensures(metered_cost, (&ivs, now), r),
    ensures
        total_cost(ivs@, now) <= COST_LIMIT ==> r == total_cost(ivs@, now),
        total_cost(ivs@, now) > COST_LIMIT ==> r == COST_LIMIT,
{
}

/// Of the sandboxes, those of the org that run are stopped.
pub proof fn law_who_stops_for_credit(sb: Sandbox, org_id: &str, r: bool)
    requires
        call_ensures(stops_for_credit, (&sb, org_id), r),
    ensures
        r <==> sb.org_id@ == org_id@ && sb.state == State::Running,
{
}

/// A sandbox is metered under its own name, its own shape and its own image, at the
/// price of the day, from now on and until further notice.
pub proof fn law_metering_is_of_the_sandbox(
    cfg: PricingConfig,
    sb: Sandbox,
    id: String,
    now: Nanos,
    r: UsageInterval,
)
    requires
        call_ensures(new_interval, (&cfg, &sb, id, now), r),
    ensures
        r.sandbox_id@ == sb.id@ && r.org_id@ == sb.org_id@ && r.resources == sb.resources,
        r.started_at == now && r.ended_at is None,
        r.unit_price_nano_usd_hr == cfg.default_unit_price_nano_usd_hr,
        2 * apart(r.resource_units_e4 * 256_000, units(sb.resources) * 10_000) <= 256_000,
        exists|c: ImageClass|
            (c.named(sb.image@) || (c == ImageClass::Base && !crate::catalog::known_image(
                sb.image@,
            ))) && #[trigger] cfg.multiplier(c) == r.image_multiplier_milli && c.key_text()
                == r.image_key@,
{
    crate::laws::money::lemma_nearest_is_near(units(sb.resources) * 10_000, 256_000);
    let c = choose|c: ImageClass| #[trigger]
        crate::create::priced_as(c, sb.image@) && r.image_key@ == c.key_text()
            && r.image_multiplier_milli == cfg.multiplier(c);
    assert(cfg.multiplier(c) == r.image_multiplier_milli);
}

/// Closing a sandbox's meter ends its open intervals at that moment and touches
/// nothing else: neither closed intervals nor those of others.
pub proof fn law_closing_is_exact(ivs: Seq<UsageInterval>, id: Seq<char>, end: Nanos, i: int)
    requires
        0 <= i < ivs.len(),
    ensures
        closed_at(ivs, id, end).len() == ivs.len(),
        ivs[i].sandbox_id@ != id ==> closed_at(ivs, id, end)[i] == ivs[i],
        ivs[i].ended_at is Some ==> closed_at(ivs, id, end)[i] == ivs[i],
        ivs[i].sandbox_id@ == id && ivs[i].ended_at is None ==> closed_at(ivs, id, end)[i] == (
        UsageInterval { ended_at: Some(end), ..ivs[i] }),
{
}

/// A sandbox is being metered if some interval of its is open.
pub proof fn law_open_meter(ivs: Seq<UsageInterval>, id: Seq<char>)
    ensures
        has_open(ivs, id) <==> exists|i: int|
            0 <= i < ivs.len() && (#[trigger] ivs[i]).sandbox_id@ == id && ivs[i].ended_at is None,
{
    if has_open(ivs, id) {
        let i = choose|i: int| 0 <= i < ivs.len() && #[trigger] crate::store::open_for(ivs[i], id);
        assert(ivs[i].sandbox_id@ == id);
    }
    if exists|i: int|
        0 <= i < ivs.len() && (#[trigger] ivs[i]).sandbox_id@ == id && ivs[i].ended_at is None {
        let i = choose|i: int|
            0 <= i < ivs.len() && (#[trigger] ivs[i]).sandbox_id@ == id && ivs[i].ended_at is None;
        assert(crate::store::open_for(ivs[i], id));
    }
}

// ---------------------------------------------------------------------------
// Records
// ---------------------------------------------------------------------------

/// A change of a stored sandbox happens in the states that allow it, and in no other;
/// it changes the state, and of the rest only what it names.
pub proof fn law_change_is_guarded(
    sb: Sandbox,
    allowed: &[State],
    change: Change,
    r: CasOutcome,
)
    requires
        call_ensures(cas_sandbox, (Some(sb), allowed, change), r),
    ensures
        r is Updated <==> allowed@.contains(sb.state),
        r !is NotFound,
        r matches CasOutcome::Conflict(s) ==> s == sb.state,
        r matches CasOutcome::Updated(u) ==> {
            &&& u.state == change.state
            &&& change.error is None ==> u.error == sb.error
            &&& change.error matches Some(e) ==> u.error == e
            &&& change.updated_at is None ==> u.updated_at == sb.updated_at
            &&& change.updated_at matches Some(t) ==> u.updated_at == t
            &&& change.last_active_at is None ==> u.last_active_at == sb.last_active_at
            &&& change.last_active_at matches Some(t) ==> u.last_active_at == t
            &&& change.ready_ms is None ==> u.timings == sb.timings
            &&& change.ready_ms matches Some(ms) ==> u.timings.ready_ms == ms
            &&& u.id == sb.id && u.org_id == sb.org_id && u.image == sb.image && u.resources
                == sb.resources && u.runtime_handle == sb.runtime_handle && u.node_id
                == sb.node_id && u.volumes == sb.volumes && u.network == sb.network
                && u.created_at == sb.created_at
        },
{
}

/// After a restart of the control plane, what was in the middle of something or ran has
/// failed; what was stopped, parked, failed or deleted is left as it is.
pub proof fn law_restart_fails_the_interrupted(sb: Sandbox, now: Nanos, r: Option<Sandbox>)
    requires
        call_ensures(reconcile_interrupted, (sb, now), r),
    ensures
        r is Some <==> sb.state == State::Creating || sb.state == State::Running || sb.state
            == State::Resuming || sb.state == State::Stopping,
        r matches Some(s) ==> s.state == State::Failed && s.error is Some && s.id == sb.id
            && s.org_id == sb.org_id && s.updated_at == now,
{
}

/// A command that ran when the control plane went down has failed; one that was over is
/// left as it is.
pub proof fn law_restart_fails_running_commands(job: ExecJob, now: Nanos, r: Option<ExecJob>)
    requires
        call_ensures(reconcile_interrupted_exec_job, (job, now), r),
    ensures
        r is Some <==> job.state == ExecJobState::Running,
        r matches Some(j) ==> j.state == ExecJobState::Failed && j.finished_at == Some(now) && j.id
            == job.id && j.sandbox_id == job.sandbox_id && j.error is Some,
{
}

/// A published image answers a reference to its name, and to its name and version; one
/// that is not published, or has another name or another version, does not.
pub proof fn law_references_name_published_images(img: CustomImage, other: Seq<char>)
    requires
        !img.name@.contains(':'),
        !img.version@.contains(':'),
    ensures
        answers(img, img.name@) <==> img.status == ImageStatus::Ready,
        answers(img, img.name@ + seq![':'] + img.version@) <==> img.status == ImageStatus::Ready,
        other != img.name@ && !other.contains(':') ==> !answers(img, other),
        other != img.version@ && !other.contains(':') ==> !answers(
            img,
            img.name@ + seq![':'] + other,
        ),
{
    let full = img.name@ + seq![':'] + img.version@;
    let wrong = img.name@ + seq![':'] + other;
    assert(full[img.name@.len() as int] == ':');
    assert(wrong[img.name@.len() as int] == ':');
    lemma_asked_for(img.name@, img.name@, img.version@);
    lemma_asked_for(full, img.name@, img.version@);
    if !other.contains(':') {
        lemma_asked_for(other, other, img.version@);
        lemma_asked_for(wrong, img.name@, other);
    }
}

proof fn lemma_asked_for(reference: Seq<char>, name: Seq<char>, version: Seq<char>)
    requires
        !reference.contains(':') ==> name == reference,
        reference.contains(':') ==> reference == name + seq![':'] + version && !version.contains(
            ':',
        ),
    ensures
        crate::store::asked_for(reference).0 == name,
        reference.contains(':') ==> crate::store::asked_for(reference).1 == Some(version),
        !reference.contains(':') ==> crate::store::asked_for(reference).1 is None,
{
    lemma_last_index(reference);
    if reference.contains(':') {
        let i = name.len() as int;
        assert(reference[i] == ':');
        assert forall|j: int| i < j < reference.len() implies reference[j] != ':' by {
            if reference[j] == ':' {
                assert(version[j - i - 1] == ':');
            }
        }
        let k = crate::text::last_index(reference, ':');
        assert(k == i) by {
            if k < i {
                assert(reference[i] != ':');
            }
        }
        assert(reference.subrange(0, i) =~= name);
        assert(reference.subrange(i + 1, reference.len() as int) =~= version);
    }
}

proof fn lemma_last_index(s: Seq<char>)
    ensures
        ({
            let k = crate::text::last_index(s, ':');
            &&& s.contains(':') ==> 0 <= k < s.len() && s[k] == ':' && forall|j: int|
                k < j < s.len() ==> s[j] != ':'
            &&& !s.contains(':') ==> k == -1
        }),
    decreases s.len(),
{
    if s.len() > 0 {
        let t = s.drop_last();
        let k = crate::text::last_index(s, ':');
        lemma_last_index(t);
        if s.last() == ':' {
            assert(s[s.len() - 1] == ':');
        } else {
            if s.contains(':') {
                let i = choose|i: int| 0 <= i < s.len() && s[i] == ':';
                assert(t[i] == ':');
                assert(t.contains(':'));
                assert(s[k] == t[k]);
                assert forall|j: int| k < j < s.len() implies s[j] != ':' by {
                    if j < t.len() {
                        assert(t[j] == s[j]);
                    }
                }
            } else if t.contains(':') {
                let i = choose|i: int| 0 <= i < t.len() && t[i] == ':';
                assert(s[i] == ':');
            }
        }
    }
}

/// An ephemeral image goes once its time is over and nothing runs it, under its name or
/// under its version.
pub proof fn law_expired_images_go(img: CustomImage, active: Seq<Sandbox>, now: Nanos)
    ensures
        is_expired(img, active, now) <==> {
            &&& img.ephemeral
            &&& img.expires_at is Some && img.expires_at->0 <= now
            &&& forall|i: int|
                0 <= i < active.len() ==> (#[trigger] active[i]).image@ != img.name@
                    && active[i].image@ != img.name@ + seq![':'] + img.version@
        },
{
    if in_use(img, active) {
        let i = choose|i: int|
            0 <= i < active.len() && ((#[trigger] active[i]).image@ == img.full_name()
                || active[i].image@ == img.name@);
        assert(active[i].image@ == img.name@ || active[i].image@ == img.name@ + seq![':']
            + img.version@);
    }
}

/// The memory and the number of active sandboxes: one that is active adds its memory
/// and counts as one, one that is not adds nothing.
pub proof fn law_active_sandboxes_are_counted(s: Seq<Sandbox>, n: int)
    requires
        0 <= n < s.len(),
    ensures
        active_memory(s, n + 1) - active_memory(s, n) == (if s[n].state == State::Creating
            || s[n].state == State::Running || s[n].state == State::Resuming {
            s[n].resources.memory_mb as int
        } else {
            0
        }),
        active_among(s, n + 1) - active_among(s, n) == (if s[n].state == State::Creating
            || s[n].state == State::Running || s[n].state == State::Resuming {
            1int
        } else {
            0
        }),
        active_memory(s, 0) == 0,
        active_among(s, 0) == 0,
{
}

// ---------------------------------------------------------------------------
// Startup
// ---------------------------------------------------------------------------

/// A sandbox whose VM has come up runs, under the VM's handle, and tells truly how it
/// came up and how long each part took.
pub proof fn law_booted_sandbox_runs(sb: Sandbox, vm: VmInstance)
    ensures
        ({
            let b = booted(sb, vm);
            &&& b.state == State::Running
            &&& b.runtime_handle == Some(vm.handle)
            &&& b.boot_path == vm.boot_path
            &&& b.timings.boot_ms == vm.boot_ms
            &&& b.timings.image_cache_ms == vm.image_cache_ms
            &&& b.timings.browser_ready_ms == vm.browser_ready_ms
            &&& b.timings.agent_ms == vm.agent_ms
            &&& b.id == sb.id && b.org_id == sb.org_id && b.resources == sb.resources && b.image
                == sb.image
        }),
{
}

/// The startup clones the branch that was asked for, at the depth that was asked for,
/// from the address that was given, and falls back to the default branch.
pub proof fn law_clone_is_of_the_repository(g: GitSpec)
    ensures
        clone_command(g) == "git clone --depth "@ + crate::numeral::decimal(g.depth as nat)
            + " --branch "@ + g.git_ref@ + " "@ + crate::text::quoted(g.url@)
            + " . 2>&1 || git clone --depth "@ + crate::numeral::decimal(g.depth as nat) + " "@
            + crate::text::quoted(g.url@) + " ."@,
{
}

/// A clone that ends with status zero leaves no error; any other outcome does.
pub proof fn law_clone_failures_are_told(res: Result<ExecResult, String>)
    ensures
        clone_error(res) is None <==> (res matches Ok(r) && r.exit_code == 0),
{
}

/// The commands of a recipe are run in their order, with the recipe's environment, in
/// the background where they say so.
pub proof fn law_commands_are_run_in_order(recipe: StartupRecipe, r: Vec<ExecRequest>, i: int)
    requires
        call_ensures(command_requests, (&recipe,), r),
        0 <= i < recipe.commands@.len(),
    ensures
        r@.len() == recipe.commands@.len(),
        r@[i].cmd@ == recipe.commands@[i].run@,
        r@[i].env@ == recipe.env@,
        r@[i].background == recipe.commands@[i].background,
{
}

/// A browser sandbox shows its screen and its developer tools; no other sandbox does.
pub proof fn law_browser_ports(sb: Sandbox, r: Vec<u16>)
    requires
        call_ensures(browser_ports, (&sb,), r),
    ensures
        sb.browser is Some ==> r@.contains(6080) && r@.contains(9222) && r@.len() == 2,
        sb.browser is None ==> r@.len() == 0,
{
    if sb.browser is Some {
        assert(r@[0] == 6080);
        assert(r@[1] == 9222);
    }
}

} // verus!
