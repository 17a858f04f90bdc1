//! What the background loops decide: which sandboxes are idle, which guest memory
//! is reclaimed, who is parked under memory pressure, whose credit is used up and
//! which images have expired.

use crate::config::{CapacityConfig, RuntimeConfig, StandbyConfig};
use crate::images::{CustomImage, ImageStatus};
use crate::lifecycle::State;
use crate::model::Sandbox;
use crate::nodes::Nanos;
use crate::numeral::{parse_max, parsed};
use crate::order::{ascending, distinct_sorted};
use crate::store::{has_running_exec_jobs, runs_job, ExecJob};
use crate::text::{
    chars_of, cut_first, line_list, lines, same, split_once, strip_prefix, views, without_prefix,
    word_list, words,
};
use crate::usage::{
    elapsed_seconds, live_balance_usd, seconds_between, total_cost, Org, UsageInterval,
};
use vstd::prelude::*;
use vstd::string::*;

verus! {

// ---------------------------------------------------------------------------
// Idle sandboxes
// ---------------------------------------------------------------------------

/// What the idle loop does with a sandbox.
#[derive(Debug, Clone, Copy, PartialEq, Eq, Structural)]
pub enum IdleStep {
    Keep,
    /// Snapshot it and give its memory back; the next request wakes it.
    Standby,
    /// Stop it; it has to be resumed.
    Stop,
}

/// The sandbox runs, has been idle for its whole window and has no job running.
pub open spec fn is_idle(sb: Sandbox, jobs: Seq<ExecJob>, now: Nanos) -> bool {
    &&& sb.state is Running
    &&& seconds_between(sb.last_active_at, now) >= sb.auto_stop_seconds
    &&& !runs_job(jobs, sb.id@)
}

/// What to do with a sandbox. One with resident secrets is never snapshotted, so
/// it is stopped even where standby is enabled.
pub fn idle_step(sb: &Sandbox, jobs: &Vec<ExecJob>, standby_enabled: bool, now: Nanos) -> (r: IdleStep)
    ensures
        r == (if !is_idle(*sb, jobs@, now) {
            IdleStep::Keep
        } else if standby_enabled && sb.secret_names@.len() == 0 {
            IdleStep::Standby
        } else {
            IdleStep::Stop
        }),
{
    if sb.state != State::Running {
        return IdleStep::Keep;
    }
    let idle: i64 = elapsed_seconds(sb.last_active_at, now);
    if idle < sb.auto_stop_seconds as i64 {
        return IdleStep::Keep;
    }
    if has_running_exec_jobs(jobs, sb.id.as_str()) {
        return IdleStep::Keep;
    }
    if standby_enabled && sb.secret_names.len() == 0 {
        IdleStep::Standby
    } else {
        IdleStep::Stop
    }
}

// ---------------------------------------------------------------------------
// Ballooning
// ---------------------------------------------------------------------------

/// The guest keeps this much memory when the rest is reclaimed, in MiB.
pub const BALLOON_FLOOR_MB: u32 = 384;

/// What the balloon loop does with a sandbox.
#[derive(Debug, Clone, Copy, PartialEq, Eq, Structural)]
pub enum BalloonStep {
    Keep,
    /// Forget that it was ballooned: it does not run any more.
    Forget,
    /// Reclaim this many MiB.
    Inflate(u32),
    /// Give the memory back.
    Deflate,
}

/// A window in the seconds that idleness is counted in, which are signed: one that
/// is too long for them wraps around.
pub open spec fn as_signed(seconds: u64) -> int {
    if seconds <= i64::MAX {
        seconds as int
    } else {
        seconds - 0x1_0000_0000_0000_0000
    }
}

/// Is guest memory reclaimed at all? Guests need a balloon, and a window has to be
/// set.
pub fn watches_balloons(standby: &StandbyConfig, runtime: &RuntimeConfig) -> (r: bool)
    ensures
        r == (standby.balloon_idle_seconds > 0 && runtime.balloon),
{
    standby.balloon_idle_seconds > 0 && runtime.balloon
}

/// What to do with a sandbox: inflate once it has been idle long enough, deflate
/// once it is active again. A sandbox without a VM is left alone.
pub fn balloon_step(sb: &Sandbox, ballooned: bool, idle_seconds: u64, now: Nanos) -> (r: BalloonStep)
    ensures
        r == (if !(sb.state is Running) {
            BalloonStep::Forget
        } else if sb.runtime_handle is None {
            BalloonStep::Keep
        } else if seconds_between(sb.last_active_at, now) >= as_signed(idle_seconds) && !ballooned {
            BalloonStep::Inflate(
                if sb.resources.memory_mb >= BALLOON_FLOOR_MB {
                    (sb.resources.memory_mb - BALLOON_FLOOR_MB) as u32
                } else {
                    0
                },
            )
        } else if seconds_between(sb.last_active_at, now) < as_signed(idle_seconds) && ballooned {
            BalloonStep::Deflate
        } else {
            BalloonStep::Keep
        }),
{
    if sb.state != State::Running {
        return BalloonStep::Forget;
    }
    if sb.runtime_handle.is_none() {
        return BalloonStep::Keep;
    }
    let idle: i64 = elapsed_seconds(sb.last_active_at, now);
    let window: i128 = if idle_seconds <= i64::MAX as u64 {
        idle_seconds as i128
    } else {
        idle_seconds as i128 - 0x1_0000_0000_0000_0000
    };
    let long = idle as i128 >= window;
    if long && !ballooned {
        let target: u32 = if sb.resources.memory_mb >= BALLOON_FLOOR_MB {
            sb.resources.memory_mb - BALLOON_FLOOR_MB
        } else {
            0
        };
        BalloonStep::Inflate(target)
    } else if !long && ballooned {
        BalloonStep::Deflate
    } else {
        BalloonStep::Keep
    }
}

/// Time alone never deflates a balloon: a sandbox that has been idle for the
/// window stays so until it is active again.
pub proof fn law_balloon_waits_for_activity(last_active: Nanos, idle_seconds: u64, a: Nanos, b: Nanos)
    requires
        seconds_between(last_active, a) >= as_signed(idle_seconds),
        a <= b,
    ensures
        seconds_between(last_active, b) >= as_signed(idle_seconds),
{
}

// ---------------------------------------------------------------------------
// Memory pressure
// ---------------------------------------------------------------------------

/// Are sandboxes parked under memory pressure at all? Standby has to be enabled
/// and a threshold set.
pub fn watches_pressure(capacity: &CapacityConfig, standby: &StandbyConfig) -> (r: bool)
    ensures
        r == (capacity.psi_standby_threshold_milli > 0 && standby.enabled),
{
    capacity.psi_standby_threshold_milli > 0 && standby.enabled
}

/// A percentage with two decimals in thousandths of a percent: "1.25" is 1250.
pub open spec fn percent_milli(s: Seq<char>) -> Option<int> {
    match cut_first(s, '.') {
        Some((whole, decimals)) => match (parsed(whole, 1_000_000), parsed(decimals, 99)) {
            (Some(w), Some(d)) => if decimals.len() == 2 {
                Some(w as int * 1000 + d as int * 10)
            } else {
                None
            },
            _ => None,
        },
        None => None,
    }
}

/// The pressure that a line of the kernel's report states: the share of the last ten
/// seconds in which some task waited for memory.
pub open spec fn pressure_line(line: Seq<char>) -> Option<int> {
    let w = word_list(line);
    if w.len() >= 2 && w[0] == "some"@ {
        match without_prefix(w[1], "avg10="@) {
            Some(v) => percent_milli(v),
            None => None,
        }
    } else {
        None
    }
}

/// The pressure that the first such line from `i` on states.
pub open spec fn first_pressure(lines: Seq<Seq<char>>, i: int) -> Option<int>
    decreases lines.len() - i,
{
    if i < 0 || i >= lines.len() {
        None
    } else if pressure_line(lines[i]) is Some {
        pressure_line(lines[i])
    } else {
        first_pressure(lines, i + 1)
    }
}

fn read_percent(s: &str) -> (r: Option<u64>)
    ensures
        (match r {
            Some(n) => Some(n as int),
            None => None,
        }) == percent_milli(s@),
{
    match split_once(s, '.') {
        Some((whole, decimals)) => match (
            parse_max(whole.as_str(), 1_000_000),
            parse_max(decimals.as_str(), 99),
        ) {
            (Some(w), Some(d)) => if chars_of(decimals.as_str()).len() == 2 {
                Some(w * 1000 + d * 10)
            } else {
                None
            },
            _ => None,
        },
        None => None,
    }
}

/// Memory pressure in thousandths of a percent, read off the kernel's report.
pub fn memory_pressure_avg10(report: &str) -> (r: Option<u64>)
    ensures
        (match r {
            Some(n) => Some(n as int),
            None => None,
        }) == first_pressure(line_list(report@), 0),
{
    let ls = lines(report);
    let ghost v = line_list(report@);
    let mut i: usize = 0;
    while i < ls.len()
        invariant
            i <= ls@.len(),
            views(ls@) == v,
            v == line_list(report@),
            first_pressure(v, 0) == first_pressure(v, i as int),
        decreases ls@.len() - i,
    {
        assert(v[i as int] == ls@[i as int]@);
        let w = words(ls[i].as_str());
        let ghost wv = word_list(v[i as int]);
        assert(views(w@) == wv);
        if w.len() >= 2 {
            assert(wv[0] == w@[0]@ && wv[1] == w@[1]@);
            if same(w[0].as_str(), "some") {
                if let Some(value) = strip_prefix(w[1].as_str(), "avg10=") {
                    if let Some(n) = read_percent(value.as_str()) {
                        return Some(n);
                    }
                }
            }
        }
        i = i + 1;
    }
    None
}

/// Is memory so short that a sandbox is parked? Both in thousandths of a percent.
pub fn under_pressure(capacity: &CapacityConfig, stalled_milli: u64) -> (r: bool)
    ensures
        r == (stalled_milli >= capacity.psi_standby_threshold_milli),
{
    stalled_milli >= capacity.psi_standby_threshold_milli
}

/// The sandbox may be parked ahead of its window.
pub open spec fn may_be_parked(sb: Sandbox, jobs: Seq<ExecJob>) -> bool {
    sb.state is Running && sb.secret_names@.len() == 0 && !runs_job(jobs, sb.id@)
}

/// The sandbox at `i` is the first of those that have been inactive longest.
pub open spec fn longest_idle(active: Seq<Sandbox>, jobs: Seq<ExecJob>, i: int) -> bool {
    &&& 0 <= i < active.len()
    &&& may_be_parked(active[i], jobs)
    &&& forall|k: int|
        0 <= k < active.len() && may_be_parked(#[trigger] active[k], jobs)
            ==> active[i].last_active_at <= active[k].last_active_at
    &&& forall|k: int|
        0 <= k < i && may_be_parked(#[trigger] active[k], jobs) ==> active[i].last_active_at
            < active[k].last_active_at
}

/// The sandbox to park under memory pressure: the least recently active one that
/// may be, the first of equals.
pub fn pick_pressure_victim(active: &Vec<Sandbox>, jobs: &Vec<ExecJob>) -> (r: Option<usize>)
    ensures
        match r {
            Some(i) => longest_idle(active@, jobs@, i as int),
            None => forall|k: int|
                0 <= k < active@.len() ==> !may_be_parked(#[trigger] active@[k], jobs@),
        },
{
    let mut best: Option<usize> = None;
    let mut i: usize = 0;
    while i < active.len()
        invariant
            i <= active@.len(),
            match best {
                Some(b) => {
                    &&& b < i
                    &&& may_be_parked(active@[b as int], jobs@)
                    &&& forall|k: int|
                        0 <= k < i && may_be_parked(#[trigger] active@[k], jobs@)
                            ==> active@[b as int].last_active_at <= active@[k].last_active_at
                    &&& forall|k: int|
                        0 <= k < b && may_be_parked(#[trigger] active@[k], jobs@)
                            ==> active@[b as int].last_active_at < active@[k].last_active_at
                },
                None => forall|k: int|
                    0 <= k < i ==> !may_be_parked(#[trigger] active@[k], jobs@),
            },
        decreases active@.len() - i,
    {
        let sb = &active[i];
        if sb.state == State::Running && sb.secret_names.len() == 0 && !has_running_exec_jobs(
            jobs,
            sb.id.as_str(),
        ) {
            let better = match best {
                Some(b) => sb.last_active_at < active[b].last_active_at,
                None => true,
            };
            if better {
                best = Some(i);
            }
        }
        i = i + 1;
    }
    best
}

// ---------------------------------------------------------------------------
// Credit
// ---------------------------------------------------------------------------

/// The org has used up its credit, open intervals counted. The operator's own
/// org has no limit.
pub open spec fn out_of_credit(org: Org, ivs: Seq<UsageInterval>, admin_org: Seq<char>, now: Nanos) -> bool {
    org.id@ != admin_org && org.prepaid_credits <= total_cost(ivs, now)
}

/// The names of the orgs that the sandboxes belong to.
pub open spec fn org_names(active: Seq<Sandbox>) -> Seq<Seq<char>> {
    Seq::new(active.len(), |i: int| active[i].org_id@)
}

/// The orgs that have active sandboxes, each once, in the order of their names.
pub fn orgs_of(active: &Vec<Sandbox>) -> (r: Vec<String>)
    ensures
        ascending(views(r@)),
        forall|name: Seq<char>| #[trigger]
            views(r@).contains(name) <==> org_names(active@).contains(name),
{
    let mut names: Vec<String> = Vec::new();
    let mut i: usize = 0;
    while i < active.len()
        invariant
            i <= active@.len(),
            names@.len() == i,
            forall|k: int| 0 <= k < i ==> (#[trigger] names@[k])@ == active@[k].org_id@,
        decreases active@.len() - i,
    {
        names.push(active[i].org_id.clone());
        i = i + 1;
    }
    assert(views(names@) =~= org_names(active@));
    distinct_sorted(&names)
}

/// Are the org's sandboxes to be stopped for want of credit?
pub fn credit_used_up(org: &Org, ivs: &Vec<UsageInterval>, admin_org: &str, now: Nanos) -> (r: bool)
    requires
        org.wf(),
    ensures
        r == out_of_credit(*org, ivs@, admin_org@, now),
{
    !same(org.id.as_str(), admin_org) && live_balance_usd(org, ivs, now) <= 0
}

/// Is the sandbox stopped when its org runs out of credit?
pub fn stops_for_credit(sb: &Sandbox, org_id: &str) -> (r: bool)
    ensures
        r == (sb.org_id@ == org_id@ && sb.state is Running),
{
    same(sb.org_id.as_str(), org_id) && sb.state == State::Running
}

// ---------------------------------------------------------------------------
// Expired images
// ---------------------------------------------------------------------------

/// Some active sandbox runs the image.
pub open spec fn in_use(img: CustomImage, active: Seq<Sandbox>) -> bool {
    exists|i: int|
        0 <= i < active.len() && ((#[trigger] active[i]).image@ == img.full_name()
            || active[i].image@ == img.name@)
}

/// The image is ephemeral, its time is over and nothing runs it.
pub open spec fn is_expired(img: CustomImage, active: Seq<Sandbox>, now: Nanos) -> bool {
    img.ephemeral && (img.expires_at matches Some(t) && now >= t) && !in_use(img, active)
}

/// Retire an image whose time is over; says whether it did. Sandboxes that run it
/// keep it alive.
pub fn retire_image(img: &mut CustomImage, active: &Vec<Sandbox>, now: Nanos) -> (r: bool)
    ensures
        r == is_expired(*old(img), active@, now),
        *final(img) == (if r {
            CustomImage { status: ImageStatus::Deleted, updated_at: now, ..*old(img) }
        } else {
            *old(img)
        }),
{
    if !img.ephemeral {
        return false;
    }
    let expired = match img.expires_at {
        Some(t) => now >= t,
        None => false,
    };
    if !expired {
        return false;
    }
    let reference = img.reference();
    let mut i: usize = 0;
    while i < active.len()
        invariant
            i <= active@.len(),
            *img == *old(img),
            reference@ == img.full_name(),
            forall|k: int|
                0 <= k < i ==> (#[trigger] active@[k]).image@ != img.full_name()
                    && active@[k].image@ != img.name@,
        decreases active@.len() - i,
    {
        if same(active[i].image.as_str(), reference.as_str()) || same(
            active[i].image.as_str(),
            img.name.as_str(),
        ) {
            assert(in_use(*img, active@)) by {
                assert(active@[i as int].image@ == img.full_name() || active@[i as int].image@
                    == img.name@);
            }
            return false;
        }
        i = i + 1;
    }
    img.status = ImageStatus::Deleted;
    img.updated_at = now;
    true
}

} // verus!
