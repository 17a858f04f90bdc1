//! Pausing, parking, ballooning and deleting VMs, and making golden snapshots.

use crate::envmap::EnvMap;
use crate::model::BootPath;
use crate::numeral::{decimal, to_decimal};
use crate::paths::{parent, parent_dir, path_join, under};
use crate::runtime::firecracker::{below_counters, counters_clear, FirecrackerRuntime};
use crate::runtime::plan::{attempt, need, Action, ApiBody, PlanBuilder, StepView};
use crate::runtime::siblings::{home, home_of, unknown_vm};
use crate::runtime::steps::{
    add_snapshot, argv2, argv3, argv4, reflink, reflink_command, snapshot_steps, text,
};
use crate::runtime::vm::{jail_id, opt_text, RecordView, Settings};
use crate::runtime::VmSpec;
use crate::text::concat2;
use vstd::prelude::*;
use vstd::string::*;

verus! {

/// The view of a plan, or of the text that says why there is none.
pub open spec fn plan_or_fault(r: Result<PlanBuilder, String>) -> Result<Seq<StepView>, Seq<char>> {
    match r {
        Ok(p) => Ok(p@),
        Err(m) => Err(m@),
    }
}

/// Set a VM's state.
pub open spec fn state_step(sock: Seq<char>, state: Seq<char>) -> StepView {
    need(Action::Api(sock, "PATCH"@, "/vm"@, ApiBody::Vm { state }, 10))
}

/// Kill a process at once.
pub open spec fn kill_steps(pid: Option<u32>) -> Seq<StepView> {
    match pid {
        Some(p) => seq![attempt(Action::Run(seq!["kill"@, "-9"@, decimal(p as nat)]))],
        None => Seq::<StepView>::empty(),
    }
}

/// Remove a tap.
pub open spec fn untap_steps(tap: Option<Seq<char>>) -> Seq<StepView> {
    match tap {
        Some(t) => seq![attempt(Action::RunChecked(seq!["ip"@, "link"@, "del"@, t]))],
        None => Seq::<StepView>::empty(),
    }
}

/// Write a snapshot, kill the process so that its memory returns to the host,
/// and remove the tap. The first snapshot is full, later ones write what changed.
pub open spec fn standby_steps(s: Settings, rec: RecordView) -> Seq<StepView> {
    seq![attempt(Action::StartClock)] + snapshot_steps(
        s,
        rec.api_sock,
        home(rec.api_sock),
        rec.snapshotted,
    ) + kill_steps(rec.pid) + untap_steps(rec.tap) + seq![attempt(Action::Record)]
}

/// What parking a VM comes to.
pub open spec fn standby_plan(rt: FirecrackerRuntime, handle: Seq<char>) -> Result<
    Seq<StepView>,
    Seq<char>,
> {
    if !rt.vms@.contains_key(handle) {
        Err(unknown_vm(handle))
    } else if rt.vms@[handle].has_secrets {
        Err("cannot standby a sandbox with resident secrets; remove secrets first"@)
    } else {
        Ok(standby_steps(rt.settings, rt.vms@[handle]@))
    }
}

/// A record once its VM is parked.
pub open spec fn parked(rec: RecordView) -> RecordView {
    RecordView { pid: None, standby: true, snapshotted: true, ..rec }
}

/// What setting a balloon target comes to.
pub open spec fn balloon_plan(rt: FirecrackerRuntime, handle: Seq<char>, amount_mib: u32) -> Result<
    Seq<StepView>,
    Seq<char>,
> {
    if !rt.settings.balloon {
        Err("balloon device disabled (runtime.balloon = false)"@)
    } else if !rt.vms@.contains_key(handle) {
        Err(unknown_vm(handle))
    } else if rt.vms@[handle].standby {
        Err("cannot balloon a standby vm"@)
    } else {
        Ok(
            seq![
                need(
                    Action::Api(
                        rt.vms@[handle].api_sock@,
                        "PATCH"@,
                        "/balloon"@,
                        ApiBody::BalloonTarget { amount_mib },
                        10,
                    ),
                ),
            ],
        )
    }
}

fn add_kill(p: &mut PlanBuilder, pid: Option<u32>)
    ensures
        final(p)@ == old(p)@ + kill_steps(pid),
{
    let ghost start = p@;
    if let Some(n) = pid {
        p.attempt(Action::Run(argv3("kill", "-9", to_decimal(n as u64).as_str())));
    }
    assert(p@ =~= start + kill_steps(pid));
}

fn add_untap(p: &mut PlanBuilder, tap: &Option<String>)
    ensures
        final(p)@ == old(p)@ + untap_steps(opt_text(*tap)),
{
    let ghost start = p@;
    if let Some(t) = tap {
        p.attempt(Action::RunChecked(argv4("ip", "link", "del", t.as_str())));
    }
    assert(p@ =~= start + untap_steps(opt_text(*tap)));
}

/// The same VMs, with nothing but the record of one of them changed.
pub open spec fn only_changed(before: FirecrackerRuntime, after: FirecrackerRuntime, handle: Seq<char>) -> bool {
    &&& after == (FirecrackerRuntime { vms: after.vms, ..before })
    &&& after.vms@.dom() == before.vms@.dom()
    &&& forall|h: Seq<char>|
        h != handle && before.vms@.contains_key(h) ==> #[trigger] after.vms@[h] == before.vms@[h]
}

impl FirecrackerRuntime {
    fn vm_state_plan(&self, handle: &str, state: &str) -> (r: Result<PlanBuilder, String>)
        ensures
            plan_or_fault(r) == (if self.vms@.contains_key(handle@) {
                Ok(seq![state_step(self.vms@[handle@].api_sock@, state@)])
            } else {
                Err(unknown_vm(handle@))
            }),
    {
        match self.vms.get(handle) {
            None => Err(concat2("unknown vm ", handle)),
            Some(rec) => {
                let mut plan = PlanBuilder::new();
                plan.need(
                    Action::Api(
                        rec.api_sock.clone(),
                        text("PATCH"),
                        text("/vm"),
                        ApiBody::Vm { state: text(state) },
                        10,
                    ),
                );
                assert(plan@ =~= seq![state_step(rec.api_sock@, state@)]);
                Ok(plan)
            },
        }
    }

    /// Pause a VM.
    pub fn pause(&self, handle: &str) -> (r: Result<PlanBuilder, String>)
        ensures
            plan_or_fault(r) == (if self.vms@.contains_key(handle@) {
                Ok(seq![state_step(self.vms@[handle@].api_sock@, "Paused"@)])
            } else {
                Err(unknown_vm(handle@))
            }),
    {
        self.vm_state_plan(handle, "Paused")
    }

    /// Let a paused VM run on.
    pub fn resume(&self, handle: &str) -> (r: Result<PlanBuilder, String>)
        ensures
            plan_or_fault(r) == (if self.vms@.contains_key(handle@) {
                Ok(seq![state_step(self.vms@[handle@].api_sock@, "Resumed"@)])
            } else {
                Err(unknown_vm(handle@))
            }),
    {
        self.vm_state_plan(handle, "Resumed")
    }

    /// Take a full snapshot of a VM.
    pub fn snapshot(&self, handle: &str) -> (r: Result<PlanBuilder, String>)
        ensures
            plan_or_fault(r) == (if self.vms@.contains_key(handle@) {
                let sock = self.vms@[handle@].api_sock@;
                Ok(snapshot_steps(self.settings, sock, home(sock), false))
            } else {
                Err(unknown_vm(handle@))
            }),
    {
        match self.vms.get(handle) {
            None => Err(concat2("unknown vm ", handle)),
            Some(rec) => {
                let sock = rec.api_sock.as_str();
                let mut plan = PlanBuilder::new();
                add_snapshot(&mut plan, &self.settings, sock, home_of(sock).as_str(), false);
                assert(plan@ =~= snapshot_steps(self.settings, sock@, home(sock@), false));
                Ok(plan)
            },
        }
    }

    /// Park a VM. One with resident secrets is refused: they would end up in the
    /// snapshot.
    pub fn standby(&self, handle: &str) -> (r: Result<PlanBuilder, String>)
        ensures
            plan_or_fault(r) == standby_plan(*self, handle@),
    {
        match self.vms.get(handle) {
            None => Err(concat2("unknown vm ", handle)),
            Some(rec) => {
                if rec.has_secrets {
                    return Err(
                        text(
                            "cannot standby a sandbox with resident secrets; remove secrets first",
                        ),
                    );
                }
                let sock = rec.api_sock.as_str();
                let mut plan = PlanBuilder::new();
                plan.attempt(Action::StartClock);
                add_snapshot(
                    &mut plan,
                    &self.settings,
                    sock,
                    home_of(sock).as_str(),
                    rec.snapshotted,
                );
                add_kill(&mut plan, rec.pid);
                add_untap(&mut plan, &rec.tap);
                plan.attempt(Action::Record);
                assert(plan@ =~= standby_steps(self.settings, rec@));
                Ok(plan)
            },
        }
    }

    /// Note that a VM is parked: what a standby plan's `Record` step asks for.
    pub fn note_parked(&mut self, handle: &str)
        requires
            old(self).vms@.contains_key(handle@),
        ensures
            only_changed(*old(self), *final(self), handle@),
            final(self).vms@[handle@]@ == parked(old(self).vms@[handle@]@),
            counters_clear(*old(self)) ==> counters_clear(*final(self)),
    {
        match self.vms.remove(handle) {
            None => {},
            Some(mut rec) => {
                rec.pid = None;
                rec.standby = true;
                rec.snapshotted = true;
                self.vms.insert(handle, rec);
                proof {
                    lemma_still_clear(*old(self), *self, handle@);
                }
            },
        }
    }

    /// Set how much memory the balloon takes from a guest.
    pub fn balloon(&self, handle: &str, amount_mib: u32) -> (r: Result<PlanBuilder, String>)
        ensures
            plan_or_fault(r) == balloon_plan(*self, handle@, amount_mib),
    {
        if !self.settings.balloon {
            return Err(text("balloon device disabled (runtime.balloon = false)"));
        }
        match self.vms.get(handle) {
            None => Err(concat2("unknown vm ", handle)),
            Some(rec) => {
                if rec.standby {
                    return Err(text("cannot balloon a standby vm"));
                }
                let mut plan = PlanBuilder::new();
                plan.need(
                    Action::Api(
                        rec.api_sock.clone(),
                        text("PATCH"),
                        text("/balloon"),
                        ApiBody::BalloonTarget { amount_mib },
                        10,
                    ),
                );
                assert(plan@ =~= balloon_plan(*self, handle@, amount_mib)->Ok_0);
                Ok(plan)
            },
        }
    }

    /// Note the balloon target that was set.
    pub fn note_ballooned(&mut self, handle: &str, amount_mib: u32)
        ensures
            only_changed(*old(self), *final(self), handle@),
            old(self).vms@.contains_key(handle@) ==> final(self).vms@[handle@]@ == (RecordView {
                ballooned_mib: amount_mib,
                ..old(self).vms@[handle@]@
            }),
            counters_clear(*old(self)) ==> counters_clear(*final(self)),
    {
        match self.vms.remove(handle) {
            None => {
                assert(self.vms@ =~= old(self).vms@);
            },
            Some(mut rec) => {
                rec.ballooned_mib = amount_mib;
                self.vms.insert(handle, rec);
                proof {
                    lemma_still_clear(*old(self), *self, handle@);
                }
            },
        }
    }
}

/// A change of one record that leaves its tap and CID alone keeps the counters
/// clear.
pub proof fn lemma_still_clear(before: FirecrackerRuntime, after: FirecrackerRuntime, handle: Seq<char>)
    requires
        before.vms@.contains_key(handle),
        after.vms@.contains_key(handle),
        after.vms@ == before.vms@.remove(handle).insert(handle, after.vms@[handle]),
        after.vms@[handle].cid == before.vms@[handle].cid,
        after.vms@[handle].tap_idx == before.vms@[handle].tap_idx,
        after.next_tap == before.next_tap,
        after.next_cid == before.next_cid,
    ensures
        after.vms@.dom() == before.vms@.dom(),
        counters_clear(before) ==> counters_clear(after),
{
    assert(after.vms@.dom() =~= before.vms@.dom());
    if counters_clear(before) {
        assert forall|h: Seq<char>| #[trigger] after.vms@.contains_key(h) implies below_counters(
            after,
            after.vms@[h],
        ) by {
            assert(before.vms@.contains_key(h));
            assert(below_counters(before, before.vms@[h]));
        }
    }
}

// ---------------------------------------------------------------------------
// Teardown
// ---------------------------------------------------------------------------

/// The directory of the chroot in which a VM runs, which a restore may have
/// moved.
pub open spec fn active_chroot(api_sock: Seq<char>) -> Option<Seq<char>> {
    match parent(api_sock) {
        Some(root) => parent(root),
        None => None,
    }
}

/// Remove the directories of a VM.
pub open spec fn remove_dirs(s: Settings, handle: Seq<char>, active: Option<Seq<char>>) -> Seq<StepView> {
    seq![
        attempt(Action::RemoveDir(s.workspace(handle))),
        attempt(Action::RemoveDir(s.jail(handle))),
    ] + (if s.use_jailer {
        seq![attempt(Action::RemoveDir(s.chroot_dir(jail_id(handle))))] + (match active {
            Some(c) => seq![attempt(Action::RemoveDir(c))],
            None => Seq::<StepView>::empty(),
        })
    } else {
        Seq::<StepView>::empty()
    })
}

/// Tear a VM down. One that is not in the table still has its directories
/// removed.
pub open spec fn delete_steps(s: Settings, handle: Seq<char>, rec: Option<RecordView>) -> Seq<StepView> {
    match rec {
        Some(r) => kill_steps(r.pid) + untap_steps(r.tap) + remove_dirs(
            s,
            handle,
            active_chroot(r.api_sock),
        ),
        None => remove_dirs(s, handle, None),
    }
}

/// End the process of a VM whose boot failed.
pub open spec fn end_steps(pid: Option<u32>) -> Seq<StepView> {
    match pid {
        Some(p) => seq![attempt(Action::Run(seq!["kill"@, decimal(p as nat)]))],
        None => Seq::<StepView>::empty(),
    }
}

/// Reclaim what a VM holds whose boot failed.
pub open spec fn reclaim_steps(
    s: Settings,
    handle: Seq<char>,
    pid: Option<u32>,
    tap: Option<Seq<char>>,
) -> Seq<StepView> {
    end_steps(pid) + untap_steps(tap) + seq![attempt(Action::RemoveDir(s.jail(handle)))] + (
    if s.use_jailer {
        seq![attempt(Action::RemoveDir(s.chroot_dir(jail_id(handle))))]
    } else {
        Seq::<StepView>::empty()
    }) + seq![attempt(Action::RemoveDir(s.workspace(handle)))]
}

/// The record under a handle, if there is one.
pub open spec fn record_of(rt: FirecrackerRuntime, handle: Seq<char>) -> Option<RecordView> {
    if rt.vms@.contains_key(handle) {
        Some(rt.vms@[handle]@)
    } else {
        None
    }
}

/// The runtime without a VM.
pub open spec fn forgotten(before: FirecrackerRuntime, after: FirecrackerRuntime, handle: Seq<char>) -> bool {
    &&& after.vms@ == before.vms@.remove(handle)
    &&& after == (FirecrackerRuntime { vms: after.vms, ..before })
    &&& counters_clear(before) ==> counters_clear(after)
}

proof fn lemma_forgotten(before: FirecrackerRuntime, after: FirecrackerRuntime, handle: Seq<char>)
    requires
        after.vms@ == before.vms@.remove(handle),
        after == (FirecrackerRuntime { vms: after.vms, ..before }),
    ensures
        forgotten(before, after, handle),
{
    if counters_clear(before) {
        assert forall|h: Seq<char>| #[trigger] after.vms@.contains_key(h) implies below_counters(
            after,
            after.vms@[h],
        ) by {
            assert(before.vms@.contains_key(h));
            assert(below_counters(before, before.vms@[h]));
        }
    }
}

impl FirecrackerRuntime {
    /// Take a VM out of the table and tear it down.
    pub fn delete(&mut self, handle: &str) -> (r: PlanBuilder)
        ensures
            r@ == delete_steps(old(self).settings, handle@, record_of(*old(self), handle@)),
            forgotten(*old(self), *final(self), handle@),
    {
        let gone = self.vms.remove(handle);
        proof {
            lemma_forgotten(*old(self), *self, handle@);
        }
        let s = &self.settings;
        let mut plan = PlanBuilder::new();
        let mut active: Option<String> = None;
        let ghost rec = record_of(*old(self), handle@);
        if let Some(r) = &gone {
            add_kill(&mut plan, r.pid);
            add_untap(&mut plan, &r.tap);
            active = match parent_dir(r.api_sock.as_str()) {
                Some(root) => parent_dir(root.as_str()),
                None => None,
            };
        }
        let ghost head = plan@;
        assert(head =~= (match rec {
            Some(r) => kill_steps(r.pid) + untap_steps(r.tap),
            None => Seq::<StepView>::empty(),
        }));
        plan.attempt(Action::RemoveDir(s.workspace_of(handle)));
        plan.attempt(Action::RemoveDir(s.jail_dir(handle)));
        let ghost av = opt_text(active);
        if s.use_jailer {
            plan.attempt(Action::RemoveDir(s.jailer_chroot(handle)));
            if let Some(c) = active {
                plan.attempt(Action::RemoveDir(c));
            }
        }
        assert(plan@ =~= head + remove_dirs(*s, handle@, av));
        assert(plan@ =~= delete_steps(*s, handle@, rec));
        plan
    }

    /// Take a VM whose boot failed out of the table and reclaim what it holds.
    pub fn kill_and_reclaim(&mut self, handle: &str, pid: Option<u32>) -> (r: PlanBuilder)
        ensures
            r@ == reclaim_steps(
                old(self).settings,
                handle@,
                pid,
                match record_of(*old(self), handle@) {
                    Some(rec) => rec.tap,
                    None => None,
                },
            ),
            forgotten(*old(self), *final(self), handle@),
    {
        let gone = self.vms.remove(handle);
        proof {
            lemma_forgotten(*old(self), *self, handle@);
        }
        let s = &self.settings;
        let mut plan = PlanBuilder::new();
        if let Some(n) = pid {
            plan.attempt(Action::Run(argv2("kill", to_decimal(n as u64).as_str())));
        }
        assert(plan@ =~= end_steps(pid));
        let tap: Option<String> = match gone {
            Some(rec) => rec.tap,
            None => None,
        };
        add_untap(&mut plan, &tap);
        plan.attempt(Action::RemoveDir(s.jail_dir(handle)));
        if s.use_jailer {
            plan.attempt(Action::RemoveDir(s.jailer_chroot(handle)));
        }
        plan.attempt(Action::RemoveDir(s.workspace_of(handle)));
        assert(plan@ =~= reclaim_steps(*s, handle@, pid, opt_text(tap)));
        plan
    }
}

// ---------------------------------------------------------------------------
// Golden snapshots
// ---------------------------------------------------------------------------

/// Publish one artifact, readable by every user a VM may run as.
pub open spec fn publish(from: Seq<char>, to: Seq<char>) -> Seq<StepView> {
    seq![
        attempt(Action::RemoveFile(to)),
        need(Action::RunChecked(reflink(from, to))),
        attempt(Action::MakeReadable(to)),
    ]
}

/// Take a full snapshot of the throwaway VM and publish it: its disk, unless it
/// is the shared base, then its memory, and the snapshot itself last.
pub open spec fn publish_steps(s: Settings, sock: Seq<char>, image_key: Seq<char>, memory_mb: u32) -> Seq<
    StepView,
> {
    let from = home(sock);
    let dir = s.golden(image_key, memory_mb);
    snapshot_steps(s, sock, from, false) + seq![need(Action::CreateDir(dir))] + (if s.shares(
        image_key,
    ) {
        Seq::<StepView>::empty()
    } else {
        publish(under(from, "rootfs.ext4"@), under(dir, "rootfs.ext4"@))
    }) + publish(under(from, "mem.file"@), under(dir, "mem.file"@)) + publish(
        under(from, "snapshot.file"@),
        under(dir, "snapshot.file"@),
    )
}

fn add_publish(p: &mut PlanBuilder, from: &str, dir: &str, name: &str)
    ensures
        final(p)@ == old(p)@ + publish(under(from@, name@), under(dir@, name@)),
{
    let ghost start = p@;
    let a = path_join(from, name);
    let b = path_join(dir, name);
    p.attempt(Action::RemoveFile(b.clone()));
    p.need(Action::RunChecked(reflink_command(a.as_str(), b.as_str())));
    p.attempt(Action::MakeReadable(b));
    assert(p@ =~= start + publish(under(from@, name@), under(dir@, name@)));
}

/// What the throwaway VM for a golden snapshot is made of: image and shape, and
/// nothing of the tenant whose request asked for it.
pub fn golden_spec(spec: &VmSpec, fresh_id: &str) -> (r: VmSpec)
    ensures
        r.sandbox_id@ == "golden_"@ + fresh_id@,
        r.org_id@ == spec.org_id@,
        r.image_key@ == spec.image_key@,
        r.image_ref@ == spec.image_ref@,
        r.resources == spec.resources,
        r.env@ == Map::<Seq<char>, Seq<char>>::empty(),
        r.secret_env@ == Map::<Seq<char>, Seq<char>>::empty(),
        r.browser == spec.browser,
        !r.docker,
        r.coding_agent is None,
        r.mounts@.len() == 0,
        r.volumes@.len() == 0,
        r.files@.len() == 0,
        r.network@ == spec.network@,
{
    VmSpec {
        sandbox_id: concat2("golden_", fresh_id),
        org_id: spec.org_id.clone(),
        image_key: spec.image_key.clone(),
        image_ref: spec.image_ref.clone(),
        resources: spec.resources,
        env: EnvMap::new(),
        secret_env: EnvMap::new(),
        browser: spec.browser,
        docker: false,
        coding_agent: None,
        mounts: Vec::new(),
        volumes: Vec::new(),
        files: Vec::new(),
        network: spec.network.clone(),
    }
}

/// What a request to make sure of a golden snapshot comes to.
#[derive(Debug, Clone, Copy, PartialEq, Eq, Structural)]
pub enum GoldenNeed {
    /// Nothing to do.
    Settled,
    Produce,
}

impl FirecrackerRuntime {
    /// Can a create take the snapshot path, given whether the artifact is there?
    /// Only under the jailer: without it siblings would share one socket path.
    pub fn golden_snapshot_available(&self, artifact_exists: bool) -> (r: bool)
        ensures
            r == (self.settings.use_jailer && artifact_exists),
    {
        self.settings.use_jailer && artifact_exists
    }

    /// Is a golden snapshot to be produced, given whether the artifact is there?
    pub fn ensure_golden_snapshot(&self, artifact_exists: bool) -> (r: GoldenNeed)
        ensures
            r == (if self.settings.use_jailer && !artifact_exists {
                GoldenNeed::Produce
            } else {
                GoldenNeed::Settled
            }),
    {
        if !self.settings.use_jailer || artifact_exists {
            return GoldenNeed::Settled;
        }
        GoldenNeed::Produce
    }

    /// Snapshot the throwaway VM under `handle` and publish the artifacts. The VM
    /// is deleted afterwards, whether or not this succeeds.
    pub fn produce_golden_snapshot(&self, handle: &str, spec: &VmSpec) -> (r: Result<
        PlanBuilder,
        String,
    >)
        ensures
            plan_or_fault(r) == (if self.vms@.contains_key(handle@) {
                Ok(
                    publish_steps(
                        self.settings,
                        self.vms@[handle@].api_sock@,
                        spec.image_key@,
                        spec.resources.memory_mb,
                    ),
                )
            } else {
                Err("golden vm record missing"@)
            }),
    {
        match self.vms.get(handle) {
            None => Err(text("golden vm record missing")),
            Some(rec) => {
                let s = &self.settings;
                let sock = rec.api_sock.as_str();
                let from = home_of(sock);
                let dir = s.golden_dir(spec.image_key.as_str(), &spec.resources);
                let mut plan = PlanBuilder::new();
                add_snapshot(&mut plan, s, sock, from.as_str(), false);
                plan.need(Action::CreateDir(dir.clone()));
                if !s.shared_image(spec.image_key.as_str()) {
                    add_publish(&mut plan, from.as_str(), dir.as_str(), "rootfs.ext4");
                }
                add_publish(&mut plan, from.as_str(), dir.as_str(), "mem.file");
                add_publish(&mut plan, from.as_str(), dir.as_str(), "snapshot.file");
                assert(plan@ =~= publish_steps(
                    *s,
                    sock@,
                    spec.image_key@,
                    spec.resources.memory_mb,
                ));
                Ok(plan)
            },
        }
    }
}

/// How a sandbox's VM comes up: a warm one where there is one, else from the
/// golden snapshot, else by a cold boot. Volumes are configured before boot, so
/// that a sandbox with volumes never takes the snapshot path.
pub fn choose_boot_path(
    warm: bool,
    snapshot_available: bool,
    has_volumes: bool,
    golden_available: bool,
) -> (r: BootPath)
    ensures
        r == (if warm {
            BootPath::HotPool
        } else if snapshot_available && !has_volumes && golden_available {
            BootPath::SnapshotRestore
        } else {
            BootPath::ColdBoot
        }),
{
    if warm {
        BootPath::HotPool
    } else if snapshot_available && !has_volumes && golden_available {
        BootPath::SnapshotRestore
    } else {
        BootPath::ColdBoot
    }
}

// ---------------------------------------------------------------------------
// Laws
// ---------------------------------------------------------------------------

/// While secret values are resident in a VM, it is neither parked nor forked:
/// the secrets never reach a snapshot that way.
pub proof fn law_secrets_are_not_snapshotted(rt: FirecrackerRuntime, handle: Seq<char>)
    requires
        rt.vms@.contains_key(handle),
        rt.vms@[handle].has_secrets,
    ensures
        standby_plan(rt, handle) is Err,
        crate::runtime::siblings::fork_refusal(rt, handle) is Some,
{
}

/// The snapshot file, by which an artifact counts as available, is published by
/// the last copy of the plan; everything else is in place by then.
pub proof fn law_snapshot_is_published_last(
    s: Settings,
    sock: Seq<char>,
    image_key: Seq<char>,
    memory_mb: u32,
)
    ensures
        ({
            let steps = publish_steps(s, sock, image_key, memory_mb);
            let dir = s.golden(image_key, memory_mb);
            let k = steps.len() - 2;
            &&& steps[k].action == Action::<Seq<char>, Seq<Seq<char>>>::RunChecked(
                reflink(under(home(sock), "snapshot.file"@), under(dir, "snapshot.file"@)),
            )
            &&& forall|i: int|
                0 <= i < steps.len() && (#[trigger] steps[i]).action is RunChecked ==> i <= k
        }),
{
}

} // verus!
