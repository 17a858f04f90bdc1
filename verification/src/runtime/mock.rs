//! The development runtime, which runs anywhere. It simulates the boot paths and
//! what they cost, and backs each sandbox with a directory on the host, so that
//! the API behaves as it does in production. It isolates nothing and must never
//! run code that is not trusted.

use super::vm::{handle_of, handle_text};
use super::workspace::{begins, components, rendered, Workspaces};
use super::{ExecRequest, VmInstance, VmSpec, WarmVm};
use crate::envmap::EnvMap;
use crate::model::{BootPath, VolumeAttach};
use crate::numeral::{decimal, to_decimal};
use crate::paths::{path_join, under};
use crate::registry::Registry;
use crate::text::{chars_of, concat2, concat3, same, string_of};
use vstd::arithmetic::div_mod::lemma_add_mod_noop;
use vstd::prelude::*;
use vstd::string::*;
use vstd::utf8::*;

verus! {

/// What is remembered of a simulated VM, in memory and on disk.
#[derive(Debug)]
pub struct VmState {
    pub paused: bool,
    /// Parked: its state is on disk and its memory given back.
    pub standby: bool,
    /// What every command finds in its environment: the startup environment and
    /// the injected secrets.
    pub resident_env: EnvMap,
}

/// The development runtime.
#[derive(Debug)]
pub struct MockRuntime {
    pub workspaces: Workspaces,
    /// Each volume is a directory here.
    pub volumes_dir: String,
    pub state: Registry<VmState>,
}

// ---------------------------------------------------------------------------
// Simulated time
// ---------------------------------------------------------------------------

/// The sum of the first `n` bytes.
pub open spec fn byte_sum(b: Seq<u8>, n: int) -> int
    decreases n,
{
    if n <= 0 {
        0
    } else {
        byte_sum(b, n - 1) + b[n - 1] as int
    }
}

/// A number from 0 to `span` that a text decides.
pub open spec fn jitter_of(text: Seq<char>, span: int) -> int {
    byte_sum(encode_utf8(text), encode_utf8(text).len() as int) % (span + 1)
}

/// A small number of milliseconds, from 0 to `span`, that the text decides: the
/// timings look real without a clock.
pub fn jitter(text: &str, span: u64) -> (r: u64)
    requires
        span < u64::MAX,
    ensures
        r == jitter_of(text@, span as int),
        r <= span,
{
    let b = text.as_bytes();
    let m: u128 = span as u128 + 1;
    let mut acc: u128 = 0;
    let mut i: usize = 0;
    while i < b.len()
        invariant
            i <= b@.len(),
            m == span + 1,
            acc < m,
            acc == byte_sum(b@, i as int) % (m as int),
        decreases b@.len() - i,
    {
        proof {
            lemma_step(byte_sum(b@, i as int), b@[i as int] as int, m as int);
        }
        acc = (acc + b[i] as u128) % m;
        i = i + 1;
    }
    acc as u64
}

proof fn lemma_step(sum: int, x: int, m: int)
    requires
        m > 0,
    ensures
        (sum % m + x) % m == (sum + x) % m,
{
    lemma_add_mod_noop(sum, x, m);
    lemma_add_mod_noop(sum % m, x, m);
    vstd::arithmetic::div_mod::lemma_mod_twice(sum, m);
}

// ---------------------------------------------------------------------------
// Handles and boots
// ---------------------------------------------------------------------------

/// The handle of a warm VM: its image, and an id without its prefix.
pub fn warm_handle(image_key: &str, id: &str) -> (r: String)
    requires
        id@.len() >= 4,
    ensures
        r@ == "warm_"@ + image_key@ + "_"@ + id@.subrange(4, id@.len() as int),
{
    let v = chars_of(id);
    let tail = string_of(&v, 4, v.len());
    let mut s = concat3("warm_", image_key, "_");
    s.append(tail.as_str());
    s
}

/// How a simulated VM comes up: boot path, boot time and image cache time. A warm
/// VM is attached; without one a snapshot is restored where there is one; a cold
/// boot also pays for the image cache, more so for a custom image.
pub open spec fn simulated_boot(spec: VmSpec, warm: bool, snapshot_available: bool) -> (
    BootPath,
    int,
    int,
) {
    if warm {
        (BootPath::HotPool, 35 + jitter_of(spec.sandbox_id@, 15), 0int)
    } else if snapshot_available {
        (BootPath::SnapshotRestore, 200 + jitter_of(spec.sandbox_id@, 60), 0int)
    } else {
        (
            BootPath::ColdBoot,
            1500 + jitter_of(spec.sandbox_id@, 400),
            if spec.image_key@ == "custom"@ {
                400int
            } else {
                60int
            },
        )
    }
}

/// Time until a simulated browser is ready; none without one.
pub open spec fn simulated_browser(spec: VmSpec) -> int {
    match spec.browser {
        Some(b) if b.enabled => 1200 + jitter_of(spec.sandbox_id@, 200),
        _ => 0,
    }
}

/// A VM that runs with the environment and the secrets of a spec.
pub open spec fn fresh(s: VmState, spec: VmSpec) -> bool {
    &&& !s.paused
    &&& !s.standby
    &&& s.resident_env@ == spec.env@.union_prefer_right(spec.secret_env@)
}

impl MockRuntime {
    pub fn new(workspace_root: &str, volumes_dir: &str) -> (r: MockRuntime)
        ensures
            r.workspaces.root@ == workspace_root@,
            r.volumes_dir@ == volumes_dir@,
            r.state@ == Map::<Seq<char>, VmState>::empty(),
    {
        MockRuntime {
            workspaces: Workspaces::new(workspace_root),
            volumes_dir: String::from_str(volumes_dir),
            state: Registry::new(),
        }
    }

    /// Where the state of a VM is kept on disk, outside its workspace.
    pub fn state_path(&self, handle: &str) -> (r: String)
        ensures
            r@ == under(self.workspaces.home(handle@), "vm.json"@),
    {
        path_join(self.workspaces.dir_for(handle).as_str(), "vm.json")
    }

    /// Bring a VM back into memory from what was found on disk. One that is in
    /// memory stays as it is.
    pub fn ensure_loaded(&mut self, handle: &str, on_disk: Option<VmState>)
        ensures
            final(self).workspaces == old(self).workspaces,
            final(self).volumes_dir == old(self).volumes_dir,
            final(self).state@ == (match on_disk {
                Some(s) if !old(self).state@.contains_key(handle@) => old(self).state@.insert(
                    handle@,
                    s,
                ),
                _ => old(self).state@,
            }),
    {
        if self.state.contains(handle) {
            return;
        }
        if let Some(s) = on_disk {
            self.state.insert(handle, s);
        }
    }

    /// Enter a warm VM.
    pub fn note_warm(&mut self, handle: &str)
        ensures
            final(self).workspaces == old(self).workspaces,
            final(self).volumes_dir == old(self).volumes_dir,
            final(self).state@ == old(self).state@.insert(handle@, final(self).state@[handle@]),
            !final(self).state@[handle@].paused,
            !final(self).state@[handle@].standby,
            final(self).state@[handle@].resident_env@ == Map::<Seq<char>, Seq<char>>::empty(),
    {
        self.state.insert(
            handle,
            VmState { paused: false, standby: false, resident_env: EnvMap::new() },
        );
    }

    /// Boot a sandbox's VM: how it came up, and the VM entered as running.
    pub fn create(&mut self, spec: &VmSpec, warm: Option<WarmVm>, snapshot_available: bool) -> (r: VmInstance)
        ensures
            r.handle@ == (match warm {
                Some(w) => w.handle@,
                None => handle_text(spec.sandbox_id@),
            }),
            (r.boot_path, r.boot_ms as int, r.image_cache_ms as int) == simulated_boot(
                *spec,
                warm is Some,
                snapshot_available,
            ),
            r.browser_ready_ms == simulated_browser(*spec),
            r.agent_ms == 0,
            final(self).workspaces == old(self).workspaces,
            final(self).volumes_dir == old(self).volumes_dir,
            final(self).state@ == old(self).state@.insert(
                r.handle@,
                final(self).state@[r.handle@],
            ),
            fresh(final(self).state@[r.handle@], *spec),
    {
        let id = spec.sandbox_id.as_str();
        let (handle, boot_path, boot_ms, image_cache_ms): (String, BootPath, u64, u64) = match warm {
            Some(w) => (w.handle, BootPath::HotPool, 35 + jitter(id, 15), 0),
            None => if snapshot_available {
                (handle_of(id), BootPath::SnapshotRestore, 200 + jitter(id, 60), 0)
            } else {
                let cache: u64 = if same(spec.image_key.as_str(), "custom") {
                    400
                } else {
                    60
                };
                (handle_of(id), BootPath::ColdBoot, 1500 + jitter(id, 400), cache)
            },
        };
        let browser_ready_ms: u64 = match &spec.browser {
            Some(b) => if b.enabled {
                1200 + jitter(id, 200)
            } else {
                0
            },
            None => 0,
        };
        let mut resident_env = spec.env.copy();
        resident_env.extend(&spec.secret_env);
        self.state.insert(
            handle.as_str(),
            VmState { paused: false, standby: false, resident_env },
        );
        VmInstance {
            handle,
            boot_path,
            boot_ms,
            image_cache_ms,
            browser_ready_ms,
            agent_ms: 0,
        }
    }

    /// The file by which a bucket mount is simulated.
    pub fn mount_marker(mount_path: &str, bucket: &str) -> (r: String)
        ensures
            r@ == mount_path@ + "/.s3-mount-"@ + bucket@,
    {
        concat3(mount_path, "/.s3-mount-", bucket)
    }

    fn set_flags(&mut self, handle: &str, paused: bool, standby: Option<bool>) -> (known: bool)
        ensures
            known == old(self).state@.contains_key(handle@),
            final(self).workspaces == old(self).workspaces,
            final(self).volumes_dir == old(self).volumes_dir,
            final(self).state@ == (if known {
                old(self).state@.insert(
                    handle@,
                    VmState {
                        paused,
                        standby: match standby {
                            Some(s) => s,
                            None => old(self).state@[handle@].standby,
                        },
                        ..old(self).state@[handle@]
                    },
                )
            } else {
                old(self).state@
            }),
    {
        match self.state.remove(handle) {
            Some(s) => {
                let flag = match standby {
                    Some(b) => b,
                    None => s.standby,
                };
                self.state.insert(
                    handle,
                    VmState { paused, standby: flag, resident_env: s.resident_env },
                );
                assert(self.state@ =~= old(self).state@.insert(handle@, self.state@[handle@]));
                true
            },
            None => {
                assert(self.state@ =~= old(self).state@);
                false
            },
        }
    }

    /// Pause a VM. One that is not known is left alone.
    pub fn pause(&mut self, handle: &str)
        ensures
            final(self).workspaces == old(self).workspaces,
            final(self).volumes_dir == old(self).volumes_dir,
            final(self).state@ == (if old(self).state@.contains_key(handle@) {
                old(self).state@.insert(
                    handle@,
                    VmState { paused: true, ..old(self).state@[handle@] },
                )
            } else {
                old(self).state@
            }),
    {
        let _known = self.set_flags(handle, true, None);
    }

    /// Let a paused VM run on; the time that takes.
    pub fn resume(&mut self, handle: &str) -> (r: u64)
        ensures
            r == 180 + jitter_of(handle@, 60),
            final(self).workspaces == old(self).workspaces,
            final(self).volumes_dir == old(self).volumes_dir,
            final(self).state@ == (if old(self).state@.contains_key(handle@) {
                old(self).state@.insert(
                    handle@,
                    VmState { paused: false, ..old(self).state@[handle@] },
                )
            } else {
                old(self).state@
            }),
    {
        let _known = self.set_flags(handle, false, None);
        180 + jitter(handle, 60)
    }

    /// Park a VM; the time that takes.
    pub fn standby(&mut self, handle: &str) -> (r: Result<u64, String>)
        ensures
            final(self).workspaces == old(self).workspaces,
            final(self).volumes_dir == old(self).volumes_dir,
            match r {
                Ok(ms) => {
                    &&& old(self).state@.contains_key(handle@)
                    &&& ms == 90 + jitter_of(handle@, 40)
                    &&& final(self).state@ == old(self).state@.insert(
                        handle@,
                        VmState { paused: true, standby: true, ..old(self).state@[handle@] },
                    )
                },
                Err(m) => {
                    &&& !old(self).state@.contains_key(handle@)
                    &&& m@ == "standby: unknown vm"@
                    &&& final(self).state@ == old(self).state@
                },
            },
    {
        if !self.set_flags(handle, true, Some(true)) {
            return Err(String::from_str("standby: unknown vm"));
        }
        Ok(90 + jitter(handle, 40))
    }

    /// Wake a parked VM from disk; the time that takes.
    pub fn restore(&mut self, handle: &str) -> (r: Result<u64, String>)
        ensures
            final(self).workspaces == old(self).workspaces,
            final(self).volumes_dir == old(self).volumes_dir,
            match r {
                Ok(ms) => {
                    &&& old(self).state@.contains_key(handle@)
                    &&& ms == 12 + jitter_of(handle@, 8)
                    &&& final(self).state@ == old(self).state@.insert(
                        handle@,
                        VmState { paused: false, standby: false, ..old(self).state@[handle@] },
                    )
                },
                Err(m) => {
                    &&& !old(self).state@.contains_key(handle@)
                    &&& m@ == "restore: unknown vm (no persisted record)"@
                    &&& final(self).state@ == old(self).state@
                },
            },
    {
        if !self.set_flags(handle, false, Some(false)) {
            return Err(String::from_str("restore: unknown vm (no persisted record)"));
        }
        Ok(12 + jitter(handle, 8))
    }

    /// Enter a sibling whose workspace was copied from its parent.
    pub fn fork(&mut self, child_spec: &VmSpec) -> (r: VmInstance)
        ensures
            r.handle@ == handle_text(child_spec.sandbox_id@),
            r.boot_path is Fork,
            r.boot_ms == 15 + jitter_of(child_spec.sandbox_id@, 10),
            r.image_cache_ms == 0,
            r.browser_ready_ms == 0,
            r.agent_ms == 0,
            final(self).workspaces == old(self).workspaces,
            final(self).volumes_dir == old(self).volumes_dir,
            final(self).state@ == old(self).state@.insert(
                r.handle@,
                final(self).state@[r.handle@],
            ),
            fresh(final(self).state@[r.handle@], *child_spec),
    {
        let handle = handle_of(child_spec.sandbox_id.as_str());
        let mut resident_env = child_spec.env.copy();
        resident_env.extend(&child_spec.secret_env);
        self.state.insert(
            handle.as_str(),
            VmState { paused: false, standby: false, resident_env },
        );
        VmInstance {
            handle,
            boot_path: BootPath::Fork,
            boot_ms: 15 + jitter(child_spec.sandbox_id.as_str(), 10),
            image_cache_ms: 0,
            browser_ready_ms: 0,
            agent_ms: 0,
        }
    }

    /// Forget a VM.
    pub fn delete(&mut self, handle: &str)
        ensures
            final(self).workspaces == old(self).workspaces,
            final(self).volumes_dir == old(self).volumes_dir,
            final(self).state@ == old(self).state@.remove(handle@),
    {
        let _gone = self.state.remove(handle);
    }

    /// The environment of a command: what is resident, with the request's own
    /// variables over it.
    pub fn exec_env(&self, handle: &str, req: &ExecRequest) -> (r: EnvMap)
        ensures
            r@ == (if self.state@.contains_key(handle@) {
                self.state@[handle@].resident_env@.union_prefer_right(req.env@)
            } else {
                req.env@
            }),
    {
        match self.state.get(handle) {
            Some(s) => {
                let mut env = s.resident_env.copy();
                env.extend(&req.env);
                env
            },
            None => req.env.copy(),
        }
    }

    /// The directory of a command: the one that the request names, inside the
    /// workspace, or the workspace itself.
    pub fn exec_dir(&self, handle: &str, req: &ExecRequest) -> (r: Result<String, String>)
        ensures
            match req.cwd {
                None => r matches Ok(d) && d@ == self.workspaces.area(handle@),
                Some(c) => match r {
                    Ok(d) => d@ == rendered(self.workspaces.target(handle@, c@)) && begins(
                        self.workspaces.target(handle@, c@),
                        components(self.workspaces.area(handle@)),
                    ),
                    Err(m) => m@ == "path escapes workspace: "@ + c@ && !begins(
                        self.workspaces.target(handle@, c@),
                        components(self.workspaces.area(handle@)),
                    ),
                },
            },
    {
        match &req.cwd {
            Some(c) => self.workspaces.resolve(handle, c.as_str()),
            None => Ok(self.workspaces.workspace(handle)),
        }
    }

    /// What is said of a command that was started in the background.
    pub fn started_text(pid: Option<u32>) -> (r: String)
        ensures
            r@ == "started background pid "@ + decimal(
                (match pid {
                    Some(p) => p,
                    None => 0u32,
                }) as nat,
            ),
    {
        let p: u32 = match pid {
            Some(p) => p,
            None => 0,
        };
        concat2("started background pid ", to_decimal(p as u64).as_str())
    }

    /// What is reported when a URL has not answered in time.
    pub fn ready_timeout(url: &str, timeout_seconds: u32) -> (r: String)
        ensures
            r@ == "ready check timed out after "@ + decimal(timeout_seconds as nat) + "s for "@ + url@,
    {
        let mut s = concat3(
            "ready check timed out after ",
            to_decimal(timeout_seconds as u64).as_str(),
            "s for ",
        );
        s.append(url);
        s
    }

    /// The directory that backs a volume.
    pub fn volume_data(&self, v: &VolumeAttach) -> (r: String)
        ensures
            r@ == under(self.volumes_dir@, v.volume_id@ + ".data"@),
    {
        path_join(self.volumes_dir.as_str(), concat2(v.volume_id.as_str(), ".data").as_str())
    }

    /// Where a volume is linked into the workspace, given whether its directory
    /// exists.
    pub fn volume_link(&self, handle: &str, v: &VolumeAttach, exists: bool) -> (r: Result<
        String,
        String,
    >)
        ensures
            !exists ==> (r matches Err(m) && m@ == "volume "@ + v.volume_id@
                + " has no backing store"@),
            exists ==> (match r {
                Ok(d) => d@ == rendered(self.workspaces.target(handle@, v.mount_path@)) && begins(
                    self.workspaces.target(handle@, v.mount_path@),
                    components(self.workspaces.area(handle@)),
                ),
                Err(m) => m@ == "path escapes workspace: "@ + v.mount_path@ && !begins(
                    self.workspaces.target(handle@, v.mount_path@),
                    components(self.workspaces.area(handle@)),
                ),
            }),
    {
        if !exists {
            return Err(concat3("volume ", v.volume_id.as_str(), " has no backing store"));
        }
        self.workspaces.resolve(handle, v.mount_path.as_str())
    }
}

/// The boot paths keep their order whatever the jitter: a hot boot is faster than
/// a restore, and a restore faster than a cold boot.
pub proof fn law_boot_paths_are_ordered(a: VmSpec, b: VmSpec, c: VmSpec)
    ensures
        simulated_boot(a, true, true).1 < simulated_boot(b, false, true).1,
        simulated_boot(b, false, true).1 < simulated_boot(c, false, false).1,
{
}

/// Waking a parked VM stays below the time that its resume may take.
pub proof fn law_restore_is_fast(handle: Seq<char>)
    ensures
        12 + jitter_of(handle, 8) < 25,
        12 + jitter_of(handle, 8) < 180 + jitter_of(handle, 60),
{
}

} // verus!
