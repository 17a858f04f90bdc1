//! What survives a restart of the daemon, and what is swept away: VM records
//! found on disk, the counters that must stay clear of them, and directories
//! that no VM owns.

use crate::numeral::{parse_max, parsed};
use crate::paths::parent_dir;
use crate::registry::Registry;
use crate::runtime::firecracker::{counters_clear, with_pid, FirecrackerRuntime};
use crate::runtime::parking::active_chroot;
use crate::runtime::vm::{Settings, VmRecord};
use crate::text::{after_last, has_prefix, same, starts_with, tail_after, views};
use crate::runtime::workspace::{components, same_path};
use vstd::prelude::*;
use vstd::string::*;

verus! {

/// Directories among the jails that belong to no VM.
pub open spec fn reserved(name: Seq<char>) -> bool {
    name == "firecracker"@ || name == "snapshots"@ || name == "jailer-pool"@
}

fn is_reserved(name: &str) -> (r: bool)
    ensures
        r == reserved(name@),
{
    same(name, "firecracker") || same(name, "snapshots") || same(name, "jailer-pool")
}

/// A jail directory as it was found on disk.
#[derive(Debug)]
pub struct FoundJail {
    pub name: String,
    /// The VM record in it, if there is one that can be read.
    pub record: Option<VmRecord>,
    /// Its process id names a running Firecracker or jailer. An id that the
    /// kernel has given to another program must not be trusted.
    pub alive: bool,
}

/// The record that is kept for a found jail: of a parked VM, or of one whose
/// process still runs.
pub open spec fn survivor(j: FoundJail) -> Option<VmRecord> {
    match j.record {
        Some(rec) if !reserved(j.name@) => {
            let pid = if j.alive {
                rec.pid
            } else {
                None
            };
            if rec.standby || pid is Some {
                Some(with_pid(rec, pid))
            } else {
                None
            }
        },
        _ => None,
    }
}

/// The record on disk is of a VM that ran when the daemon died and cannot be
/// brought back.
pub open spec fn tombstone(j: FoundJail) -> bool {
    !reserved(j.name@) && j.record is Some && survivor(j) is None
}

/// The survivors of the first `n` jails.
pub open spec fn survivors(jails: Seq<FoundJail>, n: int) -> Map<Seq<char>, VmRecord>
    decreases n,
{
    if n <= 0 {
        Map::empty()
    } else {
        let before = survivors(jails, n - 1);
        match survivor(jails[n - 1]) {
            Some(rec) => before.insert(jails[n - 1].name@, rec),
            None => before,
        }
    }
}

/// The larger number.
pub open spec fn at_least(a: int, b: int) -> int {
    if a >= b {
        a
    } else {
        b
    }
}

/// The first tap index above those of the survivors.
pub open spec fn first_free_tap(jails: Seq<FoundJail>, n: int) -> int
    decreases n,
{
    if n <= 0 {
        0
    } else {
        let before = first_free_tap(jails, n - 1);
        match survivor(jails[n - 1]) {
            Some(rec) => match rec.tap_idx {
                Some(i) => at_least(before, i + 1),
                None => before,
            },
            None => before,
        }
    }
}

/// The first CID above those of the survivors; the first three are reserved.
pub open spec fn first_free_cid(jails: Seq<FoundJail>, n: int) -> int
    decreases n,
{
    if n <= 0 {
        3
    } else {
        let before = first_free_cid(jails, n - 1);
        match survivor(jails[n - 1]) {
            Some(rec) => at_least(before, rec.cid + 1),
            None => before,
        }
    }
}

/// The names of the tombstones among the first `n` jails.
pub open spec fn tombstones(jails: Seq<FoundJail>, n: int) -> Seq<Seq<char>>
    decreases n,
{
    if n <= 0 {
        Seq::<Seq<char>>::empty()
    } else if tombstone(jails[n - 1]) {
        tombstones(jails, n - 1).push(jails[n - 1].name@)
    } else {
        tombstones(jails, n - 1)
    }
}

/// The number of the restore that made a chroot, if one did.
pub open spec fn restore_number(name: Seq<char>) -> Option<nat> {
    if has_prefix(name, "pool-"@) {
        None
    } else {
        match tail_after(name, "-r"@) {
            Some(t) => parsed(t, u32::MAX as nat),
            None => None,
        }
    }
}

/// The first restore number above those of the chroots that are left.
pub open spec fn first_free_restore(names: Seq<Seq<char>>, n: int) -> int
    decreases n,
{
    if n <= 0 {
        0
    } else {
        let before = first_free_restore(names, n - 1);
        match restore_number(names[n - 1]) {
            Some(k) => at_least(before, k as int + 1),
            None => before,
        }
    }
}

/// The chroots of pooled jailers, which do not outlive the daemon.
pub open spec fn pool_chroots(names: Seq<Seq<char>>, n: int) -> Seq<Seq<char>>
    decreases n,
{
    if n <= 0 {
        Seq::<Seq<char>>::empty()
    } else if has_prefix(names[n - 1], "pool-"@) {
        pool_chroots(names, n - 1).push(names[n - 1])
    } else {
        pool_chroots(names, n - 1)
    }
}

/// No number on disk is the largest there is, so that there is one above it.
pub open spec fn numbers_fit(jails: Seq<FoundJail>, chroots: Seq<Seq<char>>) -> bool {
    &&& forall|i: int|
        0 <= i < jails.len() ==> {
            (#[trigger] jails[i]).record matches Some(rec) ==> rec.cid < u32::MAX && (
            rec.tap_idx matches Some(t) ==> t < u32::MAX)
        }
    &&& forall|i: int|
        0 <= i < chroots.len() ==> (restore_number(#[trigger] chroots[i]) matches Some(k) ==> k
            < u32::MAX)
}

/// Are there numbers above those on disk?
pub fn can_rehydrate(jails: &Vec<FoundJail>, chroots: &Vec<String>) -> (r: bool)
    ensures
        r == numbers_fit(jails@, views(chroots@)),
{
    let ghost v = views(chroots@);
    let mut i: usize = 0;
    while i < jails.len()
        invariant
            i <= jails@.len(),
            forall|k: int|
                0 <= k < i ==> {
                    (#[trigger] jails@[k]).record matches Some(rec) ==> rec.cid < u32::MAX && (
                    rec.tap_idx matches Some(t) ==> t < u32::MAX)
                },
        decreases jails@.len() - i,
    {
        if let Some(rec) = &jails[i].record {
            if rec.cid == u32::MAX || rec.tap_idx == Some(u32::MAX) {
                assert(jails@[i as int].record is Some);
                return false;
            }
        }
        i = i + 1;
    }
    let mut j: usize = 0;
    while j < chroots.len()
        invariant
            j <= chroots@.len(),
            v == views(chroots@),
            forall|k: int|
                0 <= k < j ==> (restore_number(#[trigger] v[k]) matches Some(x) ==> x < u32::MAX),
        decreases chroots@.len() - j,
    {
        let name = chroots[j].as_str();
        assert(v[j as int] == name@);
        if !starts_with(name, "pool-") {
            if let Some(tail) = after_last(name, "-r") {
                if let Some(k) = parse_max(tail.as_str(), 4_294_967_295) {
                    if k == 4_294_967_295 {
                        assert(restore_number(v[j as int]) == Some(u32::MAX as nat));
                        return false;
                    }
                }
            }
        }
        j = j + 1;
    }
    true
}

/// What a restart found.
#[derive(Debug)]
pub struct Rehydrated {
    pub runtime: FirecrackerRuntime,
    /// Jails whose record is to be removed, so that the sweep can reclaim them.
    pub tombstones: Vec<String>,
    /// Chroots of pooled jailers to be removed.
    pub stale_pools: Vec<String>,
}

fn push_name(list: &mut Vec<String>, name: &str)
    ensures
        views(final(list)@) == views(old(list)@).push(name@),
{
    list.push(String::from_str(name));
    assert(views(list@) =~= views(old(list)@).push(name@));
}

fn scan_chroots(names: &Vec<String>) -> (r: (u32, Vec<String>))
    requires
        forall|i: int|
            0 <= i < names@.len() ==> (restore_number(#[trigger] views(names@)[i]) matches Some(
                k,
            ) ==> k < u32::MAX),
    ensures
        r.0 == first_free_restore(views(names@), names@.len() as int),
        views(r.1@) == pool_chroots(views(names@), names@.len() as int),
{
    let ghost v = views(names@);
    let mut next: u32 = 0;
    let mut pools: Vec<String> = Vec::new();
    let mut i: usize = 0;
    assert(views(pools@) =~= pool_chroots(v, 0));
    while i < names.len()
        invariant
            i <= names@.len(),
            v == views(names@),
            forall|k: int|
                0 <= k < names@.len() ==> (restore_number(#[trigger] v[k]) matches Some(x) ==> x
                    < u32::MAX),
            next == first_free_restore(v, i as int),
            views(pools@) == pool_chroots(v, i as int),
        decreases names@.len() - i,
    {
        let name = names[i].as_str();
        assert(v[i as int] == name@);
        if starts_with(name, "pool-") {
            push_name(&mut pools, name);
        } else if let Some(tail) = after_last(name, "-r") {
            if let Some(k) = parse_max(tail.as_str(), 4_294_967_295) {
                let above: u32 = k as u32 + 1;
                if above > next {
                    next = above;
                }
            }
        }
        i = i + 1;
    }
    (next, pools)
}

/// Build the runtime from what is on disk: the records of VMs that can still be
/// used, and counters above everything that they, or chroots of earlier restores,
/// still hold.
pub fn rehydrate(settings: Settings, jails: Vec<FoundJail>, chroots: &Vec<String>) -> (r: Rehydrated)
    requires
        numbers_fit(jails@, views(chroots@)),
    ensures
        r.runtime.settings == settings,
        r.runtime.vms@ == survivors(jails@, jails@.len() as int),
        r.runtime.next_tap == first_free_tap(jails@, jails@.len() as int),
        r.runtime.next_cid == first_free_cid(jails@, jails@.len() as int),
        r.runtime.next_restore == first_free_restore(views(chroots@), chroots@.len() as int),
        r.runtime.next_pool == 0,
        r.runtime.pool@.len() == 0,
        views(r.tombstones@) == tombstones(jails@, jails@.len() as int),
        views(r.stale_pools@) == pool_chroots(views(chroots@), chroots@.len() as int),
        counters_clear(r.runtime),
{
    let ghost all = jails@;
    let n: usize = jails.len();
    let mut vms: Registry<VmRecord> = Registry::new();
    let mut next_tap: u32 = 0;
    let mut next_cid: u32 = 3;
    let mut dead: Vec<String> = Vec::new();
    let mut rest = jails;
    let mut i: usize = 0;
    assert(views(dead@) =~= tombstones(all, 0));
    assert(rest@ =~= all.subrange(0, n as int));
    while rest.len() > 0
        invariant
            n == all.len(),
            i + rest@.len() == n,
            rest@ == all.subrange(i as int, n as int),
            forall|k: int|
                0 <= k < all.len() ==> {
                    (#[trigger] all[k]).record matches Some(rec) ==> rec.cid < u32::MAX && (
                    rec.tap_idx matches Some(t) ==> t < u32::MAX)
                },
            vms@ == survivors(all, i as int),
            next_tap == first_free_tap(all, i as int),
            next_cid == first_free_cid(all, i as int),
            views(dead@) == tombstones(all, i as int),
            forall|h: Seq<char>| #[trigger]
                vms@.contains_key(h) ==> vms@[h].cid < next_cid && (vms@[h].tap_idx matches Some(
                    t,
                ) ==> t < next_tap),
        decreases rest@.len(),
    {
        let jail = rest.remove(0);
        proof {
            assert(jail == all[i as int]);
            assert(rest@ =~= all.subrange(i + 1, n as int));
        }
        let FoundJail { name, record, alive } = jail;
        if !is_reserved(name.as_str()) {
            if let Some(found) = record {
                let mut rec = found;
                if !alive {
                    rec.pid = None;
                }
                if !rec.standby && rec.pid.is_none() {
                    push_name(&mut dead, name.as_str());
                } else {
                    if let Some(t) = rec.tap_idx {
                        let above: u32 = t + 1;
                        if above > next_tap {
                            next_tap = above;
                        }
                    }
                    let above: u32 = rec.cid + 1;
                    if above > next_cid {
                        next_cid = above;
                    }
                    vms.insert(name.as_str(), rec);
                }
            }
        }
        i = i + 1;
    }
    let (next_restore, stale_pools) = scan_chroots(chroots);
    let runtime = FirecrackerRuntime {
        settings,
        next_cid,
        next_tap,
        next_restore,
        next_pool: 0,
        pool: Vec::new(),
        vms,
    };
    Rehydrated { runtime, tombstones: dead, stale_pools }
}

impl FirecrackerRuntime {
    /// Load a VM's record from disk unless it is in the table.
    pub fn ensure_record_loaded(&mut self, handle: &str, on_disk: Option<VmRecord>)
        ensures
            final(self).vms@ == (match on_disk {
                Some(rec) if !old(self).vms@.contains_key(handle@) => old(self).vms@.insert(
                    handle@,
                    rec,
                ),
                _ => old(self).vms@,
            }),
            *final(self) == (FirecrackerRuntime { vms: final(self).vms, ..*old(self) }),
    {
        if self.vms.contains(handle) {
            return;
        }
        if let Some(rec) = on_disk {
            self.vms.insert(handle, rec);
        }
    }
}

// ---------------------------------------------------------------------------
// The sweep
// ---------------------------------------------------------------------------

/// A directory and how many seconds ago it was changed, if that is known.
#[derive(Debug)]
pub struct AgedDir {
    pub name: String,
    pub age: Option<u64>,
}

/// The directory is known to be at least so old.
pub open spec fn old_enough(d: AgedDir, min_age: u64) -> bool {
    d.age matches Some(a) && a >= min_age
}

/// A jail directory that the sweep removes.
pub open spec fn sweeps_jail(rt: FirecrackerRuntime, d: AgedDir, min_age: u64) -> bool {
    &&& !reserved(d.name@)
    &&& !rt.vms@.contains_key(d.name@)
    &&& old_enough(d, min_age)
}

/// The VM behind this socket runs, or is parked, in this directory, however its path
/// is spelled.
pub open spec fn lives_in(api_sock: Seq<char>, dir: Seq<char>) -> bool {
    active_chroot(api_sock) matches Some(c) && components(c) == components(dir)
}

/// Some VM runs, or is parked, in this chroot.
pub open spec fn in_use(rt: FirecrackerRuntime, dir: Seq<char>) -> bool {
    exists|h: Seq<char>| #[trigger]
        rt.vms@.contains_key(h) && lives_in(rt.vms@[h].api_sock@, dir)
}

/// A pooled jailer waits under this id.
pub open spec fn pooled(rt: FirecrackerRuntime, id: Seq<char>) -> bool {
    exists|i: int| 0 <= i < rt.pool@.len() && (#[trigger] rt.pool@[i]).jail_id@ == id
}

/// A chroot that the sweep removes.
pub open spec fn sweeps_chroot(rt: FirecrackerRuntime, d: AgedDir, min_age: u64) -> bool {
    &&& !in_use(rt, rt.settings.chroot_dir(d.name@))
    &&& !pooled(rt, d.name@)
    &&& old_enough(d, min_age)
}

/// The names of the jails among the first `n` that the sweep removes.
pub open spec fn swept_jails(rt: FirecrackerRuntime, dirs: Seq<AgedDir>, n: int, min_age: u64) -> Seq<
    Seq<char>,
>
    decreases n,
{
    if n <= 0 {
        Seq::<Seq<char>>::empty()
    } else if sweeps_jail(rt, dirs[n - 1], min_age) {
        swept_jails(rt, dirs, n - 1, min_age).push(dirs[n - 1].name@)
    } else {
        swept_jails(rt, dirs, n - 1, min_age)
    }
}

/// The names of the chroots among the first `n` that the sweep removes.
pub open spec fn swept_chroots(rt: FirecrackerRuntime, dirs: Seq<AgedDir>, n: int, min_age: u64) -> Seq<
    Seq<char>,
>
    decreases n,
{
    if n <= 0 {
        Seq::<Seq<char>>::empty()
    } else if sweeps_chroot(rt, dirs[n - 1], min_age) {
        swept_chroots(rt, dirs, n - 1, min_age).push(dirs[n - 1].name@)
    } else {
        swept_chroots(rt, dirs, n - 1, min_age)
    }
}

/// The age from which the periodic sweep removes a directory, in seconds. A VM
/// that is just booting has its directory before it is in the table.
pub const SWEEP_MIN_AGE_S: u64 = 120;

impl FirecrackerRuntime {
    fn chroot_in_use(&self, dir: &str) -> (r: bool)
        ensures
            r == in_use(*self, dir@),
    {
        let n: usize = self.vms.len();
        let ghost m = self.vms@;
        let ghost list = self.vms.pairs();
        let mut i: usize = 0;
        while i < n
            invariant
                i <= n == list.len(),
                list == self.vms.pairs(),
                m == self.vms@,
                forall|k: int|
                    0 <= k < list.len() ==> m.contains_key((#[trigger] list[k]).0@) && m[list[k].0@]
                        == list[k].1,
                forall|k: int|
                    0 <= k < i ==> !lives_in((#[trigger] list[k]).1.api_sock@, dir@),
            decreases n - i,
        {
            let (_, rec) = self.vms.at(i);
            let active: Option<String> = match parent_dir(rec.api_sock.as_str()) {
                Some(root) => parent_dir(root.as_str()),
                None => None,
            };
            if let Some(c) = active {
                if same_path(c.as_str(), dir) {
                    assert(m.contains_key(list[i as int].0@));
                    return true;
                }
            }
            i = i + 1;
        }
        proof {
            if in_use(*self, dir@) {
                let h = choose|h: Seq<char>| #[trigger]
                    self.vms@.contains_key(h) && lives_in(self.vms@[h].api_sock@, dir@);
                let k = choose|k: int| 0 <= k < list.len() && (#[trigger] list[k]).0@ == h;
                assert(lives_in(list[k].1.api_sock@, dir@));
            }
        }
        false
    }

    fn in_pool(&self, id: &str) -> (r: bool)
        ensures
            r == pooled(*self, id@),
    {
        let mut i: usize = 0;
        while i < self.pool.len()
            invariant
                i <= self.pool@.len(),
                forall|k: int| 0 <= k < i ==> (#[trigger] self.pool@[k]).jail_id@ != id@,
            decreases self.pool@.len() - i,
        {
            if same(self.pool[i].jail_id.as_str(), id) {
                return true;
            }
            i = i + 1;
        }
        false
    }

    /// The jail directories and the chroots that no VM owns and that are old
    /// enough to be removed.
    pub fn gc_stale_jails_min_age(
        &self,
        jails: &Vec<AgedDir>,
        chroots: &Vec<AgedDir>,
        min_age: u64,
    ) -> (r: (Vec<String>, Vec<String>))
        ensures
            views(r.0@) == swept_jails(*self, jails@, jails@.len() as int, min_age),
            views(r.1@) == swept_chroots(*self, chroots@, chroots@.len() as int, min_age),
    {
        let mut a: Vec<String> = Vec::new();
        let mut i: usize = 0;
        assert(views(a@) =~= swept_jails(*self, jails@, 0, min_age));
        while i < jails.len()
            invariant
                i <= jails@.len(),
                views(a@) == swept_jails(*self, jails@, i as int, min_age),
            decreases jails@.len() - i,
        {
            let d = &jails[i];
            let aged = match d.age {
                Some(s) => s >= min_age,
                None => false,
            };
            if !is_reserved(d.name.as_str()) && !self.vms.contains(d.name.as_str()) && aged {
                push_name(&mut a, d.name.as_str());
            }
            i = i + 1;
        }
        let mut b: Vec<String> = Vec::new();
        let mut j: usize = 0;
        assert(views(b@) =~= swept_chroots(*self, chroots@, 0, min_age));
        while j < chroots.len()
            invariant
                j <= chroots@.len(),
                views(b@) == swept_chroots(*self, chroots@, j as int, min_age),
            decreases chroots@.len() - j,
        {
            let d = &chroots[j];
            let aged = match d.age {
                Some(s) => s >= min_age,
                None => false,
            };
            let dir = self.settings.chroot_dir_of(d.name.as_str());
            if !self.chroot_in_use(dir.as_str()) && !self.in_pool(d.name.as_str()) && aged {
                push_name(&mut b, d.name.as_str());
            }
            j = j + 1;
        }
        (a, b)
    }
}

// ---------------------------------------------------------------------------
// Laws
// ---------------------------------------------------------------------------

/// A parked VM whose record is found on disk is in the table after a restart.
pub proof fn law_parked_vms_survive(jails: Seq<FoundJail>, i: int, n: int)
    requires
        0 <= i < n <= jails.len(),
        !reserved(jails[i].name@),
        jails[i].record matches Some(rec) && rec.standby,
    ensures
        survivors(jails, n).contains_key(jails[i].name@),
    decreases n,
{
    if i < n - 1 {
        law_parked_vms_survive(jails, i, n - 1);
    }
}

proof fn lemma_swept_jail(rt: FirecrackerRuntime, dirs: Seq<AgedDir>, n: int, min_age: u64, k: int)
    requires
        0 <= n <= dirs.len(),
        0 <= k < swept_jails(rt, dirs, n, min_age).len(),
    ensures
        exists|i: int|
            0 <= i < n && (#[trigger] dirs[i]).name@ == swept_jails(rt, dirs, n, min_age)[k]
                && sweeps_jail(rt, dirs[i], min_age),
    decreases n,
{
    if n > 0 {
        let before = swept_jails(rt, dirs, n - 1, min_age);
        if k < before.len() {
            lemma_swept_jail(rt, dirs, n - 1, min_age, k);
            let i = choose|i: int|
                0 <= i < n - 1 && (#[trigger] dirs[i]).name@ == before[k] && sweeps_jail(
                    rt,
                    dirs[i],
                    min_age,
                );
            assert(dirs[i].name@ == swept_jails(rt, dirs, n, min_age)[k]);
        } else {
            assert(sweeps_jail(rt, dirs[n - 1], min_age));
        }
    }
}

proof fn lemma_swept_chroot(rt: FirecrackerRuntime, dirs: Seq<AgedDir>, n: int, min_age: u64, k: int)
    requires
        0 <= n <= dirs.len(),
        0 <= k < swept_chroots(rt, dirs, n, min_age).len(),
    ensures
        exists|i: int|
            0 <= i < n && (#[trigger] dirs[i]).name@ == swept_chroots(rt, dirs, n, min_age)[k]
                && sweeps_chroot(rt, dirs[i], min_age),
    decreases n,
{
    if n > 0 {
        let before = swept_chroots(rt, dirs, n - 1, min_age);
        if k < before.len() {
            lemma_swept_chroot(rt, dirs, n - 1, min_age, k);
            let i = choose|i: int|
                0 <= i < n - 1 && (#[trigger] dirs[i]).name@ == before[k] && sweeps_chroot(
                    rt,
                    dirs[i],
                    min_age,
                );
            assert(dirs[i].name@ == swept_chroots(rt, dirs, n, min_age)[k]);
        } else {
            assert(sweeps_chroot(rt, dirs[n - 1], min_age));
        }
    }
}

/// The sweep never takes the jail of a VM in the table, parked or running, nor a
/// directory that is too young, or whose age is not known.
pub proof fn law_sweep_spares_vms(
    rt: FirecrackerRuntime,
    dirs: Seq<AgedDir>,
    min_age: u64,
    k: int,
)
    requires
        0 <= k < swept_jails(rt, dirs, dirs.len() as int, min_age).len(),
    ensures
        !rt.vms@.contains_key(swept_jails(rt, dirs, dirs.len() as int, min_age)[k]),
        !reserved(swept_jails(rt, dirs, dirs.len() as int, min_age)[k]),
        exists|i: int|
            0 <= i < dirs.len() && (#[trigger] dirs[i]).name@ == swept_jails(
                rt,
                dirs,
                dirs.len() as int,
                min_age,
            )[k] && old_enough(dirs[i], min_age),
{
    lemma_swept_jail(rt, dirs, dirs.len() as int, min_age, k);
}

/// The sweep never takes the chroot in which a VM of the table runs or is parked,
/// nor that of a pooled jailer, nor one that is too young, or whose age is not known.
pub proof fn law_sweep_spares_chroots(
    rt: FirecrackerRuntime,
    dirs: Seq<AgedDir>,
    min_age: u64,
    k: int,
)
    requires
        0 <= k < swept_chroots(rt, dirs, dirs.len() as int, min_age).len(),
    ensures
        ({
            let name = swept_chroots(rt, dirs, dirs.len() as int, min_age)[k];
            &&& forall|h: Seq<char>| #[trigger]
                rt.vms@.contains_key(h) ==> !lives_in(
                    rt.vms@[h].api_sock@,
                    rt.settings.chroot_dir(name),
                )
            &&& forall|i: int|
                0 <= i < rt.pool@.len() ==> (#[trigger] rt.pool@[i]).jail_id@ != name
            &&& exists|i: int|
                0 <= i < dirs.len() && (#[trigger] dirs[i]).name@ == name && old_enough(
                    dirs[i],
                    min_age,
                )
        }),
{
    lemma_swept_chroot(rt, dirs, dirs.len() as int, min_age, k);
}

} // verus!
