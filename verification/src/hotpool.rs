//! Hot pool bookkeeping. A hot pool holds pre-booted warm microVMs for one image
//! at one exact shape, so that a matching create can claim one at once.
//!
//! This is a plain data structure: the local node owns it, and a background
//! warmer brings each pool towards its target.

use crate::catalog::default_hot_pools;
use crate::knobs::Resources;
use crate::order::{before, is_before, lemma_total, lemma_transitive};
use crate::text::{same, views};
use vstd::prelude::*;
use vstd::string::*;

verus! {

/// Identity of a warm pool: an image family at an exact resource shape.
#[derive(Debug, PartialEq, Eq, Hash)]
pub struct ShapeKey {
    pub image_key: String,
    pub cpu_milli: u32,
    pub memory_mb: u32,
    pub disk_gb: u32,
}

/// A shape key by the view of its image.
pub struct KeyView {
    pub image_key: Seq<char>,
    pub cpu_milli: u32,
    pub memory_mb: u32,
    pub disk_gb: u32,
}

impl View for ShapeKey {
    type V = KeyView;

    open spec fn view(&self) -> KeyView {
        KeyView {
            image_key: self.image_key@,
            cpu_milli: self.cpu_milli,
            memory_mb: self.memory_mb,
            disk_gb: self.disk_gb,
        }
    }
}

impl Clone for ShapeKey {
    fn clone(&self) -> (r: Self)
        ensures
            r == *self,
    {
        ShapeKey {
            image_key: self.image_key.clone(),
            cpu_milli: self.cpu_milli,
            memory_mb: self.memory_mb,
            disk_gb: self.disk_gb,
        }
    }
}

impl ShapeKey {
    pub fn new(image_key: &str, r: &Resources) -> (k: ShapeKey)
        ensures
            k@ == (KeyView {
                image_key: image_key@,
                cpu_milli: r.cpu_milli,
                memory_mb: r.memory_mb,
                disk_gb: r.disk_gb,
            }),
    {
        ShapeKey {
            image_key: String::from_str(image_key),
            cpu_milli: r.cpu_milli,
            memory_mb: r.memory_mb,
            disk_gb: r.disk_gb,
        }
    }

    /// Do two keys name the same pool?
    pub fn matches(&self, other: &ShapeKey) -> (r: bool)
        ensures
            r == (self@ == other@),
    {
        self.cpu_milli == other.cpu_milli && self.memory_mb == other.memory_mb && self.disk_gb
            == other.disk_gb && same(self.image_key.as_str(), other.image_key.as_str())
    }
}

#[derive(Debug)]
pub struct PoolStatus {
    pub image_key: String,
    pub cpu_milli: u32,
    pub memory_mb: u32,
    pub disk_gb: u32,
    pub target: u32,
    pub ready: u32,
    pub deficit: u32,
}

impl PoolStatus {
    /// The pool that the entry is about.
    pub open spec fn key(self) -> KeyView {
        KeyView {
            image_key: self.image_key@,
            cpu_milli: self.cpu_milli,
            memory_mb: self.memory_mb,
            disk_gb: self.disk_gb,
        }
    }

    /// Listed by image, then by memory.
    pub open spec fn in_order(self, other: PoolStatus) -> bool {
        before(self.image_key@, other.image_key@) || (self.image_key@ == other.image_key@
            && self.memory_mb <= other.memory_mb)
    }
}

/// Warm pools: a target for every configured pool, and the handles of the VMs
/// that are ready, oldest first.
pub struct HotPools {
    targets: Vec<(ShapeKey, u32)>,
    ready: Vec<(ShapeKey, Vec<String>)>,
}

/// No key occurs twice.
pub open spec fn keys_distinct<T>(s: Seq<(ShapeKey, T)>) -> bool {
    forall|i: int, j: int| 0 <= i < j < s.len() ==> (#[trigger] s[i]).0@ != (#[trigger] s[j]).0@
}

/// The key occurs.
pub open spec fn has_key<T>(s: Seq<(ShapeKey, T)>, k: KeyView) -> bool {
    exists|i: int| 0 <= i < s.len() && (#[trigger] s[i]).0@ == k
}

/// The place of a key in a list.
pub open spec fn key_index<T>(s: Seq<(ShapeKey, T)>, k: KeyView) -> int {
    choose|i: int| 0 <= i < s.len() && (#[trigger] s[i]).0@ == k
}

proof fn lemma_key_index<T>(s: Seq<(ShapeKey, T)>, i: int)
    requires
        keys_distinct(s),
        0 <= i < s.len(),
    ensures
        has_key(s, s[i].0@),
        key_index(s, s[i].0@) == i,
{
    let k = s[i].0@;
    assert(has_key(s, k));
    let j = key_index(s, k);
    if i < j {
        assert(s[i].0@ != s[j].0@);
    } else if j < i {
        assert(s[j].0@ != s[i].0@);
    }
}

/// `a - b`, but not below zero.
pub open spec fn shortfall(a: u32, b: u32) -> u32 {
    if a >= b {
        (a - b) as u32
    } else {
        0
    }
}

impl HotPools {
    /// The pool has a target.
    pub closed spec fn configured(&self, k: KeyView) -> bool {
        has_key(self.targets@, k)
    }

    /// The target of a pool; zero when it has none.
    pub closed spec fn target_of(&self, k: KeyView) -> u32 {
        if has_key(self.targets@, k) {
            self.targets@[key_index(self.targets@, k)].1
        } else {
            0
        }
    }

    /// The ready handles of a pool, oldest first.
    pub closed spec fn queue_of(&self, k: KeyView) -> Seq<Seq<char>> {
        if has_key(self.ready@, k) {
            views(self.ready@[key_index(self.ready@, k)].1@)
        } else {
            Seq::empty()
        }
    }

    /// How many handles are ready.
    pub open spec fn ready_count(&self, k: KeyView) -> u32 {
        self.queue_of(k).len() as u32
    }

    /// How many more warm VMs a pool needs.
    pub open spec fn missing(&self, k: KeyView) -> u32 {
        shortfall(self.target_of(k), self.ready_count(k))
    }

    #[verifier::type_invariant]
    pub closed spec fn inv(self) -> bool {
        keys_distinct(self.targets@) && keys_distinct(self.ready@)
    }

    pub fn new() -> (r: HotPools)
        ensures
            forall|k: KeyView| #![trigger r.configured(k)] !r.configured(k),
            forall|k: KeyView| #![trigger r.target_of(k)] r.target_of(k) == 0,
            forall|k: KeyView| #![trigger r.queue_of(k)] r.queue_of(k) == Seq::<Seq<char>>::empty(),
    {
        HotPools { targets: Vec::new(), ready: Vec::new() }
    }

    fn find_target(targets: &Vec<(ShapeKey, u32)>, key: &ShapeKey) -> (r: Option<usize>)
        requires
            keys_distinct(targets@),
        ensures
            match r {
                Some(i) => i < targets@.len() && targets@[i as int].0@ == key@ && key_index(
                    targets@,
                    key@,
                ) == i,
                None => !has_key(targets@, key@),
            },
    {
        let mut i: usize = 0;
        while i < targets.len()
            invariant
                i <= targets@.len(),
                keys_distinct(targets@),
                forall|j: int| 0 <= j < i ==> (#[trigger] targets@[j]).0@ != key@,
            decreases targets@.len() - i,
        {
            if targets[i].0.matches(key) {
                proof {
                    lemma_key_index(targets@, i as int);
                }
                return Some(i);
            }
            i = i + 1;
        }
        None
    }

    fn find_ready(ready: &Vec<(ShapeKey, Vec<String>)>, key: &ShapeKey) -> (r: Option<usize>)
        requires
            keys_distinct(ready@),
        ensures
            match r {
                Some(i) => i < ready@.len() && ready@[i as int].0@ == key@ && key_index(
                    ready@,
                    key@,
                ) == i,
                None => !has_key(ready@, key@),
            },
    {
        let mut i: usize = 0;
        while i < ready.len()
            invariant
                i <= ready@.len(),
                keys_distinct(ready@),
                forall|j: int| 0 <= j < i ==> (#[trigger] ready@[j]).0@ != key@,
            decreases ready@.len() - i,
        {
            if ready[i].0.matches(key) {
                proof {
                    lemma_key_index(ready@, i as int);
                }
                return Some(i);
            }
            i = i + 1;
        }
        None
    }

    /// Set the target of a pool.
    pub fn set_target(&mut self, key: ShapeKey, target: u32)
        ensures
            final(self).configured(key@),
            final(self).target_of(key@) == target,
            final(self).queue_of(key@) == old(self).queue_of(key@),
            forall|k: KeyView|
                #![trigger final(self).configured(k)]
                final(self).configured(k) == (old(self).configured(k) || k == key@),
            forall|k: KeyView|
                #![trigger final(self).target_of(k)]
                final(self).target_of(k) == if k == key@ {
                    target
                } else {
                    old(self).target_of(k)
                },
            forall|k: KeyView|
                #![trigger final(self).queue_of(k)]
                final(self).queue_of(k) == old(self).queue_of(k),
    {
        proof {
            use_type_invariant(&*self);
        }
        let ghost t0 = self.targets@;
        let mut targets: Vec<(ShapeKey, u32)> = Vec::new();
        std::mem::swap(&mut targets, &mut self.targets);
        match Self::find_target(&targets, &key) {
            Some(i) => {
                let ghost kv = key@;
                targets.set(i, (key, target));
                proof {
                    let t = targets@;
                    assert(forall|j: int| 0 <= j < t.len() ==> (#[trigger] t[j]).0@ == t0[j].0@);
                    assert(keys_distinct(t)) by {
                        assert forall|a: int, b: int| 0 <= a < b < t.len() implies (
                        #[trigger] t[a]).0@ != (#[trigger] t[b]).0@ by {
                            assert(t0[a].0@ != t0[b].0@);
                        }
                    }
                    assert forall|k: KeyView| has_key(t, k) == (#[trigger] has_key(t0, k)) by {
                        if has_key(t0, k) {
                            let a = key_index(t0, k);
                            assert(t[a].0@ == k);
                        }
                        if has_key(t, k) {
                            let a = key_index(t, k);
                            assert(t0[a].0@ == k);
                        }
                    }
                    assert(has_key(t0, kv)) by {
                        assert(t0[i as int].0@ == kv);
                    }
                    assert forall|k: KeyView| #[trigger] has_key(t, k) implies t[key_index(t, k)].1
                        == (if k == kv {
                        target
                    } else {
                        t0[key_index(t0, k)].1
                    }) by {
                        let a = key_index(t, k);
                        lemma_key_index(t0, a);
                        lemma_key_index(t0, i as int);
                        lemma_key_index(t, a);
                        assert(t0[a].0@ == k);
                    }
                }
            },
            None => {
                let ghost kv = key@;
                targets.push((key, target));
                proof {
                    let t = targets@;
                    let n = t0.len() as int;
                    assert(keys_distinct(t)) by {
                        assert forall|a: int, b: int| 0 <= a < b < t.len() implies (
                        #[trigger] t[a]).0@ != (#[trigger] t[b]).0@ by {
                            if b < n {
                                assert(t0[a].0@ != t0[b].0@);
                            } else {
                                assert(t0[a].0@ != kv);
                            }
                        }
                    }
                    assert forall|k: KeyView| has_key(t, k) == (#[trigger] has_key(t0, k) || k
                        == kv) by {
                        if has_key(t0, k) {
                            assert(t[key_index(t0, k)].0@ == k);
                        }
                        if has_key(t, k) && k != kv {
                            assert(t0[key_index(t, k)].0@ == k);
                        }
                        assert(t[n].0@ == kv);
                    }
                    assert forall|k: KeyView| #[trigger] has_key(t, k) implies t[key_index(t, k)].1
                        == (if k == kv {
                        target
                    } else {
                        t0[key_index(t0, k)].1
                    }) by {
                        let a = key_index(t, k);
                        lemma_key_index(t, a);
                        lemma_key_index(t, n);
                        if k != kv {
                            lemma_key_index(t0, a);
                        }
                    }
                }
            },
        }
        self.targets = targets;
    }

    pub fn target(&self, key: &ShapeKey) -> (r: u32)
        ensures
            r == self.target_of(key@),
    {
        proof {
            use_type_invariant(self);
        }
        match Self::find_target(&self.targets, key) {
            Some(i) => {
                proof {
                    lemma_key_index(self.targets@, i as int);
                }
                self.targets[i].1
            },
            None => 0,
        }
    }

    pub fn available(&self, key: &ShapeKey) -> (r: u32)
        ensures
            r == self.ready_count(key@),
    {
        proof {
            use_type_invariant(self);
        }
        match Self::find_ready(&self.ready, key) {
            Some(i) => {
                proof {
                    lemma_key_index(self.ready@, i as int);
                }
                self.ready[i].1.len() as u32
            },
            None => 0,
        }
    }

    /// Claim the oldest warm VM of an exact shape, if one is ready.
    pub fn claim(&mut self, key: &ShapeKey) -> (r: Option<String>)
        ensures
            forall|k: KeyView|
                #![trigger final(self).configured(k)]
                final(self).configured(k) == old(self).configured(k),
            forall|k: KeyView|
                #![trigger final(self).target_of(k)]
                final(self).target_of(k) == old(self).target_of(k),
            r is Some <==> old(self).queue_of(key@).len() > 0,
            r matches Some(h) ==> h@ == old(self).queue_of(key@)[0],
            forall|k: KeyView|
                #![trigger final(self).queue_of(k)]
                final(self).queue_of(k) == if k == key@ && r is Some {
                    old(self).queue_of(k).subrange(1, old(self).queue_of(k).len() as int)
                } else {
                    old(self).queue_of(k)
                },
    {
        proof {
            use_type_invariant(&*self);
        }
        let ghost r0 = self.ready@;
        let mut ready: Vec<(ShapeKey, Vec<String>)> = Vec::new();
        std::mem::swap(&mut ready, &mut self.ready);
        let mut out: Option<String> = None;
        match Self::find_ready(&ready, key) {
            Some(i) => {
                proof {
                    lemma_key_index(r0, i as int);
                }
                let (k, mut queue) = ready.remove(i);
                let ghost q0 = queue@;
                if queue.len() > 0 {
                    out = Some(queue.remove(0));
                }
                let ghost q1 = queue@;
                ready.insert(i, (k, queue));
                proof {
                    let t = ready@;
                    assert(t.len() == r0.len());
                    assert(forall|j: int|
                        0 <= j < t.len() && j != i ==> (#[trigger] t[j]) == r0[j]);
                    assert(t[i as int].0@ == key@ && t[i as int].1@ == q1);
                    lemma_queue_changed(r0, t, i as int);
                    if q0.len() > 0 {
                        assert(views(q1) =~= views(q0).subrange(1, q0.len() as int));
                    }
                }
            },
            None => {},
        }
        self.ready = ready;
        out
    }

    /// Add a freshly warmed VM at the end of a pool's queue.
    pub fn push(&mut self, key: ShapeKey, handle: String)
        ensures
            final(self).queue_of(key@) == old(self).queue_of(key@).push(handle@),
            final(self).target_of(key@) == old(self).target_of(key@),
            forall|k: KeyView|
                #![trigger final(self).configured(k)]
                final(self).configured(k) == old(self).configured(k),
            forall|k: KeyView|
                #![trigger final(self).target_of(k)]
                final(self).target_of(k) == old(self).target_of(k),
            forall|k: KeyView|
                #![trigger final(self).queue_of(k)]
                final(self).queue_of(k) == if k == key@ {
                    old(self).queue_of(k).push(handle@)
                } else {
                    old(self).queue_of(k)
                },
    {
        proof {
            use_type_invariant(&*self);
        }
        let ghost r0 = self.ready@;
        let ghost kv = key@;
        let ghost hv = handle@;
        let mut ready: Vec<(ShapeKey, Vec<String>)> = Vec::new();
        std::mem::swap(&mut ready, &mut self.ready);
        match Self::find_ready(&ready, &key) {
            Some(i) => {
                proof {
                    lemma_key_index(r0, i as int);
                }
                let (k, mut queue) = ready.remove(i);
                let ghost q0 = queue@;
                queue.push(handle);
                let ghost q1 = queue@;
                ready.insert(i, (k, queue));
                proof {
                    let t = ready@;
                    assert(forall|j: int|
                        0 <= j < t.len() && j != i ==> (#[trigger] t[j]) == r0[j]);
                    lemma_queue_changed(r0, t, i as int);
                    assert(views(q1) =~= views(q0).push(hv));
                }
            },
            None => {
                let mut queue: Vec<String> = Vec::new();
                queue.push(handle);
                let ghost q1 = queue@;
                ready.push((key, queue));
                proof {
                    let t = ready@;
                    let n = r0.len() as int;
                    assert(views(q1) =~= Seq::<Seq<char>>::empty().push(hv));
                    assert(keys_distinct(t)) by {
                        assert forall|a: int, b: int| 0 <= a < b < t.len() implies (
                        #[trigger] t[a]).0@ != (#[trigger] t[b]).0@ by {
                            if b < n {
                                assert(r0[a].0@ != r0[b].0@);
                            } else {
                                assert(r0[a].0@ != kv);
                            }
                        }
                    }
                    assert forall|k: KeyView| has_key(t, k) == (#[trigger] has_key(r0, k) || k
                        == kv) by {
                        if has_key(r0, k) {
                            assert(t[key_index(r0, k)].0@ == k);
                        }
                        if has_key(t, k) && k != kv {
                            assert(r0[key_index(t, k)].0@ == k);
                        }
                        assert(t[n].0@ == kv);
                    }
                    lemma_key_index(t, n);
                    assert forall|k: KeyView| #[trigger] has_key(t, k) && k != kv implies t[key_index(
                        t,
                        k,
                    )] == r0[key_index(r0, k)] by {
                        let a = key_index(t, k);
                        lemma_key_index(r0, a);
                    }
                }
            },
        }
        self.ready = ready;
    }

    /// How many more warm VMs this pool needs to reach its target.
    pub fn deficit(&self, key: &ShapeKey) -> (r: u32)
        ensures
            r == self.missing(key@),
    {
        self.target(key).saturating_sub(self.available(key))
    }

    /// Pools that still need warming, with how many VMs each lacks.
    pub fn pending_warm(&self) -> (r: Vec<(ShapeKey, u32)>)
        ensures
            keys_distinct(r@),
            forall|i: int|
                0 <= i < r@.len() ==> (#[trigger] r@[i]).1 == self.missing(r@[i].0@) && r@[i].1 > 0,
            forall|k: KeyView|
                #![trigger self.configured(k)]
                has_key(r@, k) <==> self.configured(k) && self.missing(k) > 0,
    {
        proof {
            use_type_invariant(self);
        }
        let mut out: Vec<(ShapeKey, u32)> = Vec::new();
        let mut i: usize = 0;
        while i < self.targets.len()
            invariant
                i <= self.targets@.len(),
                keys_distinct(self.targets@),
                keys_distinct(out@),
                forall|j: int|
                    0 <= j < out@.len() ==> (#[trigger] out@[j]).1 == self.missing(out@[j].0@)
                        && out@[j].1 > 0,
                forall|j: int|
                    0 <= j < i && self.missing((#[trigger] self.targets@[j]).0@) > 0 ==> has_key(
                        out@,
                        self.targets@[j].0@,
                    ),
                forall|j: int|
                    0 <= j < out@.len() ==> exists|a: int|
                        0 <= a < i && (#[trigger] self.targets@[a]).0@ == (#[trigger] out@[j]).0@,
            decreases self.targets@.len() - i,
        {
            let d: u32 = self.deficit(&self.targets[i].0);
            if d > 0 {
                let ghost o0 = out@;
                let ghost kv = self.targets@[i as int].0@;
                out.push((self.targets[i].0.clone(), d));
                proof {
                    let o = out@;
                    let n = o0.len() as int;
                    assert forall|a: int, b: int| 0 <= a < b < o.len() implies (#[trigger] o[a]).0@
                        != (#[trigger] o[b]).0@ by {
                        if b < n {
                            assert(o0[a].0@ != o0[b].0@);
                        } else {
                            let t = choose|t: int|
                                0 <= t < i && (#[trigger] self.targets@[t]).0@ == o0[a].0@;
                            assert(self.targets@[t].0@ != self.targets@[i as int].0@);
                        }
                    }
                    assert forall|j: int|
                        0 <= j < i + 1 && self.missing((#[trigger] self.targets@[j]).0@)
                            > 0 implies has_key(o, self.targets@[j].0@) by {
                        if j < i {
                            let a = key_index(o0, self.targets@[j].0@);
                            assert(o[a].0@ == self.targets@[j].0@);
                        } else {
                            assert(o[n].0@ == kv);
                        }
                    }
                    assert forall|j: int| 0 <= j < o.len() implies exists|a: int|
                        0 <= a < i + 1 && (#[trigger] self.targets@[a]).0@ == (#[trigger] o[j]).0@ by {
                        if j < n {
                            let t = choose|t: int|
                                0 <= t < i && (#[trigger] self.targets@[t]).0@ == o0[j].0@;
                            assert(self.targets@[t].0@ == o[j].0@);
                        } else {
                            assert(self.targets@[i as int].0@ == o[j].0@);
                        }
                    }
                }
            }
            i = i + 1;
        }
        proof {
            assert forall|k: KeyView| #![trigger self.configured(k)] has_key(out@, k) <==> self.configured(k)
                && self.missing(k) > 0 by {
                if has_key(out@, k) {
                    let j = key_index(out@, k);
                    let a = choose|a: int|
                        0 <= a < i && (#[trigger] self.targets@[a]).0@ == out@[j].0@;
                    assert(self.targets@[a].0@ == k);
                }
                if self.configured(k) && self.missing(k) > 0 {
                    let a = key_index(self.targets@, k);
                    assert(self.targets@[a].0@ == k);
                }
            }
        }
        out
    }

    /// All configured pools with their current deficit, listed by image and then
    /// by memory.
    pub fn status(&self) -> (r: Vec<PoolStatus>)
        ensures
            forall|i: int, j: int|
                0 <= i < j < r@.len() ==> (#[trigger] r@[i]).in_order(#[trigger] r@[j]) && r@[i].key()
                    != r@[j].key(),
            forall|i: int|
                0 <= i < r@.len() ==> {
                    let k = (#[trigger] r@[i]).key();
                    &&& r@[i].target == self.target_of(k)
                    &&& r@[i].ready == self.ready_count(k)
                    &&& r@[i].deficit == self.missing(k)
                },
            forall|k: KeyView|
                #![trigger self.configured(k)]
                self.configured(k) <==> occurs(r@, k),
    {
        proof {
            use_type_invariant(self);
        }
        let mut out: Vec<PoolStatus> = Vec::new();
        let mut i: usize = 0;
        while i < self.targets.len()
            invariant
                i <= self.targets@.len(),
                keys_distinct(self.targets@),
                listed(*self, out@, i as int),
            decreases self.targets@.len() - i,
        {
            let key = &self.targets[i].0;
            let ready: u32 = self.available(key);
            let target: u32 = self.target(key);
            let entry = PoolStatus {
                image_key: key.image_key.clone(),
                cpu_milli: key.cpu_milli,
                memory_mb: key.memory_mb,
                disk_gb: key.disk_gb,
                target,
                ready,
                deficit: target.saturating_sub(ready),
            };
            let ghost o0 = out@;
            let ghost e = entry;
            let mut at: usize = 0;
            while at < out.len() && Self::comes_first(&out[at], &entry)
                invariant
                    at <= out@.len(),
                    out@ == o0,
                    e == entry,
                    forall|k: int| 0 <= k < at ==> (#[trigger] o0[k]).in_order(e),
                decreases out@.len() - at,
            {
                at = at + 1;
            }
            out.insert(at, entry);
            proof {
                assert(e.key() == self.targets@[i as int].0@);
                lemma_insert_entry(*self, o0, e, at as int, i as int);
                assert(out@ =~= o0.insert(at as int, e));
            }
            i = i + 1;
        }
        proof {
            let o = out@;
            assert forall|k: KeyView| #![trigger self.configured(k)] self.configured(k) <==> occurs(o, k) by {
                if self.configured(k) {
                    let a = key_index(self.targets@, k);
                    assert(self.targets@[a].0@ == k);
                    assert(among(self.targets@, i as int, k));
                }
                if occurs(o, k) {
                    let a = choose|a: int| 0 <= a < i && (#[trigger] self.targets@[a]).0@ == k;
                    assert(self.targets@[a].0@ == k);
                }
            }
        }
        out
    }

    fn comes_first(a: &PoolStatus, b: &PoolStatus) -> (r: bool)
        ensures
            r == a.in_order(*b),
    {
        is_before(a.image_key.as_str(), b.image_key.as_str()) || (same(
            a.image_key.as_str(),
            b.image_key.as_str(),
        ) && a.memory_mb <= b.memory_mb)
    }

    /// Set the default targets, with an override for the base pool.
    pub fn configure_default_pools(&mut self, base_target: u32)
        ensures
            forall|k: KeyView|
                #![trigger final(self).target_of(k)]
                final(self).target_of(k) == match default_target(k, base_target) {
                    Some(t) => t,
                    None => old(self).target_of(k),
                },
            forall|k: KeyView|
                #![trigger final(self).configured(k)]
                final(self).configured(k) == (old(self).configured(k) || default_target(
                    k,
                    base_target,
                ) is Some),
            forall|k: KeyView|
                #![trigger final(self).queue_of(k)]
                final(self).queue_of(k) == old(self).queue_of(k),
    {
        let pools = default_hot_pools();
        proof {
            reveal_strlit("base");
            reveal_strlit("node-python");
            reveal_strlit("browser");
            assert("base"@.len() == 4 && "node-python"@.len() == 11 && "browser"@.len() == 7);
        }
        self.set_target(ShapeKey::new(pools[0].image_key, &pools[0].shape), base_target);
        self.set_target(ShapeKey::new(pools[1].image_key, &pools[1].shape), pools[1].target);
        self.set_target(ShapeKey::new(pools[2].image_key, &pools[2].shape), pools[2].target);
    }
}

/// The default target of a pool, if it is one of the default pools.
pub open spec fn default_target(k: KeyView, base_target: u32) -> Option<u32> {
    if k == (KeyView { image_key: "base"@, cpu_milli: 1000, memory_mb: 2048, disk_gb: 8 }) {
        Some(base_target)
    } else if k == (KeyView {
        image_key: "node-python"@,
        cpu_milli: 1000,
        memory_mb: 2048,
        disk_gb: 16,
    }) {
        Some(1)
    } else if k == (KeyView {
        image_key: "browser"@,
        cpu_milli: 2000,
        memory_mb: 4096,
        disk_gb: 16,
    }) {
        Some(1)
    } else {
        None
    }
}

/// `o` lists the first `n` pools of `p`, in order.
pub closed spec fn listed(p: HotPools, o: Seq<PoolStatus>, n: int) -> bool {
    &&& forall|i: int, j: int|
        0 <= i < j < o.len() ==> (#[trigger] o[i]).in_order(#[trigger] o[j]) && o[i].key() != o[j].key()
    &&& forall|i: int|
        0 <= i < o.len() ==> {
            let k = (#[trigger] o[i]).key();
            &&& o[i].target == p.target_of(k)
            &&& o[i].ready == p.ready_count(k)
            &&& o[i].deficit == p.missing(k)
        }
    &&& forall|k: KeyView| #[trigger] occurs(o, k) == among(p.targets@, n, k)
}

/// An entry of the list is about the pool `k`.
pub open spec fn occurs(o: Seq<PoolStatus>, k: KeyView) -> bool {
    exists|j: int| 0 <= j < o.len() && (#[trigger] o[j]).key() == k
}

/// One of the first `n` pools is `k`.
pub open spec fn among(t: Seq<(ShapeKey, u32)>, n: int, k: KeyView) -> bool {
    exists|a: int| 0 <= a < n && (#[trigger] t[a]).0@ == k
}

proof fn lemma_in_order_total(a: PoolStatus, b: PoolStatus)
    ensures
        a.in_order(b) || b.in_order(a),
{
    lemma_total(a.image_key@, b.image_key@);
}

proof fn lemma_in_order_transitive(a: PoolStatus, b: PoolStatus, c: PoolStatus)
    requires
        a.in_order(b),
        b.in_order(c),
    ensures
        a.in_order(c),
{
    if before(a.image_key@, b.image_key@) && before(b.image_key@, c.image_key@) {
        lemma_transitive(a.image_key@, b.image_key@, c.image_key@);
    }
}

proof fn lemma_insert_entry(p: HotPools, o: Seq<PoolStatus>, e: PoolStatus, at: int, n: int)
    requires
        listed(p, o, n),
        keys_distinct(p.targets@),
        0 <= n < p.targets@.len(),
        0 <= at <= o.len(),
        forall|k: int| 0 <= k < at ==> (#[trigger] o[k]).in_order(e),
        at < o.len() ==> !o[at].in_order(e),
        e.key() == p.targets@[n].0@,
        e.target == p.target_of(e.key()),
        e.ready == p.ready_count(e.key()),
        e.deficit == p.missing(e.key()),
    ensures
        listed(p, o.insert(at, e), n + 1),
{
    let r = o.insert(at, e);
    if at < o.len() {
        lemma_in_order_total(o[at], e);
    }
    assert forall|k: int| 0 <= k < o.len() implies (#[trigger] o[k]).key() != e.key() by {
        assert(occurs(o, o[k].key()));
        let a = choose|a: int| 0 <= a < n && (#[trigger] p.targets@[a]).0@ == o[k].key();
        assert(p.targets@[a].0@ != p.targets@[n].0@);
    }
    assert forall|i: int, j: int| 0 <= i < j < r.len() implies (#[trigger] r[i]).in_order(
        #[trigger] r[j],
    ) && r[i].key() != r[j].key() by {
        if j < at {
            assert(o[i].in_order(o[j]));
        } else if j == at {
            assert(r[i] == o[i]);
        } else if i < at {
            assert(o[i].in_order(o[j - 1]));
            assert(o[i].key() != o[j - 1].key());
        } else if i == at {
            assert(r[j] == o[j - 1]);
            if j - 1 > at {
                assert(o[at].in_order(o[j - 1]));
                lemma_in_order_transitive(e, o[at], o[j - 1]);
            }
        } else {
            assert(o[i - 1].in_order(o[j - 1]));
            assert(o[i - 1].key() != o[j - 1].key());
        }
    }
    assert forall|i: int| 0 <= i < r.len() implies {
        let k = (#[trigger] r[i]).key();
        &&& r[i].target == p.target_of(k)
        &&& r[i].ready == p.ready_count(k)
        &&& r[i].deficit == p.missing(k)
    } by {
        if i < at {
            assert(r[i] == o[i]);
        } else if i > at {
            assert(r[i] == o[i - 1]);
        }
    }
    assert forall|k: KeyView| #[trigger] occurs(r, k) == among(p.targets@, n + 1, k) by {
        if occurs(o, k) {
            let j = choose|j: int| 0 <= j < o.len() && (#[trigger] o[j]).key() == k;
            if j < at {
                assert(r[j].key() == k);
            } else {
                assert(r[j + 1].key() == k);
            }
            let a = choose|a: int| 0 <= a < n && (#[trigger] p.targets@[a]).0@ == k;
            assert(p.targets@[a].0@ == k);
        } else if k == e.key() {
            assert(r[at].key() == k);
            assert(p.targets@[n].0@ == k);
        } else {
            if occurs(r, k) {
                let j = choose|j: int| 0 <= j < r.len() && (#[trigger] r[j]).key() == k;
                if j < at {
                    assert(o[j].key() == k);
                } else {
                    assert(o[j - 1].key() == k);
                }
            }
            if among(p.targets@, n + 1, k) {
                let a = choose|a: int| 0 <= a < n + 1 && (#[trigger] p.targets@[a]).0@ == k;
                assert(a < n);
                assert(among(p.targets@, n, k));
            }
        }
    }
}

/// Changing the queue of one pool leaves the others alone.
proof fn lemma_queue_changed(
    r0: Seq<(ShapeKey, Vec<String>)>,
    t: Seq<(ShapeKey, Vec<String>)>,
    i: int,
)
    requires
        keys_distinct(r0),
        0 <= i < r0.len(),
        t.len() == r0.len(),
        t[i].0@ == r0[i].0@,
        forall|j: int| 0 <= j < t.len() && j != i ==> (#[trigger] t[j]) == r0[j],
    ensures
        keys_distinct(t),
        key_index(t, r0[i].0@) == i,
        forall|k: KeyView| has_key(t, k) == (#[trigger] has_key(r0, k)),
        forall|k: KeyView| #[trigger]
            has_key(t, k) && k != r0[i].0@ ==> t[key_index(t, k)] == r0[key_index(r0, k)],
{
    assert(forall|j: int| 0 <= j < t.len() ==> (#[trigger] t[j]).0@ == r0[j].0@);
    assert forall|a: int, b: int| 0 <= a < b < t.len() implies (#[trigger] t[a]).0@ != (
    #[trigger] t[b]).0@ by {
        assert(r0[a].0@ != r0[b].0@);
    }
    assert forall|k: KeyView| has_key(t, k) == (#[trigger] has_key(r0, k)) by {
        if has_key(r0, k) {
            assert(t[key_index(r0, k)].0@ == k);
        }
        if has_key(t, k) {
            assert(r0[key_index(t, k)].0@ == k);
        }
    }
    lemma_key_index(t, i);
    assert forall|k: KeyView| #[trigger] has_key(t, k) && k != r0[i].0@ implies t[key_index(t, k)]
        == r0[key_index(r0, k)] by {
        let a = key_index(t, k);
        lemma_key_index(r0, a);
    }
}

} // verus!
