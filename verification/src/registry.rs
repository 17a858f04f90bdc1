//! A small map from names to values, kept as a list in the order of the names.

use crate::order::{before, is_before, lemma_asymmetric, lemma_total, lemma_transitive};
use crate::text::same;
use vstd::prelude::*;
use vstd::string::*;

verus! {

/// A map from names to values.
#[derive(Debug)]
pub struct Registry<V> {
    entries: Vec<(String, V)>,
}

/// No name occurs twice.
pub open spec fn names_distinct<V>(s: Seq<(String, V)>) -> bool {
    forall|i: int, j: int| 0 <= i < j < s.len() ==> (#[trigger] s[i]).0@ != (#[trigger] s[j]).0@
}

/// The names ascend.
pub open spec fn names_ascend<V>(s: Seq<(String, V)>) -> bool {
    forall|i: int, j: int|
        0 <= i < j < s.len() ==> before((#[trigger] s[i]).0@, (#[trigger] s[j]).0@)
}

/// Names that ascend are distinct.
pub proof fn lemma_ascending_names_are_distinct<V>(s: Seq<(String, V)>)
    requires
        names_ascend(s),
    ensures
        names_distinct(s),
{
    assert forall|i: int, j: int| 0 <= i < j < s.len() implies (#[trigger] s[i]).0@ != (
    #[trigger] s[j]).0@ by {
        lemma_asymmetric(s[i].0@, s[j].0@);
    }
}

/// The map that a list without repeated names stands for.
pub open spec fn as_map<V>(s: Seq<(String, V)>) -> Map<Seq<char>, V>
    decreases s.len(),
{
    if s.len() == 0 {
        Map::empty()
    } else {
        as_map(s.drop_last()).insert(s.last().0@, s.last().1)
    }
}

proof fn lemma_as_map<V>(s: Seq<(String, V)>)
    requires
        names_distinct(s),
    ensures
        forall|i: int|
            0 <= i < s.len() ==> as_map(s).contains_key((#[trigger] s[i]).0@) && as_map(
                s,
            )[s[i].0@] == s[i].1,
        forall|k: Seq<char>| #[trigger]
            as_map(s).contains_key(k) ==> exists|i: int| 0 <= i < s.len() && (#[trigger] s[i]).0@
                == k,
    decreases s.len(),
{
    if s.len() > 0 {
        let t = s.drop_last();
        assert(names_distinct(t)) by {
            assert forall|i: int, j: int| 0 <= i < j < t.len() implies (#[trigger] t[i]).0@ != (
            #[trigger] t[j]).0@ by {
                assert(s[i].0@ != s[j].0@);
            }
        }
        lemma_as_map(t);
        assert forall|i: int| 0 <= i < s.len() implies as_map(s).contains_key(
            (#[trigger] s[i]).0@,
        ) && as_map(s)[s[i].0@] == s[i].1 by {
            if i < t.len() {
                assert(t[i] == s[i]);
                assert(s[i].0@ != s[s.len() - 1].0@);
            }
        }
        assert forall|k: Seq<char>| #[trigger] as_map(s).contains_key(k) implies exists|i: int|
            0 <= i < s.len() && (#[trigger] s[i]).0@ == k by {
            if k == s.last().0@ {
                assert(s[s.len() - 1].0@ == k);
            } else {
                assert(as_map(t).contains_key(k));
                let i = choose|i: int| 0 <= i < t.len() && (#[trigger] t[i]).0@ == k;
                assert(s[i].0@ == k);
            }
        }
    }
}

/// Two lists without repeated names that hold the same pairs stand for the same
/// map.
proof fn lemma_same_pairs<V>(a: Seq<(String, V)>, m: Map<Seq<char>, V>)
    requires
        names_distinct(a),
        forall|i: int|
            0 <= i < a.len() ==> m.contains_key((#[trigger] a[i]).0@) && m[a[i].0@] == a[i].1,
        forall|k: Seq<char>| #[trigger]
            m.contains_key(k) ==> exists|i: int| 0 <= i < a.len() && (#[trigger] a[i]).0@ == k,
    ensures
        as_map(a) == m,
{
    lemma_as_map(a);
    assert forall|k: Seq<char>| #[trigger] m.contains_key(k) <==> as_map(a).contains_key(k) by {
        if m.contains_key(k) {
            let i = choose|i: int| 0 <= i < a.len() && (#[trigger] a[i]).0@ == k;
            assert(as_map(a).contains_key(a[i].0@));
        }
        if as_map(a).contains_key(k) {
            let i = choose|i: int| 0 <= i < a.len() && (#[trigger] a[i]).0@ == k;
            assert(m.contains_key(a[i].0@));
        }
    }
    assert forall|k: Seq<char>| #[trigger] m.contains_key(k) implies as_map(a)[k] == m[k] by {
        let i = choose|i: int| 0 <= i < a.len() && (#[trigger] a[i]).0@ == k;
        assert(as_map(a)[a[i].0@] == a[i].1);
    }
    assert(as_map(a) =~= m);
}

/// A new name put at its place in a list whose names ascend leaves them ascending,
/// and puts the value into the map.
proof fn lemma_put_in_place<V>(
    was: Seq<(String, V)>,
    now: Seq<(String, V)>,
    at: int,
    name: Seq<char>,
    value: V,
)
    requires
        names_ascend(was),
        0 <= at <= was.len(),
        now.len() == was.len() + 1,
        now[at].0@ == name,
        now[at].1 == value,
        forall|k: int| 0 <= k < at ==> now[k] == was[k],
        forall|k: int| at < k < now.len() ==> now[k] == was[k - 1],
        forall|k: int| 0 <= k < at ==> before((#[trigger] was[k]).0@, name),
        at < was.len() ==> !before(was[at].0@, name),
        forall|k: int| 0 <= k < was.len() ==> (#[trigger] was[k]).0@ != name,
    ensures
        names_ascend(now),
        as_map(now) == as_map(was).insert(name, value),
{
    if at < was.len() {
        lemma_total(was[at].0@, name);
    }
    assert forall|i: int, j: int| 0 <= i < j < now.len() implies before(
        (#[trigger] now[i]).0@,
        (#[trigger] now[j]).0@,
    ) by {
        if i < at && j == at {
            assert(before(was[i].0@, name));
        } else if i == at {
            if j - 1 > at {
                assert(before(was[at].0@, was[j - 1].0@));
                lemma_transitive(name, was[at].0@, was[j - 1].0@);
            }
        } else if i < at && j > at {
            assert(before(was[i].0@, was[j - 1].0@));
        } else if j < at {
            assert(before(was[i].0@, was[j].0@));
        } else {
            assert(before(was[i - 1].0@, was[j - 1].0@));
        }
    }
    lemma_ascending_names_are_distinct(was);
    lemma_ascending_names_are_distinct(now);
    lemma_as_map(was);
    let m = as_map(was).insert(name, value);
    assert forall|a: int| 0 <= a < now.len() implies m.contains_key((#[trigger] now[a]).0@)
        && m[now[a].0@] == now[a].1 by {
        if a < at {
            assert(as_map(was).contains_key(was[a].0@));
        } else if a > at {
            assert(as_map(was).contains_key(was[a - 1].0@));
        }
    }
    assert forall|k: Seq<char>| #[trigger] m.contains_key(k) implies exists|a: int|
        0 <= a < now.len() && (#[trigger] now[a]).0@ == k by {
        if k == name {
            assert(now[at].0@ == k);
        } else {
            let x = choose|x: int| 0 <= x < was.len() && (#[trigger] was[x]).0@ == k;
            if x < at {
                assert(now[x].0@ == k);
            } else {
                assert(now[x + 1].0@ == k);
            }
        }
    }
    lemma_same_pairs(now, m);
}

impl<V> View for Registry<V> {
    type V = Map<Seq<char>, V>;

    closed spec fn view(&self) -> Map<Seq<char>, V> {
        as_map(self.entries@)
    }
}

impl<V> Registry<V> {
    #[verifier::type_invariant]
    spec fn inv(self) -> bool {
        names_ascend(self.entries@)
    }

    /// The pairs in the order of their names.
    pub closed spec fn pairs(self) -> Seq<(String, V)> {
        self.entries@
    }

    pub fn new() -> (r: Registry<V>)
        ensures
            r@ == Map::<Seq<char>, V>::empty(),
            names_ascend(r.pairs()),
    {
        Registry { entries: Vec::new() }
    }

    fn find(&self, name: &str) -> (r: Option<usize>)
        ensures
            match r {
                Some(i) => i < self.entries@.len() && self.entries@[i as int].0@ == name@
                    && self@.contains_key(name@) && self@[name@] == self.entries@[i as int].1,
                None => !self@.contains_key(name@) && forall|k: int|
                    0 <= k < self.entries@.len() ==> (#[trigger] self.entries@[k]).0@ != name@,
            },
    {
        let mut i: usize = 0;
        while i < self.entries.len()
            invariant
                i <= self.entries@.len(),
                forall|k: int| 0 <= k < i ==> (#[trigger] self.entries@[k]).0@ != name@,
            decreases self.entries@.len() - i,
        {
            if same(self.entries[i].0.as_str(), name) {
                proof {
                    use_type_invariant(self);
                    lemma_ascending_names_are_distinct(self.entries@);
                    lemma_as_map(self.entries@);
                }
                return Some(i);
            }
            i = i + 1;
        }
        proof {
            use_type_invariant(self);
            lemma_ascending_names_are_distinct(self.entries@);
            lemma_as_map(self.entries@);
        }
        None
    }

    /// The value under a name.
    pub fn get(&self, name: &str) -> (r: Option<&V>)
        ensures
            match r {
                Some(v) => self@.contains_key(name@) && *v == self@[name@],
                None => !self@.contains_key(name@),
            },
    {
        match self.find(name) {
            Some(i) => Some(&self.entries[i].1),
            None => None,
        }
    }

    /// Is there a value under this name?
    pub fn contains(&self, name: &str) -> (r: bool)
        ensures
            r == self@.contains_key(name@),
    {
        self.find(name).is_some()
    }

    /// Take the value under a name out of the map.
    pub fn remove(&mut self, name: &str) -> (r: Option<V>)
        ensures
            final(self)@ == old(self)@.remove(name@),
            match r {
                Some(v) => old(self)@.contains_key(name@) && v == old(self)@[name@],
                None => !old(self)@.contains_key(name@),
            },
            names_ascend(final(self).pairs()),
    {
        let found = self.find(name);
        proof {
            use_type_invariant(&*self);
        }
        let ghost was = self.entries@;
        match found {
            None => {
                assert(old(self)@.remove(name@) =~= old(self)@);
                None
            },
            Some(i) => {
                let mut list: Vec<(String, V)> = Vec::new();
                std::mem::swap(&mut list, &mut self.entries);
                let (_, value) = list.remove(i);
                proof {
                    lemma_ascending_names_are_distinct(was);
                    lemma_as_map(was);
                    let now = list@;
                    assert(now =~= was.remove(i as int));
                    assert forall|a: int, b: int| 0 <= a < b < now.len() implies before(
                        (#[trigger] now[a]).0@,
                        (#[trigger] now[b]).0@,
                    ) by {
                        let x = if a < i { a } else { a + 1 };
                        let y = if b < i { b } else { b + 1 };
                        assert(before(was[x].0@, was[y].0@));
                    }
                    lemma_ascending_names_are_distinct(now);
                    let m = as_map(was).remove(name@);
                    assert forall|a: int| 0 <= a < now.len() implies m.contains_key(
                        (#[trigger] now[a]).0@,
                    ) && m[now[a].0@] == now[a].1 by {
                        let x = if a < i { a } else { a + 1 };
                        assert(now[a] == was[x]);
                        assert(as_map(was).contains_key(was[x].0@));
                        if x < i {
                            assert(was[x].0@ != was[i as int].0@);
                        } else {
                            assert(was[i as int].0@ != was[x].0@);
                        }
                    }
                    assert forall|k: Seq<char>| #[trigger] m.contains_key(k) implies exists|a: int|
                        0 <= a < now.len() && (#[trigger] now[a]).0@ == k by {
                        assert(as_map(was).contains_key(k));
                        let x = choose|x: int| 0 <= x < was.len() && (#[trigger] was[x]).0@ == k;
                        if x < i {
                            assert(now[x].0@ == k);
                        } else {
                            assert(now[x - 1].0@ == k);
                        }
                    }
                    lemma_same_pairs(now, m);
                }
                self.entries = list;
                Some(value)
            },
        }
    }

    /// Put a value under a name, in place of the one that was there.
    pub fn insert(&mut self, name: &str, value: V)
        ensures
            final(self)@ == old(self)@.insert(name@, value),
            names_ascend(final(self).pairs()),
    {
        let ghost first = self@;
        let _gone = self.remove(name);
        let _missing = self.find(name);
        proof {
            use_type_invariant(&*self);
        }
        let ghost was = self.entries@;
        let mut list: Vec<(String, V)> = Vec::new();
        std::mem::swap(&mut list, &mut self.entries);
        let mut at: usize = 0;
        while at < list.len() && is_before(list[at].0.as_str(), name)
            invariant
                at <= list@.len(),
                list@ == was,
                forall|k: int| 0 <= k < at ==> before((#[trigger] list@[k]).0@, name@),
            decreases list@.len() - at,
        {
            at = at + 1;
        }
        list.insert(at, (String::from_str(name), value));
        proof {
            lemma_put_in_place(was, list@, at as int, name@, value);
            assert(as_map(list@) =~= first.insert(name@, value));
        }
        self.entries = list;
    }

    /// How many values there are. The list holds each name of the map once, with
    /// its value, in the order of the names.
    pub fn len(&self) -> (r: usize)
        ensures
            r == self.pairs().len(),
            names_ascend(self.pairs()),
            names_distinct(self.pairs()),
            as_map(self.pairs()) == self@,
            forall|i: int|
                0 <= i < self.pairs().len() ==> self@.contains_key((#[trigger] self.pairs()[i]).0@)
                    && self@[self.pairs()[i].0@] == self.pairs()[i].1,
            forall|k: Seq<char>| #[trigger]
                self@.contains_key(k) ==> exists|i: int|
                    0 <= i < self.pairs().len() && (#[trigger] self.pairs()[i]).0@ == k,
    {
        proof {
            use_type_invariant(self);
            lemma_ascending_names_are_distinct(self.entries@);
            lemma_as_map(self.entries@);
        }
        self.entries.len()
    }

    /// The name and the value at a position of the list.
    pub fn at(&self, i: usize) -> (r: (&str, &V))
        requires
            i < self.pairs().len(),
        ensures
            r.0@ == self.pairs()[i as int].0@,
            *r.1 == self.pairs()[i as int].1,
    {
        let e = &self.entries[i];
        (e.0.as_str(), &e.1)
    }
}

} // verus!
