//! Environment variables: a small ordered map from names to values.
//!
//! Variables are kept in ascending order of their names, so that listing them
//! (and the command lines made from the list) is deterministic.

use crate::order::{before, is_before, lemma_asymmetric, lemma_irreflexive, lemma_total, lemma_transitive};
use crate::text::same;
use vstd::prelude::*;
use vstd::string::*;

verus! {

/// A pair of texts by its views.
pub open spec fn pair_text(p: (String, String)) -> (Seq<char>, Seq<char>) {
    (p.0@, p.1@)
}

/// Environment variables in ascending order of their names.
#[derive(Debug)]
pub struct EnvMap {
    vars: Vec<(String, String)>,
}

/// Strictly ascending by name.
pub open spec fn keys_ascend(s: Seq<(Seq<char>, Seq<char>)>) -> bool {
    forall|i: int, j: int| 0 <= i < j < s.len() ==> before((#[trigger] s[i]).0, (#[trigger] s[j]).0)
}

/// The map that a list of pairs denotes; a later pair overrides an earlier one.
pub open spec fn map_of(s: Seq<(Seq<char>, Seq<char>)>) -> Map<Seq<char>, Seq<char>>
    decreases s.len(),
{
    if s.len() == 0 {
        Map::empty()
    } else {
        map_of(s.drop_last()).insert(s.last().0, s.last().1)
    }
}

impl EnvMap {
    /// The variables as pairs, in order.
    pub closed spec fn pairs(&self) -> Seq<(Seq<char>, Seq<char>)> {
        Seq::new(self.vars@.len(), |i: int| pair_text(self.vars@[i]))
    }

    #[verifier::type_invariant]
    pub closed spec fn inv(self) -> bool {
        keys_ascend(self.pairs())
    }
}

impl View for EnvMap {
    type V = Map<Seq<char>, Seq<char>>;

    closed spec fn view(&self) -> Map<Seq<char>, Seq<char>> {
        map_of(self.pairs())
    }
}

proof fn lemma_map_of(s: Seq<(Seq<char>, Seq<char>)>)
    requires
        keys_ascend(s),
    ensures
        forall|k: Seq<char>| #[trigger]
            map_of(s).contains_key(k) <==> exists|i: int| 0 <= i < s.len() && (#[trigger] s[i]).0 == k,
        forall|i: int| 0 <= i < s.len() ==> map_of(s)[(#[trigger] s[i]).0] == s[i].1,
    decreases s.len(),
{
    if s.len() > 0 {
        let t = s.drop_last();
        assert(keys_ascend(t)) by {
            assert forall|i: int, j: int| 0 <= i < j < t.len() implies before(
                (#[trigger] t[i]).0,
                (#[trigger] t[j]).0,
            ) by {
                assert(before(s[i].0, s[j].0));
            }
        }
        lemma_map_of(t);
        assert forall|k: Seq<char>| #[trigger]
            map_of(s).contains_key(k) <==> exists|i: int|
                0 <= i < s.len() && (#[trigger] s[i]).0 == k by {
            if map_of(s).contains_key(k) {
                if k == s.last().0 {
                    assert(s[s.len() - 1].0 == k);
                } else {
                    assert(map_of(t).contains_key(k));
                    let i = choose|i: int| 0 <= i < t.len() && (#[trigger] t[i]).0 == k;
                    assert(s[i].0 == k);
                }
            }
            if exists|i: int| 0 <= i < s.len() && (#[trigger] s[i]).0 == k {
                let i = choose|i: int| 0 <= i < s.len() && (#[trigger] s[i]).0 == k;
                if i < t.len() {
                    assert(t[i].0 == k);
                }
            }
        }
        assert forall|i: int| 0 <= i < s.len() implies map_of(s)[(#[trigger] s[i]).0] == s[i].1 by {
            if i < t.len() {
                assert(before(s[i].0, s[s.len() - 1].0));
                lemma_irreflexive(s[i].0);
                assert(t[i] == s[i]);
            }
        }
    }
}

/// Two ascending lists for the same map are the same list.
pub proof fn lemma_list_is_determined(
    a: Seq<(Seq<char>, Seq<char>)>,
    b: Seq<(Seq<char>, Seq<char>)>,
)
    requires
        keys_ascend(a),
        keys_ascend(b),
        map_of(a) == map_of(b),
    ensures
        a == b,
    decreases a.len(),
{
    lemma_map_of(a);
    lemma_map_of(b);
    if a.len() == 0 {
        if b.len() > 0 {
            assert(map_of(b).contains_key(b[0].0));
            assert(false);
        }
        assert(a =~= b);
    } else {
        let ka = a.last().0;
        assert(map_of(a).contains_key(a[a.len() - 1].0));
        let j = choose|j: int| 0 <= j < b.len() && (#[trigger] b[j]).0 == ka;
        let kb = b.last().0;
        assert(map_of(b).contains_key(b[b.len() - 1].0));
        let i = choose|i: int| 0 <= i < a.len() && (#[trigger] a[i]).0 == kb;
        if ka != kb {
            assert(before(b[j].0, b[b.len() - 1].0));
            assert(before(a[i].0, a[a.len() - 1].0));
            lemma_asymmetric(ka, kb);
            assert(false);
        }
        assert(map_of(a)[a[a.len() - 1].0] == a.last().1);
        assert(map_of(b)[b[b.len() - 1].0] == b.last().1);
        let (ta, tb) = (a.drop_last(), b.drop_last());
        assert(keys_ascend(ta)) by {
            assert forall|i: int, j: int| 0 <= i < j < ta.len() implies before(
                (#[trigger] ta[i]).0,
                (#[trigger] ta[j]).0,
            ) by {
                assert(before(a[i].0, a[j].0));
            }
        }
        assert(keys_ascend(tb)) by {
            assert forall|i: int, j: int| 0 <= i < j < tb.len() implies before(
                (#[trigger] tb[i]).0,
                (#[trigger] tb[j]).0,
            ) by {
                assert(before(b[i].0, b[j].0));
            }
        }
        lemma_map_of(ta);
        lemma_map_of(tb);
        assert(!map_of(ta).contains_key(ka)) by {
            if map_of(ta).contains_key(ka) {
                let k = choose|k: int| 0 <= k < ta.len() && (#[trigger] ta[k]).0 == ka;
                assert(before(a[k].0, a[a.len() - 1].0));
                lemma_irreflexive(ka);
            }
        }
        assert(!map_of(tb).contains_key(ka)) by {
            if map_of(tb).contains_key(ka) {
                let k = choose|k: int| 0 <= k < tb.len() && (#[trigger] tb[k]).0 == ka;
                assert(before(b[k].0, b[b.len() - 1].0));
                lemma_irreflexive(ka);
            }
        }
        assert(map_of(ta) =~= map_of(a).remove(ka));
        assert(map_of(tb) =~= map_of(b).remove(ka));
        lemma_list_is_determined(ta, tb);
        assert(a =~= ta.push(a.last()));
        assert(b =~= tb.push(b.last()));
    }
}

impl EnvMap {
    pub fn new() -> (r: EnvMap)
        ensures
            r@ == Map::<Seq<char>, Seq<char>>::empty(),
            r.pairs().len() == 0,
    {
        EnvMap { vars: Vec::new() }
    }

    /// Set a variable, replacing the value it had.
    pub fn set(&mut self, name: &str, value: &str)
        ensures
            final(self)@ == old(self)@.insert(name@, value@),
    {
        proof {
            use_type_invariant(&*self);
        }
        let ghost p0 = self.pairs();
        let mut vars: Vec<(String, String)> = Vec::new();
        std::mem::swap(&mut vars, &mut self.vars);
        let ghost v0 = vars@;
        let mut at: usize = 0;
        while at < vars.len() && is_before(vars[at].0.as_str(), name)
            invariant
                at <= vars@.len(),
                vars@ == v0,
                p0 == Seq::new(v0.len(), |i: int| pair_text(v0[i])),
                forall|k: int| 0 <= k < at ==> before((#[trigger] p0[k]).0, name@),
            decreases vars@.len() - at,
        {
            at = at + 1;
        }
        let ghost a = at as int;
        if at < vars.len() && same(vars[at].0.as_str(), name) {
            vars.set(at, (String::from_str(name), String::from_str(value)));
            proof {
                let p = Seq::new(vars@.len(), |i: int| pair_text(vars@[i]));
                assert(p =~= p0.update(a, (name@, value@)));
                assert(keys_ascend(p)) by {
                    assert forall|i: int, j: int| 0 <= i < j < p.len() implies before(
                        (#[trigger] p[i]).0,
                        (#[trigger] p[j]).0,
                    ) by {
                        assert(before(p0[i].0, p0[j].0));
                    }
                }
                lemma_map_of(p);
                lemma_map_of(p0);
                assert(map_of(p) =~= map_of(p0).insert(name@, value@)) by {
                    assert forall|k: Seq<char>| map_of(p).contains_key(k) <==> map_of(p0).insert(
                        name@,
                        value@,
                    ).contains_key(k) by {
                        if map_of(p0).contains_key(k) {
                            let i = choose|i: int| 0 <= i < p0.len() && (#[trigger] p0[i]).0 == k;
                            assert(p[i].0 == k);
                        }
                        if map_of(p).contains_key(k) {
                            let i = choose|i: int| 0 <= i < p.len() && (#[trigger] p[i]).0 == k;
                            assert(p0[i].0 == k || k == name@);
                        }
                        assert(p[a].0 == name@);
                    }
                    assert forall|k: Seq<char>| map_of(p).contains_key(k) implies map_of(p)[k]
                        == map_of(p0).insert(name@, value@)[k] by {
                        let i = choose|i: int| 0 <= i < p.len() && (#[trigger] p[i]).0 == k;
                        if i == a {
                            assert(map_of(p)[p[a].0] == value@);
                        } else {
                            assert(p0[i] == p[i]);
                            assert(map_of(p)[p[i].0] == p[i].1);
                            assert(map_of(p0)[p0[i].0] == p0[i].1);
                            if k == name@ {
                                if i < a {
                                    assert(before(p[i].0, p[a].0));
                                } else {
                                    assert(before(p[a].0, p[i].0));
                                }
                                lemma_irreflexive(name@);
                            }
                        }
                    }
                }
            }
        } else {
            vars.insert(at, (String::from_str(name), String::from_str(value)));
            proof {
                let p = Seq::new(vars@.len(), |i: int| pair_text(vars@[i]));
                assert(p =~= p0.insert(a, (name@, value@)));
                if a < p0.len() {
                    lemma_total(p0[a].0, name@);
                    assert(before(name@, p0[a].0));
                }
                assert(keys_ascend(p)) by {
                    assert forall|i: int, j: int| 0 <= i < j < p.len() implies before(
                        (#[trigger] p[i]).0,
                        (#[trigger] p[j]).0,
                    ) by {
                        if i < a && j < a {
                            assert(before(p0[i].0, p0[j].0));
                        } else if i < a && j == a {
                        } else if i < a {
                            assert(before(p0[i].0, p0[j - 1].0));
                        } else if i == a {
                            if j - 1 > a {
                                assert(before(p0[a].0, p0[j - 1].0));
                                lemma_transitive(name@, p0[a].0, p0[j - 1].0);
                            }
                        } else {
                            assert(before(p0[i - 1].0, p0[j - 1].0));
                        }
                    }
                }
                lemma_map_of(p);
                lemma_map_of(p0);
                assert(map_of(p) =~= map_of(p0).insert(name@, value@)) by {
                    assert forall|k: Seq<char>| map_of(p).contains_key(k) <==> map_of(p0).insert(
                        name@,
                        value@,
                    ).contains_key(k) by {
                        if map_of(p0).contains_key(k) {
                            let i = choose|i: int| 0 <= i < p0.len() && (#[trigger] p0[i]).0 == k;
                            if i < a {
                                assert(p[i].0 == k);
                            } else {
                                assert(p[i + 1].0 == k);
                            }
                        }
                        if map_of(p).contains_key(k) && k != name@ {
                            let i = choose|i: int| 0 <= i < p.len() && (#[trigger] p[i]).0 == k;
                            if i < a {
                                assert(p0[i].0 == k);
                            } else {
                                assert(p0[i - 1].0 == k);
                            }
                        }
                        assert(p[a].0 == name@);
                    }
                    assert forall|k: Seq<char>| map_of(p).contains_key(k) implies map_of(p)[k]
                        == map_of(p0).insert(name@, value@)[k] by {
                        let i = choose|i: int| 0 <= i < p.len() && (#[trigger] p[i]).0 == k;
                        if i == a {
                            assert(map_of(p)[p[a].0] == value@);
                        } else {
                            assert(map_of(p)[p[i].0] == p[i].1);
                            if i < a {
                                assert(p0[i] == p[i]);
                                assert(map_of(p0)[p0[i].0] == p0[i].1);
                                assert(before(p[i].0, p[a].0));
                            } else {
                                assert(p0[i - 1] == p[i]);
                                assert(map_of(p0)[p0[i - 1].0] == p0[i - 1].1);
                                assert(before(p[a].0, p[i].0));
                            }
                            lemma_irreflexive(name@);
                        }
                    }
                }
            }
        }
        self.vars = vars;
    }

    /// The variables in ascending order of their names.
    pub fn list(&self) -> (r: &Vec<(String, String)>)
        ensures
            Seq::new(r@.len(), |i: int| pair_text(r@[i])) == self.pairs(),
            keys_ascend(self.pairs()),
            self@ == map_of(self.pairs()),
    {
        proof {
            use_type_invariant(self);
        }
        &self.vars
    }

    /// Whether there is no variable at all.
    pub fn is_empty(&self) -> (r: bool)
        ensures
            r == (self.pairs().len() == 0),
    {
        self.vars.len() == 0
    }

    /// A copy.
    pub fn copy(&self) -> (r: EnvMap)
        ensures
            r@ == self@,
            r.pairs() == self.pairs(),
    {
        proof {
            use_type_invariant(self);
        }
        let mut vars: Vec<(String, String)> = Vec::new();
        let mut i: usize = 0;
        while i < self.vars.len()
            invariant
                i <= self.vars@.len(),
                vars@.len() == i,
                forall|k: int| 0 <= k < i ==> pair_text(#[trigger] vars@[k]) == pair_text(self.vars@[k]),
            decreases self.vars@.len() - i,
        {
            vars.push((self.vars[i].0.clone(), self.vars[i].1.clone()));
            i = i + 1;
        }
        assert(Seq::new(vars@.len(), |i: int| pair_text(vars@[i])) =~= self.pairs());
        EnvMap { vars }
    }

    /// Set every variable of `other`, replacing the values of the same name.
    pub fn extend(&mut self, other: &EnvMap)
        ensures
            final(self)@ == old(self)@.union_prefer_right(other@),
    {
        let list = other.list();
        let ghost p = other.pairs();
        let ghost m0 = self@;
        let mut i: usize = 0;
        assert(m0.union_prefer_right(map_of(p.subrange(0, 0))) =~= m0);
        while i < list.len()
            invariant
                i <= list@.len(),
                p == Seq::new(list@.len(), |i: int| pair_text(list@[i])),
                self@ == m0.union_prefer_right(map_of(p.subrange(0, i as int))),
            decreases list@.len() - i,
        {
            self.set(list[i].0.as_str(), list[i].1.as_str());
            assert(p.subrange(0, i + 1).drop_last() =~= p.subrange(0, i as int));
            assert(p.subrange(0, i + 1).last() == pair_text(list@[i as int]));
            i = i + 1;
            assert(self@ =~= m0.union_prefer_right(map_of(p.subrange(0, i as int))));
        }
        assert(p.subrange(0, i as int) =~= p);
    }
}

} // verus!
