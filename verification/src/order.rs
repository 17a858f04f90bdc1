//! The dictionary order of strings, by code point, and sorting by it.

use crate::text::{chars_of, views};
use vstd::prelude::*;
use vstd::string::*;

verus! {

/// `a` comes strictly before `b`.
pub open spec fn before(a: Seq<char>, b: Seq<char>) -> bool
    decreases a.len(),
{
    if b.len() == 0 {
        false
    } else if a.len() == 0 {
        true
    } else if a[0] != b[0] {
        a[0] < b[0]
    } else {
        before(a.subrange(1, a.len() as int), b.subrange(1, b.len() as int))
    }
}

/// `a` comes before `b` or is `b`.
pub open spec fn not_after(a: Seq<char>, b: Seq<char>) -> bool {
    a == b || before(a, b)
}

/// No string comes before itself.
pub proof fn lemma_irreflexive(a: Seq<char>)
    ensures
        !before(a, a),
    decreases a.len(),
{
    if a.len() > 0 {
        lemma_irreflexive(a.subrange(1, a.len() as int));
    }
}

/// Of two strings one comes first, or they are equal.
pub proof fn lemma_total(a: Seq<char>, b: Seq<char>)
    ensures
        a == b || before(a, b) || before(b, a),
    decreases a.len(),
{
    if a.len() == 0 || b.len() == 0 {
        if a.len() == 0 && b.len() == 0 {
            assert(a =~= b);
        }
    } else if a[0] == b[0] {
        let (x, y) = (a.subrange(1, a.len() as int), b.subrange(1, b.len() as int));
        lemma_total(x, y);
        if x == y {
            assert forall|i: int| 0 <= i < a.len() implies a[i] == b[i] by {
                if i > 0 {
                    assert(x[i - 1] == y[i - 1]);
                }
            }
            assert(a.len() == b.len());
            assert(a =~= b);
        }
    }
}

/// The order is transitive.
pub proof fn lemma_transitive(a: Seq<char>, b: Seq<char>, c: Seq<char>)
    requires
        before(a, b),
        before(b, c),
    ensures
        before(a, c),
    decreases a.len(),
{
    if a.len() > 0 && b.len() > 0 && c.len() > 0 && a[0] == b[0] && b[0] == c[0] {
        lemma_transitive(
            a.subrange(1, a.len() as int),
            b.subrange(1, b.len() as int),
            c.subrange(1, c.len() as int),
        );
    }
}

/// Two strings do not come before each other.
pub proof fn lemma_asymmetric(a: Seq<char>, b: Seq<char>)
    requires
        before(a, b),
    ensures
        !before(b, a),
        a != b,
{
    if before(b, a) {
        lemma_transitive(a, b, a);
    }
    lemma_irreflexive(a);
}

/// Does `a` come strictly before `b`?
pub fn is_before(a: &str, b: &str) -> (r: bool)
    ensures
        r == before(a@, b@),
{
    let v = chars_of(a);
    let w = chars_of(b);
    let mut i: usize = 0;
    assert(v@.subrange(0, v@.len() as int) =~= v@);
    assert(w@.subrange(0, w@.len() as int) =~= w@);
    while i < v.len() && i < w.len()
        invariant
            i <= v@.len(),
            i <= w@.len(),
            v@ == a@,
            w@ == b@,
            before(a@, b@) == before(
                v@.subrange(i as int, v@.len() as int),
                w@.subrange(i as int, w@.len() as int),
            ),
        decreases v@.len() - i,
    {
        if v[i] != w[i] {
            return v[i] < w[i];
        }
        assert(v@.subrange(i as int, v@.len() as int).subrange(1, v@.len() - i) =~= v@.subrange(
            i + 1,
            v@.len() as int,
        ));
        assert(w@.subrange(i as int, w@.len() as int).subrange(1, w@.len() - i) =~= w@.subrange(
            i + 1,
            w@.len() as int,
        ));
        i = i + 1;
    }
    i < w.len()
}

/// Strictly ascending, hence without repetition.
pub open spec fn ascending(s: Seq<Seq<char>>) -> bool {
    forall|i: int, j: int| 0 <= i < j < s.len() ==> before(#[trigger] s[i], #[trigger] s[j])
}

/// Every element of a sequence of strings, once, in order: the distinct values
/// of `names`.
pub fn distinct_sorted(names: &Vec<String>) -> (r: Vec<String>)
    ensures
        ascending(views(r@)),
        forall|t: Seq<char>| #[trigger] views(r@).contains(t) <==> views(names@).contains(t),
{
    let mut out: Vec<String> = Vec::new();
    let mut i: usize = 0;
    while i < names.len()
        invariant
            i <= names@.len(),
            ascending(views(out@)),
            forall|t: Seq<char>| #[trigger] views(out@).contains(t) <==> views(names@.subrange(0, i as int)).contains(t),
        decreases names@.len() - i,
    {
        let ghost old_out = out@;
        insert_name(&mut out, names[i].as_str());
        proof {
            let was = views(names@.subrange(0, i as int));
            let now = views(names@.subrange(0, i + 1));
            assert(now =~= was.push(names@[i as int]@));
            assert forall|t: Seq<char>| #[trigger] views(out@).contains(t) <==> now.contains(t) by {
                if now.contains(t) {
                    let k = choose|k: int| 0 <= k < now.len() && now[k] == t;
                    if k < i {
                        assert(was[k] == t);
                        assert(was.contains(t));
                        assert(views(old_out).contains(t));
                    }
                }
                if views(old_out).contains(t) {
                    let k = choose|k: int| 0 <= k < was.len() && was[k] == t;
                    assert(now[k] == t);
                }
                if t == names@[i as int]@ {
                    assert(now[i as int] == t);
                }
            }
        }
        i = i + 1;
    }
    assert(names@.subrange(0, i as int) =~= names@);
    out
}

/// Add a name to an ascending list, at its place, unless it is there already.
fn insert_name(list: &mut Vec<String>, name: &str)
    requires
        ascending(views(old(list)@)),
    ensures
        ascending(views(final(list)@)),
        forall|t: Seq<char>| #[trigger]
            views(final(list)@).contains(t) <==> views(old(list)@).contains(t) || t == name@,
{
    let ghost list0 = list@;
    let mut at: usize = 0;
    while at < list.len() && is_before(list[at].as_str(), name)
        invariant
            at <= list@.len(),
            list@ == list0,
            forall|k: int| 0 <= k < at ==> before(#[trigger] list@[k]@, name@),
        decreases list@.len() - at,
    {
        at = at + 1;
    }
    if at < list.len() && crate::text::same(list[at].as_str(), name) {
        assert(views(list0)[at as int] == name@);
        return;
    }
    list.insert(at, String::from_str(name));
    proof {
        let a = at as int;
        let v = views(list@);
        let v0 = views(list0);
        assert(forall|k: int| 0 <= k < a ==> v[k] == v0[k]);
        assert(v[a] == name@);
        assert(forall|k: int| a < k < v.len() ==> v[k] == v0[k - 1]);
        if a < v0.len() {
            lemma_total(v0[a], name@);
            assert(before(name@, v0[a]));
        }
        assert forall|i: int, j: int| 0 <= i < j < v.len() implies before(
            #[trigger] v[i],
            #[trigger] v[j],
        ) by {
            if i < a && j == a {
                assert(before(list0[i]@, name@));
            } else if i == a && j > a {
                if j - 1 > a {
                    assert(before(v0[a], v0[j - 1]));
                    lemma_transitive(name@, v0[a], v0[j - 1]);
                }
            } else if i < a && j > a {
                assert(before(v0[i], v0[j - 1]));
            } else if i < a && j < a {
                assert(before(v0[i], v0[j]));
            } else {
                assert(before(v0[i - 1], v0[j - 1]));
            }
        }
        assert forall|t: Seq<char>| #[trigger] v.contains(t) <==> v0.contains(t) || t == name@ by {
            if v.contains(t) {
                let k = choose|k: int| 0 <= k < v.len() && v[k] == t;
                if k < a {
                    assert(v0[k] == t);
                } else if k > a {
                    assert(v0[k - 1] == t);
                }
            }
            if v0.contains(t) {
                let k = choose|k: int| 0 <= k < v0.len() && v0[k] == t;
                if k < a {
                    assert(v[k] == t);
                } else {
                    assert(v[k + 1] == t);
                }
            }
            if t == name@ {
                assert(v[a] == t);
            }
        }
    }
}

} // verus!
