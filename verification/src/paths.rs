//! Host and guest paths as texts.

use crate::text::{chars_of, concat2, concat3, string_of};
use vstd::prelude::*;
use vstd::string::*;

verus! {

/// The path of `name` inside `dir`; an absolute `name` stands for itself.
pub open spec fn under(dir: Seq<char>, name: Seq<char>) -> Seq<char> {
    if name.len() > 0 && name[0] == '/' {
        name
    } else if dir.len() == 0 || dir.last() == '/' {
        dir + name
    } else {
        dir + "/"@ + name
    }
}

/// The path of `name` inside `dir`.
pub fn path_join(dir: &str, name: &str) -> (r: String)
    ensures
        r@ == under(dir@, name@),
{
    let n = chars_of(name);
    let d = chars_of(dir);
    if n.len() > 0 && n[0] == '/' {
        String::from_str(name)
    } else if d.len() == 0 || d[d.len() - 1] == '/' {
        concat2(dir, name)
    } else {
        concat3(dir, "/", name)
    }
}

/// How much of a path stands before its components: the slash of the root, or a
/// dot that the path begins with.
pub open spec fn head(s: Seq<char>) -> int {
    if s.len() > 0 && (s[0] == '/' || (s[0] == '.' && (s.len() == 1 || s[1] == '/'))) {
        1
    } else {
        0
    }
}

/// Where the last component of the first `n` characters begins.
pub open spec fn last_start(s: Seq<char>, n: int) -> int
    decreases n,
{
    if n <= head(s) || s[n - 1] == '/' {
        n
    } else {
        last_start(s, n - 1)
    }
}

/// How much stands before the last component of the first `n` characters and the
/// slash that sets it off.
pub open spec fn before_last(s: Seq<char>, n: int) -> int {
    if last_start(s, n) > head(s) {
        last_start(s, n) - 1
    } else {
        head(s)
    }
}

/// The last component of the first `n` characters says nothing: it is empty or a
/// dot.
pub open spec fn ends_idle(s: Seq<char>, n: int) -> bool {
    let c = last_start(s, n);
    c == n || (c == n - 1 && s[c] == '.')
}

/// How much of the first `n` characters is left without the components at their end
/// that say nothing.
pub open spec fn settled(s: Seq<char>, n: int) -> int
    decreases n,
    when 0 <= n <= s.len()
    via settled_ends
{
    if n > head(s) && ends_idle(s, n) {
        settled(s, before_last(s, n))
    } else {
        n
    }
}

#[via_fn]
proof fn settled_ends(s: Seq<char>, n: int) {
    lemma_last_start(s, n);
}

proof fn lemma_last_start(s: Seq<char>, n: int)
    requires
        0 <= n <= s.len(),
    ensures
        last_start(s, n) <= n,
        n >= head(s) ==> head(s) <= last_start(s, n),
        n > head(s) ==> head(s) <= before_last(s, n) < n,
    decreases n,
{
    if n > head(s) && s[n - 1] != '/' {
        lemma_last_start(s, n - 1);
    }
}

proof fn lemma_settled(s: Seq<char>, n: int)
    requires
        head(s) <= n <= s.len(),
    ensures
        head(s) <= settled(s, n) <= n,
    decreases n,
{
    if n > head(s) && ends_idle(s, n) {
        lemma_last_start(s, n);
        lemma_settled(s, before_last(s, n));
    }
}

/// The directory that holds a path: what stands before its last component.
/// Components that are empty or a dot do not count, but for a dot that the path
/// begins with. The root, and the empty path, have none.
pub open spec fn parent(s: Seq<char>) -> Option<Seq<char>> {
    let end = settled(s, s.len() as int);
    if end > head(s) {
        Some(s.subrange(0, settled(s, before_last(s, end))))
    } else if head(s) > 0 && s[0] == '.' {
        Some(Seq::<char>::empty())
    } else {
        None
    }
}

fn head_of(v: &Vec<char>) -> (r: usize)
    ensures
        r == head(v@),
        r <= v@.len(),
{
    if v.len() > 0 && (v[0] == '/' || (v[0] == '.' && (v.len() == 1 || v[1] == '/'))) {
        1
    } else {
        0
    }
}

fn last_start_of(v: &Vec<char>, n: usize, head_len: usize) -> (r: usize)
    requires
        head_len == head(v@),
        head_len <= n <= v@.len(),
    ensures
        r == last_start(v@, n as int),
        head_len <= r <= n,
{
    let mut c: usize = n;
    while c > head_len && v[c - 1] != '/'
        invariant
            head_len == head(v@),
            head_len <= c <= n <= v@.len(),
            last_start(v@, n as int) == last_start(v@, c as int),
        decreases c,
    {
        c = c - 1;
    }
    c
}

fn before_last_of(v: &Vec<char>, n: usize, head_len: usize) -> (r: usize)
    requires
        head_len == head(v@),
        head_len <= n <= v@.len(),
    ensures
        r == before_last(v@, n as int),
        n > head_len ==> head_len <= r < n,
{
    proof {
        lemma_last_start(v@, n as int);
    }
    let c: usize = last_start_of(v, n, head_len);
    if c > head_len {
        c - 1
    } else {
        head_len
    }
}

fn settled_of(v: &Vec<char>, n: usize, head_len: usize) -> (r: usize)
    requires
        head_len == head(v@),
        head_len <= n <= v@.len(),
    ensures
        r == settled(v@, n as int),
        head_len <= r <= n,
{
    let mut end: usize = n;
    while end > head_len
        invariant
            head_len == head(v@),
            head_len <= end <= n <= v@.len(),
            settled(v@, n as int) == settled(v@, end as int),
        decreases end,
    {
        let c: usize = last_start_of(v, end, head_len);
        if !(c == end || (c == end - 1 && v[c] == '.')) {
            return end;
        }
        end = before_last_of(v, end, head_len);
    }
    end
}

/// The directory that holds a path.
pub fn parent_dir(path: &str) -> (r: Option<String>)
    ensures
        (match r {
            Some(p) => Some(p@),
            None => None,
        }) == parent(path@),
{
    let v = chars_of(path);
    let head_len: usize = head_of(&v);
    let end: usize = settled_of(&v, v.len(), head_len);
    if end > head_len {
        let cut: usize = before_last_of(&v, end, head_len);
        Some(string_of(&v, 0, settled_of(&v, cut, head_len)))
    } else if head_len > 0 && v[0] == '.' {
        assert(""@ =~= Seq::<char>::empty()) by {
            reveal_strlit("");
        }
        Some(String::from_str(""))
    } else {
        None
    }
}

/// The parent of a file directly inside a directory is the directory, where the
/// directory does not end in a component that says nothing and the file is no dot.
pub proof fn law_parent_undoes_join(dir: Seq<char>, name: Seq<char>)
    requires
        dir.len() > 0,
        settled(dir, dir.len() as int) == dir.len(),
        name.len() > 0,
        !name.contains('/'),
        name != seq!['.'],
    ensures
        parent(under(dir, name)) == Some(dir),
{
    reveal_strlit("/");
    let s = under(dir, name);
    assert(name[0] != '/') by {
        assert(name.contains(name[0]));
    }
    let d = dir.len() as int;
    let n = s.len() as int;
    let rooted = dir.last() == '/';
    if rooted {
        assert(last_start(dir, d) == d);
        lemma_last_start(dir, d);
        if d > head(dir) {
            lemma_settled(dir, before_last(dir, d));
        }
        assert(d == 1);
    }
    let from = n - name.len();
    assert(from == if rooted { 1 } else { d + 1 });
    assert(forall|i: int| 0 <= i < d ==> s[i] == dir[i]);
    assert(forall|i: int| 0 <= i < name.len() ==> s[from + i] == name[i]);
    assert(head(s) == head(dir));
    lemma_start_of_name(s, name, from, name.len() as int);
    assert(last_start(s, n) == from);
    if name.len() == 1 {
        assert(name[0] != '.') by {
            if name[0] == '.' {
                assert(name =~= seq!['.']);
            }
        }
    }
    assert(s[n - 1] != '/') by {
        assert(name.contains(name[name.len() - 1]));
    }
    assert(!ends_idle(s, n));
    assert(settled(s, n) == n);
    assert(before_last(s, n) == d);
    lemma_settled_by_front(s, dir, d);
    assert(s.subrange(0, d) =~= dir);
}

proof fn lemma_start_of_name(s: Seq<char>, name: Seq<char>, from: int, k: int)
    requires
        0 <= k <= name.len(),
        head(s) <= from,
        from + name.len() == s.len(),
        forall|i: int| 0 <= i < name.len() ==> s[from + i] == name[i],
        !name.contains('/'),
        from == head(s) || s[from - 1] == '/',
    ensures
        last_start(s, from + k) == from,
    decreases k,
{
    if k > 0 {
        assert(s[from + (k - 1)] == name[k - 1]);
        assert(name.contains(name[k - 1]));
        lemma_start_of_name(s, name, from, k - 1);
    }
}

proof fn lemma_start_by_front(s: Seq<char>, t: Seq<char>, n: int)
    requires
        0 <= n <= s.len(),
        n <= t.len(),
        head(s) == head(t),
        forall|i: int| 0 <= i < n ==> s[i] == t[i],
    ensures
        last_start(s, n) == last_start(t, n),
    decreases n,
{
    if n > head(s) {
        assert(s[n - 1] == t[n - 1]);
        if s[n - 1] != '/' {
            lemma_start_by_front(s, t, n - 1);
        }
    }
}

proof fn lemma_settled_by_front(s: Seq<char>, t: Seq<char>, n: int)
    requires
        0 <= n <= s.len(),
        n <= t.len(),
        head(s) == head(t),
        forall|i: int| 0 <= i < n ==> s[i] == t[i],
    ensures
        settled(s, n) == settled(t, n),
    decreases n,
{
    if n > head(s) {
        lemma_start_by_front(s, t, n);
        lemma_last_start(s, n);
        if ends_idle(s, n) {
            lemma_settled_by_front(s, t, before_last(s, n));
        }
    }
}

} // verus!
