//! Per-sandbox workspaces of the development runtime: host directories, and the
//! jail that keeps the file API inside them.

use crate::paths::{path_join, under};
use crate::text::{
    concat2, has_prefix, joined, law_split_undoes_join, lemma_pieces_hold_no_separator,
    lemma_pieces_nonempty, pieces, same, split, starts_with, trim_front_of, trim_start_of, views,
};
use vstd::prelude::*;
use vstd::string::*;

verus! {

// ---------------------------------------------------------------------------
// Components
// ---------------------------------------------------------------------------

/// The components of a path among its first `n` pieces between slashes, where
/// `absolute` says that it begins at the root: empty pieces do not count, nor does
/// a dot, except in front of a relative path.
pub open spec fn components_of(parts: Seq<Seq<char>>, absolute: bool, n: int) -> Seq<Seq<char>>
    decreases n,
{
    if n <= 0 {
        if absolute {
            seq!["/"@]
        } else {
            Seq::empty()
        }
    } else {
        let before = components_of(parts, absolute, n - 1);
        let p = parts[n - 1];
        if p.len() == 0 || (p == "."@ && (absolute || n > 1)) {
            before
        } else {
            before.push(p)
        }
    }
}

/// The components of a path; the root is a component of its own.
pub open spec fn components(path: Seq<char>) -> Seq<Seq<char>> {
    components_of(
        pieces(path, '/'),
        has_prefix(path, "/"@),
        pieces(path, '/').len() as int,
    )
}

/// The components once the dots in the first `n` of them are resolved. What is
/// above the root is the root.
pub open spec fn resolved(c: Seq<Seq<char>>, n: int) -> Seq<Seq<char>>
    decreases n,
{
    if n <= 0 {
        Seq::empty()
    } else {
        let before = resolved(c, n - 1);
        let p = c[n - 1];
        if p == ".."@ {
            if before.len() == 0 || before == seq!["/"@] {
                before
            } else {
                before.drop_last()
            }
        } else if p == "."@ {
            before
        } else {
            before.push(p)
        }
    }
}

/// A path made of components.
pub open spec fn rendered(c: Seq<Seq<char>>) -> Seq<char> {
    if c.len() > 0 && c[0] == "/"@ {
        "/"@ + joined(c.subrange(1, c.len() as int), "/"@)
    } else {
        joined(c, "/"@)
    }
}

/// One sequence begins with another.
pub open spec fn begins(s: Seq<Seq<char>>, p: Seq<Seq<char>>) -> bool {
    p.len() <= s.len() && s.subrange(0, p.len() as int) == p
}

fn split_components(path: &str) -> (r: Vec<String>)
    ensures
        views(r@) == components(path@),
{
    let absolute = starts_with(path, "/");
    let parts = split(path, '/');
    let ghost p = pieces(path@, '/');
    let mut out: Vec<String> = Vec::new();
    if absolute {
        out.push(String::from_str("/"));
    }
    assert(views(out@) =~= components_of(p, absolute, 0));
    let mut i: usize = 0;
    while i < parts.len()
        invariant
            i <= parts@.len(),
            views(parts@) == p,
            views(out@) == components_of(p, absolute, i as int),
        decreases parts@.len() - i,
    {
        let ghost out0 = out@;
        assert(p[i as int] == parts@[i as int]@);
        let piece = parts[i].as_str();
        if !piece.is_empty() && !(same(piece, ".") && (absolute || i > 0)) {
            out.push(parts[i].clone());
            assert(views(out@) =~= views(out0).push(p[i as int]));
        }
        i = i + 1;
    }
    out
}

fn resolve_dots(c: &Vec<String>) -> (r: Vec<String>)
    ensures
        views(r@) == resolved(views(c@), c@.len() as int),
{
    let ghost v = views(c@);
    let mut out: Vec<String> = Vec::new();
    assert(views(out@) =~= resolved(v, 0));
    let mut i: usize = 0;
    while i < c.len()
        invariant
            i <= c@.len(),
            v == views(c@),
            views(out@) == resolved(v, i as int),
        decreases c@.len() - i,
    {
        let ghost out0 = out@;
        assert(v[i as int] == c@[i as int]@);
        let piece = c[i].as_str();
        if same(piece, "..") {
            let at_root = out.len() == 1 && same(out[0].as_str(), "/");
            assert(at_root <==> views(out@) =~= seq!["/"@]) by {
                if out@.len() == 1 {
                    assert(views(out@)[0] == out@[0]@);
                }
            }
            if out.len() > 0 && !at_root {
                let _ = out.pop();
                assert(views(out@) =~= views(out0).drop_last());
            }
        } else if !same(piece, ".") {
            out.push(c[i].clone());
            assert(views(out@) =~= views(out0).push(v[i as int]));
        }
        i = i + 1;
    }
    out
}

fn render(c: &Vec<String>) -> (r: String)
    ensures
        r@ == rendered(views(c@)),
{
    let ghost v = views(c@);
    let rooted = c.len() > 0 && same(c[0].as_str(), "/");
    let from: usize = if rooted {
        1
    } else {
        0
    };
    let mut body: Vec<String> = Vec::new();
    let mut i: usize = from;
    while i < c.len()
        invariant
            from <= i <= c@.len() || i == from,
            v == views(c@),
            views(body@) == v.subrange(from as int, i as int),
            from <= c@.len(),
        decreases c@.len() - i,
    {
        let ghost body0 = body@;
        body.push(c[i].clone());
        assert(v[i as int] == c@[i as int]@);
        i = i + 1;
        assert(views(body@) =~= views(body0).push(v[i - 1]));
        assert(v.subrange(from as int, i as int) =~= v.subrange(from as int, i - 1).push(v[i - 1]));
    }
    let text = crate::text::join(&body, "/");
    if rooted {
        assert(v[0] == "/"@);
        concat2("/", text.as_str())
    } else {
        assert(v.subrange(0, v.len() as int) =~= v);
        assert(v.len() > 0 ==> v[0] == c@[0]@);
        text
    }
}

fn starts_among(c: &Vec<String>, p: &Vec<String>) -> (r: bool)
    ensures
        r == begins(views(c@), views(p@)),
{
    if p.len() > c.len() {
        return false;
    }
    let mut i: usize = 0;
    while i < p.len()
        invariant
            i <= p@.len() <= c@.len(),
            forall|k: int| 0 <= k < i ==> c@[k]@ == p@[k]@,
        decreases p@.len() - i,
    {
        if !same(c[i].as_str(), p[i].as_str()) {
            proof {
                let sub = views(c@).subrange(0, p@.len() as int);
                assert(sub[i as int] == c@[i as int]@);
                assert(views(p@)[i as int] == p@[i as int]@);
            }
            return false;
        }
        i = i + 1;
    }
    assert(views(c@).subrange(0, p@.len() as int) =~= views(p@));
    true
}

/// Are two paths the same, component by component?
pub fn same_path(a: &str, b: &str) -> (r: bool)
    ensures
        r == (components(a@) == components(b@)),
{
    let x = split_components(a);
    let y = split_components(b);
    assert(views(x@).len() == x@.len() && views(y@).len() == y@.len());
    let r = x.len() == y.len() && starts_among(&x, &y);
    proof {
        let (c, d) = (components(a@), components(b@));
        if r {
            assert(c.subrange(0, d.len() as int) =~= c);
        } else if c == d {
            assert(c.subrange(0, d.len() as int) =~= d);
        }
    }
    r
}

/// A name between slashes.
pub open spec fn is_name(s: Seq<char>) -> bool {
    s.len() > 0 && !s.contains('/')
}

/// Components as a path has them: names, behind the root where it is absolute.
pub open spec fn well_made(c: Seq<Seq<char>>) -> bool {
    &&& forall|i: int| 0 < i < c.len() ==> is_name(#[trigger] c[i]) && c[i] != "."@
    &&& c.len() > 0 ==> c[0] == "/"@ || is_name(c[0])
}

proof fn lemma_components_well_made(parts: Seq<Seq<char>>, absolute: bool, n: int)
    requires
        0 <= n <= parts.len(),
        forall|i: int| 0 <= i < parts.len() ==> !(#[trigger] parts[i]).contains('/'),
        absolute ==> parts.len() > 0 && parts[0].len() == 0,
        !absolute && parts.len() > 1 ==> parts[0].len() > 0,
    ensures
        well_made(components_of(parts, absolute, n)),
        absolute ==> components_of(parts, absolute, n).len() > 0 && components_of(
            parts,
            absolute,
            n,
        )[0] == "/"@,
        !absolute && n > 0 && parts[0].len() > 0 ==> components_of(parts, absolute, n).len() > 0,
        !absolute ==> forall|i: int|
            0 <= i < components_of(parts, absolute, n).len() ==> is_name(
                #[trigger] components_of(parts, absolute, n)[i],
            ),
    decreases n,
{
    if n > 0 {
        lemma_components_well_made(parts, absolute, n - 1);
    }
}

/// What is left of well-made components once their dots are resolved: no dots,
/// names, and the root at most in front.
proof fn lemma_resolved_well_made(c: Seq<Seq<char>>, n: int)
    requires
        well_made(c),
        0 <= n <= c.len(),
    ensures
        well_made(resolved(c, n)),
        c.len() > 0 && c[0] == "/"@ && n > 0 ==> resolved(c, n).len() > 0 && resolved(c, n)[0]
            == "/"@,
        c.len() > 0 && c[0] != "/"@ ==> forall|i: int|
            0 <= i < resolved(c, n).len() ==> is_name(#[trigger] resolved(c, n)[i]),
        forall|i: int|
            0 <= i < resolved(c, n).len() ==> (#[trigger] resolved(c, n)[i]) != "."@,
    decreases n,
{
    reveal_strlit("/");
    reveal_strlit("..");
    reveal_strlit(".");
    assert("/"@[0] != "."@[0]);
    assert("/"@.len() != ".."@.len());
    if n > 0 {
        lemma_resolved_well_made(c, n - 1);
        let before = resolved(c, n - 1);
        if c[0] == "/"@ && n > 1 && before.len() == 1 {
            assert(before =~= seq!["/"@]);
        }
    }
}

/// Names that are no dots are their own components.
proof fn lemma_names_are_components(parts: Seq<Seq<char>>, n: int)
    requires
        0 <= n <= parts.len(),
        forall|i: int| 0 <= i < parts.len() ==> (#[trigger] parts[i]).len() > 0 && parts[i] != "."@,
    ensures
        components_of(parts, false, n) == parts.subrange(0, n),
        components_of(seq![Seq::<char>::empty()] + parts, true, n + 1) == seq!["/"@]
            + parts.subrange(0, n),
    decreases n,
{
    let rooted = seq![Seq::<char>::empty()] + parts;
    if n > 0 {
        lemma_names_are_components(parts, n - 1);
        assert(parts.subrange(0, n) =~= parts.subrange(0, n - 1).push(parts[n - 1]));
        assert(rooted[n] == parts[n - 1]);
        assert(components_of(rooted, true, n + 1) =~= seq!["/"@] + parts.subrange(0, n));
    } else {
        assert(parts.subrange(0, 0) =~= Seq::empty());
        assert(rooted[0].len() == 0);
        assert(components_of(rooted, true, 1) == components_of(rooted, true, 0));
        assert(components_of(rooted, true, 1) =~= seq!["/"@] + parts.subrange(0, 0));
    }
}

/// Components are read back from the path that is made of them.
proof fn lemma_components_of_rendered(c: Seq<Seq<char>>)
    requires
        well_made(c),
        forall|i: int| 0 <= i < c.len() ==> (#[trigger] c[i]) != "."@,
    ensures
        components(rendered(c)) == c,
{
    reveal_strlit("/");
    assert("/"@ =~= seq!['/']);
    let path = rendered(c);
    if c.len() == 0 {
        assert(pieces(path, '/') =~= seq![Seq::<char>::empty()]);
        assert(components(path) =~= c) by {
            reveal_with_fuel(components_of, 2);
        }
    } else if c[0] == "/"@ {
        let rest = c.subrange(1, c.len() as int);
        assert forall|i: int| 0 <= i < rest.len() implies is_name(#[trigger] rest[i]) && rest[i]
            != "."@ by {
            assert(rest[i] == c[i + 1]);
        }
        assert(path.subrange(0, 1) =~= "/"@);
        if rest.len() == 0 {
            assert(path =~= "/"@);
            assert(path.drop_last() =~= Seq::<char>::empty());
            assert(pieces(path, '/') =~= seq![Seq::<char>::empty(), Seq::<char>::empty()]) by {
                reveal_with_fuel(pieces, 2);
            }
            assert(components(path) =~= c) by {
                reveal_with_fuel(components_of, 3);
            }
        } else {
            let all = seq![Seq::<char>::empty()] + rest;
            lemma_joined_behind_empty(rest);
            assert(joined(all, seq!['/']) == path);
            assert forall|i: int| 0 <= i < all.len() implies !(#[trigger] all[i]).contains('/') by {
                if i > 0 {
                    assert(all[i] == rest[i - 1]);
                }
            }
            law_split_undoes_join(all, '/');
            lemma_names_are_components(rest, rest.len() as int);
            assert(rest.subrange(0, rest.len() as int) =~= rest);
            assert(components(path) =~= c);
        }
    } else {
        assert forall|i: int| 0 <= i < c.len() implies !(#[trigger] c[i]).contains('/') by {}
        law_split_undoes_join(c, '/');
        assert(is_name(c[0]));
        lemma_joined_begins(c);
        assert(path[0] == c[0][0]);
        assert(c[0].contains(c[0][0]));
        if has_prefix(path, "/"@) {
            assert(path.subrange(0, 1)[0] == '/');
        }
        lemma_names_are_components(c, c.len() as int);
        assert(c.subrange(0, c.len() as int) =~= c);
    }
}

proof fn lemma_joined_behind_empty(rest: Seq<Seq<char>>)
    requires
        rest.len() > 0,
    ensures
        joined(seq![Seq::<char>::empty()] + rest, seq!['/']) == seq!['/'] + joined(
            rest,
            seq!['/'],
        ),
    decreases rest.len(),
{
    let all = seq![Seq::<char>::empty()] + rest;
    assert(all.last() == rest.last());
    if rest.len() == 1 {
        assert(all.drop_last() =~= seq![Seq::<char>::empty()]);
        assert(joined(all.drop_last(), seq!['/']) =~= Seq::<char>::empty());
        assert(joined(all, seq!['/']) =~= seq!['/'] + rest[0]);
    } else {
        assert(all.drop_last() =~= seq![Seq::<char>::empty()] + rest.drop_last());
        lemma_joined_behind_empty(rest.drop_last());
        assert(joined(all, seq!['/']) =~= seq!['/'] + joined(rest, seq!['/']));
    }
}

proof fn lemma_joined_begins(c: Seq<Seq<char>>)
    requires
        c.len() > 0,
        c[0].len() > 0,
    ensures
        joined(c, seq!['/']).len() > 0,
        joined(c, seq!['/'])[0] == c[0][0],
    decreases c.len(),
{
    if c.len() > 1 {
        lemma_joined_begins(c.drop_last());
    }
}

proof fn lemma_components_of_path(path: Seq<char>)
    ensures
        well_made(components(path)),
{
    reveal_strlit("/");
    let p = pieces(path, '/');
    lemma_pieces_hold_no_separator(path, '/');
    lemma_pieces_nonempty(path, '/');
    lemma_first_piece(path);
    lemma_components_well_made(p, has_prefix(path, "/"@), p.len() as int);
}

/// The first piece is empty where a path begins with a slash, and only there
/// when there is another piece.
proof fn lemma_first_piece(path: Seq<char>)
    ensures
        pieces(path, '/').len() > 0,
        has_prefix(path, "/"@) ==> pieces(path, '/')[0].len() == 0 && pieces(path, '/').len() > 1,
        !has_prefix(path, "/"@) && path.len() > 0 ==> pieces(path, '/')[0].len() > 0,
    decreases path.len(),
{
    reveal_strlit("/");
    lemma_pieces_nonempty(path, '/');
    if path.len() > 0 {
        lemma_first_piece(path.drop_last());
        lemma_pieces_nonempty(path.drop_last(), '/');
        assert(has_prefix(path, "/"@) <==> path[0] == '/') by {
            if path[0] == '/' {
                assert(path.subrange(0, 1) =~= "/"@);
            } else if has_prefix(path, "/"@) {
                assert(path.subrange(0, 1)[0] == '/');
            }
        }
        if path.len() > 1 {
            let q = path.drop_last();
            assert(has_prefix(q, "/"@) <==> q[0] == '/') by {
                if q[0] == '/' {
                    assert(q.subrange(0, 1) =~= "/"@);
                } else if has_prefix(q, "/"@) {
                    assert(q.subrange(0, 1)[0] == '/');
                }
            }
        } else {
            assert(path.drop_last() =~= Seq::<char>::empty());
        }
    }
}

// ---------------------------------------------------------------------------
// Workspaces
// ---------------------------------------------------------------------------

/// The workspaces below a directory.
#[derive(Debug)]
pub struct Workspaces {
    pub root: String,
}

impl Workspaces {
    /// The directory of a sandbox.
    pub open spec fn home(self, handle: Seq<char>) -> Seq<char> {
        under(self.root@, handle)
    }

    /// The writable area of a sandbox.
    pub open spec fn area(self, handle: Seq<char>) -> Seq<char> {
        under(self.home(handle), "workspace"@)
    }

    /// The components of a guest path on the host, dots resolved.
    pub open spec fn target(self, handle: Seq<char>, guest_path: Seq<char>) -> Seq<Seq<char>> {
        let c = components(under(self.area(handle), trim_front_of(guest_path, '/')));
        resolved(c, c.len() as int)
    }

    pub fn new(root: &str) -> (r: Workspaces)
        ensures
            r.root@ == root@,
    {
        Workspaces { root: String::from_str(root) }
    }

    /// The directory of a sandbox.
    pub fn dir_for(&self, handle: &str) -> (r: String)
        ensures
            r@ == self.home(handle@),
    {
        path_join(self.root.as_str(), handle)
    }

    /// The writable area of a sandbox.
    pub fn workspace(&self, handle: &str) -> (r: String)
        ensures
            r@ == self.area(handle@),
    {
        path_join(self.dir_for(handle).as_str(), "workspace")
    }

    /// The host path of a guest path, jailed in the workspace, so that the file
    /// API never leaves it. A leading slash stands for the workspace itself.
    pub fn resolve(&self, handle: &str, guest_path: &str) -> (r: Result<String, String>)
        ensures
            match r {
                Ok(p) => {
                    &&& begins(self.target(handle@, guest_path@), components(self.area(handle@)))
                    &&& p@ == rendered(self.target(handle@, guest_path@))
                },
                Err(m) => {
                    &&& !begins(self.target(handle@, guest_path@), components(self.area(handle@)))
                    &&& m@ == "path escapes workspace: "@ + guest_path@
                },
            },
    {
        let base = self.workspace(handle);
        let rel = trim_start_of(guest_path, '/');
        let candidate = path_join(base.as_str(), rel.as_str());
        let parts = split_components(candidate.as_str());
        let target = resolve_dots(&parts);
        assert(views(parts@).len() == parts@.len());
        let floor = split_components(base.as_str());
        if !starts_among(&target, &floor) {
            return Err(concat2("path escapes workspace: ", guest_path));
        }
        Ok(render(&target))
    }
}

/// A path that is handed out lies in the workspace: read again as a path, its
/// components begin with those of the workspace, and none of them is a dot or two.
pub proof fn law_resolved_paths_stay_inside(w: Workspaces, handle: Seq<char>, guest_path: Seq<char>)
    requires
        begins(w.target(handle, guest_path), components(w.area(handle))),
    ensures
        components(rendered(w.target(handle, guest_path))) == w.target(handle, guest_path),
        begins(
            components(rendered(w.target(handle, guest_path))),
            components(w.area(handle)),
        ),
        forall|i: int|
            0 <= i < w.target(handle, guest_path).len() ==> (#[trigger] w.target(
                handle,
                guest_path,
            )[i]) != "."@ && w.target(handle, guest_path)[i] != ".."@,
{
    let path = under(w.area(handle), trim_front_of(guest_path, '/'));
    lemma_components_of_path(path);
    let c = components(path);
    lemma_resolved_well_made(c, c.len() as int);
    lemma_components_of_rendered(w.target(handle, guest_path));
    lemma_no_parents_left(c, c.len() as int);
}

proof fn lemma_no_parents_left(c: Seq<Seq<char>>, n: int)
    requires
        0 <= n <= c.len(),
    ensures
        forall|i: int| 0 <= i < resolved(c, n).len() ==> (#[trigger] resolved(c, n)[i]) != ".."@,
    decreases n,
{
    if n > 0 {
        lemma_no_parents_left(c, n - 1);
        let before = resolved(c, n - 1);
        let now = resolved(c, n);
        assert forall|i: int| 0 <= i < now.len() implies (#[trigger] now[i]) != ".."@ by {
            if i < before.len() {
                assert(now[i] == before[i]);
            }
        }
    }
}

} // verus!
