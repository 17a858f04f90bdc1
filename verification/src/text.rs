//! Text primitives: the handful of string operations the control plane needs,
//! each stated over the sequence of characters of its argument.
//!
//! Strings are read as `Seq<char>`. Nothing here is specific to sandboxes.

use vstd::prelude::*;
use vstd::string::*;
use vstd::utf8::*;

verus! {

// ---------------------------------------------------------------------------
// Trusted facts about std's string type
// ---------------------------------------------------------------------------

/// `String::push` appends one character and changes nothing else.
pub assume_specification[ String::push ](s: &mut String, c: char)
    ensures
        final(s)@ == old(s)@.push(c),
;

/// `str::eq`: two string slices are equal exactly when they hold the same
/// characters in the same order.
pub assume_specification[ <str as PartialEq>::eq ](a: &str, b: &str) -> (r: bool)
    ensures
        r == (a@ == b@),
;

/// `String::from_utf8`: the text that the bytes encode, if they are UTF-8.
#[verifier::external_body]
pub(crate) fn text_of_utf8(bytes: Vec<u8>) -> (r: Option<String>)
    ensures
        r is Some <==> valid_utf8(bytes@),
        r matches Some(s) ==> s@ == decode_utf8(bytes@),
{
    String::from_utf8(bytes).ok()
}

// ---------------------------------------------------------------------------
// Characters
// ---------------------------------------------------------------------------

/// ASCII letters.
pub open spec fn is_alpha(c: char) -> bool {
    ('a' <= c && c <= 'z') || ('A' <= c && c <= 'Z')
}

/// ASCII decimal digits.
pub open spec fn is_digit(c: char) -> bool {
    '0' <= c && c <= '9'
}

/// ASCII letters and digits.
pub open spec fn is_alnum(c: char) -> bool {
    is_alpha(c) || is_digit(c)
}

/// ASCII hexadecimal digits, either case.
pub open spec fn is_hex(c: char) -> bool {
    is_digit(c) || ('a' <= c && c <= 'f') || ('A' <= c && c <= 'F')
}

/// Characters with the Unicode `White_Space` property.
pub open spec fn is_white(c: char) -> bool {
    let n = c as u32;
    (9 <= n <= 13) || n == 32 || n == 0x85 || n == 0xA0 || n == 0x1680 || (0x2000 <= n <= 0x200A)
        || n == 0x2028 || n == 0x2029 || n == 0x202F || n == 0x205F || n == 0x3000
}

/// The lower-case form of an ASCII letter; every other character as it is.
pub open spec fn lower(c: char) -> char {
    if 'A' <= c && c <= 'Z' {
        ((c as u32 + 32) as u32) as char
    } else {
        c
    }
}

/// Is `c` an ASCII letter?
pub fn ascii_alpha(c: char) -> (r: bool)
    ensures
        r == is_alpha(c),
{
    ('a' <= c && c <= 'z') || ('A' <= c && c <= 'Z')
}

/// Is `c` an ASCII digit?
pub fn ascii_digit(c: char) -> (r: bool)
    ensures
        r == is_digit(c),
{
    '0' <= c && c <= '9'
}

/// Is `c` an ASCII letter or digit?
pub fn ascii_alnum(c: char) -> (r: bool)
    ensures
        r == is_alnum(c),
{
    ascii_alpha(c) || ascii_digit(c)
}

/// Is `c` an ASCII hexadecimal digit?
pub fn ascii_hex(c: char) -> (r: bool)
    ensures
        r == is_hex(c),
{
    ascii_digit(c) || ('a' <= c && c <= 'f') || ('A' <= c && c <= 'F')
}

/// Is `c` white space?
pub fn white(c: char) -> (r: bool)
    ensures
        r == is_white(c),
{
    let n: u32 = c as u32;
    (9 <= n && n <= 13) || n == 32 || n == 0x85 || n == 0xA0 || n == 0x1680 || (0x2000 <= n && n
        <= 0x200A) || n == 0x2028 || n == 0x2029 || n == 0x202F || n == 0x205F || n == 0x3000
}

/// Lower-case one ASCII letter.
pub fn ascii_lower(c: char) -> (r: char)
    ensures
        r == lower(c),
{
    if 'A' <= c && c <= 'Z' {
        let n: u32 = c as u32 + 32;
        let b: u8 = n as u8;
        b as char
    } else {
        c
    }
}

// ---------------------------------------------------------------------------
// Whole strings
// ---------------------------------------------------------------------------

/// Do two strings hold the same characters?
pub fn same(a: &str, b: &str) -> (r: bool)
    ensures
        r == (a@ == b@),
{
    a.eq(b)
}

/// The characters of a string as a vector.
pub fn chars_of(s: &str) -> (r: Vec<char>)
    ensures
        r@ == s@,
{
    let mut v: Vec<char> = Vec::new();
    for c in it: s.chars()
        invariant
            v@ == it.seq().take(it.index() as int),
            it.seq() == s@,
    {
        v.push(c);
    }
    v
}

/// The string made of `v[from..to]`.
pub fn string_of(v: &Vec<char>, from: usize, to: usize) -> (r: String)
    requires
        from <= to <= v@.len(),
    ensures
        r@ == v@.subrange(from as int, to as int),
{
    let mut s = String::new();
    let mut i: usize = from;
    while i < to
        invariant
            from <= i <= to <= v@.len(),
            s@ == v@.subrange(from as int, i as int),
        decreases to - i,
    {
        s.push(v[i]);
        i = i + 1;
        assert(v@.subrange(from as int, i as int) =~= v@.subrange(from as int, i - 1).push(
            v@[i - 1],
        ));
    }
    s
}

/// `a` followed by `b`.
pub fn concat2(a: &str, b: &str) -> (r: String)
    ensures
        r@ == a@ + b@,
{
    let mut s = String::from_str(a);
    s.append(b);
    s
}

/// `a`, `b` and `c` one after the other.
pub fn concat3(a: &str, b: &str, c: &str) -> (r: String)
    ensures
        r@ == a@ + b@ + c@,
{
    let mut s = String::from_str(a);
    s.append(b);
    s.append(c);
    s
}

/// The views of a vector of strings.
pub open spec fn views(v: Seq<String>) -> Seq<Seq<char>> {
    Seq::new(v.len(), |i: int| v[i]@)
}

/// The views of a list of string slices.
pub open spec fn str_views(v: Seq<&str>) -> Seq<Seq<char>> {
    Seq::new(v.len(), |i: int| v[i]@)
}

/// The given strings, owned.
pub fn strings(list: &[&str]) -> (r: Vec<String>)
    ensures
        views(r@) == str_views(list@),
{
    let mut out: Vec<String> = Vec::new();
    let mut i: usize = 0;
    while i < list.len()
        invariant
            i <= list@.len(),
            out@.len() == i,
            forall|k: int| 0 <= k < i ==> (#[trigger] out@[k])@ == list@[k]@,
        decreases list@.len() - i,
    {
        out.push(String::from_str(list[i]));
        i = i + 1;
    }
    assert(views(out@) =~= str_views(list@));
    out
}

/// `s` begins with `p`.
pub open spec fn has_prefix(s: Seq<char>, p: Seq<char>) -> bool {
    p.len() <= s.len() && s.subrange(0, p.len() as int) == p
}

/// `s` ends with `p`.
pub open spec fn has_suffix(s: Seq<char>, p: Seq<char>) -> bool {
    p.len() <= s.len() && s.subrange(s.len() - p.len(), s.len() as int) == p
}

/// Does `v[at..]` begin with `p`?
fn matches_at(v: &Vec<char>, at: usize, p: &Vec<char>) -> (r: bool)
    requires
        at + p@.len() <= v@.len(),
    ensures
        r == (v@.subrange(at as int, at + p@.len()) == p@),
{
    let mut i: usize = 0;
    while i < p.len()
        invariant
            i <= p.len(),
            at + p.len() <= v.len(),
            v@.subrange(at as int, at + i) == p@.subrange(0, i as int),
        decreases p@.len() - i,
    {
        if v[at + i] != p[i] {
            assert(v@.subrange(at as int, at + p@.len())[i as int] != p@[i as int]);
            return false;
        }
        i = i + 1;
        assert(v@.subrange(at as int, at + i) =~= v@.subrange(at as int, at + i - 1).push(
            v@[at + i - 1],
        ));
        assert(p@.subrange(0, i as int) =~= p@.subrange(0, i - 1).push(p@[i - 1]));
    }
    assert(p@.subrange(0, i as int) =~= p@);
    true
}

/// Does `s` begin with `p`?
pub fn starts_with(s: &str, p: &str) -> (r: bool)
    ensures
        r == has_prefix(s@, p@),
{
    let v = chars_of(s);
    let w = chars_of(p);
    w.len() <= v.len() && matches_at(&v, 0, &w)
}

/// Does `s` end with `p`?
pub fn ends_with(s: &str, p: &str) -> (r: bool)
    ensures
        r == has_suffix(s@, p@),
{
    let v = chars_of(s);
    let w = chars_of(p);
    w.len() <= v.len() && matches_at(&v, v.len() - w.len(), &w)
}

/// What is left of `s` once the prefix `p` is taken off.
pub open spec fn without_prefix(s: Seq<char>, p: Seq<char>) -> Option<Seq<char>> {
    if has_prefix(s, p) {
        Some(s.subrange(p.len() as int, s.len() as int))
    } else {
        None
    }
}

/// The view of an optional string.
pub open spec fn opt_view(o: Option<String>) -> Option<Seq<char>> {
    match o {
        Some(s) => Some(s@),
        None => None,
    }
}

/// A text, or another where there is none.
pub open spec fn text_or(text: Option<Seq<char>>, other: Seq<char>) -> Seq<char> {
    match text {
        Some(t) => t,
        None => other,
    }
}

/// A text, or another where there is none.
pub fn or_text(text: Option<String>, other: &str) -> (r: String)
    ensures
        r@ == text_or(opt_view(text), other@),
{
    match text {
        Some(t) => t,
        None => String::from_str(other),
    }
}

/// `s` without the prefix `p`, if it has it.
pub fn strip_prefix(s: &str, p: &str) -> (r: Option<String>)
    ensures
        opt_view(r) == without_prefix(s@, p@),
{
    let v = chars_of(s);
    let w = chars_of(p);
    if w.len() <= v.len() && matches_at(&v, 0, &w) {
        Some(string_of(&v, w.len(), v.len()))
    } else {
        None
    }
}

/// Does `s` contain the character `c`?
pub fn contains_char(s: &str, c: char) -> (r: bool)
    ensures
        r == s@.contains(c),
{
    let v = chars_of(s);
    let mut i: usize = 0;
    while i < v.len()
        invariant
            i <= v@.len(),
            v@ == s@,
            forall|j: int| 0 <= j < i ==> v@[j] != c,
        decreases v@.len() - i,
    {
        if v[i] == c {
            assert(s@[i as int] == c);
            return true;
        }
        i = i + 1;
    }
    false
}

/// Every occurrence of `from` turned into `to`.
pub open spec fn with_char(s: Seq<char>, from: char, to: char) -> Seq<char> {
    Seq::new(s.len(), |i: int| if s[i] == from { to } else { s[i] })
}

/// `s` with every `from` turned into `to`.
pub fn replace_char(s: &str, from: char, to: char) -> (r: String)
    ensures
        r@ == with_char(s@, from, to),
{
    let v = chars_of(s);
    let mut out = String::new();
    let mut i: usize = 0;
    while i < v.len()
        invariant
            i <= v@.len(),
            v@ == s@,
            out@ == with_char(s@, from, to).subrange(0, i as int),
        decreases v@.len() - i,
    {
        let c = v[i];
        out.push(if c == from { to } else { c });
        i = i + 1;
        assert(with_char(s@, from, to).subrange(0, i as int) =~= with_char(
            s@,
            from,
            to,
        ).subrange(0, i - 1).push(with_char(s@, from, to)[i - 1]));
    }
    assert(with_char(s@, from, to).subrange(0, i as int) =~= with_char(s@, from, to));
    out
}

/// Every ASCII letter in lower case.
pub open spec fn lowered(s: Seq<char>) -> Seq<char> {
    Seq::new(s.len(), |i: int| lower(s[i]))
}

/// `s` with its ASCII letters in lower case.
pub fn to_lower(s: &str) -> (r: String)
    ensures
        r@ == lowered(s@),
{
    let v = chars_of(s);
    let mut out = String::new();
    let mut i: usize = 0;
    while i < v.len()
        invariant
            i <= v@.len(),
            v@ == s@,
            out@ == lowered(s@).subrange(0, i as int),
        decreases v@.len() - i,
    {
        out.push(ascii_lower(v[i]));
        i = i + 1;
        assert(lowered(s@).subrange(0, i as int) =~= lowered(s@).subrange(0, i - 1).push(
            lowered(s@)[i - 1],
        ));
    }
    assert(lowered(s@).subrange(0, i as int) =~= lowered(s@));
    out
}

// ---------------------------------------------------------------------------
// Trimming
// ---------------------------------------------------------------------------

/// `s` without its leading white space.
pub open spec fn trim_front(s: Seq<char>) -> Seq<char>
    decreases s.len(),
{
    if s.len() > 0 && is_white(s[0]) {
        trim_front(s.subrange(1, s.len() as int))
    } else {
        s
    }
}

/// `s` without its trailing white space.
pub open spec fn trim_back(s: Seq<char>) -> Seq<char>
    decreases s.len(),
{
    if s.len() > 0 && is_white(s.last()) {
        trim_back(s.drop_last())
    } else {
        s
    }
}

/// `s` without leading and trailing white space.
pub open spec fn trimmed(s: Seq<char>) -> Seq<char> {
    trim_back(trim_front(s))
}

/// `s` without leading and trailing white space.
pub fn trim(s: &str) -> (r: String)
    ensures
        r@ == trimmed(s@),
{
    let v = chars_of(s);
    let n: usize = v.len();
    let mut from: usize = 0;
    assert(v@.subrange(0, n as int) =~= v@);
    while from < n && white(v[from])
        invariant
            from <= n == v@.len(),
            trim_front(v@) == trim_front(v@.subrange(from as int, n as int)),
        decreases n - from,
    {
        assert(v@.subrange(from as int, n as int).subrange(1, n - from) =~= v@.subrange(
            from + 1,
            n as int,
        ));
        from = from + 1;
    }
    assert(trim_front(v@) == v@.subrange(from as int, n as int));
    let mut to: usize = n;
    while to > from && white(v[to - 1])
        invariant
            from <= to <= n == v@.len(),
            trim_back(v@.subrange(from as int, n as int)) == trim_back(
                v@.subrange(from as int, to as int),
            ),
        decreases to,
    {
        assert(v@.subrange(from as int, to as int).drop_last() =~= v@.subrange(
            from as int,
            to - 1,
        ));
        to = to - 1;
    }
    string_of(&v, from, to)
}

/// `s` without leading `c`s.
pub open spec fn trim_front_of(s: Seq<char>, c: char) -> Seq<char>
    decreases s.len(),
{
    if s.len() > 0 && s[0] == c {
        trim_front_of(s.subrange(1, s.len() as int), c)
    } else {
        s
    }
}

/// `s` without trailing `c`s.
pub open spec fn trim_back_of(s: Seq<char>, c: char) -> Seq<char>
    decreases s.len(),
{
    if s.len() > 0 && s.last() == c {
        trim_back_of(s.drop_last(), c)
    } else {
        s
    }
}

/// `s` without leading `c`s.
pub fn trim_start_of(s: &str, c: char) -> (r: String)
    ensures
        r@ == trim_front_of(s@, c),
{
    let v = chars_of(s);
    let n: usize = v.len();
    let mut from: usize = 0;
    assert(v@.subrange(0, n as int) =~= v@);
    while from < n && v[from] == c
        invariant
            from <= n == v@.len(),
            v@ == s@,
            trim_front_of(s@, c) == trim_front_of(v@.subrange(from as int, n as int), c),
        decreases n - from,
    {
        assert(v@.subrange(from as int, n as int).subrange(1, n - from) =~= v@.subrange(
            from + 1,
            n as int,
        ));
        from = from + 1;
    }
    string_of(&v, from, n)
}

/// `s` without trailing `c`s.
pub fn trim_end_of(s: &str, c: char) -> (r: String)
    ensures
        r@ == trim_back_of(s@, c),
{
    let v = chars_of(s);
    let mut to: usize = v.len();
    proof {
        assert(v@.subrange(0, to as int) =~= v@);
    }
    while to > 0 && v[to - 1] == c
        invariant
            to <= v@.len(),
            v@ == s@,
            trim_back_of(s@, c) == trim_back_of(v@.subrange(0, to as int), c),
        decreases to,
    {
        assert(v@.subrange(0, to as int).drop_last() =~= v@.subrange(0, to - 1));
        to = to - 1;
    }
    string_of(&v, 0, to)
}

// ---------------------------------------------------------------------------
// Splitting and joining
// ---------------------------------------------------------------------------

/// The pieces of `s` between the separators `c`; one more piece than there are
/// separators.
pub open spec fn pieces(s: Seq<char>, c: char) -> Seq<Seq<char>>
    decreases s.len(),
{
    if s.len() == 0 {
        seq![Seq::<char>::empty()]
    } else {
        let before = pieces(s.drop_last(), c);
        if s.last() == c {
            before.push(Seq::<char>::empty())
        } else {
            before.update(before.len() - 1, before.last().push(s.last()))
        }
    }
}

/// The strings of `parts` with `sep` between each two.
pub open spec fn joined(parts: Seq<Seq<char>>, sep: Seq<char>) -> Seq<char>
    decreases parts.len(),
{
    if parts.len() == 0 {
        Seq::<char>::empty()
    } else if parts.len() == 1 {
        parts[0]
    } else {
        joined(parts.drop_last(), sep) + sep + parts.last()
    }
}

pub proof fn lemma_pieces_nonempty(s: Seq<char>, c: char)
    ensures
        pieces(s, c).len() > 0,
    decreases s.len(),
{
    if s.len() > 0 {
        lemma_pieces_nonempty(s.drop_last(), c);
    }
}

/// Joining the pieces with the separator gives the string back.
pub proof fn law_join_undoes_split(s: Seq<char>, c: char)
    ensures
        joined(pieces(s, c), seq![c]) == s,
    decreases s.len(),
{
    if s.len() > 0 {
        let before = pieces(s.drop_last(), c);
        law_join_undoes_split(s.drop_last(), c);
        lemma_pieces_nonempty(s.drop_last(), c);
        if s.last() == c {
            let now = before.push(Seq::<char>::empty());
            assert(now.drop_last() =~= before);
            assert(joined(now, seq![c]) =~= s);
        } else {
            let now = before.update(before.len() - 1, before.last().push(s.last()));
            if before.len() == 1 {
                assert(joined(now, seq![c]) =~= s);
            } else {
                assert(now.drop_last() =~= before.drop_last());
                assert(joined(now, seq![c]) =~= joined(before, seq![c]).push(s.last()));
                assert(joined(now, seq![c]) =~= s);
            }
        }
    }
}

/// No piece holds the separator.
pub proof fn lemma_pieces_hold_no_separator(s: Seq<char>, c: char)
    ensures
        forall|i: int| 0 <= i < pieces(s, c).len() ==> !(#[trigger] pieces(s, c)[i]).contains(c),
    decreases s.len(),
{
    lemma_pieces_nonempty(s, c);
    if s.len() > 0 {
        let before = pieces(s.drop_last(), c);
        lemma_pieces_hold_no_separator(s.drop_last(), c);
        lemma_pieces_nonempty(s.drop_last(), c);
        if s.last() != c {
            let last = before.last().push(s.last());
            assert(!last.contains(c)) by {
                if last.contains(c) {
                    let k = choose|k: int| 0 <= k < last.len() && last[k] == c;
                    assert(before.last()[k] == c);
                }
            }
        }
    }
}

proof fn lemma_pieces_of_tail(a: Seq<char>, b: Seq<char>, c: char)
    requires
        !b.contains(c),
    ensures
        pieces(a + b, c) == pieces(a, c).update(pieces(a, c).len() - 1, pieces(a, c).last() + b),
    decreases b.len(),
{
    lemma_pieces_nonempty(a, c);
    let p = pieces(a, c);
    if b.len() == 0 {
        assert(a + b =~= a);
        assert(p.last() + b =~= p.last());
        assert(p.update(p.len() - 1, p.last()) =~= p);
    } else {
        let short = b.drop_last();
        assert(!short.contains(c)) by {
            if short.contains(c) {
                let k = choose|k: int| 0 <= k < short.len() && short[k] == c;
                assert(b[k] == c);
            }
        }
        lemma_pieces_of_tail(a, short, c);
        assert((a + b).drop_last() =~= a + short);
        assert(b.contains(b.last()));
        assert((a + b).last() == b.last());
        assert((p.last() + short).push(b.last()) =~= p.last() + b);
        assert(pieces(a + b, c) =~= p.update(p.len() - 1, p.last() + b));
    }
}

/// Splitting at the separator gives the joined pieces back, if none holds it.
pub proof fn law_split_undoes_join(parts: Seq<Seq<char>>, c: char)
    requires
        parts.len() > 0,
        forall|i: int| 0 <= i < parts.len() ==> !(#[trigger] parts[i]).contains(c),
    ensures
        pieces(joined(parts, seq![c]), c) == parts,
    decreases parts.len(),
{
    if parts.len() == 1 {
        lemma_pieces_of_tail(Seq::empty(), parts[0], c);
        assert(Seq::<char>::empty() + parts[0] =~= parts[0]);
        assert(pieces(parts[0], c) =~= parts);
    } else {
        let init = parts.drop_last();
        assert forall|i: int| 0 <= i < init.len() implies !(#[trigger] init[i]).contains(c) by {
            assert(init[i] == parts[i]);
        }
        law_split_undoes_join(init, c);
        let head = joined(init, seq![c]) + seq![c];
        assert(head.drop_last() =~= joined(init, seq![c]));
        assert(pieces(head, c) == init.push(Seq::empty()));
        lemma_pieces_of_tail(head, parts.last(), c);
        assert(Seq::<char>::empty() + parts.last() =~= parts.last());
        assert(pieces(head + parts.last(), c) =~= parts);
    }
}

/// The pieces of `s` between the separators `c`.
pub fn split(s: &str, c: char) -> (r: Vec<String>)
    ensures
        views(r@) == pieces(s@, c),
        r@.len() > 0,
{
    let v = chars_of(s);
    let mut out: Vec<String> = Vec::new();
    let mut cur = String::new();
    let mut i: usize = 0;
    while i < v.len()
        invariant
            i <= v@.len(),
            v@ == s@,
            views(out@).push(cur@) == pieces(s@.subrange(0, i as int), c),
        decreases v@.len() - i,
    {
        let ghost done = s@.subrange(0, i as int);
        let ghost out0 = out@;
        let ghost cur0 = cur@;
        assert(s@.subrange(0, i + 1).drop_last() =~= done);
        assert(s@.subrange(0, i + 1).last() == v@[i as int]);
        if v[i] == c {
            out.push(cur);
            cur = String::new();
            assert(views(out@) =~= views(out0).push(cur0));
        } else {
            cur.push(v[i]);
            assert(views(out@).push(cur@) =~= pieces(done, c).update(
                pieces(done, c).len() - 1,
                pieces(done, c).last().push(v@[i as int]),
            ));
        }
        i = i + 1;
    }
    let ghost out0 = out@;
    let ghost cur0 = cur@;
    out.push(cur);
    proof {
        assert(views(out@) =~= views(out0).push(cur0));
        assert(s@.subrange(0, i as int) =~= s@);
    }
    out
}

/// The strings of `parts` with `sep` between each two.
pub fn join(parts: &Vec<String>, sep: &str) -> (r: String)
    ensures
        r@ == joined(views(parts@), sep@),
{
    let mut out = String::new();
    let mut i: usize = 0;
    while i < parts.len()
        invariant
            i <= parts@.len(),
            out@ == joined(views(parts@.subrange(0, i as int)), sep@),
        decreases parts@.len() - i,
    {
        let ghost before = views(parts@.subrange(0, i as int));
        let ghost now = views(parts@.subrange(0, i + 1));
        assert(now.drop_last() =~= before);
        if i > 0 {
            out.append(sep);
        }
        out.append(parts[i].as_str());
        i = i + 1;
        assert(out@ =~= joined(now, sep@));
    }
    assert(parts@.subrange(0, i as int) =~= parts@);
    out
}

/// The position of the first `c` in `s`, or the length of `s`.
pub open spec fn first_index(s: Seq<char>, c: char) -> int
    decreases s.len(),
{
    if s.len() == 0 || s[0] == c {
        0
    } else {
        1 + first_index(s.subrange(1, s.len() as int), c)
    }
}

/// The position of the last `c` in `s`, or -1.
pub open spec fn last_index(s: Seq<char>, c: char) -> int
    decreases s.len(),
{
    if s.len() == 0 {
        -1
    } else if s.last() == c {
        s.len() - 1
    } else {
        last_index(s.drop_last(), c)
    }
}

/// `s` cut at its first `c`: what stands before it and what stands after it.
pub open spec fn cut_first(s: Seq<char>, c: char) -> Option<(Seq<char>, Seq<char>)> {
    let i = first_index(s, c);
    if i < s.len() {
        Some((s.subrange(0, i), s.subrange(i + 1, s.len() as int)))
    } else {
        None
    }
}

/// `s` cut at its last `c`: what stands before it and what stands after it.
pub open spec fn cut_last(s: Seq<char>, c: char) -> Option<(Seq<char>, Seq<char>)> {
    let i = last_index(s, c);
    if i >= 0 {
        Some((s.subrange(0, i), s.subrange(i + 1, s.len() as int)))
    } else {
        None
    }
}

/// The view of an optional pair of strings.
pub open spec fn pair_view(o: Option<(String, String)>) -> Option<(Seq<char>, Seq<char>)> {
    match o {
        Some((a, b)) => Some((a@, b@)),
        None => None,
    }
}

proof fn lemma_first_index_step(s: Seq<char>, c: char, i: int)
    requires
        0 <= i <= s.len(),
        forall|j: int| 0 <= j < i ==> s[j] != c,
        i == s.len() || s[i] == c,
    ensures
        first_index(s, c) == i,
    decreases s.len(),
{
    if s.len() > 0 && s[0] != c {
        let t = s.subrange(1, s.len() as int);
        assert forall|j: int| 0 <= j < i - 1 implies t[j] != c by {
            assert(t[j] == s[j + 1]);
        }
        lemma_first_index_step(t, c, i - 1);
    }
}

/// `s` cut at its first `c`.
pub fn split_once(s: &str, c: char) -> (r: Option<(String, String)>)
    ensures
        pair_view(r) == cut_first(s@, c),
{
    let v = chars_of(s);
    let mut i: usize = 0;
    while i < v.len() && v[i] != c
        invariant
            i <= v@.len(),
            forall|j: int| 0 <= j < i ==> v@[j] != c,
        decreases v@.len() - i,
    {
        i = i + 1;
    }
    proof {
        lemma_first_index_step(v@, c, i as int);
    }
    if i < v.len() {
        Some((string_of(&v, 0, i), string_of(&v, i + 1, v.len())))
    } else {
        None
    }
}

/// `s` cut at its last `c`.
pub fn rsplit_once(s: &str, c: char) -> (r: Option<(String, String)>)
    ensures
        pair_view(r) == cut_last(s@, c),
{
    let v = chars_of(s);
    let mut to: usize = v.len();
    proof {
        assert(v@.subrange(0, to as int) =~= v@);
    }
    while to > 0 && v[to - 1] != c
        invariant
            to <= v@.len(),
            v@ == s@,
            last_index(s@, c) == last_index(v@.subrange(0, to as int), c),
        decreases to,
    {
        assert(v@.subrange(0, to as int).drop_last() =~= v@.subrange(0, to - 1));
        to = to - 1;
    }
    if to > 0 {
        Some((string_of(&v, 0, to - 1), string_of(&v, to, v.len())))
    } else {
        None
    }
}

/// The text before the first `c`, or all of `s`.
pub fn before_first(s: &str, c: char) -> (r: String)
    ensures
        r@ == s@.subrange(0, first_index(s@, c)),
        0 <= first_index(s@, c) <= s@.len(),
{
    let v = chars_of(s);
    let mut i: usize = 0;
    while i < v.len() && v[i] != c
        invariant
            i <= v@.len(),
            forall|j: int| 0 <= j < i ==> v@[j] != c,
        decreases v@.len() - i,
    {
        i = i + 1;
    }
    proof {
        lemma_first_index_step(v@, c, i as int);
    }
    string_of(&v, 0, i)
}

// ---------------------------------------------------------------------------
// Searching
// ---------------------------------------------------------------------------

/// Where `p` first occurs in `s`.
pub open spec fn position(s: Seq<char>, p: Seq<char>) -> Option<nat>
    decreases s.len(),
{
    if has_prefix(s, p) {
        Some(0)
    } else if s.len() == 0 {
        None
    } else {
        match position(s.subrange(1, s.len() as int), p) {
            Some(i) => Some(i + 1),
            None => None,
        }
    }
}

proof fn lemma_position_bound(s: Seq<char>, p: Seq<char>)
    ensures
        position(s, p) matches Some(i) ==> i + p.len() <= s.len(),
    decreases s.len(),
{
    if !has_prefix(s, p) && s.len() > 0 {
        lemma_position_bound(s.subrange(1, s.len() as int), p);
    }
}

/// Where `p` first occurs in `v[from..]`, counted from `from`.
fn find_from(v: &Vec<char>, from: usize, p: &Vec<char>) -> (r: Option<usize>)
    requires
        from <= v@.len(),
    ensures
        r is Some <==> position(v@.subrange(from as int, v@.len() as int), p@) is Some,
        r matches Some(i) ==> position(v@.subrange(from as int, v@.len() as int), p@) == Some(
            i as nat,
        ) && from + i + p.len() <= v.len(),
{
    let n: usize = v.len();
    let ghost s = v@.subrange(from as int, n as int);
    let mut i: usize = from;
    proof {
        lemma_position_bound(s, p@);
    }
    while i <= n && p.len() <= n - i
        invariant
            from <= i <= n + 1,
            n == v.len(),
            s == v@.subrange(from as int, n as int),
            i <= n ==> position(s, p@) == (match position(v@.subrange(i as int, n as int), p@) {
                Some(k) => Some((k + (i - from)) as nat),
                None => None,
            }),
            i > n ==> position(s, p@) is None,
        decreases n + 1 - i,
    {
        let ghost rest = v@.subrange(i as int, n as int);
        assert(rest.subrange(0, p@.len() as int) =~= v@.subrange(i as int, i + p@.len()));
        if matches_at(v, i, p) {
            return Some(i - from);
        }
        if i == n {
            return None;
        }
        assert(rest.subrange(1, rest.len() as int) =~= v@.subrange(i + 1, n as int));
        i = i + 1;
    }
    proof {
        if i <= n {
            lemma_position_bound(v@.subrange(i as int, n as int), p@);
        }
    }
    None
}

/// Does `s` contain `p`?
pub fn contains_text(s: &str, p: &str) -> (r: bool)
    ensures
        r == (position(s@, p@) is Some),
{
    let v = chars_of(s);
    let w = chars_of(p);
    assert(v@.subrange(0, v@.len() as int) =~= v@);
    find_from(&v, 0, &w).is_some()
}

/// What stands between the first and the second occurrence of `p` in `s`, or
/// behind the first where there is no second.
pub open spec fn second_piece(s: Seq<char>, p: Seq<char>) -> Option<Seq<char>> {
    match position(s, p) {
        None => None,
        Some(i) => {
            let rest = s.subrange((i + p.len()) as int, s.len() as int);
            match position(rest, p) {
                Some(j) => Some(rest.subrange(0, j as int)),
                None => Some(rest),
            }
        },
    }
}

/// What stands between the first and the second occurrence of `p` in `s`.
pub fn between(s: &str, p: &str) -> (r: Option<String>)
    ensures
        opt_view(r) == second_piece(s@, p@),
{
    let v = chars_of(s);
    let w = chars_of(p);
    assert(v@.subrange(0, v@.len() as int) =~= v@);
    match find_from(&v, 0, &w) {
        None => None,
        Some(i) => {
            assert(i + w.len() <= v.len());
            let at: usize = i + w.len();
            let ghost rest = v@.subrange(at as int, v@.len() as int);
            match find_from(&v, at, &w) {
                Some(j) => {
                    assert(v@.subrange(at as int, at + j) =~= rest.subrange(0, j as int));
                    Some(string_of(&v, at, at + j))
                },
                None => Some(string_of(&v, at, v.len())),
            }
        },
    }
}

/// Where `p` last occurs in `s`.
pub open spec fn last_position(s: Seq<char>, p: Seq<char>) -> Option<int>
    decreases s.len(),
{
    if has_suffix(s, p) {
        Some(s.len() - p.len())
    } else if s.len() == 0 {
        None
    } else {
        last_position(s.drop_last(), p)
    }
}

/// What stands behind the last occurrence of `p` in `s`.
pub open spec fn tail_after(s: Seq<char>, p: Seq<char>) -> Option<Seq<char>> {
    match last_position(s, p) {
        Some(i) => Some(s.subrange(i + p.len(), s.len() as int)),
        None => None,
    }
}

/// What stands behind the last occurrence of `p` in `s`.
pub fn after_last(s: &str, p: &str) -> (r: Option<String>)
    ensures
        opt_view(r) == tail_after(s@, p@),
{
    let v = chars_of(s);
    let w = chars_of(p);
    let mut end: usize = v.len();
    assert(v@.subrange(0, end as int) =~= v@);
    while end >= w.len()
        invariant
            end <= v.len(),
            v@ == s@,
            w@ == p@,
            last_position(s@, p@) == last_position(v@.subrange(0, end as int), p@),
        decreases end,
    {
        let ghost front = v@.subrange(0, end as int);
        assert(front.subrange(end - w@.len(), end as int) =~= v@.subrange(
            end - w@.len(),
            end - w@.len() + w@.len(),
        ));
        if matches_at(&v, end - w.len(), &w) {
            return Some(string_of(&v, end, v.len()));
        }
        if end == 0 {
            return None;
        }
        assert(front.drop_last() =~= v@.subrange(0, end - 1));
        end = end - 1;
    }
    proof {
        lemma_no_position_in_short(v@.subrange(0, end as int), p@);
    }
    None
}

proof fn lemma_no_position_in_short(s: Seq<char>, p: Seq<char>)
    requires
        s.len() < p.len(),
    ensures
        last_position(s, p) is None,
    decreases s.len(),
{
    if s.len() > 0 {
        lemma_no_position_in_short(s.drop_last(), p);
    }
}

/// The complete words of `s` and the word that is still open at its end.
pub open spec fn word_scan(s: Seq<char>) -> (Seq<Seq<char>>, Seq<char>)
    decreases s.len(),
{
    if s.len() == 0 {
        (Seq::<Seq<char>>::empty(), Seq::<char>::empty())
    } else {
        let (done, open_word) = word_scan(s.drop_last());
        if !is_white(s.last()) {
            (done, open_word.push(s.last()))
        } else if open_word.len() > 0 {
            (done.push(open_word), Seq::<char>::empty())
        } else {
            (done, open_word)
        }
    }
}

/// The words of `s`: its longest stretches without white space.
pub open spec fn word_list(s: Seq<char>) -> Seq<Seq<char>> {
    let (done, open_word) = word_scan(s);
    if open_word.len() > 0 {
        done.push(open_word)
    } else {
        done
    }
}

/// The words of `s`.
pub fn words(s: &str) -> (r: Vec<String>)
    ensures
        views(r@) == word_list(s@),
{
    let v = chars_of(s);
    let mut out: Vec<String> = Vec::new();
    let mut cur: Vec<char> = Vec::new();
    let mut i: usize = 0;
    while i < v.len()
        invariant
            i <= v@.len(),
            v@ == s@,
            (views(out@), cur@) == word_scan(s@.subrange(0, i as int)),
        decreases v@.len() - i,
    {
        let ghost out0 = out@;
        assert(s@.subrange(0, i + 1).drop_last() =~= s@.subrange(0, i as int));
        if !white(v[i]) {
            cur.push(v[i]);
        } else if cur.len() > 0 {
            let w = string_of(&cur, 0, cur.len());
            assert(w@ =~= cur@);
            out.push(w);
            assert(views(out@) =~= views(out0).push(cur@));
            cur = Vec::new();
        }
        i = i + 1;
    }
    assert(s@.subrange(0, i as int) =~= s@);
    if cur.len() > 0 {
        let ghost out0 = out@;
        let w = string_of(&cur, 0, cur.len());
        assert(w@ =~= cur@);
        out.push(w);
        assert(views(out@) =~= views(out0).push(cur@));
    }
    out
}

/// A line without the carriage return that its end carries.
pub open spec fn without_cr(s: Seq<char>) -> Seq<char> {
    if s.len() > 0 && s.last() == '\r' {
        s.drop_last()
    } else {
        s
    }
}

/// The lines of `s`: a newline, or a carriage return and a newline, ends each;
/// the last may go without.
pub open spec fn line_list(s: Seq<char>) -> Seq<Seq<char>> {
    let p = pieces(s, '\n');
    let full = Seq::new((p.len() - 1) as nat, |i: int| without_cr(p[i]));
    if p.last().len() > 0 {
        full.push(p.last())
    } else {
        full
    }
}

/// The lines of `s`.
pub fn lines(s: &str) -> (r: Vec<String>)
    ensures
        views(r@) == line_list(s@),
{
    let parts = split(s, '\n');
    let ghost p = pieces(s@, '\n');
    let n: usize = parts.len();
    let mut out: Vec<String> = Vec::new();
    let mut i: usize = 0;
    while i + 1 < n
        invariant
            i + 1 <= n == parts@.len(),
            views(parts@) == p,
            views(out@) == Seq::new(i as nat, |k: int| without_cr(p[k])),
        decreases n - i,
    {
        let ghost out0 = out@;
        assert(p[i as int] == parts@[i as int]@);
        let v = chars_of(parts[i].as_str());
        let to: usize = if v.len() > 0 && v[v.len() - 1] == '\r' {
            v.len() - 1
        } else {
            v.len()
        };
        let line = string_of(&v, 0, to);
        assert(line@ =~= without_cr(p[i as int]));
        out.push(line);
        assert(views(out@) =~= views(out0).push(line@));
        i = i + 1;
        assert(views(out@) =~= Seq::new(i as nat, |k: int| without_cr(p[k])));
    }
    assert(p.last() == parts@[n - 1]@);
    if !parts[n - 1].as_str().is_empty() {
        let ghost out0 = out@;
        out.push(parts[n - 1].clone());
        assert(views(out@) =~= views(out0).push(p.last()));
    }
    assert(views(out@) =~= line_list(s@));
    out
}

// ---------------------------------------------------------------------------
// Shell quoting
// ---------------------------------------------------------------------------

/// One character inside single quotes: a quote closes the string, adds an
/// escaped quote and opens it again.
pub open spec fn quoted_char(c: char) -> Seq<char> {
    if c == '\'' {
        seq!['\'', '\\', '\'', '\'']
    } else {
        seq![c]
    }
}

/// The body of a single-quoted shell word.
pub open spec fn quoted_body(s: Seq<char>) -> Seq<char>
    decreases s.len(),
{
    if s.len() == 0 {
        Seq::<char>::empty()
    } else {
        quoted_body(s.drop_last()) + quoted_char(s.last())
    }
}

/// `s` as one single-quoted shell word.
pub open spec fn quoted(s: Seq<char>) -> Seq<char> {
    seq!['\''] + quoted_body(s) + seq!['\'']
}

/// `s` as one single-quoted shell word.
pub fn quote(s: &str) -> (r: String)
    ensures
        r@ == quoted(s@),
{
    let v = chars_of(s);
    let mut out = String::new();
    out.push('\'');
    let mut i: usize = 0;
    while i < v.len()
        invariant
            i <= v@.len(),
            v@ == s@,
            out@ == seq!['\''] + quoted_body(s@.subrange(0, i as int)),
        decreases v@.len() - i,
    {
        let ghost now = s@.subrange(0, i + 1);
        assert(now.drop_last() =~= s@.subrange(0, i as int));
        if v[i] == '\'' {
            out.push('\'');
            out.push('\\');
            out.push('\'');
            out.push('\'');
        } else {
            out.push(v[i]);
        }
        i = i + 1;
        assert(out@ =~= seq!['\''] + quoted_body(now));
    }
    assert(s@.subrange(0, i as int) =~= s@);
    out.push('\'');
    assert(out@ =~= quoted(s@));
    out
}

/// How a POSIX shell reads a word made of single-quoted stretches and escaped
/// characters; nothing where the word ends early or holds anything else.
pub open spec fn shell_reading(s: Seq<char>, in_quotes: bool) -> Option<Seq<char>>
    decreases s.len(),
{
    if s.len() == 0 {
        if in_quotes {
            None
        } else {
            Some(Seq::<char>::empty())
        }
    } else if in_quotes {
        if s[0] == '\'' {
            shell_reading(s.subrange(1, s.len() as int), false)
        } else {
            match shell_reading(s.subrange(1, s.len() as int), true) {
                Some(rest) => Some(seq![s[0]] + rest),
                None => None,
            }
        }
    } else if s[0] == '\'' {
        shell_reading(s.subrange(1, s.len() as int), true)
    } else if s[0] == '\\' && s.len() > 1 {
        match shell_reading(s.subrange(2, s.len() as int), false) {
            Some(rest) => Some(seq![s[1]] + rest),
            None => None,
        }
    } else {
        None
    }
}

proof fn lemma_quoted_body_front(s: Seq<char>)
    requires
        s.len() > 0,
    ensures
        quoted_body(s) == quoted_char(s[0]) + quoted_body(s.subrange(1, s.len() as int)),
    decreases s.len(),
{
    reveal_with_fuel(quoted_body, 2);
    let t = s.subrange(1, s.len() as int);
    if s.len() == 1 {
        assert(s.drop_last() =~= Seq::<char>::empty());
        assert(quoted_body(s) =~= quoted_char(s[0]) + quoted_body(t));
    } else {
        lemma_quoted_body_front(s.drop_last());
        assert(s.drop_last().subrange(1, s.len() - 1) =~= t.drop_last());
        assert(quoted_body(s) =~= quoted_char(s[0]) + quoted_body(t));
    }
}

proof fn lemma_reading_of_body(s: Seq<char>)
    ensures
        shell_reading(quoted_body(s) + seq!['\''], true) == Some(s),
    decreases s.len(),
{
    let w = quoted_body(s) + seq!['\''];
    let w1 = w.subrange(1, w.len() as int);
    if s.len() == 0 {
        assert(w =~= seq!['\'']);
        assert(shell_reading(w1, false) == Some(Seq::<char>::empty()));
        assert(s =~= Seq::<char>::empty());
    } else {
        let t = s.subrange(1, s.len() as int);
        let rest = quoted_body(t) + seq!['\''];
        lemma_quoted_body_front(s);
        lemma_reading_of_body(t);
        assert(seq![s[0]] + t =~= s);
        if s[0] == '\'' {
            assert(w =~= seq!['\'', '\\', '\'', '\''] + rest);
            let w3 = w1.subrange(2, w1.len() as int);
            assert(w3 =~= seq!['\''] + rest);
            assert(w3.subrange(1, w3.len() as int) =~= rest);
            assert(shell_reading(w3, false) == Some(t));
            assert(w1[0] == '\\' && w1[1] == '\'');
            assert(shell_reading(w1, false) == Some(s));
        } else {
            assert(w =~= seq![s[0]] + rest);
            assert(w1 =~= rest);
        }
    }
}

/// A shell reads a quoted text as that text, whatever characters it holds.
pub proof fn law_shell_reads_quoted(s: Seq<char>)
    ensures
        shell_reading(quoted(s), false) == Some(s),
{
    lemma_reading_of_body(s);
    let q = quoted(s);
    assert(q.subrange(1, q.len() as int) =~= quoted_body(s) + seq!['\'']);
}

} // verus!
