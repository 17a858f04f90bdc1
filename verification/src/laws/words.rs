//! Texts and numbers: what cutting, joining, trimming and writing do to them.

use crate::netaddr::{cidr_overlaps, parse_ipv4, Ipv4};
use crate::numeral::{decimal, hex_digit, law_parse_undoes_decimal, parse_max, to_decimal};
use crate::text::{
    ascii_alnum, ascii_alpha, ascii_digit, ascii_hex, ascii_lower, concat2, concat3, contains_char,
    contains_text, ends_with, first_index, has_prefix, last_index, law_split_undoes_join, or_text,
    position, replace_char, rsplit_once, same, split, split_once, starts_with, strip_prefix,
    to_lower, trim, trim_back, trim_back_of, trim_end_of, trim_front, trim_front_of, trim_start_of,
    views, white,
};
use crate::time::begins_at;
use crate::usage::{bounded_product, bounded_sum};
use vstd::prelude::*;
use vstd::string::*;

verus! {

// ---------------------------------------------------------------------------
// Characters
// ---------------------------------------------------------------------------

/// The kinds of ASCII characters. A letter has a lower case, which is a letter; nothing else
/// changes with its case.
pub proof fn law_characters(
    c: char,
    alpha: bool,
    digit: bool,
    alnum: bool,
    hex: bool,
    space: bool,
    low: char,
)
    requires
        call_ensures(ascii_alpha, (c,), alpha),
        call_ensures(ascii_digit, (c,), digit),
        call_ensures(ascii_alnum, (c,), alnum),
        call_ensures(ascii_hex, (c,), hex),
        call_ensures(white, (c,), space),
        call_ensures(ascii_lower, (c,), low),
    ensures
        alpha <==> 'a' <= c <= 'z' || 'A' <= c <= 'Z',
        digit <==> '0' <= c <= '9',
        alnum <==> alpha || digit,
        hex <==> digit || 'a' <= c <= 'f' || 'A' <= c <= 'F',
        c == ' ' || c == '\n' || c == '\t' || c == '\r' ==> space,
        alnum ==> !space,
        'A' <= c <= 'Z' ==> low as u32 == c as u32 + 32,
        !('A' <= c <= 'Z') ==> low == c,
{
}

// ---------------------------------------------------------------------------
// Cutting and joining
// ---------------------------------------------------------------------------

/// What a text begins with can be taken off, and what is left behind it is the rest.
pub proof fn law_prefixes(s: &str, p: &str, rest: Seq<char>, r: Option<String>, b: bool)
    requires
        call_ensures(strip_prefix, (s, p), r),
        call_ensures(starts_with, (s, p), b),
    ensures
        s@ == p@ + rest ==> b && (r matches Some(t) && t@ == rest),
        r matches Some(t) ==> s@ == p@ + t@,
        b <==> r is Some,
{
    if s@ == p@ + rest {
        assert(s@.subrange(0, p@.len() as int) =~= p@);
        assert(s@.subrange(p@.len() as int, s@.len() as int) =~= rest);
    }
    if r is Some {
        assert(s@ =~= p@ + r->0@);
    }
}

/// What a text ends with.
pub proof fn law_suffixes(s: &str, p: &str, front: Seq<char>, b: bool)
    requires
        call_ensures(ends_with, (s, p), b),
    ensures
        s@ == front + p@ ==> b,
        b ==> s@ == s@.subrange(0, s@.len() - p@.len()) + p@,
{
    if s@ == front + p@ {
        assert(s@.subrange(s@.len() - p@.len(), s@.len() as int) =~= p@);
    }
    if b {
        assert(s@ =~= s@.subrange(0, s@.len() - p@.len()) + p@);
    }
}

/// Texts are put one behind the other.
pub proof fn law_concatenation(a: &str, b: &str, c: &str, two: String, three: String, eq: bool)
    requires
        call_ensures(concat2, (a, b), two),
        call_ensures(concat3, (a, b, c), three),
        call_ensures(same, (a, b), eq),
    ensures
        two@ == a@ + b@,
        three@ == a@ + b@ + c@,
        eq <==> a@ == b@,
{
}

pub proof fn lemma_first(a: Seq<char>, b: Seq<char>, c: char)
    requires
        !a.contains(c),
    ensures
        first_index(a + seq![c] + b, c) == a.len(),
    decreases a.len(),
{
    let s = a + seq![c] + b;
    if a.len() > 0 {
        assert(a.contains(a[0]));
        let t = a.subrange(1, a.len() as int);
        assert(!t.contains(c)) by {
            if t.contains(c) {
                let k = choose|k: int| 0 <= k < t.len() && t[k] == c;
                assert(a[k + 1] == c);
            }
        }
        lemma_first(t, b, c);
        assert(s.subrange(1, s.len() as int) =~= t + seq![c] + b);
    }
}

proof fn lemma_last(a: Seq<char>, b: Seq<char>, c: char)
    requires
        !b.contains(c),
    ensures
        last_index(a + seq![c] + b, c) == a.len(),
    decreases b.len(),
{
    let s = a + seq![c] + b;
    if b.len() > 0 {
        assert(b.contains(b.last()));
        let t = b.drop_last();
        assert(!t.contains(c)) by {
            if t.contains(c) {
                let k = choose|k: int| 0 <= k < t.len() && t[k] == c;
                assert(b[k] == c);
            }
        }
        lemma_last(a, t, c);
        assert(s.drop_last() =~= a + seq![c] + t);
        assert(s.last() == b.last());
    }
}

/// A text is cut at the first of a character, or at the last.
pub proof fn law_cuts(
    s: &str,
    c: char,
    a: Seq<char>,
    b: Seq<char>,
    first: Option<(String, String)>,
    last: Option<(String, String)>,
)
    requires
        call_ensures(split_once, (s, c), first),
        call_ensures(rsplit_once, (s, c), last),
        s@ == a + seq![c] + b,
    ensures
        !a.contains(c) ==> (first matches Some((x, y)) && x@ == a && y@ == b),
        !b.contains(c) ==> (last matches Some((x, y)) && x@ == a && y@ == b),
{
    if !a.contains(c) {
        lemma_first(a, b, c);
        assert(s@.subrange(0, a.len() as int) =~= a);
        assert(s@.subrange(a.len() as int + 1, s@.len() as int) =~= b);
    }
    if !b.contains(c) {
        lemma_last(a, b, c);
        assert(s@.subrange(0, a.len() as int) =~= a);
        assert(s@.subrange(a.len() as int + 1, s@.len() as int) =~= b);
    }
}

/// A character is found exactly when the text has it.
pub proof fn law_characters_are_found(s: &str, c: char, i: int, r: bool)
    requires
        call_ensures(contains_char, (s, c), r),
    ensures
        0 <= i < s@.len() && s@[i] == c ==> r,
        r ==> s@.contains(c),
{
}

proof fn lemma_position(s: Seq<char>, p: Seq<char>)
    ensures
        position(s, p) matches Some(i) ==> i + p.len() <= s.len() && s.subrange(
            i as int,
            i as int + p.len(),
        ) == p,
    decreases s.len(),
{
    if !has_prefix(s, p) && s.len() > 0 {
        let t = s.subrange(1, s.len() as int);
        lemma_position(t, p);
        if position(t, p) is Some {
            let i = position(t, p)->0 as int;
            assert(s.subrange(i + 1, i + 1 + p.len()) =~= t.subrange(i, i + p.len()));
        }
    } else if has_prefix(s, p) {
        assert(s.subrange(0, 0int + p.len()) =~= s.subrange(0, p.len() as int));
    }
}

proof fn lemma_found(a: Seq<char>, p: Seq<char>, b: Seq<char>)
    ensures
        position(a + p + b, p) is Some,
    decreases a.len(),
{
    let s = a + p + b;
    if a.len() == 0 {
        assert(s.subrange(0, p.len() as int) =~= p);
    } else {
        let t = a.subrange(1, a.len() as int);
        lemma_found(t, p, b);
        assert(s.subrange(1, s.len() as int) =~= t + p + b);
    }
}

/// A text is found in another exactly when the other is something, the text, and something.
pub proof fn law_texts_are_found(s: &str, p: &str, a: Seq<char>, b: Seq<char>, r: bool)
    requires
        call_ensures(contains_text, (s, p), r),
    ensures
        s@ == a + p@ + b ==> r,
        r ==> exists|i: int| 0 <= i <= s@.len() - p@.len() && #[trigger] s@.subrange(i, i + p@.len()) == p@,
{
    if s@ == a + p@ + b {
        lemma_found(a, p@, b);
    }
    lemma_position(s@, p@);
    if r {
        let i = position(s@, p@)->0 as int;
        assert(s@.subrange(i, i + p@.len()) == p@);
    }
}

/// Splitting undoes joining, where no part has the separator.
pub proof fn law_splitting(s: &str, c: char, parts: Seq<Seq<char>>, r: Vec<String>)
    requires
        call_ensures(split, (s, c), r),
        parts.len() > 0,
        forall|i: int| 0 <= i < parts.len() ==> !(#[trigger] parts[i]).contains(c),
        s@ == crate::text::joined(parts, seq![c]),
    ensures
        views(r@) == parts,
{
    law_split_undoes_join(parts, c);
}

/// One character is written for another, and only for it.
pub proof fn law_replaced_characters(s: &str, from: char, to: char, i: int, r: String)
    requires
        call_ensures(replace_char, (s, from, to), r),
        0 <= i < s@.len(),
    ensures
        r@.len() == s@.len(),
        s@[i] == from ==> r@[i] == to,
        s@[i] != from ==> r@[i] == s@[i],
{
}

/// Lower case changes the capital letters of ASCII, and nothing else.
pub proof fn law_lower_case(s: &str, i: int, r: String)
    requires
        call_ensures(to_lower, (s,), r),
        0 <= i < s@.len(),
    ensures
        r@.len() == s@.len(),
        'A' <= s@[i] <= 'Z' ==> r@[i] as u32 == s@[i] as u32 + 32,
        !('A' <= s@[i] <= 'Z') ==> r@[i] == s@[i],
{
}

/// A text that is there is taken, and the other where it is not.
pub proof fn law_or(text: Option<String>, other: &str, r: String)
    requires
        call_ensures(or_text, (text, other), r),
    ensures
        text matches Some(t) ==> r@ == t@,
        text is None ==> r@ == other@,
{
}

proof fn lemma_trim_front(s: Seq<char>)
    ensures
        trim_front(s).len() <= s.len(),
        trim_front(s).len() > 0 ==> !crate::text::is_white(trim_front(s)[0]),
        s == s.subrange(0, s.len() - trim_front(s).len()) + trim_front(s),
        forall|i: int|
            0 <= i < s.len() - trim_front(s).len() ==> crate::text::is_white(#[trigger] s[i]),
    decreases s.len(),
{
    if s.len() > 0 && crate::text::is_white(s[0]) {
        let t = s.subrange(1, s.len() as int);
        lemma_trim_front(t);
        let n = s.len() - trim_front(s).len();
        assert forall|i: int| 0 <= i < n implies crate::text::is_white(#[trigger] s[i]) by {
            if i > 0 {
                assert(t[i - 1] == s[i]);
            }
        }
        assert(s =~= s.subrange(0, n) + trim_front(s)) by {
            let r = s.subrange(0, n) + trim_front(s);
            assert forall|i: int| 0 <= i < s.len() implies s[i] == r[i] by {
                if i >= n {
                    let u = t.subrange(0, t.len() - trim_front(t).len()) + trim_front(t);
                    assert(t[i - 1] == u[i - 1]);
                }
            }
        }
    } else {
        assert(s =~= s.subrange(0, 0) + s);
    }
}

proof fn lemma_trim_back(s: Seq<char>)
    ensures
        trim_back(s).len() <= s.len(),
        trim_back(s).len() > 0 ==> !crate::text::is_white(trim_back(s).last()),
        trim_back(s) == s.subrange(0, trim_back(s).len() as int),
        forall|i: int| trim_back(s).len() <= i < s.len() ==> crate::text::is_white(#[trigger] s[i]),
    decreases s.len(),
{
    if s.len() > 0 && crate::text::is_white(s.last()) {
        let t = s.drop_last();
        lemma_trim_back(t);
        assert forall|i: int| trim_back(s).len() <= i < s.len() implies crate::text::is_white(
            #[trigger] s[i],
        ) by {
            if i < t.len() {
                assert(t[i] == s[i]);
            }
        }
        assert(trim_back(s) =~= s.subrange(0, trim_back(s).len() as int));
    } else {
        assert(s =~= s.subrange(0, s.len() as int));
    }
}

/// A trimmed text neither begins nor ends with white space, and is a part of the text
/// beside which there was only white space.
pub proof fn law_trimming(s: &str, r: String)
    requires
        call_ensures(trim, (s,), r),
    ensures
        r@.len() > 0 ==> !crate::text::is_white(r@[0]) && !crate::text::is_white(r@.last()),
        exists|a: int, b: int|
            {
                &&& 0 <= a <= b <= s@.len()
                &&& r@ == #[trigger] s@.subrange(a, b)
                &&& forall|i: int| 0 <= i < a ==> crate::text::is_white(#[trigger] s@[i])
                &&& forall|i: int| b <= i < s@.len() ==> crate::text::is_white(#[trigger] s@[i])
            },
{
    let f = trim_front(s@);
    lemma_trim_front(s@);
    lemma_trim_back(f);
    let a = s@.len() - f.len();
    let b = a + r@.len();
    assert(f =~= s@.subrange(a, s@.len() as int)) by {
        let u = s@.subrange(0, a) + f;
        assert forall|i: int| 0 <= i < f.len() implies f[i] == s@.subrange(a, s@.len() as int)[i] by {
            assert(u[a + i] == f[i]);
        }
    }
    assert(r@ =~= s@.subrange(a, b));
    assert forall|i: int| b <= i < s@.len() implies crate::text::is_white(#[trigger] s@[i]) by {
        assert(f[i - a] == s@[i]);
    }
    if r@.len() > 0 {
        assert(r@[0] == f[0]);
    }
}

proof fn lemma_trim_front_of(s: Seq<char>, c: char)
    ensures
        trim_front_of(s, c).len() <= s.len(),
        trim_front_of(s, c).len() > 0 ==> trim_front_of(s, c)[0] != c,
        forall|i: int| 0 <= i < s.len() - trim_front_of(s, c).len() ==> #[trigger] s[i] == c,
        trim_front_of(s, c) == s.subrange(s.len() - trim_front_of(s, c).len(), s.len() as int),
    decreases s.len(),
{
    if s.len() > 0 && s[0] == c {
        let t = s.subrange(1, s.len() as int);
        lemma_trim_front_of(t, c);
        let n = s.len() - trim_front_of(s, c).len();
        assert forall|i: int| 0 <= i < n implies #[trigger] s[i] == c by {
            if i > 0 {
                assert(t[i - 1] == s[i]);
            }
        }
        assert(trim_front_of(s, c) =~= s.subrange(n, s.len() as int));
    } else {
        assert(s =~= s.subrange(0, s.len() as int));
    }
}

proof fn lemma_trim_back_of(s: Seq<char>, c: char)
    ensures
        trim_back_of(s, c).len() <= s.len(),
        trim_back_of(s, c).len() > 0 ==> trim_back_of(s, c).last() != c,
        forall|i: int| trim_back_of(s, c).len() <= i < s.len() ==> #[trigger] s[i] == c,
        trim_back_of(s, c) == s.subrange(0, trim_back_of(s, c).len() as int),
    decreases s.len(),
{
    if s.len() > 0 && s.last() == c {
        let t = s.drop_last();
        lemma_trim_back_of(t, c);
        assert forall|i: int| trim_back_of(s, c).len() <= i < s.len() implies #[trigger] s[i] == c by {
            if i < t.len() {
                assert(t[i] == s[i]);
            }
        }
        assert(trim_back_of(s, c) =~= s.subrange(0, trim_back_of(s, c).len() as int));
    } else {
        assert(s =~= s.subrange(0, s.len() as int));
    }
}

/// One character is trimmed off one end: what is left has none there, and only that
/// character is gone.
pub proof fn law_trimming_one(s: &str, c: char, front: String, back: String, i: int)
    requires
        call_ensures(trim_start_of, (s, c), front),
        call_ensures(trim_end_of, (s, c), back),
    ensures
        front@.len() > 0 ==> front@[0] != c,
        back@.len() > 0 ==> back@.last() != c,
        front@ == s@.subrange(s@.len() - front@.len(), s@.len() as int),
        back@ == s@.subrange(0, back@.len() as int),
        0 <= i < s@.len() - front@.len() ==> s@[i] == c,
        back@.len() <= i < s@.len() ==> s@[i] == c,
{
    lemma_trim_front_of(s@, c);
    lemma_trim_back_of(s@, c);
}

// ---------------------------------------------------------------------------
// Numbers and addresses
// ---------------------------------------------------------------------------

/// A number that is written is read back, where the bound lets it.
pub proof fn law_numbers_are_read_back(n: u64, text: String, s: &str, max: u64, r: Option<u64>)
    requires
        call_ensures(to_decimal, (n,), text),
        s@ == text@,
        call_ensures(parse_max, (s, max), r),
    ensures
        n <= max ==> r == Some(n),
        r matches Some(m) ==> m <= max,
{
    if n <= max {
        law_parse_undoes_decimal(n as nat, max as nat);
    }
}

/// A hexadecimal digit is written in lower case.
pub proof fn law_hexadecimal(d: u8, r: char)
    requires
        call_ensures(hex_digit, (d,), r),
        d < 16,
    ensures
        d < 10 ==> r as u32 == '0' as u32 + d,
        d >= 10 ==> r as u32 == 'a' as u32 + d - 10,
{
}

/// An octet as it is written.
proof fn lemma_octet(n: u8)
    ensures
        crate::netaddr::octet(decimal(n as nat)) == Some(n),
        !decimal(n as nat).contains('.'),
{
    law_parse_undoes_decimal(n as nat, 255);
    let d = decimal(n as nat);
    reveal_with_fuel(decimal, 4);
    crate::numeral::lemma_decimal_digits(n as nat);
    if d.contains('.') {
        let k = choose|k: int| 0 <= k < d.len() && d[k] == '.';
        assert(crate::text::is_digit(d[k]));
    }
    assert(n >= 10 ==> d == decimal((n / 10) as nat).push(crate::numeral::digit_char((n % 10) as nat)));
    assert(n < 10 ==> d.len() == 1);
    assert(10 <= n < 100 ==> d.len() == 2);
    assert(n >= 100 ==> d.len() == 3);
    assert(d.len() > 1 ==> d[0] != '0');
}

/// An address that is written is read back.
pub proof fn law_addresses_are_read_back(a: Ipv4, text: String, s: &str, r: Option<Ipv4>)
    requires
        call_ensures(Ipv4::show, (&a,), text),
        s@ == text@,
        call_ensures(parse_ipv4, (s,), r),
    ensures
        r == Some(a),
{
    lemma_octet(a.0);
    lemma_octet(a.1);
    lemma_octet(a.2);
    lemma_octet(a.3);
    let parts = seq![
        decimal(a.0 as nat),
        decimal(a.1 as nat),
        decimal(a.2 as nat),
        decimal(a.3 as nat),
    ];
    reveal_with_fuel(crate::text::joined, 5);
    assert(parts.drop_last().drop_last().drop_last() =~= seq![parts[0]]);
    assert(parts.drop_last().drop_last() =~= seq![parts[0], parts[1]]);
    assert(parts.drop_last() =~= seq![parts[0], parts[1], parts[2]]);
    assert(crate::text::joined(parts, seq!['.']) =~= a.text());
    law_split_undoes_join(parts, '.');
}

/// Two single addresses overlap when they are the same; an address lies in a range of
/// sixteen bits when it agrees with it in its first two octets.
pub proof fn law_overlaps(a: Ipv4, b: Ipv4, one: bool, half: bool, all: bool)
    requires
        call_ensures(cidr_overlaps, (a, 32u8, b, 32u8), one),
        call_ensures(cidr_overlaps, (a, 32u8, b, 16u8), half),
        call_ensures(cidr_overlaps, (a, 0u8, b, 32u8), all),
    ensures
        one <==> a == b,
        half <==> a.0 == b.0 && a.1 == b.1,
        all,
{
    vstd::arithmetic::power2::lemma2_to64();
    assert(crate::netaddr::range_size(32) == 1);
    assert(crate::netaddr::range_size(16) == 65_536);
    assert(crate::netaddr::range_size(0) == 4_294_967_296);
    let (x, y) = (a.value(), b.value());
    assert(x / 1 == x && y / 1 == y);
    assert(x / 65_536 == a.0 * 256 + a.1);
    assert(y / 65_536 == b.0 * 256 + b.1);
    assert(x / 4_294_967_296 == 0 && y / 4_294_967_296 == 0);
}

/// Sums and products are exact as far as they reach, and stop at a bound beyond that.
pub proof fn law_bounded(a: u128, b: u128, k: u64, sum: u128, product: u128)
    requires
        call_ensures(bounded_sum, (a, b), sum),
        call_ensures(bounded_product, (a, k), product),
        a <= crate::usage::COST_LIMIT,
        b <= crate::usage::COST_LIMIT,
    ensures
        a + b <= crate::usage::COST_LIMIT ==> sum == a + b,
        a + b > crate::usage::COST_LIMIT ==> sum == crate::usage::COST_LIMIT,
        a * k <= crate::usage::COST_LIMIT ==> product == a * k,
        a * k > crate::usage::COST_LIMIT ==> product == crate::usage::COST_LIMIT,
{
}

/// A month begins at its first midnight, where that can be told.
pub proof fn law_months(midnight: Option<i64>, now: i64, r: i64)
    requires
        call_ensures(begins_at, (midnight, now), r),
    ensures
        midnight matches Some(t) ==> r == t,
        midnight is None ==> r == now,
{
}

} // verus!
