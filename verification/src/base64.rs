//! Base64 with the standard alphabet. Encoding pads with `=`; decoding ignores
//! padding and ASCII white space and rejects every other foreign character.

use crate::text::chars_of;
use vstd::prelude::*;
use vstd::string::*;

verus! {

/// The symbol of a six-bit value.
pub open spec fn symbol(v: nat) -> char {
    if v < 26 {
        (('A' as u32 + v) as u32) as char
    } else if v < 52 {
        (('a' as u32 + (v - 26)) as u32) as char
    } else if v < 62 {
        (('0' as u32 + (v - 52)) as u32) as char
    } else if v == 62 {
        '+'
    } else {
        '/'
    }
}

/// The six-bit value of a symbol, for the characters of the alphabet.
pub open spec fn symbol_value(c: char) -> Option<nat> {
    if 'A' <= c && c <= 'Z' {
        Some((c as u32 - 'A' as u32) as nat)
    } else if 'a' <= c && c <= 'z' {
        Some((c as u32 - 'a' as u32 + 26) as nat)
    } else if '0' <= c && c <= '9' {
        Some((c as u32 - '0' as u32 + 52) as nat)
    } else if c == '+' {
        Some(62)
    } else if c == '/' {
        Some(63)
    } else {
        None
    }
}

/// Padding and ASCII white space, which decoding passes over.
pub open spec fn is_filler(c: char) -> bool {
    let n = c as u32;
    c == '=' || n == 32 || n == 9 || n == 10 || n == 12 || n == 13
}

/// The base64 text of `b`: four symbols for every three bytes, padded at the end.
pub open spec fn encoded(b: Seq<u8>) -> Seq<char>
    decreases b.len(),
{
    if b.len() == 0 {
        Seq::<char>::empty()
    } else if b.len() == 1 {
        seq![symbol((b[0] / 4) as nat), symbol((b[0] % 4 * 16) as nat), '=', '=']
    } else if b.len() == 2 {
        seq![
            symbol((b[0] / 4) as nat),
            symbol((b[0] % 4 * 16 + b[1] / 16) as nat),
            symbol((b[1] % 16 * 4) as nat),
            '=',
        ]
    } else {
        seq![
            symbol((b[0] / 4) as nat),
            symbol((b[0] % 4 * 16 + b[1] / 16) as nat),
            symbol((b[1] % 16 * 4 + b[2] / 64) as nat),
            symbol((b[2] % 64) as nat),
        ] + encoded(b.subrange(3, b.len() as int))
    }
}

/// `s` without padding and white space.
pub open spec fn cleaned(s: Seq<char>) -> Seq<char>
    decreases s.len(),
{
    if s.len() == 0 {
        s
    } else if is_filler(s.last()) {
        cleaned(s.drop_last())
    } else {
        cleaned(s.drop_last()).push(s.last())
    }
}

/// Every character belongs to the alphabet.
pub open spec fn in_alphabet(s: Seq<char>) -> bool {
    forall|i: int| 0 <= i < s.len() ==> symbol_value(#[trigger] s[i]) is Some
}

/// The six-bit value at `i`.
pub open spec fn val(s: Seq<char>, i: int) -> int {
    symbol_value(s[i])->0 as int
}

/// The bytes that a sequence of symbols denotes; bits that do not fill a byte
/// are dropped.
pub open spec fn bytes_of(s: Seq<char>) -> Seq<u8>
    decreases s.len(),
{
    if s.len() <= 1 {
        Seq::<u8>::empty()
    } else if s.len() == 2 {
        seq![(val(s, 0) * 4 + val(s, 1) / 16) as u8]
    } else if s.len() == 3 {
        seq![
            (val(s, 0) * 4 + val(s, 1) / 16) as u8,
            (val(s, 1) % 16 * 16 + val(s, 2) / 4) as u8,
        ]
    } else {
        seq![
            (val(s, 0) * 4 + val(s, 1) / 16) as u8,
            (val(s, 1) % 16 * 16 + val(s, 2) / 4) as u8,
            (val(s, 2) % 4 * 64 + val(s, 3)) as u8,
        ] + bytes_of(s.subrange(4, s.len() as int))
    }
}

/// What decoding gives: nothing when a foreign character occurs.
pub open spec fn decoded(s: Seq<char>) -> Option<Seq<u8>> {
    if in_alphabet(cleaned(s)) {
        Some(bytes_of(cleaned(s)))
    } else {
        None
    }
}

fn symbol_of(v: u8) -> (r: char)
    requires
        v < 64,
    ensures
        r == symbol(v as nat),
{
    if v < 26 {
        (65u8 + v) as char
    } else if v < 52 {
        (71u8 + v) as char
    } else if v < 62 {
        (v - 4u8) as char
    } else if v == 62 {
        '+'
    } else {
        '/'
    }
}

fn value_of(c: char) -> (r: Option<u8>)
    ensures
        (match r {
            Some(v) => Some(v as nat),
            None => None,
        }) == symbol_value(c),
        r matches Some(v) ==> v < 64,
{
    let n: u32 = c as u32;
    if 'A' <= c && c <= 'Z' {
        Some((n - 65) as u8)
    } else if 'a' <= c && c <= 'z' {
        Some((n - 71) as u8)
    } else if '0' <= c && c <= '9' {
        Some((n + 4) as u8)
    } else if c == '+' {
        Some(62)
    } else if c == '/' {
        Some(63)
    } else {
        None
    }
}

/// The base64 text of `input`.
pub fn encode(input: &[u8]) -> (r: String)
    ensures
        r@ == encoded(input@),
{
    let mut out = String::new();
    let n: usize = input.len();
    let mut i: usize = 0;
    assert(input@.subrange(0, n as int) =~= input@);
    while n - i >= 3
        invariant
            i <= n == input@.len(),
            out@ + encoded(input@.subrange(i as int, n as int)) == encoded(input@),
        decreases n - i,
    {
        let ghost rest = input@.subrange(i as int, n as int);
        let ghost out0 = out@;
        let (a, b, c) = (input[i], input[i + 1], input[i + 2]);
        out.push(symbol_of(a / 4));
        out.push(symbol_of(a % 4 * 16 + b / 16));
        out.push(symbol_of(b % 16 * 4 + c / 64));
        out.push(symbol_of(c % 64));
        i = i + 3;
        assert(rest.subrange(3, rest.len() as int) =~= input@.subrange(i as int, n as int));
        assert(out@ + encoded(input@.subrange(i as int, n as int)) =~= out0 + encoded(rest));
    }
    let ghost rest = input@.subrange(i as int, n as int);
    let ghost out0 = out@;
    if n - i == 1 {
        let a: u8 = input[i];
        out.push(symbol_of(a / 4));
        out.push(symbol_of(a % 4 * 16));
        out.push('=');
        out.push('=');
    } else if n - i == 2 {
        let (a, b) = (input[i], input[i + 1]);
        out.push(symbol_of(a / 4));
        out.push(symbol_of(a % 4 * 16 + b / 16));
        out.push(symbol_of(b % 16 * 4));
        out.push('=');
    }
    assert(out@ =~= out0 + encoded(rest));
    out
}

/// The values of the symbols of `input`, or nothing when it holds a foreign
/// character.
fn values(input: &str) -> (r: Option<Vec<u8>>)
    ensures
        r is Some <==> in_alphabet(cleaned(input@)),
        r matches Some(v) ==> v@.len() == cleaned(input@).len() && forall|i: int|
            0 <= i < v@.len() ==> #[trigger] v@[i] == val(cleaned(input@), i) && v@[i] < 64,
{
    let chars = chars_of(input);
    let ghost all = cleaned(input@);
    let mut out: Vec<u8> = Vec::new();
    let mut i: usize = 0;
    while i < chars.len()
        invariant
            i <= chars@.len(),
            chars@ == input@,
            ({
                let done = cleaned(input@.subrange(0, i as int));
                &&& out@.len() == done.len()
                &&& in_alphabet(done)
                &&& forall|k: int|
                    0 <= k < out@.len() ==> #[trigger] out@[k] == val(done, k) && out@[k] < 64
            }),
        decreases chars@.len() - i,
    {
        let c = chars[i];
        let n: u32 = c as u32;
        let ghost done = cleaned(input@.subrange(0, i as int));
        let ghost now = cleaned(input@.subrange(0, i + 1));
        assert(input@.subrange(0, i + 1).drop_last() =~= input@.subrange(0, i as int));
        assert(input@.subrange(0, i + 1).last() == c);
        if c == '=' || n == 32 || n == 9 || n == 10 || n == 12 || n == 13 {
            assert(now == done);
        } else {
            assert(now == done.push(c));
            match value_of(c) {
                Some(v) => {
                    out.push(v);
                    assert(symbol_value(now[done.len() as int]) is Some);
                    assert forall|k: int| 0 <= k < now.len() implies symbol_value(
                        #[trigger] now[k],
                    ) is Some by {
                        if k < done.len() {
                            assert(now[k] == done[k]);
                        }
                    }
                    assert forall|k: int| 0 <= k < out@.len() implies #[trigger] out@[k] == val(
                        now,
                        k,
                    ) && out@[k] < 64 by {
                        if k < done.len() {
                            assert(now[k] == done[k]);
                        }
                    }
                },
                None => {
                    proof {
                        lemma_cleaned_prefix(input@, i + 1);
                        assert(cleaned(input@)[done.len() as int] == c);
                    }
                    return None;
                },
            }
        }
        i = i + 1;
    }
    assert(input@.subrange(0, i as int) =~= input@);
    Some(out)
}

/// Decode base64 text; `None` when it holds a character that is neither a
/// symbol nor padding nor ASCII white space.
pub fn decode(input: &str) -> (r: Option<Vec<u8>>)
    ensures
        (match r {
            Some(v) => Some(v@),
            None => None,
        }) == decoded(input@),
{
    let vals = match values(input) {
        Some(v) => v,
        None => return None,
    };
    let ghost all = cleaned(input@);
    let n: usize = vals.len();
    let mut out: Vec<u8> = Vec::new();
    let mut i: usize = 0;
    assert(all.subrange(0, n as int) =~= all);
    while n - i >= 4
        invariant
            i <= n == vals@.len() == all.len(),
            forall|k: int| 0 <= k < n ==> #[trigger] vals@[k] == val(all, k) && vals@[k] < 64,
            out@ + bytes_of(all.subrange(i as int, n as int)) == bytes_of(all),
        decreases n - i,
    {
        let ghost rest = all.subrange(i as int, n as int);
        let ghost out0 = out@;
        let (a, b, c, d) = (vals[i], vals[i + 1], vals[i + 2], vals[i + 3]);
        assert(val(rest, 0) == val(all, i as int));
        assert(val(rest, 1) == val(all, i + 1));
        assert(val(rest, 2) == val(all, i + 2));
        assert(val(rest, 3) == val(all, i + 3));
        out.push(a * 4 + b / 16);
        out.push(b % 16 * 16 + c / 4);
        out.push(c % 4 * 64 + d);
        i = i + 4;
        assert(rest.subrange(4, rest.len() as int) =~= all.subrange(i as int, n as int));
        assert(out@ + bytes_of(all.subrange(i as int, n as int)) =~= out0 + bytes_of(rest));
    }
    let ghost rest = all.subrange(i as int, n as int);
    let ghost out0 = out@;
    if n - i >= 2 {
        assert(val(rest, 0) == val(all, i as int));
        assert(val(rest, 1) == val(all, i + 1));
        out.push(vals[i] * 4 + vals[i + 1] / 16);
    }
    if n - i == 3 {
        assert(val(rest, 2) == val(all, i + 2));
        out.push(vals[i + 1] % 16 * 16 + vals[i + 2] / 4);
    }
    assert(out@ =~= out0 + bytes_of(rest));
    Some(out)
}

// ---------------------------------------------------------------------------
// Laws
// ---------------------------------------------------------------------------

proof fn lemma_cleaned_concat(a: Seq<char>, b: Seq<char>)
    ensures
        cleaned(a + b) == cleaned(a) + cleaned(b),
    decreases b.len(),
{
    if b.len() == 0 {
        assert(a + b =~= a);
        assert(cleaned(a) + cleaned(b) =~= cleaned(a));
    } else {
        assert((a + b).drop_last() =~= a + b.drop_last());
        lemma_cleaned_concat(a, b.drop_last());
        assert(cleaned(a + b) =~= cleaned(a) + cleaned(b));
    }
}

proof fn lemma_cleaned_prefix(s: Seq<char>, i: int)
    requires
        0 <= i <= s.len(),
    ensures
        cleaned(s.subrange(0, i)).len() <= cleaned(s).len(),
        forall|k: int|
            0 <= k < cleaned(s.subrange(0, i)).len() ==> #[trigger] cleaned(s)[k] == cleaned(
                s.subrange(0, i),
            )[k],
{
    assert(s =~= s.subrange(0, i) + s.subrange(i, s.len() as int));
    lemma_cleaned_concat(s.subrange(0, i), s.subrange(i, s.len() as int));
}

proof fn lemma_symbol(v: nat)
    requires
        v < 64,
    ensures
        symbol_value(symbol(v)) == Some(v),
        !is_filler(symbol(v)),
{
}

proof fn lemma_cleaned_symbols(s: Seq<char>, k: int)
    requires
        0 <= k <= s.len(),
        forall|i: int| 0 <= i < k ==> !is_filler(#[trigger] s[i]),
        forall|i: int| k <= i < s.len() ==> is_filler(#[trigger] s[i]),
    ensures
        cleaned(s) == s.subrange(0, k),
    decreases s.len(),
{
    if s.len() > 0 {
        let t = s.drop_last();
        if k == s.len() {
            lemma_cleaned_symbols(t, k - 1);
            assert(cleaned(s) =~= s.subrange(0, k));
        } else {
            lemma_cleaned_symbols(t, k);
            assert(t.subrange(0, k) =~= s.subrange(0, k));
        }
    } else {
        assert(s.subrange(0, k) =~= s);
    }
}

/// One byte, told by two symbols.
proof fn lemma_one_byte(b: Seq<u8>)
    requires
        b.len() == 1,
    ensures
        decoded(encoded(b)) == Some(b),
{
    let (v0, v1) = ((b[0] / 4) as nat, (b[0] % 4 * 16) as nat);
    lemma_symbol(v0);
    lemma_symbol(v1);
    lemma_cleaned_symbols(encoded(b), 2);
    let c = cleaned(encoded(b));
    assert(c =~= seq![symbol(v0), symbol(v1)]);
    assert(val(c, 0) == v0 && val(c, 1) == v1);
    assert(bytes_of(c) =~= b);
}

/// Two bytes, told by three symbols.
proof fn lemma_two_bytes(b: Seq<u8>)
    requires
        b.len() == 2,
    ensures
        decoded(encoded(b)) == Some(b),
{
    let (v0, v1, v2) = (
        (b[0] / 4) as nat,
        (b[0] % 4 * 16 + b[1] / 16) as nat,
        (b[1] % 16 * 4) as nat,
    );
    lemma_symbol(v0);
    lemma_symbol(v1);
    lemma_symbol(v2);
    lemma_cleaned_symbols(encoded(b), 3);
    let c = cleaned(encoded(b));
    assert(c =~= seq![symbol(v0), symbol(v1), symbol(v2)]);
    assert(val(c, 0) == v0 && val(c, 1) == v1 && val(c, 2) == v2);
    assert(bytes_of(c) =~= b);
}

/// Four symbols in front of others tell three bytes in front of theirs.
proof fn lemma_three_bytes(x: u8, y: u8, z: u8, head: Seq<char>, rest: Seq<char>)
    requires
        head.len() == 4,
        symbol_value(head[0]) == Some((x / 4) as nat),
        symbol_value(head[1]) == Some((x % 4 * 16 + y / 16) as nat),
        symbol_value(head[2]) == Some((y % 16 * 4 + z / 64) as nat),
        symbol_value(head[3]) == Some((z % 64) as nat),
    ensures
        bytes_of(head + rest) == seq![x, y, z] + bytes_of(rest),
{
    let c = head + rest;
    assert(c.subrange(4, c.len() as int) =~= rest);
    assert(c[0] == head[0] && c[1] == head[1] && c[2] == head[2] && c[3] == head[3]);
    assert(bytes_of(c) =~= seq![x, y, z] + bytes_of(rest));
}

/// Decoding the base64 text of a byte string gives the byte string back.
pub proof fn law_decode_undoes_encode(b: Seq<u8>)
    ensures
        decoded(encoded(b)) == Some(b),
    decreases b.len(),
{
    if b.len() == 0 {
        assert(bytes_of(cleaned(encoded(b))) =~= b);
    } else if b.len() == 1 {
        lemma_one_byte(b);
    } else if b.len() == 2 {
        lemma_two_bytes(b);
    } else {
        let v0 = (b[0] / 4) as nat;
        let v1 = (b[0] % 4 * 16 + b[1] / 16) as nat;
        let v2 = (b[1] % 16 * 4 + b[2] / 64) as nat;
        let v3 = (b[2] % 64) as nat;
        lemma_symbol(v0);
        lemma_symbol(v1);
        lemma_symbol(v2);
        lemma_symbol(v3);
        let tail = b.subrange(3, b.len() as int);
        let head = seq![symbol(v0), symbol(v1), symbol(v2), symbol(v3)];
        law_decode_undoes_encode(tail);
        assert(encoded(b) == head + encoded(tail));
        lemma_cleaned_concat(head, encoded(tail));
        lemma_cleaned_symbols(head, 4);
        assert(head.subrange(0, 4) =~= head);
        let c = cleaned(encoded(b));
        let ct = cleaned(encoded(tail));
        assert(c == head + ct);
        assert(in_alphabet(c)) by {
            assert forall|i: int| 0 <= i < c.len() implies symbol_value(#[trigger] c[i]) is Some by {
                if i >= 4 {
                    assert(c[i] == ct[i - 4]);
                }
            }
        }
        lemma_three_bytes(b[0], b[1], b[2], head, ct);
        assert(seq![b[0], b[1], b[2]] + tail =~= b);
    }
}

} // verus!
