//! IPv4 addresses and address ranges.

use crate::numeral::{all_digits, decimal, digits_value, parse_max, parsed, to_decimal};
use crate::text::{chars_of, cut_first, is_digit, pieces, split, split_once, views};
use vstd::arithmetic::div_mod::*;
use vstd::arithmetic::power2::*;
use vstd::prelude::*;
use vstd::string::*;

verus! {

/// An IPv4 address by its four octets.
#[derive(Debug, Clone, Copy, PartialEq, Eq, Structural)]
pub struct Ipv4(pub u8, pub u8, pub u8, pub u8);

impl Ipv4 {
    /// The address as a number.
    pub open spec fn value(self) -> int {
        self.0 * 16_777_216 + self.1 * 65_536 + self.2 * 256 + self.3
    }

    /// Dotted decimal.
    pub open spec fn text(self) -> Seq<char> {
        decimal(self.0 as nat) + seq!['.'] + decimal(self.1 as nat) + seq!['.'] + decimal(
            self.2 as nat,
        ) + seq!['.'] + decimal(self.3 as nat)
    }

    /// The address as a number.
    pub fn number(&self) -> (r: u32)
        ensures
            r == self.value(),
    {
        self.0 as u32 * 16_777_216 + self.1 as u32 * 65_536 + self.2 as u32 * 256 + self.3 as u32
    }

    /// Dotted decimal.
    pub fn show(&self) -> (r: String)
        ensures
            r@ == self.text(),
    {
        let mut s = to_decimal(self.0 as u64);
        s.push('.');
        s.append(to_decimal(self.1 as u64).as_str());
        s.push('.');
        s.append(to_decimal(self.2 as u64).as_str());
        s.push('.');
        s.append(to_decimal(self.3 as u64).as_str());
        assert(s@ =~= self.text());
        s
    }
}

/// The value of one octet: one to three digits, no leading zero, at most 255.
pub open spec fn octet(s: Seq<char>) -> Option<u8> {
    if 1 <= s.len() <= 3 && all_digits(s) && (s.len() == 1 || s[0] != '0') && digits_value(s) <= 255 {
        Some(digits_value(s) as u8)
    } else {
        None
    }
}

/// The address that a dotted decimal text denotes: four octets.
pub open spec fn address(s: Seq<char>) -> Option<Ipv4> {
    let p = pieces(s, '.');
    if p.len() == 4 && octet(p[0]) is Some && octet(p[1]) is Some && octet(p[2]) is Some && octet(
        p[3],
    ) is Some {
        Some(Ipv4(octet(p[0])->0, octet(p[1])->0, octet(p[2])->0, octet(p[3])->0))
    } else {
        None
    }
}

fn parse_octet(s: &str) -> (r: Option<u8>)
    ensures
        r == octet(s@),
{
    let v = chars_of(s);
    if v.len() == 0 || v.len() > 3 || v[0] == '+' {
        assert(v@.len() > 0 && v@[0] == '+' ==> !is_digit(s@[0]));
        return None;
    }
    if v.len() > 1 && v[0] == '0' {
        return None;
    }
    match parse_max(s, 255) {
        Some(n) => Some(n as u8),
        None => None,
    }
}

/// Read a dotted decimal address.
pub fn parse_ipv4(s: &str) -> (r: Option<Ipv4>)
    ensures
        r == address(s@),
{
    let parts = split(s, '.');
    if parts.len() != 4 {
        return None;
    }
    let ghost p = pieces(s@, '.');
    assert(views(parts@)[0] == p[0] && views(parts@)[1] == p[1]);
    assert(views(parts@)[2] == p[2] && views(parts@)[3] == p[3]);
    match (
        parse_octet(parts[0].as_str()),
        parse_octet(parts[1].as_str()),
        parse_octet(parts[2].as_str()),
        parse_octet(parts[3].as_str()),
    ) {
        (Some(a), Some(b), Some(c), Some(d)) => Some(Ipv4(a, b, c, d)),
        _ => None,
    }
}

/// The range that a text denotes: an address with an optional prefix length of
/// at most 32; without one, the address alone.
pub open spec fn cidr(s: Seq<char>) -> Option<(Ipv4, u8)> {
    match cut_first(s, '/') {
        Some((ip, prefix)) => match (parsed(prefix, 255), address(ip)) {
            (Some(n), Some(a)) => if n <= 32 {
                Some((a, n as u8))
            } else {
                None
            },
            _ => None,
        },
        None => match address(s) {
            Some(a) => Some((a, 32)),
            None => None,
        },
    }
}

/// Read an address or an address range.
pub fn parse_ipv4_cidr(value: &str) -> (r: Option<(Ipv4, u8)>)
    ensures
        r == cidr(value@),
{
    match split_once(value, '/') {
        Some((ip, prefix)) => {
            let n: u64 = match parse_max(prefix.as_str(), 255) {
                Some(n) => n,
                None => return None,
            };
            if n > 32 {
                return None;
            }
            match parse_ipv4(ip.as_str()) {
                Some(a) => Some((a, n as u8)),
                None => None,
            }
        },
        None => match parse_ipv4(value) {
            Some(a) => Some((a, 32)),
            None => None,
        },
    }
}

/// How many addresses a range of the given prefix length holds.
pub open spec fn range_size(prefix: u8) -> int
    recommends
        prefix <= 32,
{
    pow2((32 - prefix) as nat) as int
}

/// The address `x` lies in the range of `a` with the given prefix length.
pub open spec fn in_range(x: int, a: Ipv4, prefix: u8) -> bool {
    x / range_size(prefix) == a.value() / range_size(prefix)
}

/// The smaller of two prefix lengths: that of the larger range.
pub open spec fn wider(p: u8, q: u8) -> u8 {
    if p <= q {
        p
    } else {
        q
    }
}

/// Two ranges overlap: they agree on the bits that both fix.
pub open spec fn ranges_overlap(a: Ipv4, p: u8, b: Ipv4, q: u8) -> bool {
    in_range(a.value(), b, wider(p, q))
}

fn size_of_range(prefix: u8) -> (r: u64)
    requires
        prefix <= 32,
    ensures
        r == range_size(prefix),
        0 < r <= 4_294_967_296,
{
    let mut size: u64 = 1;
    let mut bits: u8 = 0;
    proof {
        lemma2_to64();
    }
    while bits < 32 - prefix
        invariant
            prefix <= 32,
            bits <= 32 - prefix,
            size == pow2(bits as nat),
            0 < size <= 4_294_967_296,
        decreases 32 - prefix - bits,
    {
        proof {
            lemma_pow2_unfold((bits + 1) as nat);
            lemma_pow2_strictly_increases(bits as nat, 32);
            lemma2_to64();
        }
        size = size * 2;
        bits = bits + 1;
        proof {
            if bits < 32 {
                lemma_pow2_strictly_increases(bits as nat, 32);
            }
        }
    }
    size
}

/// Do two address ranges share an address?
pub fn cidr_overlaps(a: Ipv4, a_prefix: u8, b: Ipv4, b_prefix: u8) -> (r: bool)
    requires
        a_prefix <= 32,
        b_prefix <= 32,
    ensures
        r == ranges_overlap(a, a_prefix, b, b_prefix),
{
    let prefix: u8 = if a_prefix <= b_prefix {
        a_prefix
    } else {
        b_prefix
    };
    let size: u64 = size_of_range(prefix);
    a.number() as u64 / size == b.number() as u64 / size
}

/// Two ranges overlap exactly when some address lies in both.
pub proof fn law_overlap_means_shared_address(a: Ipv4, p: u8, b: Ipv4, q: u8)
    requires
        p <= 32,
        q <= 32,
    ensures
        ranges_overlap(a, p, b, q) <==> exists|x: int| #[trigger]
            in_range(x, a, p) && in_range(x, b, q),
{
    let (sp, sq) = (range_size(p), range_size(q));
    lemma_pow2_pos((32 - p) as nat);
    lemma_pow2_pos((32 - q) as nat);
    if ranges_overlap(a, p, b, q) {
        // The address of the narrower range lies in both.
        let x = if p >= q {
            a.value()
        } else {
            b.value()
        };
        assert(in_range(x, a, p) && in_range(x, b, q));
    }
    if exists|x: int| #[trigger] in_range(x, a, p) && in_range(x, b, q) {
        let x = choose|x: int| #[trigger] in_range(x, a, p) && in_range(x, b, q);
        if p <= q {
            lemma_narrow_range_in_wide(x, b, q, p);
            assert(in_range(x, b, p));
        } else {
            lemma_narrow_range_in_wide(x, a, p, q);
            assert(in_range(x, a, q));
        }
    }
}

/// What lies in a narrow range lies in the wide range around it.
proof fn lemma_narrow_range_in_wide(x: int, a: Ipv4, narrow: u8, wide: u8)
    requires
        wide <= narrow <= 32,
        in_range(x, a, narrow),
    ensures
        in_range(x, a, wide),
{
    let k = (narrow - wide) as nat;
    let s = range_size(narrow);
    lemma_pow2_adds((32 - narrow) as nat, k);
    lemma_pow2_pos((32 - narrow) as nat);
    lemma_pow2_pos(k);
    assert(range_size(wide) == s * pow2(k));
    let v = a.value();
    assert(x >= 0) by (nonlinear_arith)
        requires
            s > 0,
            v >= 0,
            x / s == v / s,
    ;
    lemma_div_denominator(x, s, pow2(k) as int);
    lemma_div_denominator(a.value(), s, pow2(k) as int);
}

} // verus!
