//! DNS messages, as far as the egress proxy reads and writes them: the question
//! of a query, the IPv4 addresses of an answer, and an error answer.

use crate::netaddr::Ipv4;
use crate::text::{join, joined, lowered, text_of_utf8, to_lower, views};
use vstd::prelude::*;
use vstd::string::*;
use vstd::utf8::*;

verus! {

/// The name was not found.
pub const RCODE_NO_NAME: u8 = 3;

/// The server failed.
pub const RCODE_FAILED: u8 = 2;

/// The server refuses.
pub const RCODE_REFUSED: u8 = 5;

/// The sixteen-bit number at `i`, most significant byte first.
pub open spec fn be16(p: Seq<u8>, i: int) -> int {
    p[i] as int * 256 + p[i + 1] as int
}

fn read16(p: &[u8], i: usize) -> (r: usize)
    requires
        i + 1 < p@.len(),
    ensures
        r == be16(p@, i as int),
        r <= 65535,
{
    p[i] as usize * 256 + p[i + 1] as usize
}

/// The labels of the uncompressed name at `pos`, in lower case, and where the
/// name ends.
pub open spec fn labels_at(p: Seq<u8>, pos: int) -> Option<(Seq<Seq<char>>, int)>
    decreases p.len() - pos,
{
    if pos < 0 || pos >= p.len() {
        None
    } else {
        let n = p[pos] as int;
        let label = p.subrange(pos + 1, pos + 1 + n);
        if n == 0 {
            Some((Seq::<Seq<char>>::empty(), pos + 1))
        } else if n > 63 || pos + 1 + n > p.len() || !valid_utf8(label) {
            None
        } else {
            match labels_at(p, pos + 1 + n) {
                None => None,
                Some((rest, end)) => Some((seq![lowered(decode_utf8(label))] + rest, end)),
            }
        }
    }
}

/// The name a query asks for, and where its question ends.
pub open spec fn question(p: Seq<u8>) -> Option<(Seq<char>, int)> {
    if p.len() < 12 || be16(p, 4) == 0 {
        None
    } else {
        match labels_at(p, 12) {
            None => None,
            Some((labels, end)) => if end + 4 > p.len() {
                None
            } else {
                Some((joined(labels, "."@), end + 4))
            },
        }
    }
}

#[derive(Debug)]
pub struct DnsQuestion {
    pub name: String,
    /// Where the question section's first entry ends.
    pub end: usize,
}

impl DnsQuestion {
    /// How long resolved addresses are kept, in seconds.
    pub fn ttl_hint(&self) -> (r: u32)
        ensures
            r == 300,
    {
        300
    }
}

/// The view of a parsed question.
pub open spec fn question_view(q: Option<DnsQuestion>) -> Option<(Seq<char>, int)> {
    match q {
        Some(q) => Some((q.name@, q.end as int)),
        None => None,
    }
}

fn bytes_between(p: &[u8], from: usize, to: usize) -> (r: Vec<u8>)
    requires
        from <= to <= p@.len(),
    ensures
        r@ == p@.subrange(from as int, to as int),
{
    let mut v: Vec<u8> = Vec::new();
    let mut i: usize = from;
    while i < to
        invariant
            from <= i <= to <= p@.len(),
            v@ == p@.subrange(from as int, i as int),
        decreases to - i,
    {
        v.push(p[i]);
        i = i + 1;
        assert(p@.subrange(from as int, i as int) =~= p@.subrange(from as int, i - 1).push(
            p@[i - 1],
        ));
    }
    v
}

/// Read the question of a query.
pub fn parse_question(packet: &[u8]) -> (r: Option<DnsQuestion>)
    ensures
        question_view(r) == question(packet@),
{
    let n: usize = packet.len();
    if n < 12 || read16(packet, 4) == 0 {
        return None;
    }
    let mut pos: usize = 12;
    let mut labels: Vec<String> = Vec::new();
    let ghost p = packet@;
    assert(match labels_at(p, 12) {
        None => true,
        Some((rest, end)) => rest =~= views(labels@) + rest,
    });
    while pos < n && packet[pos] != 0
        invariant
            12 <= pos <= n,
            n == packet.len(),
            p == packet@,
            p.len() >= 12,
            be16(p, 4) != 0,
            labels_at(p, 12) == (match labels_at(p, pos as int) {
                None => None,
                Some((rest, end)) => Some((views(labels@) + rest, end)),
            }),
        decreases n - pos,
    {
        let len: usize = packet[pos] as usize;
        pos = pos + 1;
        if len > 63 || len > n - pos {
            return None;
        }
        let label = match text_of_utf8(bytes_between(packet, pos, pos + len)) {
            None => return None,
            Some(s) => s,
        };
        let low = to_lower(label.as_str());
        let ghost before = views(labels@);
        labels.push(low);
        proof {
            assert(views(labels@) =~= before.push(low@));
            match labels_at(p, pos + len) {
                None => {},
                Some((rest, end)) => {
                    assert(before + (seq![low@] + rest) =~= views(labels@) + rest);
                },
            }
        }
        pos = pos + len;
    }
    if pos >= n {
        return None;
    }
    proof {
        assert(views(labels@) + Seq::<Seq<char>>::empty() =~= views(labels@));
    }
    pos = pos + 1;
    if n - pos < 4 {
        return None;
    }
    Some(DnsQuestion { name: join(&labels, "."), end: pos + 4 })
}

/// The answer that reports an error: the query's id and question, nothing else.
pub open spec fn error_answer(p: Seq<u8>, rcode: u8) -> Option<Seq<u8>> {
    match question(p) {
        None => None,
        Some((_, end)) => Some(
            p.subrange(0, 2) + seq![0x81u8, (0x80 + rcode % 16) as u8, 0, 1, 0, 0, 0, 0, 0, 0]
                + p.subrange(12, end),
        ),
    }
}

/// The view of optional bytes.
pub open spec fn bytes_view(o: Option<Vec<u8>>) -> Option<Seq<u8>> {
    match o {
        Some(v) => Some(v@),
        None => None,
    }
}

proof fn lemma_end_in_packet(p: Seq<u8>, pos: int)
    ensures
        labels_at(p, pos) matches Some((_, end)) ==> pos < end <= p.len(),
    decreases p.len() - pos,
{
    if 0 <= pos < p.len() {
        let n = p[pos] as int;
        if 0 < n <= 63 && pos + 1 + n <= p.len() {
            lemma_end_in_packet(p, pos + 1 + n);
        }
    }
}

/// The answer to a query that reports an error.
pub fn dns_error_response(packet: &[u8], rcode: u8) -> (r: Option<Vec<u8>>)
    ensures
        bytes_view(r) == error_answer(packet@, rcode),
{
    let q = match parse_question(packet) {
        None => return None,
        Some(q) => q,
    };
    proof {
        lemma_end_in_packet(packet@, 12);
    }
    let mut out = bytes_between(packet, 0, 2);
    let code: u8 = 0x80 + rcode % 16;
    let mut head: Vec<u8> = vec![0x81, code, 0, 1, 0, 0, 0, 0, 0, 0];
    let mut body = bytes_between(packet, 12, q.end);
    assert(head@ =~= seq![0x81u8, code, 0, 1, 0, 0, 0, 0, 0, 0]);
    out.append(&mut head);
    out.append(&mut body);
    Some(out)
}

/// Where the name at `pos`, compressed or not, ends.
pub open spec fn name_end(p: Seq<u8>, pos: int) -> Option<int>
    decreases p.len() - pos,
{
    if pos < 0 || pos >= p.len() {
        None
    } else {
        let n = p[pos] as int;
        if n == 0 {
            Some(pos + 1)
        } else if n >= 192 {
            if pos + 2 <= p.len() {
                Some(pos + 2)
            } else {
                None
            }
        } else if n > 63 || pos + 1 + n > p.len() {
            None
        } else {
            name_end(p, pos + 1 + n)
        }
    }
}

/// Skip the name at `start`.
pub fn skip_dns_name(packet: &[u8], start: usize) -> (r: Option<usize>)
    ensures
        (match r {
            Some(e) => Some(e as int),
            None => None,
        }) == name_end(packet@, start as int),
        r matches Some(e) ==> start < e <= packet@.len(),
{
    let n: usize = packet.len();
    let mut pos: usize = start;
    while pos < n
        invariant
            n == packet.len(),
            start <= pos,
            name_end(packet@, start as int) == name_end(packet@, pos as int),
        decreases n - pos,
    {
        let len: usize = packet[pos] as usize;
        if len == 0 {
            return Some(pos + 1);
        }
        if len >= 192 {
            if n - pos >= 2 {
                return Some(pos + 2);
            }
            return None;
        }
        if len > 63 || len > n - pos - 1 {
            return None;
        }
        pos = pos + 1 + len;
    }
    None
}

/// The addresses of the next `count` records from `pos` on, as far as they can
/// be read: of each record of type A and class IN with four bytes of data.
pub open spec fn addresses(p: Seq<u8>, pos: int, count: int) -> Seq<Ipv4>
    decreases count,
{
    if count <= 0 {
        Seq::<Ipv4>::empty()
    } else {
        match name_end(p, pos) {
            None => Seq::<Ipv4>::empty(),
            Some(at) => if at + 10 > p.len() || at + 10 + be16(p, at + 8) > p.len() {
                Seq::<Ipv4>::empty()
            } else {
                let size = be16(p, at + 8);
                let data = at + 10;
                let rest = addresses(p, data + size, count - 1);
                if be16(p, at) == 1 && be16(p, at + 2) == 1 && size == 4 {
                    seq![Ipv4(p[data], p[data + 1], p[data + 2], p[data + 3])] + rest
                } else {
                    rest
                }
            },
        }
    }
}

/// The addresses that an answer gives.
pub open spec fn answer_addresses(p: Seq<u8>) -> Seq<Ipv4> {
    match question(p) {
        None => Seq::<Ipv4>::empty(),
        Some((_, end)) => addresses(p, end, be16(p, 6)),
    }
}

/// Read the IPv4 addresses of an answer.
pub fn parse_a_records(packet: &[u8]) -> (r: Vec<Ipv4>)
    ensures
        r@ == answer_addresses(packet@),
{
    let mut out: Vec<Ipv4> = Vec::new();
    let q = match parse_question(packet) {
        None => return out,
        Some(q) => q,
    };
    let n: usize = packet.len();
    let count: usize = read16(packet, 6);
    let mut pos: usize = q.end;
    let mut left: usize = count;
    let ghost p = packet@;
    while left > 0
        invariant
            n == packet.len(),
            p == packet@,
            answer_addresses(p) =~= out@ + addresses(p, pos as int, left as int),
        decreases left,
    {
        let at: usize = match skip_dns_name(packet, pos) {
            None => return out,
            Some(at) => at,
        };
        if n - at < 10 {
            return out;
        }
        let rr_type: usize = read16(packet, at);
        let rr_class: usize = read16(packet, at + 2);
        let size: usize = read16(packet, at + 8);
        let data: usize = at + 10;
        if size > n - data {
            return out;
        }
        if rr_type == 1 && rr_class == 1 && size == 4 {
            out.push(Ipv4(packet[data], packet[data + 1], packet[data + 2], packet[data + 3]));
        }
        pos = data + size;
        left = left - 1;
    }
    out
}

// ---------------------------------------------------------------------------
// Laws
// ---------------------------------------------------------------------------

/// Reading a name depends on its own bytes only.
proof fn lemma_labels_agree(p: Seq<u8>, q: Seq<u8>, pos: int)
    requires
        labels_at(p, pos) is Some,
        q.len() >= labels_at(p, pos)->Some_0.1,
        forall|i: int| pos <= i < labels_at(p, pos)->Some_0.1 ==> #[trigger] q[i] == p[i],
    ensures
        labels_at(q, pos) == labels_at(p, pos),
    decreases p.len() - pos,
{
    lemma_end_in_packet(p, pos);
    let n = p[pos] as int;
    assert(q[pos] == p[pos]);
    if n > 0 {
        lemma_end_in_packet(p, pos + 1 + n);
        assert(q.subrange(pos + 1, pos + 1 + n) =~= p.subrange(pos + 1, pos + 1 + n));
        lemma_labels_agree(p, q, pos + 1 + n);
    }
}

/// An error answer carries the id and the question of the query, and no address.
pub proof fn law_error_answer_keeps_the_question(p: Seq<u8>, rcode: u8)
    requires
        question(p) is Some,
    ensures
        error_answer(p, rcode) is Some,
        error_answer(p, rcode)->0.subrange(0, 2) == p.subrange(0, 2),
        question(error_answer(p, rcode)->0) == question(p),
        answer_addresses(error_answer(p, rcode)->0).len() == 0,
        error_answer(p, rcode)->0[3] % 16 == rcode % 16,
{
    let q = error_answer(p, rcode)->0;
    lemma_end_in_packet(p, 12);
    let (_, end) = question(p)->0;
    assert(q.len() == end);
    assert(q.subrange(0, 2) =~= p.subrange(0, 2));
    assert forall|i: int| 12 <= i < end implies #[trigger] q[i] == p[i] by {
        assert(q[i] == p.subrange(12, end)[i - 12]);
    }
    lemma_labels_agree(p, q, 12);
    assert(be16(q, 4) == 1);
    assert(be16(q, 6) == 0);
}

} // verus!
