//! What goes over the wires: names and addresses in DNS messages, requests and replies, the
//! agent's answers, preview hosts and queries; and what is measured.

use crate::api::preview::{
    is_key_pair, kept_pairs, law_preview_host_leads_back, plain, preview_target, strip_key_query,
};
use crate::base64::{encoded, law_decode_undoes_encode};
use crate::bench::{
    bench_spec, echo_request, live_samples, of_path, percentile, ready_time, rounds, sorted_values,
    sweep_targets, BenchmarkSample, Target,
};
use crate::config::preview_host;
use crate::dns::{be16, dns_error_response, labels_at, parse_a_records, parse_question, DnsQuestion};
use crate::egress::{jump_deletions_of, jump_handle};
use crate::hotpool::{default_target, KeyView};
use crate::json::{
    json_bool, json_count, json_document, json_entries, json_int, json_part, json_text,
};
use crate::knobs::Resources;
use crate::model::{
    cidr_is_hard_denied, validate_domain_pattern, BootPath, EgressMode, NetworkPolicy,
    NetworkRuleKind, Sandbox,
};
use crate::netaddr::{cidr, Ipv4};
use crate::node::{pool_spec, remote_addr, remote_count, remote_file_answer, NodeError, RemoteReply};
use crate::numeral::decimal;
use crate::runtime::answer::{
    agent_reply, checked_answer, dir_answer, exec_answer, file_answer, pty_reply, Checked,
};
use crate::runtime::plan::{attempt, need, need_or_reclaim, only_if, or_else, Action, Flow};
use crate::runtime::vm::Settings;
use crate::runtime::wire::{
    first_line, get_reply_of_head, http_get, http_request, reply_text_ok, GetReply,
};
use crate::runtime::{DirEntry, ExecRequest, ExecResult, VmSpec};
use crate::text::{joined, lowered, pieces, position};
use vstd::prelude::*;
use vstd::string::*;
use vstd::utf8::*;

verus! {

// ---------------------------------------------------------------------------
// DNS
// ---------------------------------------------------------------------------

/// A name as it stands in a query: each label behind its length, and a zero at the end.
pub open spec fn written_name(labels: Seq<Seq<u8>>) -> Seq<u8>
    decreases labels.len(),
{
    if labels.len() == 0 {
        seq![0u8]
    } else {
        seq![labels[0].len() as u8] + labels[0] + written_name(
            labels.subrange(1, labels.len() as int),
        )
    }
}

/// Labels as names can have them.
pub open spec fn are_labels(labels: Seq<Seq<u8>>) -> bool {
    forall|i: int|
        0 <= i < labels.len() ==> 1 <= (#[trigger] labels[i]).len() <= 63 && valid_utf8(labels[i])
}

/// The texts of labels, in lower case.
pub open spec fn label_texts(labels: Seq<Seq<u8>>) -> Seq<Seq<char>> {
    Seq::new(labels.len(), |i: int| lowered(decode_utf8(labels[i])))
}

proof fn lemma_names_are_read(p: Seq<u8>, pos: int, labels: Seq<Seq<u8>>)
    requires
        are_labels(labels),
        0 <= pos,
        pos + written_name(labels).len() <= p.len(),
        p.subrange(pos, pos + written_name(labels).len()) == written_name(labels),
    ensures
        labels_at(p, pos) == Some((label_texts(labels), pos + written_name(labels).len())),
    decreases labels.len(),
{
    let w = written_name(labels);
    let q = p.subrange(pos, pos + w.len());
    assert(w.len() > 0) by {
        if labels.len() > 0 {
            assert(w[0] == labels[0].len() as u8);
        }
    }
    assert(p[pos] == q[0]);
    if labels.len() == 0 {
        assert(label_texts(labels) =~= Seq::<Seq<char>>::empty());
    } else {
        let first = labels[0];
        let n = first.len() as int;
        let rest = labels.subrange(1, labels.len() as int);
        let wr = written_name(rest);
        assert(w =~= seq![n as u8] + first + wr);
        assert(w.len() == 1 + n + wr.len());
        assert(p[pos] == n as u8);
        assert(p.subrange(pos + 1, pos + 1 + n) =~= first) by {
            assert forall|i: int| 0 <= i < n implies p[pos + 1 + i] == first[i] by {
                assert(q[1 + i] == w[1 + i]);
            }
        }
        assert(p.subrange(pos + 1 + n, pos + 1 + n + wr.len()) =~= wr) by {
            assert forall|i: int| 0 <= i < wr.len() implies p[pos + 1 + n + i] == wr[i] by {
                assert(q[1 + n + i] == w[1 + n + i]);
            }
        }
        assert(are_labels(rest)) by {
            assert forall|i: int| 0 <= i < rest.len() implies 1 <= (#[trigger] rest[i]).len() <= 63
                && valid_utf8(rest[i]) by {
                assert(rest[i] == labels[i + 1]);
            }
        }
        lemma_names_are_read(p, pos + 1 + n, rest);
        assert(seq![lowered(decode_utf8(first))] + label_texts(rest) =~= label_texts(labels));
    }
}

/// A query is read as it was written: its name, label by label and in lower case, and where
/// its question ends.
pub proof fn law_questions_are_read(
    head: Seq<u8>,
    labels: Seq<Seq<u8>>,
    tail: Seq<u8>,
    packet: &[u8],
    r: Option<DnsQuestion>,
)
    requires
        call_ensures(parse_question, (packet,), r),
        head.len() == 12,
        head[4] != 0 || head[5] != 0,
        are_labels(labels),
        tail.len() >= 4,
        packet@ == head + written_name(labels) + tail,
    ensures
        r matches Some(q) && q.name@ == joined(label_texts(labels), "."@) && q.end == 12
            + written_name(labels).len() + 4,
{
    let p = packet@;
    let w = written_name(labels);
    assert(p.subrange(12, 12 + w.len() as int) =~= w);
    lemma_names_are_read(p, 12, labels);
    assert(p[4] == head[4] && p[5] == head[5]);
}

/// A message that is too short for its header, or that asks nothing, is no query.
pub proof fn law_what_is_no_question(packet: &[u8], r: Option<DnsQuestion>)
    requires
        call_ensures(parse_question, (packet,), r),
    ensures
        packet@.len() < 12 ==> r is None,
        packet@.len() >= 12 && packet@[4] == 0 && packet@[5] == 0 ==> r is None,
{
}

/// A refusal answers the query that was asked, with its error code, and gives no addresses.
pub proof fn law_refusals_answer_the_query(packet: &[u8], rcode: u8, q: DnsQuestion, out: Vec<u8>)
    requires
        call_ensures(parse_question, (packet,), Some(q)),
        call_ensures(dns_error_response, (packet, rcode), Some(out)),
        rcode < 16,
        12 <= q.end <= packet@.len(),
    ensures
        out@.len() == q.end,
        out@[0] == packet@[0] && out@[1] == packet@[1],
        out@[2] == 0x81 && out@[3] == 0x80 + rcode,
        out@[4] == 0 && out@[5] == 1,
        out@[6] == 0 && out@[7] == 0 && out@[8] == 0 && out@[9] == 0 && out@[10] == 0 && out@[11]
            == 0,
        out@.subrange(12, q.end as int) == packet@.subrange(12, q.end as int),
{
    assert(out@.subrange(12, q.end as int) =~= packet@.subrange(12, q.end as int));
}

/// A record with an address is read, and one of another type, class or size is not.
pub proof fn law_records_are_read(packet: &[u8], q: DnsQuestion, r: Vec<Ipv4>)
    requires
        call_ensures(parse_question, (packet,), Some(q)),
        call_ensures(parse_a_records, (packet,), r),
        packet@.len() == q.end + 16,
        packet@[6] == 0 && packet@[7] == 1,
        packet@[q.end as int] >= 192,
        packet@[q.end + 10] == 0 && packet@[q.end + 11] == 4,
    ensures
        ({
            let (p, e) = (packet@, q.end as int);
            let is_address = p[e + 2] == 0 && p[e + 3] == 1 && p[e + 4] == 0 && p[e + 5] == 1;
            &&& is_address ==> r@ == seq![Ipv4(p[e + 12], p[e + 13], p[e + 14], p[e + 15])]
            &&& !is_address ==> r@.len() == 0
        }),
{
    reveal_with_fuel(crate::dns::addresses, 2);
    let (p, e) = (packet@, q.end as int);
    assert(be16(p, 6) == 1);
    assert(be16(p, e + 10) == 4);
    assert(crate::dns::name_end(p, e) == Some(e + 2));
    if p[e + 2] == 0 && p[e + 3] == 1 && p[e + 4] == 0 && p[e + 5] == 1 {
        assert(r@ =~= seq![Ipv4(p[e + 12], p[e + 13], p[e + 14], p[e + 15])]);
    }
}

/// An answer that announces no records gives no addresses.
pub proof fn law_no_records_no_addresses(packet: &[u8], r: Vec<Ipv4>)
    requires
        call_ensures(parse_a_records, (packet,), r),
        packet@.len() >= 8,
        packet@[6] == 0 && packet@[7] == 0,
    ensures
        r@.len() == 0,
{
    assert(be16(packet@, 6) == 0);
}

// ---------------------------------------------------------------------------
// Requests and replies
// ---------------------------------------------------------------------------

/// A request names its method and path, announces the bytes of its body, and ends with it.
pub proof fn law_requests_carry_their_body(method: &str, path: &str, body: &str, r: String)
    requires
        call_ensures(http_request, (method, path, body), r),
    ensures
        exists|headers: Seq<char>|
            r@ == #[trigger] (method@ + " "@ + path@ + headers + decimal(encode_utf8(body@).len())
                + "\r\nConnection: close\r\n\r\n"@ + body@),
{
    let headers =
        " HTTP/1.1\r\nHost: localhost\r\nAccept: application/json\r\nContent-Type: application/json\r\nContent-Length: "@;
    assert(r@ =~= method@ + " "@ + path@ + headers + decimal(encode_utf8(body@).len())
        + "\r\nConnection: close\r\n\r\n"@ + body@);
}

/// A read is a GET of its path.
pub proof fn law_reads_are_gets(path: &str, r: String)
    requires
        call_ensures(http_get, (path,), r),
    ensures
        r@.len() >= 4 + path@.len(),
        r@.subrange(0, 4 + path@.len() as int) == "GET "@ + path@,
{
    reveal_strlit("GET ");
    assert(r@.subrange(0, 4 + path@.len() as int) =~= "GET "@ + path@);
}

/// A call succeeded exactly when its status line says 200, 201 or 204.
pub proof fn law_good_replies(reply: &str, line: &str, a: bool, b: bool, c: bool, r: bool)
    requires
        call_ensures(reply_text_ok, (reply,), r),
        line@ == first_line(reply@),
        call_ensures(crate::text::contains_text, (line, " 200"), a),
        call_ensures(crate::text::contains_text, (line, " 201"), b),
        call_ensures(crate::text::contains_text, (line, " 204"), c),
    ensures
        r <==> a || b || c,
{
}

/// The body of a reply begins behind the empty line, and is there once all of it has come;
/// a status other than 200 is a failure.
pub proof fn law_bodies_are_found(path: &str, head: &str, pos: usize, n: usize, r: GetReply)
    requires
        call_ensures(get_reply_of_head, (path, head, pos, n), r),
        pos + 4 <= n,
    ensures
        r matches GetReply::Body(from, to) ==> from == pos + 4 && from <= to <= n,
        r is Body ==> position(first_line(head@), " 200"@) is Some,
        r is Failed ==> position(first_line(head@), " 200"@) is None,
{
}

// ---------------------------------------------------------------------------
// The agent's answers
// ---------------------------------------------------------------------------

/// A line of the agent is a failure where it says so, with the message it has, and the
/// answer under `result` otherwise. What is no JSON cannot be read.
pub proof fn law_agent_lines(
    line: &[u8],
    m: Seq<char>,
    result: Seq<char>,
    r: Result<String, String>,
    opened: Result<(), String>,
)
    requires
        call_ensures(agent_reply, (line,), r),
        call_ensures(pty_reply, (line,), opened),
    ensures
        json_document(line@) is Err ==> r is Err && opened is Err,
        json_document(line@) is Ok && json_text(line@, "status"@) == Some("error"@) && json_text(
            line@,
            "message"@,
        ) == Some(m) ==> (r matches Err(e) && e@ == "guest agent error: "@ + m) && (
        opened matches Err(e) && e@ == "guest agent error: "@ + m),
        json_document(line@) is Ok && json_text(line@, "status"@) == Some("error"@) ==> r is Err
            && opened is Err,
        json_document(line@) is Ok && json_text(line@, "status"@) != Some("error"@) ==> r is Ok
            && opened is Ok,
        json_document(line@) is Ok && json_text(line@, "status"@) != Some("error"@) && json_part(
            line@,
            "result"@,
        ) == Some(result) ==> (r matches Ok(t) && t@ == result),
{
}

/// What a command answered: its exit code and its output, under their names. One in the
/// background answers with what was said of it.
pub proof fn law_command_answers(
    answer: &str,
    code: i64,
    out: Seq<char>,
    err: Seq<char>,
    a: ExecResult,
    b: ExecResult,
    c: Checked,
)
    requires
        call_ensures(exec_answer, (false, answer), a),
        call_ensures(exec_answer, (true, answer), b),
        call_ensures(checked_answer, (answer,), c),
        json_int(encode_utf8(answer@), "exit_code"@) == Some(code),
        json_text(encode_utf8(answer@), "stdout"@) == Some(out),
        json_text(encode_utf8(answer@), "stderr"@) == Some(err),
        i32::MIN <= code <= i32::MAX,
    ensures
        a.exit_code == code && a.stdout@ == out && a.stderr@ == err,
        b.exit_code == 0 && b.stdout@ == answer@ && b.stderr@.len() == 0,
        c.code == code && c.stderr@ == err,
{
}

/// The bytes of a file come back as they were sent.
pub proof fn law_file_answers(answer: &str, bytes: Seq<u8>, r: Result<Vec<u8>, String>)
    requires
        call_ensures(file_answer, (answer,), r),
        json_text(encode_utf8(answer@), "content_b64"@) == Some(encoded(bytes)),
    ensures
        r matches Ok(b) && b@ == bytes,
{
    law_decode_undoes_encode(bytes);
}

/// The entries of a directory are told one by one, by name and kind.
pub proof fn law_directory_answers(
    answer: &str,
    list: Seq<Seq<char>>,
    i: int,
    name: Seq<char>,
    r: Vec<DirEntry>,
)
    requires
        call_ensures(dir_answer, (answer,), r),
        json_entries(encode_utf8(answer@), "entries"@) == Some(list),
        0 <= i < list.len(),
        json_text(encode_utf8(list[i]), "name"@) == Some(name),
    ensures
        r@.len() == list.len(),
        r@[i].name@ == name,
        r@[i].dir <==> json_bool(encode_utf8(list[i]), "dir"@) == Some(true),
{
    assert(crate::runtime::answer::tells_entry(r@[i], list[i]));
}

/// What another node answers: the number, the address and the file that were asked for.
pub proof fn law_node_answers(
    node: &str,
    file: &str,
    reply: RemoteReply,
    key: &str,
    bytes: Seq<u8>,
    count: u64,
    addr: Result<String, String>,
    r: Result<Vec<u8>, NodeError>,
)
    requires
        call_ensures(remote_count, (&reply, key), count),
        call_ensures(remote_addr, (&reply,), addr),
        call_ensures(remote_file_answer, (node, file, &reply), r),
        json_text(reply.body@, "data_b64"@) == Some(encoded(bytes)),
    ensures
        json_count(reply.body@, key@) matches Some(n) ==> count == n,
        json_count(reply.body@, key@) is None ==> count == 0,
        addr is Ok <==> json_text(reply.body@, "addr"@) is Some,
        addr matches Ok(t) ==> json_text(reply.body@, "addr"@) == Some(t@),
        200 <= reply.code < 300 ==> (r matches Ok(b) && b@ == bytes),
        reply.code == 404 ==> r matches Err(NodeError::FileNotFound(_)),
{
    law_decode_undoes_encode(bytes);
}

// ---------------------------------------------------------------------------
// Previews
// ---------------------------------------------------------------------------

/// The host that is handed out for a port leads back to its sandbox and its port.
pub proof fn law_hosts_lead_back(
    body: Seq<char>,
    port: u16,
    domain: Seq<char>,
    host: &str,
    r: Option<(String, u16)>,
)
    requires
        call_ensures(preview_target, (host,), r),
        plain(body),
        host@ == preview_host("sbx_"@ + body, port, domain),
    ensures
        r matches Some((id, p)) && id@ == "sbx_"@ + body && p == port,
{
    law_preview_host_leads_back(body, port, domain);
}

proof fn lemma_first_piece(a: Seq<char>, b: Seq<char>, c: char)
    requires
        !a.contains(c),
    ensures
        pieces(a, c) == seq![a],
        pieces(a + seq![c] + b, c).len() > 1,
        pieces(a + seq![c] + b, c)[0] == a,
    decreases a.len() + b.len(),
{
    if a.len() == 0 {
        assert(a =~= Seq::<char>::empty());
        assert(pieces(a, c) =~= seq![a]);
    } else {
        let t = a.drop_last();
        assert(!t.contains(c)) by {
            if t.contains(c) {
                let k = choose|k: int| 0 <= k < t.len() && t[k] == c;
                assert(a[k] == c);
            }
        }
        assert(a.contains(a.last()));
        if b.len() == 0 {
            lemma_first_piece(t, b, c);
        } else {
            lemma_first_piece(t, Seq::empty(), c);
        }
        assert(t.push(a.last()) =~= a);
        assert(pieces(a, c) =~= seq![a]);
    }
    let s = a + seq![c] + b;
    if b.len() == 0 {
        assert(s.drop_last() =~= a);
        assert(s.last() == c);
    } else {
        assert(s.drop_last() =~= a + seq![c] + b.drop_last());
        lemma_first_piece(a, b.drop_last(), c);
    }
}

/// The pair that carries the token is the one named `key`, whatever its value.
pub proof fn law_token_pairs(name: Seq<char>, value: Seq<char>)
    requires
        !name.contains('='),
    ensures
        is_key_pair(name + seq!['='] + value) <==> name == "key"@,
        is_key_pair(name) <==> name == "key"@,
{
    lemma_first_piece(name, value, '=');
}

/// The forwarded query keeps its other pairs and nothing of the token.
pub proof fn law_forwarded_queries(query: &str, pair: Seq<char>, r: String)
    requires
        call_ensures(strip_key_query, (Some(query),), r),
    ensures
        query@.len() == 0 ==> r@ == ""@,
        ({
            let p = pieces(query@, '&');
            let kept = kept_pairs(p, p.len() as int);
            &&& r@ == ""@ || r@ == "?"@ + joined(kept, "&"@)
            &&& kept.contains(pair) ==> !is_key_pair(pair)
            &&& query@.len() > 0 && kept.len() > 0 ==> r@ == "?"@ + joined(kept, "&"@)
        }),
{
    let p = pieces(query@, '&');
    crate::api::preview::law_token_is_not_forwarded(p, p.len() as int);
}

// ---------------------------------------------------------------------------
// Rules and refusals
// ---------------------------------------------------------------------------

/// A domain rule is a host name with at least two labels, behind `*.` at most; a bare star,
/// an address with a path or a port, and a name without a dot are none.
pub proof fn law_domain_patterns(value: &str, r: Result<(), String>)
    requires
        call_ensures(validate_domain_pattern, (value,), r),
    ensures
        value@.contains('/') || value@.contains(':') ==> r is Err,
        value@ == "*"@ ==> r is Err,
        value@.len() == 0 ==> r is Err,
        !value@.contains('.') ==> r is Err,
        value@.contains('*') && (value@.len() < 2 || value@[0] != '*' || value@[1] != '.')
            ==> r is Err,
{
    reveal_strlit("*.");
    reveal_strlit("*");
    if value@.len() >= 2 && value@.subrange(0, 2) == "*."@ {
        assert(value@.subrange(0, 2)[0] == value@[0] && value@.subrange(0, 2)[1] == value@[1]);
        assert(value@.contains(value@[1]));
    }
}

/// An address of a private network is denied however wide the range around it is.
pub proof fn law_hard_denied(value: &str, a: Ipv4, prefix: u8, r: bool)
    requires
        call_ensures(cidr_is_hard_denied, (value,), r),
        cidr(value@) == Some((a, prefix)),
        prefix <= 32,
    ensures
        a.0 == 10 || a.0 == 127 || (a.0 == 192 && a.1 == 168) || (a.0 == 169 && a.1 == 254) || (a.0
            == 172 && 16 <= a.1 < 32) ==> r,
        prefix == 0 ==> r,
{
    vstd::arithmetic::power2::lemma2_to64();
    vstd::arithmetic::power2::lemma_pow2_pos((32 - prefix) as nat);
    let x = a.value();
    assert(crate::netaddr::range_size(8) == 16_777_216);
    assert(crate::netaddr::range_size(12) == 1_048_576);
    assert(crate::netaddr::range_size(16) == 65_536);
    assert(crate::netaddr::range_size(0) == 4_294_967_296);
    assert(x / 16_777_216 == a.0);
    assert(x / 65_536 == a.0 * 256 + a.1);
    assert(x / 1_048_576 == a.0 * 16 + a.1 as int / 16);
    let t = Ipv4(10, 0, 0, 0);
    if prefix == 0 {
        assert(x / 4_294_967_296 == 0 && t.value() / 4_294_967_296 == 0);
    }
    assert(crate::netaddr::in_range(x, a, prefix));
    if a.0 == 10 {
        assert(crate::netaddr::in_range(x, t, 8));
        crate::netaddr::law_overlap_means_shared_address(a, prefix, t, 8);
    }
    if a.0 == 127 {
        let u = Ipv4(127, 0, 0, 0);
        assert(u.value() / 16_777_216 == 127);
        assert(crate::netaddr::in_range(x, u, 8));
        crate::netaddr::law_overlap_means_shared_address(a, prefix, u, 8);
    }
    if a.0 == 192 && a.1 == 168 {
        let u = Ipv4(192, 168, 0, 0);
        assert(u.value() / 65_536 == 192 * 256 + 168);
        assert(crate::netaddr::in_range(x, u, 16));
        crate::netaddr::law_overlap_means_shared_address(a, prefix, u, 16);
    }
    if a.0 == 169 && a.1 == 254 {
        let u = Ipv4(169, 254, 0, 0);
        assert(u.value() / 65_536 == 169 * 256 + 254);
        assert(crate::netaddr::in_range(x, u, 16));
        crate::netaddr::law_overlap_means_shared_address(a, prefix, u, 16);
    }
    if a.0 == 172 && 16 <= a.1 < 32 {
        let u = Ipv4(172, 16, 0, 0);
        assert(u.value() / 1_048_576 == 172 * 16 + 1);
        assert(crate::netaddr::in_range(x, u, 12));
        crate::netaddr::law_overlap_means_shared_address(a, prefix, u, 12);
    }
}

/// A policy uses domains exactly when one of its rules is about one.
pub proof fn law_domain_policies(p: NetworkPolicy, i: int, r: bool)
    requires
        call_ensures(NetworkPolicy::uses_domain_rules, (&p,), r),
    ensures
        0 <= i < p.allow@.len() && p.allow@[i].kind == NetworkRuleKind::Domain ==> r,
        0 <= i < p.deny@.len() && p.deny@[i].kind == NetworkRuleKind::Domain ==> r,
        p.allow@.len() == 0 && p.deny@.len() == 0 ==> !r,
{
    if 0 <= i < p.allow@.len() {
        assert(p@.allow[i].kind == p.allow@[i].kind);
    }
    if 0 <= i < p.deny@.len() {
        assert(p@.deny[i].kind == p.deny@[i].kind);
    }
}

/// A jump into a sandbox's chain is deleted by its handle, and other lines of the listing
/// delete nothing.
pub proof fn law_jumps_are_deleted(lines: Seq<Seq<char>>, id: Seq<char>)
    requires
        lines.len() > 0,
    ensures
        ({
            let n = lines.len() as int;
            let (before, now) = (
                jump_deletions_of(lines, n - 1, id),
                jump_deletions_of(lines, n, id),
            );
            &&& jump_handle(lines.last(), id) is None ==> now == before
            &&& jump_handle(lines.last(), id) matches Some(h) ==> now == before.push(
                seq![
                    "delete"@,
                    "rule"@,
                    "inet"@,
                    "sandboxd"@,
                    "sandbox_policy"@,
                    "handle"@,
                    h,
                ],
            )
        }),
        position(lines.last(), "comment \"workdir:"@ + id + "\""@) is None ==> jump_handle(
            lines.last(),
            id,
        ) is None,
{
}

/// A private root disk is refused where copies would take up all their blocks and that is
/// not allowed; a shared one is not copied.
pub proof fn law_disks(s: Settings, key: &str, shared: bool, refused: bool, r: Result<(), String>)
    requires
        call_ensures(Settings::check_disk, (&s, key), r),
        call_ensures(Settings::shared_image, (&s, key), shared),
        call_ensures(Settings::copies_refused, (&s,), refused),
    ensures
        r is Err <==> refused && !shared,
        refused <==> s.require_reflink && !s.shares_blocks,
        shared <==> s.shared_rootfs && (key@ == "base"@ || key@ == "browser"@),
{
}

/// What becomes of a step that fails.
pub proof fn law_steps(action: Action<Seq<char>, Seq<Seq<char>>>, n: usize)
    ensures
        need(action).action == action && need(action).ok == Flow::Next && need(action).err
            == Flow::Fail,
        need_or_reclaim(action).action == action && need_or_reclaim(action).ok == Flow::Next
            && need_or_reclaim(action).err == Flow::Reclaim,
        attempt(action).action == action && attempt(action).ok == Flow::Next && attempt(
            action,
        ).err == Flow::Next,
        or_else(action, n).action == action && or_else(action, n).ok == Flow::Skip(n) && or_else(
            action,
            n,
        ).err == Flow::Next,
        only_if(action, n).action == action && only_if(action, n).ok == Flow::Next && only_if(
            action,
            n,
        ).err == Flow::Skip(n),
{
}

// ---------------------------------------------------------------------------
// Pools and measurements
// ---------------------------------------------------------------------------

/// A VM without a tenant.
pub open spec fn nobodys(r: VmSpec, image_key: Seq<char>, shape: Resources) -> bool {
    &&& r.image_key@ == image_key && r.image_ref@ == image_key && r.resources == shape
    &&& forall|k: Seq<char>| !(#[trigger] r.env@.contains_key(k))
    &&& forall|k: Seq<char>| !(#[trigger] r.secret_env@.contains_key(k))
    &&& r.browser is None && !r.docker && r.coding_agent is None
    &&& r.mounts@.len() == 0 && r.volumes@.len() == 0 && r.files@.len() == 0
    &&& r.network.egress == EgressMode::Default
}

/// A VM for a pool, and one for a measurement, is nobody's: it has the image and the shape,
/// and nothing of any tenant.
pub proof fn law_bare_vms(id: String, image_key: &str, shape: Resources, a: VmSpec, b: VmSpec)
    requires
        call_ensures(pool_spec, (id, image_key, shape), a),
        call_ensures(bench_spec, (id, image_key, shape), b),
    ensures
        nobodys(a, image_key@, shape) && nobodys(b, image_key@, shape),
        a.sandbox_id@ == id@ && b.sandbox_id@ == id@,
{
}

/// The default targets: the base pool has the configured one, two others have one, and no
/// other shape has any.
pub proof fn law_default_targets(k: KeyView, base: u32)
    ensures
        k.image_key == "base"@ && k.cpu_milli == 1000 && k.memory_mb == 2048 && k.disk_gb == 8
            ==> default_target(k, base) == Some(base),
        default_target(k, base) is Some ==> k.image_key == "base"@ || k.image_key == "node-python"@
            || k.image_key == "browser"@,
        k.image_key == "browser"@ && k.cpu_milli == 2000 && k.memory_mb == 4096 && k.disk_gb == 16
            ==> default_target(k, base) == Some(1u32),
        k.image_key == "node-python"@ && k.cpu_milli == 1000 && k.memory_mb == 2048 && k.disk_gb
            == 16 ==> default_target(k, base) == Some(1u32),
        k.memory_mb > 4096 ==> default_target(k, base) is None,
{
    reveal_strlit("base");
    reveal_strlit("node-python");
    reveal_strlit("browser");
    assert("base"@.len() == 4 && "node-python"@.len() == 11 && "browser"@.len() == 7);
}

/// A measurement is repeated as often as asked, once at least; a VM was ready when both the
/// runtime and the clock say so; the command that is timed is short and waits.
pub proof fn law_measuring(n: u32, a: u64, b: u64, times: u32, ready: u64, echo: ExecRequest)
    requires
        call_ensures(rounds, (n,), times),
        call_ensures(ready_time, (a, b), ready),
        call_ensures(echo_request, (), echo),
    ensures
        times >= 1 && (n >= 1 ==> times == n),
        ready >= a && ready >= b && (ready == a || ready == b),
        echo.cmd@ == "echo ok"@ && !echo.background && echo.cwd is None,
{
}

/// A percentile is a value that was measured: the least for zero, the greatest for a
/// hundred, and the one in the middle for fifty.
pub proof fn law_percentiles(sorted: &[u64], p0: u64, p50: u64, p100: u64)
    requires
        call_ensures(percentile, (sorted, 0u32), p0),
        call_ensures(percentile, (sorted, 50u32), p50),
        call_ensures(percentile, (sorted, 100u32), p100),
    ensures
        sorted@.len() == 0 ==> p0 == 0 && p50 == 0 && p100 == 0,
        sorted@.len() > 0 ==> p0 == sorted@[0] && p100 == sorted@.last(),
        sorted@.len() % 2 == 1 ==> p50 == sorted@[(sorted@.len() - 1) / 2],
{
    let n = sorted@.len() as int;
    if n > 0 {
        assert((0 * (n - 1) + 50) / 100 == 0) by (nonlinear_arith);
        assert((100 * (n - 1) + 50) / 100 == n - 1);
        if n % 2 == 1 {
            let k = (n - 1) / 2;
            assert(n - 1 == 2 * k);
            assert((50 * (n - 1) + 50) / 100 == k);
        }
    }
}

/// Sorted values rise and are the values that there were.
pub proof fn law_sorted(v: Vec<u64>, r: Vec<u64>, i: int, j: int)
    requires
        call_ensures(sorted_values, (&v,), r),
        0 <= i <= j < r@.len(),
    ensures
        r@[i] <= r@[j],
        r@.len() == v@.len(),
        r@.to_multiset() == v@.to_multiset(),
{
}

/// Samples of one image and boot path are those of that image and path, and all of them.
pub proof fn law_samples_are_kept_apart(
    s: Seq<BenchmarkSample>,
    image: Seq<char>,
    path: BootPath,
    n: int,
    i: int,
)
    requires
        0 <= n <= s.len(),
        0 <= i < of_path(s, image, path, n).len(),
    ensures
        of_path(s, image, path, n)[i].image@ == image,
        of_path(s, image, path, n)[i].boot_path == path,
    decreases n,
{
    if n > 0 {
        let before = of_path(s, image, path, n - 1);
        if i < before.len() {
            law_samples_are_kept_apart(s, image, path, n - 1, i);
        }
    }
}

/// The boots of live sandboxes count as they were: by image and path, with what they took.
pub proof fn law_live_samples(sandboxes: Vec<Sandbox>, i: int, r: Vec<BenchmarkSample>)
    requires
        call_ensures(live_samples, (&sandboxes,), r),
        0 <= i < sandboxes@.len(),
    ensures
        r@.len() == sandboxes@.len(),
        r@[i].image@ == sandboxes@[i].image@ && r@[i].boot_path == sandboxes@[i].boot_path,
        r@[i].ready_ms >= 1,
        sandboxes@[i].timings.boot_ms >= 1 ==> r@[i].ready_ms == sandboxes@[i].timings.boot_ms
            + sandboxes@[i].timings.image_cache_ms,
{
}

/// A sweep over all measures the curated images at the least that they need, and one over an
/// image measures that one.
pub proof fn law_sweeps(image: &str, r: Vec<Target>)
    requires
        call_ensures(sweep_targets, (image,), r),
    ensures
        image@ == "all"@ ==> r@.len() == 4,
        image@ != "all"@ ==> r@.len() <= 1,
        image@ == "base"@ ==> r@.len() == 1 && r@[0].image@ == image@,
        image@ == "browser"@ ==> r@.len() == 1 && r@[0].image@ == image@,
{
    reveal_strlit("all");
    reveal_strlit("base");
    reveal_strlit("browser");
    assert("all"@.len() == 3 && "base"@.len() == 4 && "browser"@.len() == 7);
}

} // verus!
