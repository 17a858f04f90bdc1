//! The host's side of the wire: Firecracker's HTTP API over a socket, the guest
//! agent's handshake, and the small files of the kernel that say how a VM does.

use crate::json::{document, json_document};
use crate::numeral::{decimal, parse_max, parsed, to_decimal};
use crate::runtime::answer::result_view;
use crate::text::{
    between, concat2, concat3, contains_text, ends_with, has_suffix, line_list, lines, lowered,
    position, same, second_piece, starts_with, strip_prefix, to_lower, trim, trimmed, views,
    without_prefix,
};
use vstd::prelude::*;
use vstd::string::*;
use vstd::utf8::*;

verus! {

/// The text that `String::from_utf8_lossy` makes of bytes: the text they encode,
/// with a replacement character for each stretch that is not UTF-8.
pub uninterp spec fn lossy(bytes: Seq<u8>) -> Seq<char>;

/// `String::from_utf8_lossy`: the text that the bytes encode, where they are
/// UTF-8. What it makes of bytes that are not is only named.
#[verifier::external_body]
fn text_lossy(bytes: &[u8]) -> (r: String)
    ensures
        r@ == lossy(bytes@),
        valid_utf8(bytes@) ==> r@ == decode_utf8(bytes@),
{
    String::from_utf8_lossy(bytes).into_owned()
}

// ---------------------------------------------------------------------------
// Requests
// ---------------------------------------------------------------------------

/// A request with a JSON body.
pub open spec fn request_text(method: Seq<char>, path: Seq<char>, body: Seq<char>) -> Seq<char> {
    method + " "@ + path
        + " HTTP/1.1\r\nHost: localhost\r\nAccept: application/json\r\nContent-Type: application/json\r\nContent-Length: "@
        + decimal(encode_utf8(body).len()) + "\r\nConnection: close\r\n\r\n"@ + body
}

/// Write a request with a JSON body.
pub fn http_request(method: &str, path: &str, body: &str) -> (r: String)
    requires
        encode_utf8(body@).len() <= usize::MAX,
    ensures
        r@ == request_text(method@, path@, body@),
{
    let mut s = concat3(method, " ", path);
    s.append(
        " HTTP/1.1\r\nHost: localhost\r\nAccept: application/json\r\nContent-Type: application/json\r\nContent-Length: ",
    );
    s.append(to_decimal(body.len() as u64).as_str());
    s.append("\r\nConnection: close\r\n\r\n");
    s.append(body);
    s
}

/// A request without a body.
pub open spec fn get_text(path: Seq<char>) -> Seq<char> {
    "GET "@ + path
        + " HTTP/1.1\r\nHost: localhost\r\nAccept: application/json\r\nConnection: close\r\n\r\n"@
}

/// Write a request without a body.
pub fn http_get(path: &str) -> (r: String)
    ensures
        r@ == get_text(path@),
{
    concat3(
        "GET ",
        path,
        " HTTP/1.1\r\nHost: localhost\r\nAccept: application/json\r\nConnection: close\r\n\r\n",
    )
}

// ---------------------------------------------------------------------------
// Replies
// ---------------------------------------------------------------------------

/// The empty line that ends a head begins at `i`.
pub open spec fn head_ends_at(b: Seq<u8>, i: int) -> bool {
    0 <= i && i + 4 <= b.len() && b[i] == 13 && b[i + 1] == 10 && b[i + 2] == 13 && b[i + 3] == 10
}

/// Where a reply's head ends: at the first empty line.
pub open spec fn is_head_end(b: Seq<u8>, i: int) -> bool {
    head_ends_at(b, i) && forall|j: int| 0 <= j < i ==> !(#[trigger] head_ends_at(b, j))
}

/// The whole head has arrived.
pub open spec fn head_complete(b: Seq<u8>) -> bool {
    exists|i: int| #[trigger] head_ends_at(b, i)
}

fn find_head_end(b: &[u8]) -> (r: Option<usize>)
    ensures
        match r {
            Some(i) => is_head_end(b@, i as int),
            None => !head_complete(b@),
        },
{
    let n: usize = b.len();
    let mut i: usize = 0;
    while i < n && n - i >= 4
        invariant
            i <= n == b@.len(),
            forall|j: int| 0 <= j < i ==> !(#[trigger] head_ends_at(b@, j)),
        decreases n - i,
    {
        if b[i] == 13 && b[i + 1] == 10 && b[i + 2] == 13 && b[i + 3] == 10 {
            assert(head_ends_at(b@, i as int));
            return Some(i);
        }
        i = i + 1;
    }
    assert forall|j: int| !(#[trigger] head_ends_at(b@, j)) by {}
    None
}

/// The first line of a text.
pub open spec fn first_line(s: Seq<char>) -> Seq<char> {
    if line_list(s).len() > 0 {
        line_list(s)[0]
    } else {
        Seq::<char>::empty()
    }
}

fn first_line_of(s: &str) -> (r: String)
    ensures
        r@ == first_line(s@),
{
    let ls = lines(s);
    assert(views(ls@).len() == ls@.len());
    if ls.len() > 0 {
        assert(views(ls@)[0] == ls@[0]@);
        ls[0].clone()
    } else {
        let e = String::new();
        assert(e@ =~= Seq::<char>::empty());
        e
    }
}

/// The status line reports success.
pub open spec fn good_status(line: Seq<char>) -> bool {
    position(line, " 200"@) is Some || position(line, " 201"@) is Some || position(line, " 204"@)
        is Some
}

/// The reply so far is a success: its head is there, and nothing more is needed.
/// The connection may stay open for long after that.
pub open spec fn reply_succeeded(b: Seq<u8>) -> bool {
    head_complete(b) && good_status(first_line(lossy(b)))
}

/// Does a reply that reads like this report success?
pub fn reply_text_ok(reply: &str) -> (r: bool)
    ensures
        r == good_status(first_line(reply@)),
{
    let line = first_line_of(reply);
    let l = line.as_str();
    contains_text(l, " 200") || contains_text(l, " 201") || contains_text(l, " 204")
}

/// Has the call succeeded, going by what has arrived so far?
pub fn api_reply_ok(resp: &[u8]) -> (r: bool)
    ensures
        r == reply_succeeded(resp@),
{
    if find_head_end(resp).is_none() {
        return false;
    }
    reply_text_ok(text_lossy(resp).as_str())
}

/// What went wrong with a call: the status line, and the body that explains it.
pub open spec fn api_fault(method: Seq<char>, path: Seq<char>, text: Seq<char>) -> Seq<char> {
    "firecracker api "@ + method + " "@ + path + " failed: "@ + trimmed(first_line(text)) + " "@
        + trimmed(
        match second_piece(text, "\r\n\r\n"@) {
            Some(b) => b,
            None => ""@,
        },
    )
}

/// What a call whose reply reads like this is reported as.
pub fn failure_of_text(method: &str, path: &str, reply: &str) -> (r: String)
    ensures
        r@ == api_fault(method@, path@, reply@),
{
    let status = trim(first_line_of(reply).as_str());
    let body = match between(reply, "\r\n\r\n") {
        Some(b) => trim(b.as_str()),
        None => trim(""),
    };
    let mut m = concat3("firecracker api ", method, " ");
    m.append(path);
    m.append(" failed: ");
    m.append(status.as_str());
    m.append(" ");
    m.append(body.as_str());
    m
}

/// What a call that has not succeeded is reported as.
pub fn api_failure(method: &str, path: &str, resp: &[u8]) -> (r: String)
    ensures
        r@ == api_fault(method@, path@, lossy(resp@)),
{
    failure_of_text(method, path, text_lossy(resp).as_str())
}

/// The length that a header line announces, if it is that header; zero where the
/// number cannot be read.
pub open spec fn announced(line: Seq<char>) -> Option<nat> {
    match without_prefix(lowered(line), "content-length:"@) {
        None => None,
        Some(v) => match parsed(trimmed(v), usize::MAX as nat) {
            Some(n) => Some(n),
            None => Some(0),
        },
    }
}

/// The length that the first such header from line `i` on announces; zero
/// without one.
pub open spec fn body_length(lines: Seq<Seq<char>>, i: int) -> nat
    decreases lines.len() - i,
{
    if i < 0 || i >= lines.len() {
        0
    } else {
        match announced(lines[i]) {
            Some(n) => n,
            None => body_length(lines, i + 1),
        }
    }
}

fn content_length(head: &str) -> (r: usize)
    ensures
        r == body_length(line_list(head@), 0),
{
    let ls = lines(head);
    let ghost v = line_list(head@);
    let mut i: usize = 0;
    while i < ls.len()
        invariant
            i <= ls@.len(),
            views(ls@) == v,
            body_length(v, 0) == body_length(v, i as int),
            v == line_list(head@),
        decreases ls@.len() - i,
    {
        assert(v[i as int] == ls@[i as int]@);
        let low = to_lower(ls[i].as_str());
        if let Some(value) = strip_prefix(low.as_str(), "content-length:") {
            let t = trim(value.as_str());
            return match parse_max(t.as_str(), usize::MAX as u64) {
                Some(n) => n as usize,
                None => 0,
            };
        }
        i = i + 1;
    }
    0
}

/// What a GET's reply so far amounts to.
#[derive(Debug)]
pub enum GetReply {
    /// More is to come.
    Incomplete,
    Failed(String),
    /// The body, from here to there.
    Body(usize, usize),
}

/// A GET's reply so far, by views.
pub enum GetView {
    Incomplete,
    Failed(Seq<char>),
    Body(int, int),
}

impl View for GetReply {
    type V = GetView;

    open spec fn view(&self) -> GetView {
        match self {
            GetReply::Incomplete => GetView::Incomplete,
            GetReply::Failed(m) => GetView::Failed(m@),
            GetReply::Body(a, b) => GetView::Body(*a as int, *b as int),
        }
    }
}

/// What a GET's reply of `n` bytes amounts to whose head ends at `pos`.
pub open spec fn get_with_head(path: Seq<char>, head: Seq<char>, pos: int, n: int) -> GetView {
    let from = pos + 4;
    let to = from + body_length(line_list(head), 0);
    if n < to {
        GetView::Incomplete
    } else if position(first_line(head), " 200"@) is None {
        GetView::Failed("firecracker api GET "@ + path + " failed: "@ + first_line(head))
    } else {
        GetView::Body(from, to)
    }
}

/// What a GET's reply of `n` bytes amounts to whose head ends at `pos` and reads
/// like this: exactly as much of the body is taken as the head announces, as the
/// connection may stay open.
pub fn get_reply_of_head(path: &str, head: &str, pos: usize, n: usize) -> (r: GetReply)
    requires
        pos + 4 <= n,
    ensures
        r@ == get_with_head(path@, head@, pos as int, n as int),
        r matches GetReply::Body(from, to) ==> from <= to <= n,
{
    let length: usize = content_length(head);
    let from: usize = pos + 4;
    if n - from < length {
        return GetReply::Incomplete;
    }
    let status = first_line_of(head);
    if !contains_text(status.as_str(), " 200") {
        let mut m = concat3("firecracker api GET ", path, " failed: ");
        m.append(status.as_str());
        return GetReply::Failed(m);
    }
    GetReply::Body(from, from + length)
}

/// Read a GET's reply as far as it has arrived.
pub fn api_get_reply(path: &str, resp: &[u8]) -> (r: GetReply)
    ensures
        !head_complete(resp@) ==> r@ == GetView::Incomplete,
        forall|pos: int| #[trigger]
            is_head_end(resp@, pos) ==> r@ == get_with_head(
                path@,
                lossy(resp@.subrange(0, pos)),
                pos,
                resp@.len() as int,
            ),
        r matches GetReply::Body(from, to) ==> from <= to <= resp@.len(),
{
    let pos: usize = match find_head_end(resp) {
        None => return GetReply::Incomplete,
        Some(p) => p,
    };
    proof {
        assert forall|p: int| #[trigger] is_head_end(resp@, p) implies p == pos by {
            if p < pos {
                assert(!head_ends_at(resp@, p));
            }
            if pos < p {
                assert(!head_ends_at(resp@, pos as int));
            }
        }
    }
    let n: usize = resp.len();
    let head = text_lossy(vstd::slice::slice_subrange(resp, 0, pos));
    get_reply_of_head(path, head.as_str(), pos, n)
}

/// What a GET's reply has brought, where it is complete: the document in its body,
/// as JSON text, or why there is none.
pub open spec fn document_of(reply: GetView, resp: Seq<u8>) -> Option<Result<Seq<char>, Seq<char>>> {
    match reply {
        GetView::Incomplete => None,
        GetView::Failed(why) => Some(Err(why)),
        GetView::Body(from, to) => Some(json_document(resp.subrange(from, to))),
    }
}

/// The view of an optional result of texts.
pub open spec fn opt_result_view(r: Option<Result<String, String>>) -> Option<
    Result<Seq<char>, Seq<char>>,
> {
    match r {
        Some(x) => Some(result_view(x)),
        None => None,
    }
}

/// Read the document that a GET was for, as soon as all of it has arrived.
pub fn api_get_document(path: &str, resp: &[u8]) -> (r: Option<Result<String, String>>)
    ensures
        !head_complete(resp@) ==> r is None,
        forall|pos: int| #[trigger]
            is_head_end(resp@, pos) ==> opt_result_view(r) == document_of(
                get_with_head(
                    path@,
                    lossy(resp@.subrange(0, pos)),
                    pos,
                    resp@.len() as int,
                ),
                resp@,
            ),
{
    let reply = api_get_reply(path, resp);
    match reply {
        GetReply::Incomplete => {
            assert(reply@ == GetView::Incomplete);
            None
        },
        GetReply::Failed(why) => Some(Err(why)),
        GetReply::Body(from, to) => {
            assert(reply@ == GetView::Body(from as int, to as int));
            Some(document(vstd::slice::slice_subrange(resp, from, to)))
        },
    }
}

// ---------------------------------------------------------------------------
// The guest agent
// ---------------------------------------------------------------------------

/// What the host writes to reach the guest agent through Firecracker's socket.
pub fn agent_hello() -> (r: String)
    ensures
        r@ == "CONNECT 5005\n"@,
{
    String::from_str("CONNECT 5005\n")
}

/// Does this answer accept the connection to the guest agent?
pub fn accepts(ack: &str) -> (r: bool)
    ensures
        r == crate::text::has_prefix(ack@, "OK"@),
{
    starts_with(ack, "OK")
}

/// Was the connection to the guest agent accepted?
pub fn agent_accepted(ack: &[u8]) -> (r: bool)
    ensures
        r == crate::text::has_prefix(lossy(ack@), "OK"@),
{
    accepts(text_lossy(ack).as_str())
}

/// What is reported when the guest agent answers with an error.
pub fn agent_failure(message: Option<&str>) -> (r: String)
    ensures
        r@ == "guest agent error: "@ + (match message {
            Some(m) => m@,
            None => "?"@,
        }),
{
    match message {
        Some(m) => concat2("guest agent error: ", m),
        None => concat2("guest agent error: ", "?"),
    }
}

/// How long to wait before the next try, in milliseconds: twice as long each
/// time, twenty at most.
pub fn next_delay_ms(delay: u64) -> (r: u64)
    ensures
        r == (if delay >= 10 {
            20
        } else {
            2 * delay
        }),
{
    if delay >= 10 {
        20
    } else {
        2 * delay
    }
}

// ---------------------------------------------------------------------------
// What the kernel says of a VM
// ---------------------------------------------------------------------------

/// Does a process name belong to a VM? A process id that the kernel has given to
/// another program must not be killed on a VM's behalf.
pub fn names_firecracker(comm: &str) -> (r: bool)
    ensures
        r == (trimmed(comm@) == "firecracker"@ || trimmed(comm@) == "jailer"@),
{
    let t = trim(comm);
    same(t.as_str(), "firecracker") || same(t.as_str(), "jailer")
}

/// A counter as the kernel writes it; zero where it cannot be read.
pub fn counter_value(text: &str) -> (r: u64)
    ensures
        r == (match parsed(trimmed(text@), u64::MAX as nat) {
            Some(n) => n as int,
            None => 0,
        }),
{
    let t = trim(text);
    match parse_max(t.as_str(), u64::MAX) {
        Some(n) => n,
        None => 0,
    }
}

/// `s` without trailing `kB`s.
pub open spec fn without_unit(s: Seq<char>) -> Seq<char>
    decreases s.len(),
{
    if s.len() >= 2 && has_suffix(s, "kB"@) {
        without_unit(s.subrange(0, s.len() - 2))
    } else {
        s
    }
}

fn strip_unit(s: &str) -> (r: String)
    ensures
        r@ == without_unit(s@),
{
    proof {
        reveal_strlit("kB");
    }
    let mut cur = String::from_str(s);
    while ends_with(cur.as_str(), "kB")
        invariant
            "kB"@.len() == 2,
            without_unit(cur@) == without_unit(s@),
        decreases cur@.len(),
    {
        let v = crate::text::chars_of(cur.as_str());
        cur = crate::text::string_of(&v, 0, v.len() - 2);
    }
    cur
}

/// The resident set that a status line reports, in bytes.
pub open spec fn resident_bytes(line: Seq<char>) -> Option<int> {
    match without_prefix(line, "VmRSS:"@) {
        None => None,
        Some(v) => match parsed(trimmed(without_unit(trimmed(v))), (u64::MAX / 1024) as nat) {
            Some(kb) => Some(kb as int * 1024),
            None => None,
        },
    }
}

/// The resident set that the first such line from `i` on reports.
pub open spec fn first_resident(lines: Seq<Seq<char>>, i: int) -> Option<int>
    decreases lines.len() - i,
{
    if i < 0 || i >= lines.len() {
        None
    } else if resident_bytes(lines[i]) is Some {
        resident_bytes(lines[i])
    } else {
        first_resident(lines, i + 1)
    }
}

/// The resident set of a process, read off the kernel's status file.
pub fn parse_rss(status: &str) -> (r: Option<u64>)
    ensures
        (match r {
            Some(n) => Some(n as int),
            None => None,
        }) == first_resident(line_list(status@), 0),
{
    let ls = lines(status);
    let ghost v = line_list(status@);
    let mut i: usize = 0;
    while i < ls.len()
        invariant
            i <= ls@.len(),
            views(ls@) == v,
            v == line_list(status@),
            first_resident(v, 0) == first_resident(v, i as int),
        decreases ls@.len() - i,
    {
        assert(v[i as int] == ls@[i as int]@);
        if let Some(value) = strip_prefix(ls[i].as_str(), "VmRSS:") {
            let t = trim(value.as_str());
            let bare = strip_unit(t.as_str());
            let digits = trim(bare.as_str());
            if let Some(kb) = parse_max(digits.as_str(), u64::MAX / 1024) {
                return Some(kb * 1024);
            }
        }
        i = i + 1;
    }
    None
}

/// The balloon target as metrics report it: none while the balloon is empty.
pub fn balloon_target(ballooned_mib: u32) -> (r: Option<u32>)
    ensures
        r == (if ballooned_mib > 0 {
            Some(ballooned_mib)
        } else {
            None
        }),
{
    if ballooned_mib > 0 {
        Some(ballooned_mib)
    } else {
        None
    }
}

} // verus!
