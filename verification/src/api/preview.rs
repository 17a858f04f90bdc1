//! The preview proxy: which sandbox and port a host name means, who may look, and
//! what is forwarded.

use crate::auth::AuthOutcome;
use crate::config::preview_host;
use crate::error::{status_of, ApiError, ErrorView};
use crate::model::Sandbox;
use crate::numeral::{decimal, law_parse_undoes_decimal, parse_max, parsed, to_decimal};
use crate::text::{
    concat2, concat3, cut_last, has_prefix, join, joined, last_index, pieces, rsplit_once, same,
    split, starts_with, strip_prefix, views, with_char, without_prefix,
};
use vstd::prelude::*;
use vstd::string::*;

verus! {

// ---------------------------------------------------------------------------
// Host names
// ---------------------------------------------------------------------------

/// The sandbox that the front of a label means: an id as it is, or with its
/// underscore written as a dash.
pub open spec fn label_id(front: Seq<char>) -> Option<Seq<char>> {
    match without_prefix(front, "sbx-"@) {
        Some(rest) => Some("sbx_"@ + rest),
        None => if has_prefix(front, "sbx_"@) {
            Some(front)
        } else {
            None
        },
    }
}

/// The sandbox and the port that a label means.
pub open spec fn label_target(label: Seq<char>) -> Option<(Seq<char>, nat)> {
    match cut_last(label, '-') {
        Some((front, port)) => match (label_id(front), parsed(port, 65535)) {
            (Some(id), Some(p)) => Some((id, p)),
            _ => None,
        },
        None => None,
    }
}

/// A sandbox and a port by their view.
pub open spec fn target_view(o: Option<(String, u16)>) -> Option<(Seq<char>, nat)> {
    match o {
        Some((id, port)) => Some((id@, port as nat)),
        None => None,
    }
}

/// The sandbox and the port that a label such as `sbx-ab12-3000` means.
pub fn parse_preview_label(label: &str) -> (r: Option<(String, u16)>)
    ensures
        target_view(r) == label_target(label@),
{
    let (front, port) = match rsplit_once(label, '-') {
        Some(p) => p,
        None => return None,
    };
    let id = match strip_prefix(front.as_str(), "sbx-") {
        Some(rest) => concat2("sbx_", rest.as_str()),
        None => {
            if starts_with(front.as_str(), "sbx_") {
                front
            } else {
                return None;
            }
        },
    };
    match parse_max(port.as_str(), 65535) {
        Some(p) => Some((id, p as u16)),
        None => None,
    }
}

/// The label of a host name: what stands before its first dot.
pub open spec fn host_label(host: Seq<char>) -> Seq<char> {
    pieces(host, '.')[0]
}

/// The sandbox and the port that a host name means.
pub fn preview_target(host: &str) -> (r: Option<(String, u16)>)
    ensures
        target_view(r) == label_target(host_label(host@)),
{
    let parts = split(host, '.');
    proof {
        crate::text::lemma_pieces_nonempty(host@, '.');
        assert(pieces(host@, '.')[0] == parts@[0]@);
    }
    parse_preview_label(parts[0].as_str())
}

// ---------------------------------------------------------------------------
// Queries
// ---------------------------------------------------------------------------

/// The preview token of a request, as its query names it.
#[derive(Debug)]
pub struct PreviewAuth {
    pub key: Option<String>,
}

/// The pair carries the preview token.
pub open spec fn is_key_pair(pair: Seq<char>) -> bool {
    pieces(pair, '=')[0] == "key"@
}

/// The pairs among the first `n` that do not carry the token.
pub open spec fn kept_pairs(pairs: Seq<Seq<char>>, n: int) -> Seq<Seq<char>>
    decreases n,
{
    if n <= 0 {
        Seq::empty()
    } else if is_key_pair(pairs[n - 1]) {
        kept_pairs(pairs, n - 1)
    } else {
        kept_pairs(pairs, n - 1).push(pairs[n - 1])
    }
}

/// A query as it is forwarded: without the token, and with its question mark
/// unless nothing is left.
pub open spec fn forwarded_query(q: Seq<char>) -> Seq<char> {
    let p = pieces(q, '&');
    let kept = kept_pairs(p, p.len() as int);
    if q.len() == 0 || kept.len() == 0 {
        ""@
    } else {
        "?"@ + joined(kept, "&"@)
    }
}

fn carries_key(pair: &str) -> (r: bool)
    ensures
        r == is_key_pair(pair@),
{
    let parts = split(pair, '=');
    proof {
        crate::text::lemma_pieces_nonempty(pair@, '=');
        assert(pieces(pair@, '=')[0] == parts@[0]@);
    }
    same(parts[0].as_str(), "key")
}

/// A query without the preview token, so that the token never reaches the sandbox
/// nor a log.
pub fn strip_key_query(query: Option<&str>) -> (r: String)
    ensures
        r@ == (match query {
            Some(q) => forwarded_query(q@),
            None => ""@,
        }),
{
    let q = match query {
        Some(q) => q,
        None => return String::from_str(""),
    };
    if q.is_empty() {
        return String::from_str("");
    }
    let parts = split(q, '&');
    let ghost p = pieces(q@, '&');
    let mut kept: Vec<String> = Vec::new();
    assert(views(kept@) =~= kept_pairs(p, 0));
    let mut i: usize = 0;
    while i < parts.len()
        invariant
            i <= parts@.len(),
            views(parts@) == p,
            views(kept@) == kept_pairs(p, i as int),
        decreases parts@.len() - i,
    {
        let ghost kept0 = kept@;
        assert(p[i as int] == parts@[i as int]@);
        if !carries_key(parts[i].as_str()) {
            kept.push(parts[i].clone());
            assert(views(kept@) =~= views(kept0).push(p[i as int]));
        }
        i = i + 1;
    }
    assert(views(kept@).len() == kept@.len());
    if kept.len() == 0 {
        String::from_str("")
    } else {
        concat2("?", join(&kept, "&").as_str())
    }
}

/// No pair that carries the token is forwarded, and every other one is, in its
/// order.
pub proof fn law_token_is_not_forwarded(pairs: Seq<Seq<char>>, n: int)
    requires
        0 <= n <= pairs.len(),
    ensures
        forall|i: int|
            0 <= i < kept_pairs(pairs, n).len() ==> !is_key_pair(
                #[trigger] kept_pairs(pairs, n)[i],
            ),
        forall|k: int|
            0 <= k < n && !is_key_pair(#[trigger] pairs[k]) ==> kept_pairs(pairs, n).contains(
                pairs[k],
            ),
    decreases n,
{
    if n > 0 {
        law_token_is_not_forwarded(pairs, n - 1);
        let before = kept_pairs(pairs, n - 1);
        let now = kept_pairs(pairs, n);
        assert forall|k: int| 0 <= k < n && !is_key_pair(#[trigger] pairs[k]) implies now.contains(
            pairs[k],
        ) by {
            if k < n - 1 {
                let j = choose|j: int| 0 <= j < before.len() && before[j] == pairs[k];
                assert(now[j] == pairs[k]);
            } else {
                assert(now[now.len() - 1] == pairs[k]);
            }
        }
    }
}

// ---------------------------------------------------------------------------
// Who may look
// ---------------------------------------------------------------------------

/// The token of an authorization header.
pub fn bearer_token(header: Option<&str>) -> (r: Option<String>)
    ensures
        (match r {
            Some(t) => Some(t@),
            None => None,
        }) == (match header {
            Some(h) => without_prefix(h@, "Bearer "@),
            None => None,
        }),
{
    match header {
        Some(h) => strip_prefix(h, "Bearer "),
        None => None,
    }
}

/// The token of a preview request: the header's, else the query's.
pub fn preview_token(bearer: Option<String>, query: PreviewAuth) -> (r: Option<String>)
    ensures
        r == (if bearer is Some {
            bearer
        } else {
            query.key
        }),
{
    match bearer {
        Some(t) => Some(t),
        None => query.key,
    }
}

/// The caller may look at the org's sandboxes.
pub open spec fn may_look(who: AuthOutcome, org_id: Seq<char>) -> bool {
    who matches AuthOutcome::Granted(ctx) && (ctx.admin || ctx.org_id@ == org_id)
}

/// May the caller look at the org's sandboxes?
pub fn preview_authorized(who: &AuthOutcome, org_id: &str) -> (r: bool)
    ensures
        r == may_look(*who, org_id@),
{
    match who {
        AuthOutcome::Granted(ctx) => ctx.admin || same(ctx.org_id.as_str(), org_id),
        _ => false,
    }
}

/// An answer that ends a preview.
#[derive(Debug)]
pub enum Refusal {
    /// The API's error object.
    Api(ApiError),
    /// A status and a bare text.
    Plain(u16, String),
}

/// An answer that ends a preview, by its view.
pub enum RefusalView {
    Api(ErrorView),
    Plain(u16, Seq<char>),
}

impl View for Refusal {
    type V = RefusalView;

    open spec fn view(&self) -> RefusalView {
        match *self {
            Refusal::Api(e) => RefusalView::Api(e@),
            Refusal::Plain(status, text) => RefusalView::Plain(status, text@),
        }
    }
}

impl Refusal {
    /// The status of the answer.
    pub fn status(&self) -> (r: u16)
        ensures
            r == (match self@ {
                RefusalView::Api(e) => status_of(e),
                RefusalView::Plain(status, _) => status,
            }),
    {
        match self {
            Refusal::Api(e) => e.status(),
            Refusal::Plain(status, _) => *status,
        }
    }
}

/// The answer, by its view, that ends a preview of a sandbox that was found and
/// whose caller may look at it.
pub open spec fn closed_to(sb: Sandbox, port: u16, control_port: u16) -> Option<RefusalView> {
    if !sb.state.active() {
        Some(RefusalView::Plain(409, "sandbox is "@ + sb.state.name()))
    } else if !sb.ports@.contains(port) {
        Some(
            RefusalView::Plain(
                403,
                "port "@ + decimal(port as nat) + " is not exposed by this sandbox"@,
            ),
        )
    } else if port == control_port {
        Some(RefusalView::Plain(403, "refusing to proxy to the control-plane port"@))
    } else if sb.runtime_handle is None {
        Some(RefusalView::Api(ErrorView::Conflict("no runtime handle"@)))
    } else {
        None
    }
}

/// The answer that ends a preview, if one does. Who may not look is told what is
/// told of a sandbox that does not exist.
pub open spec fn preview_refusal(
    sb: Option<Sandbox>,
    who: AuthOutcome,
    id: Seq<char>,
    port: u16,
    control_port: u16,
) -> Option<RefusalView> {
    match sb {
        Some(s) if may_look(who, s.org_id@) => closed_to(s, port, control_port),
        _ => Some(RefusalView::Api(ErrorView::NotFound("sandbox "@ + id))),
    }
}

fn has_port(ports: &Vec<u16>, port: u16) -> (r: bool)
    ensures
        r == ports@.contains(port),
{
    let mut i: usize = 0;
    while i < ports.len()
        invariant
            i <= ports@.len(),
            forall|k: int| 0 <= k < i ==> ports@[k] != port,
        decreases ports@.len() - i,
    {
        if ports[i] == port {
            return true;
        }
        i = i + 1;
    }
    false
}

/// The VM to which a preview is forwarded, or the answer that ends it: only ports
/// that the sandbox exposes are reached, and never the control plane.
pub fn do_preview(
    sb: &Option<Sandbox>,
    who: &AuthOutcome,
    id: &str,
    port: u16,
    control_port: u16,
) -> (r: Result<String, Refusal>)
    ensures
        (match r {
            Ok(_) => None,
            Err(e) => Some(e@),
        }) == preview_refusal(*sb, *who, id@, port, control_port),
        r matches Ok(handle) ==> (sb matches Some(s) && s.runtime_handle == Some(handle)),
{
    let s = match sb {
        Some(s) => s,
        None => return Err(Refusal::Api(ApiError::NotFound(concat2("sandbox ", id)))),
    };
    if !preview_authorized(who, s.org_id.as_str()) {
        return Err(Refusal::Api(ApiError::NotFound(concat2("sandbox ", id))));
    }
    if !s.state.is_active() {
        return Err(Refusal::Plain(409, concat2("sandbox is ", s.state.as_str())));
    }
    if !has_port(&s.ports, port) {
        return Err(
            Refusal::Plain(
                403,
                concat3(
                    "port ",
                    to_decimal(port as u64).as_str(),
                    " is not exposed by this sandbox",
                ),
            ),
        );
    }
    if port == control_port {
        return Err(
            Refusal::Plain(
                403,
                String::from_str("refusing to proxy to the control-plane port"),
            ),
        );
    }
    match &s.runtime_handle {
        Some(h) => Ok(h.clone()),
        None => Err(
            Refusal::Api(ApiError::Conflict(String::from_str("no runtime handle"))),
        ),
    }
}

/// Who may not look at a sandbox cannot tell it from one that does not exist.
pub proof fn law_previews_do_not_leak(
    sb: Sandbox,
    who: AuthOutcome,
    id: Seq<char>,
    port: u16,
    control_port: u16,
)
    requires
        !may_look(who, sb.org_id@),
    ensures
        preview_refusal(Some(sb), who, id, port, control_port) == preview_refusal(
            None,
            who,
            id,
            port,
            control_port,
        ),
{
}

/// A preview is forwarded only to a port that the sandbox exposed and never to the
/// control plane's own.
pub proof fn law_control_plane_is_out_of_reach(
    sb: Sandbox,
    who: AuthOutcome,
    id: Seq<char>,
    port: u16,
    control_port: u16,
)
    requires
        preview_refusal(Some(sb), who, id, port, control_port) is None,
    ensures
        port != control_port,
        sb.ports@.contains(port),
        sb.state.active(),
        may_look(who, sb.org_id@),
{
}

// ---------------------------------------------------------------------------
// Headers
// ---------------------------------------------------------------------------

/// The header concerns one connection only.
pub open spec fn hop_by_hop(name: Seq<char>) -> bool {
    ||| name == "connection"@
    ||| name == "keep-alive"@
    ||| name == "proxy-authenticate"@
    ||| name == "proxy-authorization"@
    ||| name == "te"@
    ||| name == "trailers"@
    ||| name == "transfer-encoding"@
    ||| name == "upgrade"@
    ||| name == "content-length"@
}

/// Does the header, its name in lower case, concern one connection only? Such a
/// header is not forwarded.
pub fn is_hop_by_hop(name: &str) -> (r: bool)
    ensures
        r == hop_by_hop(name@),
{
    same(name, "connection") || same(name, "keep-alive") || same(name, "proxy-authenticate") || same(
        name,
        "proxy-authorization",
    ) || same(name, "te") || same(name, "trailers") || same(name, "transfer-encoding") || same(
        name,
        "upgrade",
    ) || same(name, "content-length")
}

// ---------------------------------------------------------------------------
// There and back
// ---------------------------------------------------------------------------

/// The rest of an id behind its prefix: neither dashes, underscores nor dots.
pub open spec fn plain(body: Seq<char>) -> bool {
    !body.contains('-') && !body.contains('_') && !body.contains('.')
}

/// The host name that is handed out for a sandbox's port leads back to it.
pub proof fn law_preview_host_leads_back(body: Seq<char>, port: u16, domain: Seq<char>)
    requires
        plain(body),
    ensures
        label_target(host_label(preview_host("sbx_"@ + body, port, domain))) == Some(
            ("sbx_"@ + body, port as nat),
        ),
{
    let id = "sbx_"@ + body;
    let dashed = with_char(id, '_', '-');
    let digits = decimal(port as nat);
    reveal_strlit("sbx_");
    reveal_strlit("sbx-");
    reveal_strlit("-");
    reveal_strlit(".");
    assert(dashed =~= "sbx-"@ + body) by {
        assert forall|i: int| 0 <= i < dashed.len() implies dashed[i] == ("sbx-"@ + body)[i] by {
            if i >= 4 {
                assert(id[i] == body[i - 4]);
                assert(body.contains(body[i - 4]));
            }
        }
    }
    lemma_decimal_is_digits(port as nat);
    let label = dashed + "-"@ + digits;
    assert(!label.contains('.')) by {
        if label.contains('.') {
            let k = choose|k: int| 0 <= k < label.len() && label[k] == '.';
            if k >= dashed.len() + 1 {
                assert(digits[k - dashed.len() - 1] == '.');
            } else if k == dashed.len() {
                assert(label[k] == '-');
            } else {
                assert(dashed[k] == '.');
                assert(("sbx-"@ + body)[k] == '.');
                if k >= 4 {
                    assert(body[k - 4] == '.');
                }
            }
        }
    }
    let host = preview_host(id, port, domain);
    assert(host =~= label + seq!['.'] + domain);
    lemma_first_label(label, domain);
    assert(host_label(host) == label);
    lemma_last_cut(dashed, digits);
    assert(cut_last(label, '-') == Some((dashed, digits)));
    assert(dashed.subrange(0, 4) =~= "sbx-"@);
    assert(dashed.subrange(4, dashed.len() as int) =~= body);
    law_parse_undoes_decimal(port as nat, 65535);
}

proof fn lemma_decimal_is_digits(n: nat)
    ensures
        decimal(n).len() > 0,
        forall|i: int| 0 <= i < decimal(n).len() ==> '0' <= #[trigger] decimal(n)[i] <= '9',
    decreases n,
{
    if n >= 10 {
        lemma_decimal_is_digits(n / 10);
    }
}

proof fn lemma_first_label(label: Seq<char>, domain: Seq<char>)
    requires
        !label.contains('.'),
    ensures
        pieces(label + seq!['.'] + domain, '.').len() > 1,
        pieces(label + seq!['.'] + domain, '.')[0] == label,
    decreases domain.len(),
{
    let s = label + seq!['.'] + domain;
    if domain.len() == 0 {
        assert(s.drop_last() =~= label);
        lemma_no_dot(label);
        assert(s.last() == '.');
    } else {
        assert(s.drop_last() =~= label + seq!['.'] + domain.drop_last());
        lemma_first_label(label, domain.drop_last());
    }
}

proof fn lemma_no_dot(label: Seq<char>)
    requires
        !label.contains('.'),
    ensures
        pieces(label, '.') == seq![label],
    decreases label.len(),
{
    if label.len() == 0 {
        assert(label =~= Seq::<char>::empty());
        assert(pieces(label, '.') =~= seq![label]);
    } else {
        let t = label.drop_last();
        assert(!t.contains('.')) by {
            if t.contains('.') {
                let k = choose|k: int| 0 <= k < t.len() && t[k] == '.';
                assert(label[k] == '.');
            }
        }
        lemma_no_dot(t);
        assert(label.contains(label.last()));
        assert(t.push(label.last()) =~= label);
        assert(pieces(label, '.') =~= seq![label]);
    }
}

proof fn lemma_last_cut(front: Seq<char>, digits: Seq<char>)
    requires
        forall|i: int| 0 <= i < digits.len() ==> '0' <= #[trigger] digits[i] <= '9',
    ensures
        cut_last(front + "-"@ + digits, '-') == Some((front, digits)),
{
    reveal_strlit("-");
    let s = front + "-"@ + digits;
    lemma_last_dash(front, digits);
    assert(s.subrange(0, front.len() as int) =~= front);
    assert(s.subrange(front.len() as int + 1, s.len() as int) =~= digits);
}

proof fn lemma_last_dash(front: Seq<char>, digits: Seq<char>)
    requires
        forall|i: int| 0 <= i < digits.len() ==> '0' <= #[trigger] digits[i] <= '9',
    ensures
        last_index(front + "-"@ + digits, '-') == front.len(),
    decreases digits.len(),
{
    reveal_strlit("-");
    let s = front + "-"@ + digits;
    if digits.len() == 0 {
        assert(s.last() == '-');
    } else {
        assert(s.drop_last() =~= front + "-"@ + digits.drop_last());
        assert(s.last() == digits.last());
        lemma_last_dash(front, digits.drop_last());
    }
}

} // verus!
