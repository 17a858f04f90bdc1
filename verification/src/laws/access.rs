//! Who gets in, who sees what, and what is answered to the others.

use crate::api::internal::{node_auth, node_err, Gate};
use crate::api::preview::{
    bearer_token, do_preview, is_hop_by_hop, preview_authorized, preview_token, PreviewAuth,
    Refusal,
};
use crate::api::pty::pty_handle;
use crate::api::secrets::{org_secret_put, put, removed, PutSecretBody};
use crate::auth::{
    authenticate, bootstrap, hash_key, is_hash, require_key, AuthContext, AuthOutcome, Bootstrap,
};
use crate::error::{ApiError, ApiResult};
use crate::model::Sandbox;
use crate::node::{
    local_node, node_base, node_for, remote_file, remote_outcome, resolve_node_id, NodeError,
    RemoteReply, Route,
};
use crate::nodes::{Nanos, Node};
use crate::secrets::{decrypt, encrypt, parse_key, valid_name, SecretError, SecretRecord};
use crate::text::{is_alnum, is_alpha, trimmed};
use crate::usage::{ApiKey, Org, OrgStatus};
use vstd::prelude::*;
use vstd::string::*;
use vstd::utf8::*;

verus! {

// ---------------------------------------------------------------------------
// Keys
// ---------------------------------------------------------------------------

/// A token gets in exactly when its key is kept under its hash and is not disabled, and the
/// key's org exists and is not suspended. It then speaks for that org, as an admin only
/// where the key is one.
pub proof fn law_who_gets_in(
    token: &str,
    hash: String,
    key: ApiKey,
    org: Org,
    r: AuthOutcome,
)
    requires
        call_ensures(authenticate, (Some(token), Some(&key), Some(&org)), r),
        call_ensures(hash_key, (token,), hash),
        token@.len() > 0,
    ensures
        r is Granted <==> key.key_hash@ == hash@ && !key.disabled && org.status
            != OrgStatus::Suspended,
        r matches AuthOutcome::Granted(ctx) ==> ctx.org_id@ == key.org_id@ && ctx.admin == key.admin,
        r is Suspended <==> key.key_hash@ == hash@ && !key.disabled && org.status
            == OrgStatus::Suspended,
        r is Invalid <==> key.key_hash@ != hash@ || key.disabled,
{
}

/// Without a token, without a key or without an org nobody gets in.
pub proof fn law_who_does_not_get_in(
    bearer: Option<&str>,
    key: Option<&ApiKey>,
    org: Option<&Org>,
    r: AuthOutcome,
)
    requires
        call_ensures(authenticate, (bearer, key, org), r),
    ensures
        (bearer matches Some(t) ==> t@.len() == 0) <==> r is Missing,
        key is None ==> !(r is Granted) && !(r is Suspended),
        org is None ==> !(r is Granted) && !(r is Suspended),
{
}

/// Only who got in has an identity; a suspended org is told so, and anybody else that they
/// are not authorized.
pub proof fn law_identities(who: AuthOutcome, r: ApiResult<AuthContext>)
    requires
        call_ensures(require_key, (who,), r),
    ensures
        r is Ok <==> who is Granted,
        r matches Ok(ctx) ==> who == AuthOutcome::Granted(ctx),
        who is Suspended ==> (r matches Err(ApiError::Forbidden(m)) && m@ == "org suspended"@),
        who is Missing || who is Invalid ==> r matches Err(ApiError::Unauthorized),
{
}

/// A hash is sixty-four hexadecimal digits, and what is not is none.
pub proof fn law_hashes(plain: &str, h: String, other: &str, ok: bool)
    requires
        call_ensures(hash_key, (plain,), h),
        call_ensures(is_hash, (other,), ok),
    ensures
        h@.len() == 64,
        other@.len() != 64 ==> !ok,
        forall|i: int|
            0 <= i < other@.len() && !('0' <= #[trigger] other@[i] <= '9' || 'a' <= other@[i]
                <= 'f' || 'A' <= other@[i] <= 'F') ==> !ok,
        other@.len() == 64 && (forall|i: int|
            0 <= i < 64 ==> '0' <= #[trigger] other@[i] <= '9' || 'a' <= other@[i] <= 'f') ==> ok,
{
}

/// On the first boot an admin key is made, once, that opens; and the admin's org, once,
/// which has money and no quota.
pub proof fn law_first_boot(
    org_id: &str,
    org_exists: bool,
    seeded: bool,
    provided: Option<&str>,
    now: Nanos,
    r: Bootstrap,
    org: Org,
    plain: &str,
    who: AuthOutcome,
)
    requires
        call_ensures(bootstrap, (org_id, org_exists, seeded, provided, now), r),
        r.key matches Some((k, p)) ==> plain@ == p@ && call_ensures(
            authenticate,
            (Some(plain), Some(&k), Some(&org)),
            who,
        ),
        org.status == OrgStatus::Active,
        plain@.len() > 0,
    ensures
        r.org is Some <==> !org_exists,
        r.key is Some <==> !seeded,
        r.org matches Some(o) ==> o.id@ == org_id@ && o.status == OrgStatus::Active
            && o.prepaid_credits > o.spent && o.quota_mb <= 0,
        r.key is Some ==> (who matches AuthOutcome::Granted(ctx) && ctx.admin && ctx.org_id@
            == org_id@),
        r.key matches Some((_, p)) ==> (provided matches Some(g) ==> g@.len() > 0 ==> p@ == g@),
{
}

// ---------------------------------------------------------------------------
// Secrets
// ---------------------------------------------------------------------------

/// A secret that was stored is read back as it was, with the key it was stored with.
pub proof fn law_secrets_come_back(
    key: [u8; 32],
    org: &str,
    name: &str,
    value: &str,
    now: Nanos,
    rec: SecretRecord,
    back: Result<String, SecretError>,
)
    requires
        call_ensures(encrypt, (&key, org, name, value, now), Ok(rec)),
        call_ensures(decrypt, (&key, &rec), back),
    ensures
        back matches Ok(v) && v@ == value@,
        rec.org_id@ == org@ && rec.name@ == name@ && rec.created_at == now && rec.updated_at == now,
{
}

/// So is one that came through the API, which refuses names that are no variables and
/// values beyond sixty-four KiB, and nothing else.
pub proof fn law_stored_secrets_come_back(
    key: [u8; 32],
    org: &str,
    name: &str,
    body: PutSecretBody,
    now: Nanos,
    named: bool,
    r: ApiResult<SecretRecord>,
    rec: SecretRecord,
    back: Result<String, SecretError>,
)
    requires
        call_ensures(put, (&key, org, name, &body, now), r),
        call_ensures(valid_name, (name,), named),
        r == Ok::<SecretRecord, ApiError>(rec) ==> call_ensures(decrypt, (&key, &rec), back),
        r is Ok ==> r == Ok::<SecretRecord, ApiError>(rec),
    ensures
        r is Ok <==> named && encode_utf8(body.value@).len() <= 64 * 1024,
        r matches Err(e) ==> e is BadRequest,
        r is Ok ==> (back matches Ok(v) && v@ == body.value@),
        r is Ok ==> rec.org_id@ == org@ && rec.name@ == name@,
{
}

/// A name that a variable can have: a letter or an underscore, then letters, digits and
/// underscores, 128 characters at most.
pub proof fn law_secret_names(name: &str, i: int, ok: bool)
    requires
        call_ensures(valid_name, (name,), ok),
    ensures
        name@.len() == 0 || name@.len() > 128 ==> !ok,
        name@.len() > 0 && '0' <= name@[0] <= '9' ==> !ok,
        ok && 0 <= i < name@.len() ==> is_alnum(name@[i]) || name@[i] == '_',
        1 <= name@.len() <= 128 && (forall|k: int|
            0 <= k < name@.len() ==> is_alpha(#[trigger] name@[k]) || name@[k] == '_') ==> ok,
{
    if 1 <= name@.len() <= 128 && (forall|k: int|
        0 <= k < name@.len() ==> is_alpha(#[trigger] name@[k]) || name@[k] == '_') {
        assert(is_alpha(name@[0]) || name@[0] == '_');
        assert forall|k: int| 0 <= k < name@.len() implies is_alnum(#[trigger] name@[k]) || name@[k]
            == '_' by {
            assert(is_alpha(name@[k]) || name@[k] == '_');
        }
    }
}

/// An org's secrets are stored by admins, for orgs that exist; what was not there cannot be
/// removed.
pub proof fn law_secrets_of_orgs(
    ctx: AuthContext,
    key: [u8; 32],
    org: &str,
    exists: bool,
    name: &str,
    body: PutSecretBody,
    now: Nanos,
    was_there: bool,
    r: ApiResult<SecretRecord>,
    gone: ApiResult<()>,
)
    requires
        call_ensures(org_secret_put, (&ctx, &key, org, Ok(exists), name, &body, now), r),
        call_ensures(removed, (name, Ok(was_there)), gone),
    ensures
        r is Ok ==> ctx.admin && exists,
        !ctx.admin ==> (r matches Err(e) && e is Forbidden),
        ctx.admin && !exists ==> (r matches Err(ApiError::NotFound(m)) && m@ == "org "@ + org@),
        r matches Ok(rec) ==> rec.org_id@ == org@ && rec.name@ == name@,
        gone is Ok <==> was_there,
        gone matches Err(e) ==> e is NotFound,
{
}

/// A master key has thirty-two bytes, and the text of one reads back as it.
pub proof fn law_master_keys(
    text: &str,
    key: [u8; 32],
    stored: String,
    again: &str,
    r: Result<[u8; 32], SecretError>,
    back: Result<[u8; 32], SecretError>,
)
    requires
        call_ensures(parse_key, (text,), r),
        call_ensures(crate::secrets::key_text, (&key,), stored),
        again@ == stored@,
        call_ensures(parse_key, (again,), back),
    ensures
        r matches Ok(k) ==> crate::base64::decoded(text@) == Some(k@),
        crate::base64::decoded(text@) matches Some(b) ==> b.len() != 32 ==> r is Err,
        back matches Ok(k) && k@ == key@,
{
}

// ---------------------------------------------------------------------------
// Previews and sessions
// ---------------------------------------------------------------------------

/// A preview is forwarded exactly when its sandbox exists and is active, the caller is of
/// its org or an admin, the port is exposed and is not the control plane's, and there is a
/// VM.
pub proof fn law_what_is_previewed(
    sb: Sandbox,
    who: AuthOutcome,
    id: &str,
    port: u16,
    control: u16,
    r: Result<String, Refusal>,
)
    requires
        call_ensures(do_preview, (&Some(sb), &who, id, port, control), r),
    ensures
        r is Ok <==> {
            &&& who matches AuthOutcome::Granted(ctx) && (ctx.admin || ctx.org_id@ == sb.org_id@)
            &&& sb.state is Creating || sb.state is Running || sb.state is Resuming
            &&& sb.ports@.contains(port)
            &&& port != control
            &&& sb.runtime_handle is Some
        },
        r matches Ok(h) ==> sb.runtime_handle == Some(h),
        !(who matches AuthOutcome::Granted(ctx) && (ctx.admin || ctx.org_id@ == sb.org_id@)) ==> (
        r matches Err(Refusal::Api(ApiError::NotFound(m))) && m@ == "sandbox "@ + id@),
        r matches Err(Refusal::Plain(status, _)) ==> status == 409 || status == 403,
        r matches Err(Refusal::Plain(status, _)) ==> (status == 409 <==> !(sb.state is Creating
            || sb.state is Running || sb.state is Resuming)),
{
}

/// A sandbox that does not exist is not found, whoever asks.
pub proof fn law_nothing_is_not_previewed(
    who: AuthOutcome,
    id: &str,
    port: u16,
    control: u16,
    r: Result<String, Refusal>,
)
    requires
        call_ensures(do_preview, (&None, &who, id, port, control), r),
    ensures
        r matches Err(Refusal::Api(ApiError::NotFound(m))) && m@ == "sandbox "@ + id@,
{
}

/// Who may look: the org and the admins.
pub proof fn law_who_may_look(who: AuthOutcome, org: &str, r: bool)
    requires
        call_ensures(preview_authorized, (&who, org), r),
    ensures
        r <==> (who matches AuthOutcome::Granted(ctx) && (ctx.admin || ctx.org_id@ == org@)),
{
}

/// The token of a request is the one of its header, and the query's where there is none.
pub proof fn law_preview_tokens(
    header: &str,
    token: Seq<char>,
    bearer: Option<String>,
    key: Option<String>,
    read: Option<String>,
    r: Option<String>,
)
    requires
        call_ensures(bearer_token, (Some(header),), read),
        header@ == "Bearer "@ + token,
        call_ensures(preview_token, (bearer, PreviewAuth { key }), r),
    ensures
        read matches Some(t) && t@ == token,
        bearer is Some ==> r == bearer,
        bearer is None ==> r == key,
{
    reveal_strlit("Bearer ");
    assert(header@.subrange(0, 7) =~= "Bearer "@);
    assert(header@.subrange(7, header@.len() as int) =~= token);
}

/// What concerns one connection is not forwarded.
pub proof fn law_connection_headers(name: &str, r: bool)
    requires
        call_ensures(is_hop_by_hop, (name,), r),
    ensures
        name@ == "connection"@ || name@ == "upgrade"@ || name@ == "transfer-encoding"@ || name@
            == "keep-alive"@ || name@ == "content-length"@ || name@ == "proxy-authorization"@
            || name@ == "proxy-authenticate"@ || name@ == "te"@ || name@ == "trailers"@ ==> r,
        r ==> name@ == "connection"@ || name@ == "upgrade"@ || name@ == "transfer-encoding"@
            || name@ == "keep-alive"@ || name@ == "content-length"@ || name@
            == "proxy-authorization"@ || name@ == "proxy-authenticate"@ || name@ == "te"@ || name@
            == "trailers"@,
{
}

/// A session is opened in the VM of an active sandbox on the local node, and nowhere else.
pub proof fn law_sessions(sb: Sandbox, local: &str, r: ApiResult<String>)
    requires
        call_ensures(pty_handle, (&sb, local), r),
    ensures
        r is Ok <==> {
            &&& sb.state is Creating || sb.state is Running || sb.state is Resuming
            &&& sb.runtime_handle is Some
            &&& sb.node_id matches Some(n) && n@ == local@
        },
        r matches Ok(h) ==> sb.runtime_handle == Some(h),
{
}

// ---------------------------------------------------------------------------
// Between nodes
// ---------------------------------------------------------------------------

/// The channel between nodes opens to the configured secret only, and to nobody where none
/// is configured.
pub proof fn law_node_channel(configured: &str, presented: &str, r: Gate)
    requires
        call_ensures(node_auth, (configured, presented), r),
    ensures
        trimmed(configured@).len() == 0 <==> r == Gate::Closed,
        r == Gate::Open <==> trimmed(configured@).len() > 0 && presented@ == trimmed(configured@),
{
}

/// A file that is not there is told from what failed.
pub proof fn law_node_failures(e: NodeError, r: (u16, String))
    requires
        call_ensures(node_err, (&e,), r),
    ensures
        r.0 == 404 <==> e is FileNotFound,
        r.0 == 404 || r.0 == 502,
        e matches NodeError::Failed(m) ==> r.1@ == m@,
{
}

/// A sandbox of another node is served there, where that node can be reached; any other is
/// served here.
pub proof fn law_routes(node_id: &str, local: &str, found: Option<Node>, base: String, r: Route)
    requires
        call_ensures(node_for, (node_id, local, &found), r),
        found matches Some(n) ==> exists|addr: &str|
            addr@ == n.advertise_addr@ && call_ensures(node_base, (addr,), base),
    ensures
        node_id@ == local@ ==> r is Local,
        found is None ==> r is Local,
        found matches Some(n) ==> n.advertise_addr@.len() == 0 ==> r is Local,
        found matches Some(n) ==> n.advertise_addr@.len() > 0 && node_id@ != local@ ==> (
        r matches Route::Remote(url) && url@ == base@),
{
}

/// A node keeps the id that it was configured with or has stored; a fresh one is stored.
pub proof fn law_node_ids(
    configured: &str,
    stored: Option<String>,
    fresh: String,
    r: (String, bool),
)
    requires
        call_ensures(resolve_node_id, (configured, stored, fresh), r),
    ensures
        configured@.len() > 0 ==> r.0@ == configured@ && !r.1,
        configured@.len() == 0 && stored is Some ==> r.0@ == stored->0@ && !r.1,
        configured@.len() == 0 && stored is None ==> r.0@ == fresh@ && r.1,
{
}

/// Another node did what it was asked exactly when its status is a success; a file that it
/// does not have is told from what failed.
pub proof fn law_answers_of_nodes(
    node: &str,
    path: &str,
    file: &str,
    reply: RemoteReply,
    data: &str,
    done: Result<(), NodeError>,
    r: Result<Vec<u8>, NodeError>,
)
    requires
        call_ensures(remote_outcome, (node, path, &reply), done),
        call_ensures(remote_file, (node, file, &reply, data), r),
    ensures
        done is Ok <==> 200 <= reply.code <= 299,
        r matches Err(NodeError::FileNotFound(p)) ==> reply.code == 404 && p@ == file@,
        reply.code == 404 ==> r matches Err(NodeError::FileNotFound(_)),
        r matches Ok(b) ==> 200 <= reply.code <= 299 && crate::base64::decoded(data@) == Some(b@),
        200 <= reply.code <= 299 && crate::base64::decoded(data@) is Some ==> r is Ok,
{
}

/// A node starts in rotation, as the node it is configured as, and can host VMs where it can
/// run them.
pub proof fn law_local_node(
    cfg: crate::config::Config,
    kind: crate::config::RuntimeKind,
    id: String,
    hostname: String,
    meminfo: &str,
    kvm: bool,
    now: Nanos,
    memory: u64,
    r: Node,
)
    requires
        call_ensures(local_node, (&cfg, kind, id, hostname, meminfo, kvm, now), r),
        call_ensures(
            crate::config::total_memory_kb,
            (cfg.node.total_memory_kb, meminfo),
            memory,
        ),
    ensures
        r.id@ == id@ && r.hostname@ == hostname@ && r.role@ == cfg.node.role@,
        r.total_memory_kb == memory,
        r.schedulable && !r.draining,
        r.kvm_ok <==> kvm || kind is Mock,
        cfg.node.advertise_addr@.len() > 0 ==> r.advertise_addr@ == cfg.node.advertise_addr@,
        cfg.node.advertise_addr@.len() == 0 ==> r.advertise_addr@ == cfg.server.bind@,
        r.registered_at == now && r.last_heartbeat_at == now,
{
}

// ---------------------------------------------------------------------------
// What is answered
// ---------------------------------------------------------------------------

/// The status of an answer: which of them are the caller's fault and which are not.
pub proof fn law_statuses(e: ApiError, status: u16, code: &str, text: String)
    requires
        call_ensures(ApiError::status, (&e,), status),
        call_ensures(ApiError::code, (&e,), code),
        call_ensures(ApiError::message, (&e,), text),
    ensures
        e is BadRequest ==> status == 400 && code@ == "bad_request"@,
        e is Unauthorized ==> status == 401 && code@ == "unauthorized"@,
        e is Forbidden ==> status == 403 && code@ == "forbidden"@,
        e is NotFound ==> status == 404 && code@ == "not_found"@,
        e is Conflict ==> status == 409 && code@ == "conflict"@,
        e is Rejected ==> status == 422 && code@ == "rejected"@,
        e is Internal ==> status == 500 && code@ == "internal"@,
        e is NoCapacity ==> status == 503 && code@ == "no_capacity"@,
        e is Internal ==> text@ == "internal server error"@,
        e matches ApiError::BadRequest(m) ==> text@ == m@,
        e matches ApiError::NotFound(m) ==> text@ == m@ + " not found"@,
        e matches ApiError::Conflict(m) ==> text@ == "conflict: "@ + m@,
        e matches ApiError::Forbidden(m) ==> text@ == "forbidden: "@ + m@,
        e matches ApiError::NoCapacity { reason, detail } ==> text@ == detail@,
{
}

/// Only a lack of capacity has a reason for machines.
pub proof fn law_reasons(e: ApiError, r: Option<String>)
    requires
        call_ensures(ApiError::reason, (&e,), r),
    ensures
        r is Some <==> e is NoCapacity,
        e matches ApiError::NoCapacity { reason, detail } ==> (r matches Some(t) && t@ == reason@),
{
}

} // verus!
