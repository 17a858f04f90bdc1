//! API-key authentication.
//!
//! Keys are presented as bearer tokens. Only the SHA-256 hash of a key is kept;
//! the key itself is shown once, when it is created.

use crate::admission::fault;
use crate::error::{ApiError, ApiResult, ErrorView};
use crate::ids::{api_key, is_id};
use crate::nodes::Nanos;
use crate::numeral::{hex_text, lemma_hex_text_len};
use crate::text::{ascii_hex, chars_of, concat2, is_hex, same};
use crate::usage::{ApiKey, Org, OrgStatus, COST_STEPS_PER_USD};
use sha2::{Digest, Sha256};
use vstd::prelude::*;
use vstd::string::*;
use vstd::utf8::*;

verus! {

/// The digest that `sha2::Sha256` computes of some bytes.
pub uninterp spec fn sha256(bytes: Seq<u8>) -> Seq<u8>;

/// `sha2::Sha256`: new, update and finalize. The digest is named, and it has
/// thirty-two bytes.
#[verifier::external_body]
fn sha256_of(bytes: &[u8]) -> (r: Vec<u8>)
    ensures
        r@ == sha256(bytes@),
        r@.len() == 32,
{
    let mut h = Sha256::new();
    h.update(bytes);
    h.finalize().to_vec()
}

/// `hex::encode`: two lower-case hexadecimal digits for each byte.
#[verifier::external_body]
fn hex_of(bytes: &[u8]) -> (r: String)
    ensures
        r@ == hex_text(bytes@),
{
    hex::encode(bytes)
}

/// The hash under which a key is kept.
pub open spec fn key_hash(plaintext: Seq<char>) -> Seq<char> {
    hex_text(sha256(encode_utf8(plaintext)))
}

/// The hash under which a digest is kept.
pub fn hash_text(digest: &Vec<u8>) -> (r: String)
    ensures
        r@ == hex_text(digest@),
{
    hex_of(digest.as_slice())
}

/// Hash a key: sixty-four hexadecimal digits.
pub fn hash_key(plaintext: &str) -> (r: String)
    ensures
        r@ == key_hash(plaintext@),
        r@.len() == 64,
{
    let digest = sha256_of(plaintext.as_bytes());
    proof {
        lemma_hex_text_len(digest@);
    }
    hash_text(&digest)
}

/// Sixty-four hexadecimal digits: the shape of a hash.
pub open spec fn hash_shaped(s: Seq<char>) -> bool {
    s.len() == 64 && forall|i: int| 0 <= i < s.len() ==> is_hex(#[trigger] s[i])
}

/// Has a text the shape of a hash?
pub fn is_hash(s: &str) -> (r: bool)
    ensures
        r == hash_shaped(s@),
{
    let v = chars_of(s);
    if v.len() != 64 {
        return false;
    }
    let mut i: usize = 0;
    while i < v.len()
        invariant
            i <= v@.len(),
            v@ == s@,
            forall|k: int| 0 <= k < i ==> is_hex(#[trigger] v@[k]),
        decreases v@.len() - i,
    {
        if !ascii_hex(v[i]) {
            assert(!is_hex(s@[i as int]));
            return false;
        }
        i = i + 1;
    }
    true
}

/// The identity that a request has.
#[derive(Debug)]
pub struct AuthContext {
    pub org_id: String,
    pub admin: bool,
}

#[derive(Debug)]
pub enum AuthOutcome {
    Granted(AuthContext),
    Missing,
    Invalid,
    /// The org's kill switch is engaged.
    Suspended,
}

/// A token was presented.
pub open spec fn presented(bearer: Option<&str>) -> bool {
    bearer matches Some(t) && t@.len() > 0
}

/// The key is the token's, by its hash, and is not disabled.
pub open spec fn opens(key: Option<&ApiKey>, token: Seq<char>) -> bool {
    key matches Some(k) && k.key_hash@ == key_hash(token) && !k.disabled
}

/// Verify a presented token, given the key that is kept under its hash and that
/// key's org.
pub fn authenticate(bearer: Option<&str>, key: Option<&ApiKey>, org: Option<&Org>) -> (r: AuthOutcome)
    ensures
        r is Missing <==> !presented(bearer),
        r is Granted <==> presented(bearer) && opens(key, bearer->0@) && org is Some
            && org->0.status != OrgStatus::Suspended,
        r is Suspended <==> presented(bearer) && opens(key, bearer->0@) && org is Some
            && org->0.status == OrgStatus::Suspended,
        r matches AuthOutcome::Granted(ctx) ==> ctx.org_id@ == key->0.org_id@ && ctx.admin
            == key->0.admin,
{
    let token = match bearer {
        Some(t) => t,
        None => return AuthOutcome::Missing,
    };
    if token.is_empty() {
        return AuthOutcome::Missing;
    }
    let k = match key {
        Some(k) => k,
        None => return AuthOutcome::Invalid,
    };
    if k.disabled || !same(k.key_hash.as_str(), hash_key(token).as_str()) {
        return AuthOutcome::Invalid;
    }
    match org {
        Some(o) => {
            if o.status == OrgStatus::Suspended {
                AuthOutcome::Suspended
            } else {
                AuthOutcome::Granted(AuthContext { org_id: k.org_id.clone(), admin: k.admin })
            }
        },
        None => AuthOutcome::Invalid,
    }
}

/// The identity behind a request, or what is answered without one.
pub fn require_key(who: AuthOutcome) -> (r: ApiResult<AuthContext>)
    ensures
        fault(r) == (match who {
            AuthOutcome::Granted(_) => None,
            AuthOutcome::Suspended => Some(ErrorView::Forbidden("org suspended"@)),
            AuthOutcome::Missing | AuthOutcome::Invalid => Some(ErrorView::Unauthorized),
        }),
        r matches Ok(ctx) ==> who == AuthOutcome::Granted(ctx),
{
    match who {
        AuthOutcome::Granted(ctx) => Ok(ctx),
        AuthOutcome::Suspended => Err(ApiError::Forbidden(String::from_str("org suspended"))),
        AuthOutcome::Missing | AuthOutcome::Invalid => Err(ApiError::Unauthorized),
    }
}

// ---------------------------------------------------------------------------
// First boot
// ---------------------------------------------------------------------------

/// The name under which it is noted that an org's admin key exists.
pub open spec fn seed_marker(org_id: Seq<char>) -> Seq<char> {
    "admin_key_seeded:"@ + org_id
}

/// The name under which it is noted that an org's admin key exists.
pub fn admin_key_marker(org_id: &str) -> (r: String)
    ensures
        r@ == seed_marker(org_id@),
{
    concat2("admin_key_seeded:", org_id)
}

/// What is to be stored on first boot.
#[derive(Debug)]
pub struct Bootstrap {
    /// The admin org, where it does not exist yet.
    pub org: Option<Org>,
    /// The admin key and its plaintext, where none was made before.
    pub key: Option<(ApiKey, String)>,
}

/// Credits that the admin org begins with, in US dollars: effectively no cap.
pub const ADMIN_CREDITS_USD: i128 = 1_000_000_000;

/// The key that is handed out: the one provided, or a fresh one.
pub open spec fn seed_key(provided: Option<&str>, made: Seq<char>) -> bool {
    match provided {
        Some(k) if k@.len() > 0 => made == k@,
        _ => is_id(made, "sk_live_"@, 24),
    }
}

/// Seed the admin org and its key on first boot, given what exists already.
pub fn bootstrap(
    org_id: &str,
    org_exists: bool,
    seeded: bool,
    provided_key: Option<&str>,
    now: Nanos,
) -> (r: Bootstrap)
    ensures
        r.org is Some <==> !org_exists,
        r.org matches Some(o) ==> {
            &&& o.id@ == org_id@
            &&& o.name@ == "admin"@
            &&& o.status == OrgStatus::Active
            &&& o.prepaid_credits == ADMIN_CREDITS_USD * COST_STEPS_PER_USD
            &&& o.spent == 0
            &&& o.quota_mb == 0
            &&& o.created_at == now
            &&& o.wf()
        },
        r.key is Some <==> !seeded,
        r.key matches Some((k, plain)) ==> {
            &&& seed_key(provided_key, plain@)
            &&& k.key_hash@ == key_hash(plain@)
            &&& opens(Some(&k), plain@)
            &&& k.org_id@ == org_id@
            &&& k.name@ == "bootstrap-admin"@
            &&& k.admin
            &&& !k.disabled
            &&& k.created_at == now
        },
{
    let org: Option<Org> = if org_exists {
        None
    } else {
        Some(
            Org {
                id: String::from_str(org_id),
                name: String::from_str("admin"),
                status: OrgStatus::Active,
                prepaid_credits: ADMIN_CREDITS_USD * COST_STEPS_PER_USD,
                spent: 0,
                quota_mb: 0,
                created_at: now,
            },
        )
    };
    if seeded {
        return Bootstrap { org, key: None };
    }
    let given = match provided_key {
        Some(k) => !k.is_empty(),
        None => false,
    };
    let plain = match provided_key {
        Some(k) => if given {
            String::from_str(k)
        } else {
            api_key()
        },
        None => api_key(),
    };
    let key = ApiKey {
        key_hash: hash_key(plain.as_str()),
        org_id: String::from_str(org_id),
        name: String::from_str("bootstrap-admin"),
        admin: true,
        disabled: false,
        created_at: now,
    };
    Bootstrap { org, key: Some((key, plain)) }
}

} // verus!
