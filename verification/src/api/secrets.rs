//! Storing secrets. A value is encrypted at once and never handed out again.

use crate::admission::{either, fault};
use crate::api::admin::{admin_fault, require_admin};
use crate::auth::AuthContext;
use crate::error::{ApiError, ApiResult, ErrorView};
use crate::nodes::Nanos;
use crate::secrets::{decrypted, encrypt, is_secret_name, valid_name, SecretError, SecretRecord};
use crate::text::concat2;
use vstd::prelude::*;
use vstd::string::*;
use vstd::utf8::*;

verus! {

/// The value of a secret.
#[derive(Debug)]
pub struct PutSecretBody {
    pub value: String,
}

/// The longest value, in bytes.
pub const MAX_VALUE: usize = 65_536;

/// Why a secret is not stored.
pub open spec fn put_fault(name: Seq<char>, value: Seq<char>) -> Option<ErrorView> {
    if !is_secret_name(name) {
        Some(
            ErrorView::BadRequest(
                "secret name must be an env-style identifier (letters, digits, underscore; not starting with a digit)"@,
            ),
        )
    } else if encode_utf8(value).len() > MAX_VALUE {
        Some(ErrorView::BadRequest("secret value too large (max 64 KiB)"@))
    } else {
        None
    }
}

/// The record of a secret: whatever its nonce, decrypting it with the same key
/// gives the value back.
pub fn put(key: &[u8; 32], org_id: &str, name: &str, body: &PutSecretBody, now: Nanos) -> (r: ApiResult<
    SecretRecord,
>)
    ensures
        fault(r) == put_fault(name@, body.value@),
        r matches Ok(rec) ==> {
            &&& rec.org_id@ == org_id@
            &&& rec.name@ == name@
            &&& rec.created_at == now
            &&& rec.updated_at == now
            &&& decrypted(key@, rec.nonce_b64@, rec.ciphertext_b64@) == Ok::<
                Seq<char>,
                SecretError,
            >(body.value@)
        },
{
    if !valid_name(name) {
        return Err(
            ApiError::BadRequest(
                String::from_str(
                    "secret name must be an env-style identifier (letters, digits, underscore; not starting with a digit)",
                ),
            ),
        );
    }
    let bytes = body.value.as_str().as_bytes();
    if bytes.len() > MAX_VALUE {
        return Err(
            ApiError::BadRequest(String::from_str("secret value too large (max 64 KiB)")),
        );
    }
    match encrypt(key, org_id, name, body.value.as_str(), now) {
        Ok(rec) => Ok(rec),
        Err(e) => Err(ApiError::Internal(e.message())),
    }
}

/// Store a secret for an org on behalf of its dashboard.
pub fn org_secret_put(
    ctx: &AuthContext,
    key: &[u8; 32],
    org: &str,
    org_exists: Result<bool, String>,
    name: &str,
    body: &PutSecretBody,
    now: Nanos,
) -> (r: ApiResult<SecretRecord>)
    ensures
        fault(r) == either(
            admin_fault(*ctx),
            match org_exists {
                Err(e) => Some(ErrorView::Internal(e@)),
                Ok(false) => Some(ErrorView::NotFound("org "@ + org@)),
                Ok(true) => put_fault(name@, body.value@),
            },
        ),
        r matches Ok(rec) ==> {
            &&& rec.org_id@ == org@
            &&& rec.name@ == name@
            &&& rec.created_at == now
            &&& rec.updated_at == now
            &&& decrypted(key@, rec.nonce_b64@, rec.ciphertext_b64@) == Ok::<
                Seq<char>,
                SecretError,
            >(body.value@)
        },
{
    if let Err(e) = require_admin(ctx) {
        return Err(e);
    }
    match org_exists {
        Err(e) => return Err(ApiError::Internal(e)),
        Ok(exists) => {
            if !exists {
                return Err(ApiError::NotFound(concat2("org ", org)));
            }
        },
    }
    put(key, org, name, body, now)
}

/// What is answered to the removal of a secret: one that was not there is not
/// found.
pub fn removed(name: &str, was_there: Result<bool, String>) -> (r: ApiResult<()>)
    ensures
        fault(r) == (match was_there {
            Err(e) => Some(ErrorView::Internal(e@)),
            Ok(false) => Some(ErrorView::NotFound("secret "@ + name@)),
            Ok(true) => None,
        }),
{
    match was_there {
        Err(e) => Err(ApiError::Internal(e)),
        Ok(true) => Ok(()),
        Ok(false) => Err(ApiError::NotFound(concat2("secret ", name))),
    }
}

} // verus!
