//! Org-scoped secrets, encrypted at rest with AES-256-GCM.
//!
//! The master key is kept apart from the database, so that a stolen database
//! file does not reveal secret values. Plaintext is only ever handed to the code
//! that injects it into a sandbox.

use crate::base64::{decode, decoded, encode, encoded, law_decode_undoes_encode};
use crate::nodes::Nanos;
use crate::numeral::{decimal, to_decimal};
use crate::text::{
    ascii_alnum, ascii_alpha, chars_of, concat2, is_alnum, is_alpha, text_of_utf8,
};
use aes_gcm::aead::{Aead, AeadCore, KeyInit, OsRng};
use aes_gcm::{Aes256Gcm, Key, Nonce};
use vstd::prelude::*;
use vstd::string::*;
use vstd::utf8::*;

verus! {

/// Encrypted secret as stored. Never contains plaintext.
#[derive(Debug)]
pub struct SecretRecord {
    pub org_id: String,
    pub name: String,
    /// base64 of the twelve-byte nonce.
    pub nonce_b64: String,
    /// base64 of the ciphertext and its tag.
    pub ciphertext_b64: String,
    pub created_at: Nanos,
    pub updated_at: Nanos,
}

/// Why a secret could not be stored or read back.
#[derive(Debug, Clone, Copy, PartialEq, Eq, Structural)]
pub enum SecretError {
    /// The text is not base64.
    BadBase64,
    /// A key that does not decode to 32 bytes; the number it does decode to.
    BadKeyLength(usize),
    EncryptionFailed,
    DecryptionFailed,
    NotUtf8,
}

impl SecretError {
    /// The text of the error.
    pub open spec fn text(self) -> Seq<char> {
        match self {
            SecretError::BadBase64 => "invalid base64"@,
            SecretError::BadKeyLength(n) => "the key must decode to 32 bytes, got "@ + decimal(
                n as nat,
            ),
            SecretError::EncryptionFailed => "encryption failed"@,
            SecretError::DecryptionFailed => "decryption failed"@,
            SecretError::NotUtf8 => "secret is not valid UTF-8"@,
        }
    }

    pub fn message(&self) -> (r: String)
        ensures
            r@ == self.text(),
    {
        match self {
            SecretError::BadBase64 => String::from_str("invalid base64"),
            SecretError::BadKeyLength(n) => concat2(
                "the key must decode to 32 bytes, got ",
                to_decimal(*n as u64).as_str(),
            ),
            SecretError::EncryptionFailed => String::from_str("encryption failed"),
            SecretError::DecryptionFailed => String::from_str("decryption failed"),
            SecretError::NotUtf8 => String::from_str("secret is not valid UTF-8"),
        }
    }
}

/// The longest plaintext AES-GCM takes.
pub const MAX_PLAINTEXT: u64 = 68_719_476_736;

// ---------------------------------------------------------------------------
// The cipher
// ---------------------------------------------------------------------------

/// The ciphertext and tag that `Aead::encrypt` of `aes_gcm::Aes256Gcm` makes of
/// a key, a nonce and a plaintext, without associated data.
pub uninterp spec fn aes256gcm_sealed(key: Seq<u8>, nonce: Seq<u8>, plain: Seq<u8>) -> Seq<u8>;

/// The plaintext that `Aead::decrypt` of `aes_gcm::Aes256Gcm` finds in a sealed
/// message, if the message is authentic for the key and the nonce.
pub uninterp spec fn aes256gcm_opened(key: Seq<u8>, nonce: Seq<u8>, sealed: Seq<u8>) -> Option<
    Seq<u8>,
>;

/// `aes_gcm::Aes256Gcm::encrypt`. Fails exactly on plaintexts longer than 2^36
/// bytes; the sealed message is sixteen bytes longer than the plaintext, and
/// opening it under the same key and nonce gives the plaintext back.
#[verifier::external_body]
fn aes_seal(key: &[u8; 32], nonce: &[u8], plain: &[u8]) -> (r: Option<Vec<u8>>)
    requires
        nonce@.len() == 12,
        plain@.len() + 16 <= isize::MAX,
    ensures
        r is Some <==> plain@.len() <= MAX_PLAINTEXT,
        r matches Some(c) ==> c@ == aes256gcm_sealed(key@, nonce@, plain@),
        r matches Some(c) ==> c@.len() == plain@.len() + 16,
        r matches Some(c) ==> aes256gcm_opened(key@, nonce@, c@) == Some(plain@),
{
    let cipher = Aes256Gcm::new(Key::<Aes256Gcm>::from_slice(key));
    cipher.encrypt(Nonce::from_slice(nonce), plain).ok()
}

/// `aes_gcm::Aes256Gcm::decrypt`.
#[verifier::external_body]
fn aes_open(key: &[u8; 32], nonce: &[u8], sealed: &[u8]) -> (r: Option<Vec<u8>>)
    requires
        nonce@.len() == 12,
    ensures
        (match r {
            Some(p) => Some(p@),
            None => None,
        }) == aes256gcm_opened(key@, nonce@, sealed@),
{
    let cipher = Aes256Gcm::new(Key::<Aes256Gcm>::from_slice(key));
    cipher.decrypt(Nonce::from_slice(nonce), sealed).ok()
}

/// `aes_gcm::Aes256Gcm::generate_nonce` from the operating system's generator:
/// any twelve bytes.
#[verifier::external_body]
fn random_nonce() -> (r: Vec<u8>)
    ensures
        r@.len() == 12,
{
    Aes256Gcm::generate_nonce(OsRng).to_vec()
}

/// `aes_gcm::Aes256Gcm::generate_key` from the operating system's generator:
/// any thirty-two bytes.
#[verifier::external_body]
fn random_key() -> (r: [u8; 32]) {
    Aes256Gcm::generate_key(OsRng).into()
}

// ---------------------------------------------------------------------------
// The master key
// ---------------------------------------------------------------------------

/// The master key that a base64 text holds: exactly thirty-two bytes.
pub fn parse_key(text: &str) -> (r: Result<[u8; 32], SecretError>)
    ensures
        match decoded(text@) {
            None => r == Err::<[u8; 32], SecretError>(SecretError::BadBase64),
            Some(b) => if b.len() == 32 {
                r matches Ok(k) && k@ == b
            } else {
                r matches Err(SecretError::BadKeyLength(n)) && n == b.len()
            },
        },
{
    let bytes = match decode(text) {
        Some(b) => b,
        None => return Err(SecretError::BadBase64),
    };
    if bytes.len() != 32 {
        return Err(SecretError::BadKeyLength(bytes.len()));
    }
    let mut key: [u8; 32] = [0u8;32];
    let mut i: usize = 0;
    while i < 32
        invariant
            i <= 32,
            bytes@.len() == 32,
            forall|k: int| 0 <= k < i ==> #[trigger] key@[k] == bytes@[k],
        decreases 32 - i,
    {
        key[i] = bytes[i];
        i = i + 1;
    }
    assert(key@ =~= bytes@);
    Ok(key)
}

/// The text that stores a master key.
pub fn key_text(key: &[u8; 32]) -> (r: String)
    ensures
        r@ == encoded(key@),
        decoded(r@) == Some(key@),
{
    proof {
        law_decode_undoes_encode(key@);
    }
    encode(key.as_slice())
}

/// A fresh master key and the text that stores it.
pub fn new_key() -> (r: ([u8; 32], String))
    ensures
        r.1@ == encoded(r.0@),
        decoded(r.1@) == Some(r.0@),
{
    let key = random_key();
    let text = key_text(&key);
    (key, text)
}

// ---------------------------------------------------------------------------
// Records
// ---------------------------------------------------------------------------

/// What decrypting a record gives.
pub open spec fn decrypted(key: Seq<u8>, nonce_b64: Seq<char>, sealed_b64: Seq<char>) -> Result<
    Seq<char>,
    SecretError,
> {
    match (decoded(nonce_b64), decoded(sealed_b64)) {
        (Some(nonce), Some(sealed)) => match aes256gcm_opened(key, nonce, sealed) {
            Some(plain) => if valid_utf8(plain) {
                Ok(decode_utf8(plain))
            } else {
                Err(SecretError::NotUtf8)
            },
            None => Err(SecretError::DecryptionFailed),
        },
        _ => Err(SecretError::BadBase64),
    }
}

/// Encrypt a value under a given nonce.
pub fn seal(
    key: &[u8; 32],
    nonce: &[u8],
    org_id: &str,
    name: &str,
    plaintext: &str,
    now: Nanos,
) -> (r: Result<SecretRecord, SecretError>)
    requires
        nonce@.len() == 12,
        encode_utf8(plaintext@).len() + 16 <= isize::MAX,
    ensures
        r is Ok <==> encode_utf8(plaintext@).len() <= MAX_PLAINTEXT,
        r matches Err(e) ==> e == SecretError::EncryptionFailed,
        r matches Ok(rec) ==> {
            &&& rec.org_id@ == org_id@
            &&& rec.name@ == name@
            &&& rec.nonce_b64@ == encoded(nonce@)
            &&& rec.ciphertext_b64@ == encoded(
                aes256gcm_sealed(key@, nonce@, encode_utf8(plaintext@)),
            )
            &&& rec.created_at == now
            &&& rec.updated_at == now
            &&& decrypted(key@, rec.nonce_b64@, rec.ciphertext_b64@) == Ok::<
                Seq<char>,
                SecretError,
            >(plaintext@)
        },
{
    let sealed = match aes_seal(key, nonce, plaintext.as_bytes()) {
        Some(c) => c,
        None => return Err(SecretError::EncryptionFailed),
    };
    proof {
        law_decode_undoes_encode(nonce@);
        law_decode_undoes_encode(sealed@);
        encode_utf8_valid_utf8(plaintext@);
        encode_utf8_decode_utf8(plaintext@);
    }
    Ok(
        SecretRecord {
            org_id: String::from_str(org_id),
            name: String::from_str(name),
            nonce_b64: encode(nonce),
            ciphertext_b64: encode(sealed.as_slice()),
            created_at: now,
            updated_at: now,
        },
    )
}

/// Encrypt a value under a fresh nonce. Whatever the nonce, decrypting the
/// record with the same key gives the value back.
pub fn encrypt(key: &[u8; 32], org_id: &str, name: &str, plaintext: &str, now: Nanos) -> (r: Result<
    SecretRecord,
    SecretError,
>)
    requires
        encode_utf8(plaintext@).len() + 16 <= isize::MAX,
    ensures
        r is Ok <==> encode_utf8(plaintext@).len() <= MAX_PLAINTEXT,
        r matches Err(e) ==> e == SecretError::EncryptionFailed,
        r matches Ok(rec) ==> {
            &&& rec.org_id@ == org_id@
            &&& rec.name@ == name@
            &&& rec.created_at == now
            &&& rec.updated_at == now
            &&& decrypted(key@, rec.nonce_b64@, rec.ciphertext_b64@) == Ok::<
                Seq<char>,
                SecretError,
            >(plaintext@)
            &&& exists|nonce: Seq<u8>|
                nonce.len() == 12 && rec.nonce_b64@ == #[trigger] encoded(nonce)
                    && rec.ciphertext_b64@ == encoded(
                    aes256gcm_sealed(key@, nonce, encode_utf8(plaintext@)),
                )
        },
{
    let nonce = random_nonce();
    seal(key, nonce.as_slice(), org_id, name, plaintext, now)
}

/// The stored nonce has twelve bytes, as far as the record can be read at all.
pub open spec fn nonce_fits(rec: SecretRecord) -> bool {
    decoded(rec.nonce_b64@) matches Some(n) ==> decoded(rec.ciphertext_b64@) is Some ==> n.len()
        == 12
}

/// Has the stored nonce twelve bytes?
pub fn has_fitting_nonce(rec: &SecretRecord) -> (r: bool)
    ensures
        r == nonce_fits(*rec),
{
    match decode(rec.nonce_b64.as_str()) {
        Some(n) => n.len() == 12 || decode(rec.ciphertext_b64.as_str()).is_none(),
        None => true,
    }
}

/// Decrypt a record. The stored nonce must be twelve bytes long.
pub fn decrypt(key: &[u8; 32], rec: &SecretRecord) -> (r: Result<String, SecretError>)
    requires
        nonce_fits(*rec),
    ensures
        (match r {
            Ok(s) => Ok(s@),
            Err(e) => Err(e),
        }) == decrypted(key@, rec.nonce_b64@, rec.ciphertext_b64@),
{
    let nonce = match decode(rec.nonce_b64.as_str()) {
        Some(n) => n,
        None => return Err(SecretError::BadBase64),
    };
    let sealed = match decode(rec.ciphertext_b64.as_str()) {
        Some(c) => c,
        None => return Err(SecretError::BadBase64),
    };
    let plain = match aes_open(key, nonce.as_slice(), sealed.as_slice()) {
        Some(p) => p,
        None => return Err(SecretError::DecryptionFailed),
    };
    match text_of_utf8(plain) {
        Some(s) => Ok(s),
        None => Err(SecretError::NotUtf8),
    }
}

// ---------------------------------------------------------------------------
// Names
// ---------------------------------------------------------------------------

/// An environment-style identifier of at most 128 characters.
pub open spec fn is_secret_name(s: Seq<char>) -> bool {
    &&& 1 <= s.len() <= 128
    &&& is_alpha(s[0]) || s[0] == '_'
    &&& forall|i: int| 0 <= i < s.len() ==> is_alnum(#[trigger] s[i]) || s[i] == '_'
}

/// A valid secret name: like an environment variable, so that it can be injected
/// as `$NAME`.
pub fn valid_name(name: &str) -> (r: bool)
    ensures
        r == is_secret_name(name@),
{
    let v = chars_of(name);
    if v.len() == 0 || v.len() > 128 {
        return false;
    }
    if !(ascii_alpha(v[0]) || v[0] == '_') {
        return false;
    }
    let mut i: usize = 0;
    while i < v.len()
        invariant
            i <= v@.len(),
            v@ == name@,
            forall|k: int| 0 <= k < i ==> is_alnum(#[trigger] v@[k]) || v@[k] == '_',
        decreases v@.len() - i,
    {
        if !(ascii_alnum(v[i]) || v[i] == '_') {
            assert(!(is_alnum(name@[i as int]) || name@[i as int] == '_'));
            return false;
        }
        i = i + 1;
    }
    true
}

} // verus!
