//! Reading JSON. A document is read once for each thing that is wanted of it, and
//! what is found in it is handed out as a plain value; a part of it is handed out
//! as JSON text again.

use crate::text::{opt_view, views};
use vstd::prelude::*;
use vstd::string::*;

verus! {

/// What bytes hold when they are read as one JSON document: the document as compact
/// JSON text, or what is wrong with it.
pub uninterp spec fn json_document(bytes: Seq<u8>) -> Result<Seq<char>, Seq<char>>;

/// What stands under a key of the object that the bytes hold, as compact JSON text.
/// There is nothing where the bytes hold no JSON or no object, or the object has no
/// such key.
pub uninterp spec fn json_part(bytes: Seq<u8>, key: Seq<char>) -> Option<Seq<char>>;

/// The string that stands under a key of the object that the bytes hold. There is
/// none where nothing stands there, or something that is no string.
pub uninterp spec fn json_text(bytes: Seq<u8>, key: Seq<char>) -> Option<Seq<char>>;

/// The integer that stands under a key of the object that the bytes hold, where it
/// fits into 64 bits with a sign. A number with a fraction or an exponent is none.
pub uninterp spec fn json_int(bytes: Seq<u8>, key: Seq<char>) -> Option<i64>;

/// The integer that stands under a key of the object that the bytes hold, where it
/// fits into 64 bits without a sign. A number with a fraction or an exponent is
/// none.
pub uninterp spec fn json_count(bytes: Seq<u8>, key: Seq<char>) -> Option<u64>;

/// The truth value that stands under a key of the object that the bytes hold.
pub uninterp spec fn json_bool(bytes: Seq<u8>, key: Seq<char>) -> Option<bool>;

/// The entries of the array that stands under a key of the object that the bytes
/// hold, each as compact JSON text.
pub uninterp spec fn json_entries(bytes: Seq<u8>, key: Seq<char>) -> Option<Seq<Seq<char>>>;

/// `serde_json::from_slice` into a `Value`, and the value's own text: what the bytes
/// hold, or the text of the error. Both depend on the bytes alone and are only
/// named.
#[verifier::external_body]
pub(crate) fn document(bytes: &[u8]) -> (r: Result<String, String>)
    ensures
        match r {
            Ok(t) => json_document(bytes@) == Ok::<Seq<char>, Seq<char>>(t@),
            Err(e) => json_document(bytes@) == Err::<Seq<char>, Seq<char>>(e@),
        },
{
    match serde_json::from_slice::<serde_json::Value>(bytes) {
        Ok(v) => Ok(v.to_string()),
        Err(e) => Err(e.to_string()),
    }
}

/// `serde_json::from_slice` into a `Value`, and `Value::get` with the key: the text
/// of what stands there, which depends on the bytes and the key alone and is only
/// named.
#[verifier::external_body]
pub(crate) fn part_under(bytes: &[u8], key: &str) -> (r: Option<String>)
    ensures
        opt_view(r) == json_part(bytes@, key@),
{
    let v: serde_json::Value = serde_json::from_slice(bytes).ok()?;
    v.get(key).map(|part| part.to_string())
}

/// `serde_json::from_slice` into a `Value`, `Value::get` with the key and
/// `Value::as_str`: the string that stands there, which depends on the bytes and the
/// key alone and is only named.
#[verifier::external_body]
pub(crate) fn text_under(bytes: &[u8], key: &str) -> (r: Option<String>)
    ensures
        opt_view(r) == json_text(bytes@, key@),
{
    let v: serde_json::Value = serde_json::from_slice(bytes).ok()?;
    v.get(key)?.as_str().map(|text| text.to_string())
}

/// `serde_json::from_slice` into a `Value`, `Value::get` with the key and
/// `Value::as_i64`: the number that stands there, which depends on the bytes and the
/// key alone and is only named.
#[verifier::external_body]
pub(crate) fn int_under(bytes: &[u8], key: &str) -> (r: Option<i64>)
    ensures
        r == json_int(bytes@, key@),
{
    let v: serde_json::Value = serde_json::from_slice(bytes).ok()?;
    v.get(key)?.as_i64()
}

/// `serde_json::from_slice` into a `Value`, `Value::get` with the key and
/// `Value::as_u64`: the number that stands there, which depends on the bytes and the
/// key alone and is only named.
#[verifier::external_body]
pub(crate) fn count_under(bytes: &[u8], key: &str) -> (r: Option<u64>)
    ensures
        r == json_count(bytes@, key@),
{
    let v: serde_json::Value = serde_json::from_slice(bytes).ok()?;
    v.get(key)?.as_u64()
}

/// `serde_json::from_slice` into a `Value`, `Value::get` with the key and
/// `Value::as_bool`: the truth value that stands there, which depends on the bytes
/// and the key alone and is only named.
#[verifier::external_body]
pub(crate) fn bool_under(bytes: &[u8], key: &str) -> (r: Option<bool>)
    ensures
        r == json_bool(bytes@, key@),
{
    let v: serde_json::Value = serde_json::from_slice(bytes).ok()?;
    v.get(key)?.as_bool()
}

/// `serde_json::from_slice` into a `Value`, `Value::get` with the key and
/// `Value::as_array`: the texts of the array's entries in their order, which depend
/// on the bytes and the key alone and are only named.
#[verifier::external_body]
pub(crate) fn entries_under(bytes: &[u8], key: &str) -> (r: Option<Vec<String>>)
    ensures
        match r {
            Some(list) => json_entries(bytes@, key@) == Some(views(list@)),
            None => json_entries(bytes@, key@) is None,
        },
{
    let v: serde_json::Value = serde_json::from_slice(bytes).ok()?;
    let list = v.get(key)?.as_array()?;
    Some(list.iter().map(|entry| entry.to_string()).collect())
}

} // verus!
