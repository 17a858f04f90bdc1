//! Short, prefixed identifiers (e.g. `sbx_3f9a1c2b4d5e`), and opaque tokens for
//! API keys and node join.

use crate::numeral::{hex_text, lemma_hex_text_len, push_hex};
use crate::text::{has_prefix, strip_prefix, without_prefix};
use vstd::prelude::*;
use vstd::string::*;
use vstd::utf8::*;

verus! {

/// One random byte, from `rand::random` (the thread-local generator of the
/// `rand` crate). Any byte may come back.
#[verifier::external_body]
fn random_byte() -> (r: u8) {
    rand::random::<u8>()
}

/// `n` random bytes.
fn random_bytes(n: usize) -> (r: Vec<u8>)
    ensures
        r@.len() == n,
{
    let mut v: Vec<u8> = Vec::new();
    let mut i: usize = 0;
    while i < n
        invariant
            i <= n,
            v@.len() == i,
        decreases n - i,
    {
        v.push(random_byte());
        i = i + 1;
    }
    v
}

/// The identifier with a prefix and the hexadecimal digits of some bytes.
pub fn hex_id(prefix: &str, bytes: &Vec<u8>) -> (r: String)
    ensures
        r@ == prefix@ + hex_text(bytes@),
{
    let mut s = String::from_str(prefix);
    let mut i: usize = 0;
    assert(prefix@ + hex_text(bytes@.subrange(0, 0)) =~= prefix@);
    while i < bytes.len()
        invariant
            i <= bytes@.len(),
            s@ == prefix@ + hex_text(bytes@.subrange(0, i as int)),
        decreases bytes@.len() - i,
    {
        push_hex(&mut s, bytes[i]);
        assert(bytes@.subrange(0, i + 1).drop_last() =~= bytes@.subrange(0, i as int));
        i = i + 1;
        assert(s@ =~= prefix@ + hex_text(bytes@.subrange(0, i as int)));
    }
    assert(bytes@.subrange(0, i as int) =~= bytes@);
    s
}

/// `s` is `prefix` followed by the lower-case hexadecimal digits of `n` bytes.
pub open spec fn is_id(s: Seq<char>, prefix: Seq<char>, n: nat) -> bool {
    exists|b: Seq<u8>| b.len() == n && s == prefix + #[trigger] hex_text(b)
}

fn fresh(prefix: &str, n: usize) -> (r: String)
    ensures
        is_id(r@, prefix@, n as nat),
{
    let b = random_bytes(n);
    hex_id(prefix, &b)
}

pub fn sandbox_id() -> (r: String)
    ensures
        is_id(r@, "sbx_"@, 6),
{
    fresh("sbx_", 6)
}

pub fn node_id() -> (r: String)
    ensures
        is_id(r@, "node_"@, 4),
{
    fresh("node_", 4)
}

pub fn image_id() -> (r: String)
    ensures
        is_id(r@, "img_"@, 6),
{
    fresh("img_", 6)
}

pub fn snapshot_id() -> (r: String)
    ensures
        is_id(r@, "snap_"@, 6),
{
    fresh("snap_", 6)
}

pub fn build_id() -> (r: String)
    ensures
        is_id(r@, "build_"@, 6),
{
    fresh("build_", 6)
}

pub fn command_id() -> (r: String)
    ensures
        is_id(r@, "cmd_"@, 6),
{
    fresh("cmd_", 6)
}

pub fn volume_id() -> (r: String)
    ensures
        is_id(r@, "vol_"@, 6),
{
    fresh("vol_", 6)
}

/// API key shown once to the caller. Stored only as a hash.
pub fn api_key() -> (r: String)
    ensures
        is_id(r@, "sk_live_"@, 24),
{
    fresh("sk_live_", 24)
}

/// Node join token. Single control-plane secret, rotatable.
pub fn join_token() -> (r: String)
    ensures
        is_id(r@, "jt_"@, 24),
{
    fresh("jt_", 24)
}

// ---------------------------------------------------------------------------
// Volume labels
// ---------------------------------------------------------------------------

/// The part of a volume id after its prefix.
pub open spec fn volume_body(id: Seq<char>) -> Seq<char> {
    match without_prefix(id, "vol_"@) {
        Some(rest) => rest,
        None => id,
    }
}

/// How many bytes of the body a label keeps.
pub open spec fn kept(id: Seq<char>) -> int {
    let n = encode_utf8(volume_body(id)).len();
    if n <= 13 {
        n as int
    } else {
        13
    }
}

proof fn lemma_encode_concat(a: Seq<char>, b: Seq<char>)
    ensures
        encode_utf8(a + b) == encode_utf8(a) + encode_utf8(b),
    decreases a.len(),
{
    if a.len() == 0 {
        assert(a + b =~= b);
        assert(encode_utf8(a) + encode_utf8(b) =~= encode_utf8(b));
    } else {
        assert((a + b).drop_first() =~= a.drop_first() + b);
        lemma_encode_concat(a.drop_first(), b);
        assert(encode_utf8(a + b) =~= encode_utf8(a) + encode_utf8(b));
    }
}

/// The label of a volume.
pub open spec fn label_text(id: Seq<char>) -> Seq<char> {
    decode_utf8(encode_utf8("wdv"@) + encode_utf8(volume_body(id)).subrange(0, kept(id)))
}

/// A label can be cut from the id: it does not end inside a character.
pub open spec fn has_label(id: Seq<char>) -> bool {
    &&& is_char_boundary(encode_utf8(volume_body(id)), kept(id))
    &&& encode_utf8(volume_body(id)).len() <= usize::MAX
}

/// ext4 label for a volume's backing image, so that the guest can mount it by
/// label whichever device it is given: `wdv` and the first thirteen bytes of the
/// id without its prefix. At most sixteen bytes, which is what ext4 allows.
pub fn volume_label(volume_id: &str) -> (r: String)
    requires
        has_label(volume_id@),
    ensures
        r@ == label_text(volume_id@),
        encode_utf8(r@) == encode_utf8("wdv"@) + encode_utf8(volume_body(volume_id@)).subrange(
            0,
            kept(volume_id@),
        ),
        has_prefix(r@, "wdv"@),
        encode_utf8(r@).len() <= 16,
{
    let hex: String = match strip_prefix(volume_id, "vol_") {
        Some(h) => h,
        None => String::from_str(volume_id),
    };
    let body = hex.as_str();
    let n: usize = body.len();
    let keep: usize = if n <= 13 {
        n
    } else {
        13
    };
    let (head, _tail) = body.split_at(keep);
    let mut out = String::from_str("wdv");
    out.append(head);
    proof {
        lemma_encode_concat("wdv"@, head@);
        reveal_strlit("wdv");
        is_ascii_chars_encode_utf8("wdv"@);
        encode_utf8_decode_utf8(out@);
        assert(out@.subrange(0, 3) =~= "wdv"@);
    }
    out
}

/// An identifier made of a prefix and `n` bytes has two characters for each
/// byte.
pub proof fn law_id_length(s: Seq<char>, prefix: Seq<char>, n: nat)
    requires
        is_id(s, prefix, n),
    ensures
        s.len() == prefix.len() + 2 * n,
{
    let b = choose|b: Seq<u8>| b.len() == n && s == prefix + #[trigger] hex_text(b);
    lemma_hex_text_len(b);
}

} // verus!
