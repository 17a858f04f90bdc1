//! The channel from the control plane to its workers.

use crate::node::NodeError;
use crate::text::{trim, trimmed};
use vstd::prelude::*;
use vstd::string::*;
use vstd::utf8::*;

verus! {

/// The header that carries the shared secret.
pub const NODE_TOKEN_HEADER: &'static str = "X-Node-Token";

/// What is answered to a caller of the channel.
#[derive(Debug, Clone, Copy, PartialEq, Eq, Structural)]
pub enum Gate {
    Open,
    /// No secret is configured, so that the channel is closed.
    Closed,
    Denied,
}

/// The bits in which two runs of bytes differ anywhere.
fn differences(a: &[u8], b: &[u8]) -> (r: u8)
    requires
        a@.len() == b@.len(),
    ensures
        r == 0 <==> a@ == b@,
{
    let mut acc: u8 = 0;
    let mut i: usize = 0;
    assert(a@.subrange(0, 0) =~= b@.subrange(0, 0));
    while i < a.len()
        invariant
            i <= a@.len() == b@.len(),
            acc == 0 <==> a@.subrange(0, i as int) == b@.subrange(0, i as int),
        decreases a@.len() - i,
    {
        let x: u8 = a[i];
        let y: u8 = b[i];
        assert((acc | (x ^ y)) == 0 <==> acc == 0 && x == y) by (bit_vector);
        proof {
            let p = a@.subrange(0, i as int);
            let q = b@.subrange(0, i as int);
            assert(a@.subrange(0, i + 1) =~= p.push(x));
            assert(b@.subrange(0, i + 1) =~= q.push(y));
            if p.push(x) == q.push(y) {
                assert(p =~= p.push(x).drop_last());
                assert(q =~= q.push(y).drop_last());
                assert(p.push(x).last() == x);
                assert(q.push(y).last() == y);
            }
        }
        acc = acc | (x ^ y);
        i = i + 1;
    }
    assert(a@.subrange(0, i as int) =~= a@);
    assert(b@.subrange(0, i as int) =~= b@);
    acc
}

/// Are two texts the same? All of their bytes are looked at, whatever the first
/// difference.
fn same_bytes(a: &str, b: &str) -> (r: bool)
    ensures
        r == (a@ == b@),
{
    let x = a.as_bytes();
    let y = b.as_bytes();
    proof {
        encode_utf8_decode_utf8(a@);
        encode_utf8_decode_utf8(b@);
    }
    x.len() == y.len() && differences(x, y) == 0
}

/// Check the shared secret that a caller presents. Without a configured secret
/// nobody gets in.
pub fn node_auth(configured: &str, presented: &str) -> (r: Gate)
    ensures
        r == (if trimmed(configured@).len() == 0 {
            Gate::Closed
        } else if presented@ == trimmed(configured@) {
            Gate::Open
        } else {
            Gate::Denied
        }),
{
    let expected = trim(configured);
    if expected.as_str().is_empty() {
        return Gate::Closed;
    }
    if same_bytes(presented, expected.as_str()) {
        Gate::Open
    } else {
        Gate::Denied
    }
}

/// The status and the text for a failure of the data plane: a missing file is not
/// found, everything else is the node's fault.
pub fn node_err(e: &NodeError) -> (r: (u16, String))
    ensures
        match *e {
            NodeError::FileNotFound(_) => r.0 == 404 && r.1@ == "not_found"@,
            NodeError::Failed(m) => r.0 == 502 && r.1@ == m@,
        },
{
    match e {
        NodeError::FileNotFound(_) => (404, String::from_str("not_found")),
        NodeError::Failed(m) => (502, m.clone()),
    }
}

} // verus!
