//! A node's data plane: what it claims from its pools, what it warms them with,
//! and which node serves a sandbox.

use crate::base64::{decode, decoded};
use crate::config::{
    first_nonempty, meminfo_total, total_memory_kb, Config, RuntimeKind, FALLBACK_MEMORY_KB,
};
use crate::envmap::EnvMap;
use crate::hotpool::{HotPools, KeyView, ShapeKey};
use crate::json::{
    count_under, json_count, json_part, json_text, part_under, text_under,
};
use crate::knobs::Resources;
use crate::model::{EgressMode, NetworkPolicy};
use crate::nodes::{Nanos, Node};
use crate::runtime::{VmSpec, WarmVm};
use crate::text::{
    concat2, concat3, has_prefix, line_list, or_text, same, starts_with, text_or, trim_back_of,
    trim_end_of,
};
use vstd::prelude::*;
use vstd::string::*;

verus! {

// ---------------------------------------------------------------------------
// Errors
// ---------------------------------------------------------------------------

/// A failure of the data plane.
#[derive(Debug)]
pub enum NodeError {
    FileNotFound(String),
    Failed(String),
}

impl NodeError {
    pub open spec fn text(self) -> Seq<char> {
        match self {
            NodeError::FileNotFound(p) => "file not found: "@ + p@,
            NodeError::Failed(m) => m@,
        }
    }

    pub fn message(&self) -> (r: String)
        ensures
            r@ == self.text(),
    {
        match self {
            NodeError::FileNotFound(p) => concat2("file not found: ", p.as_str()),
            NodeError::Failed(m) => m.clone(),
        }
    }
}

/// The error for a file that is not there.
pub fn file_not_found(path: &str) -> (r: NodeError)
    ensures
        r matches NodeError::FileNotFound(p) && p@ == path@,
{
    NodeError::FileNotFound(String::from_str(path))
}

/// Is a file not there?
pub fn is_file_not_found(err: &NodeError) -> (r: bool)
    ensures
        r == (*err is FileNotFound),
{
    matches!(err, NodeError::FileNotFound(_))
}

// ---------------------------------------------------------------------------
// Pools
// ---------------------------------------------------------------------------

/// A bare VM of a shape: no tenant, and nothing to set up.
pub open spec fn bare(spec: VmSpec, id: Seq<char>, owner: Seq<char>, image_key: Seq<char>, resources: Resources) -> bool {
    &&& spec.sandbox_id@ == id
    &&& spec.org_id@ == owner
    &&& spec.image_key@ == image_key
    &&& spec.image_ref@ == image_key
    &&& spec.resources == resources
    &&& spec.env@ == Map::<Seq<char>, Seq<char>>::empty()
    &&& spec.secret_env@ == Map::<Seq<char>, Seq<char>>::empty()
    &&& spec.browser is None
    &&& !spec.docker
    &&& spec.coding_agent is None
    &&& spec.mounts@.len() == 0
    &&& spec.volumes@.len() == 0
    &&& spec.files@.len() == 0
    &&& spec.network.egress == EgressMode::Default
    &&& spec.network.allow@.len() == 0
    &&& spec.network.deny@.len() == 0
}

/// A bare VM of a shape, for a pool or for a measurement.
pub fn bare_spec(id: String, owner: &str, image_key: &str, resources: Resources) -> (r: VmSpec)
    ensures
        bare(r, id@, owner@, image_key@, resources),
{
    VmSpec {
        sandbox_id: id,
        org_id: String::from_str(owner),
        image_key: String::from_str(image_key),
        image_ref: String::from_str(image_key),
        resources,
        env: EnvMap::new(),
        secret_env: EnvMap::new(),
        browser: None,
        docker: false,
        coding_agent: None,
        mounts: Vec::new(),
        volumes: Vec::new(),
        files: Vec::new(),
        network: NetworkPolicy::default(),
    }
}

/// The VM by which a pool is warmed or a golden snapshot is made.
pub fn pool_spec(id: String, image_key: &str, resources: Resources) -> (r: VmSpec)
    ensures
        bare(r, id@, "pool"@, image_key@, resources),
{
    bare_spec(id, "pool", image_key, resources)
}

/// The pool that a VM could come from.
pub open spec fn shape_of(spec: VmSpec) -> KeyView {
    KeyView {
        image_key: spec.image_key@,
        cpu_milli: spec.resources.cpu_milli,
        memory_mb: spec.resources.memory_mb,
        disk_gb: spec.resources.disk_gb,
    }
}

/// Claim a warm VM for a sandbox. A warm VM was booted without the sandbox's
/// volumes, so that one with volumes claims none.
pub fn claim_warm(pools: &mut HotPools, spec: &VmSpec) -> (r: Option<WarmVm>)
    ensures
        spec.volumes@.len() > 0 ==> *final(pools) == *old(pools),
        forall|k: KeyView|
            #![trigger final(pools).configured(k)]
            final(pools).configured(k) == old(pools).configured(k),
        forall|k: KeyView|
            #![trigger final(pools).target_of(k)]
            final(pools).target_of(k) == old(pools).target_of(k),
        r is Some <==> spec.volumes@.len() == 0 && old(pools).queue_of(shape_of(*spec)).len() > 0,
        r matches Some(w) ==> {
            &&& w.handle@ == old(pools).queue_of(shape_of(*spec))[0]
            &&& w.image_key@ == spec.image_key@
            &&& w.resources == spec.resources
        },
        forall|k: KeyView|
            #![trigger final(pools).queue_of(k)]
            final(pools).queue_of(k) == if k == shape_of(*spec) && r is Some {
                old(pools).queue_of(k).subrange(1, old(pools).queue_of(k).len() as int)
            } else {
                old(pools).queue_of(k)
            },
{
    if spec.volumes.len() > 0 {
        return None;
    }
    let key = ShapeKey::new(spec.image_key.as_str(), &spec.resources);
    match pools.claim(&key) {
        Some(handle) => Some(
            WarmVm { handle, image_key: spec.image_key.clone(), resources: spec.resources },
        ),
        None => None,
    }
}

// ---------------------------------------------------------------------------
// Routing
// ---------------------------------------------------------------------------

/// Which node serves a sandbox.
#[derive(Debug)]
pub enum Route {
    Local,
    /// The base URL of another node.
    Remote(String),
}

/// The base URL of a node's address: with a scheme, and without trailing slashes.
pub open spec fn base_url(addr: Seq<char>) -> Seq<char> {
    trim_back_of(
        if has_prefix(addr, "http://"@) || has_prefix(addr, "https://"@) {
            addr
        } else {
            "http://"@ + addr
        },
        '/',
    )
}

/// The base URL of a node's address.
pub fn node_base(addr: &str) -> (r: String)
    ensures
        r@ == base_url(addr@),
{
    if starts_with(addr, "http://") || starts_with(addr, "https://") {
        trim_end_of(addr, '/')
    } else {
        trim_end_of(concat2("http://", addr).as_str(), '/')
    }
}

/// The node that serves a sandbox: another one if it is registered with an
/// address, else this one.
pub fn node_for(node_id: &str, local_id: &str, found: &Option<Node>) -> (r: Route)
    ensures
        match *found {
            Some(n) if node_id@ != local_id@ && n.advertise_addr@.len() > 0 => r matches Route::Remote(
                url,
            ) && url@ == base_url(n.advertise_addr@),
            _ => r is Local,
        },
{
    if same(node_id, local_id) {
        return Route::Local;
    }
    match found {
        Some(n) => {
            if n.advertise_addr.as_str().is_empty() {
                Route::Local
            } else {
                Route::Remote(node_base(n.advertise_addr.as_str()))
            }
        },
        None => Route::Local,
    }
}

/// The id of this node: the configured one, else the one that was stored, else a
/// fresh one, which is then to be stored.
pub fn resolve_node_id(configured: &str, stored: Option<String>, fresh: String) -> (r: (String, bool))
    ensures
        r.0@ == (if configured@.len() > 0 {
            configured@
        } else {
            match stored {
                Some(s) => s@,
                None => fresh@,
            }
        }),
        r.1 == (configured@.len() == 0 && stored is None),
{
    if !configured.is_empty() {
        return (String::from_str(configured), false);
    }
    match stored {
        Some(s) => (s, false),
        None => (fresh, true),
    }
}

/// The record of this node as it starts: its memory as configured or found, the
/// address it is reached at, and whether it can host VMs, which the development
/// runtime always can.
pub fn local_node(
    cfg: &Config,
    kind: RuntimeKind,
    id: String,
    hostname: String,
    meminfo: &str,
    kvm_present: bool,
    now: Nanos,
) -> (r: Node)
    ensures
        r.id@ == id@,
        r.hostname@ == hostname@,
        r.role@ == cfg.node.role@,
        r.total_memory_kb == (if cfg.node.total_memory_kb > 0 {
            cfg.node.total_memory_kb as int
        } else {
            match meminfo_total(line_list(meminfo@), 0) {
                Some(n) => n as int,
                None => FALLBACK_MEMORY_KB as int,
            }
        }),
        r.advertise_addr@ == (if cfg.node.advertise_addr@.len() > 0 {
            cfg.node.advertise_addr@
        } else {
            cfg.server.bind@
        }),
        r.schedulable,
        !r.draining,
        r.kvm_ok == (kind is Mock || kvm_present),
        r.registered_at == now,
        r.last_heartbeat_at == now,
{
    Node {
        id,
        hostname,
        role: cfg.node.role.clone(),
        total_memory_kb: total_memory_kb(cfg.node.total_memory_kb, meminfo),
        advertise_addr: first_nonempty(
            cfg.node.advertise_addr.as_str(),
            cfg.server.bind.as_str(),
        ),
        schedulable: true,
        draining: false,
        kvm_ok: kind == RuntimeKind::Mock || kvm_present,
        registered_at: now,
        last_heartbeat_at: now,
    }
}

/// What is reported when another node answers with an error.
pub open spec fn remote_failure(
    node_id: Seq<char>,
    path: Seq<char>,
    status: Seq<char>,
    msg: Seq<char>,
) -> Seq<char> {
    "remote node "@ + node_id + " "@ + path + " -> "@ + status + ": "@ + msg
}

/// What is reported when another node answers with an error: the status as it is
/// shown, and the text that came with it.
pub fn remote_error(node_id: &str, path: &str, status: &str, msg: &str) -> (r: String)
    ensures
        r@ == remote_failure(node_id@, path@, status@, msg@),
{
    let mut s = concat3("remote node ", node_id, " ");
    s.append(path);
    s.append(" -> ");
    s.append(status);
    s.append(": ");
    s.append(msg);
    s
}

/// An answer of another node: its status as a number and as it is shown, the text
/// that came with it, and the bytes of that text.
#[derive(Debug)]
pub struct RemoteReply {
    pub code: u16,
    pub status: String,
    pub text: String,
    pub body: Vec<u8>,
}

impl RemoteReply {
    /// The node did what it was asked.
    pub open spec fn good(self) -> bool {
        200 <= self.code < 300
    }
}

/// Did another node do what it was asked?
pub fn remote_outcome(node_id: &str, path: &str, reply: &RemoteReply) -> (r: Result<(), NodeError>)
    ensures
        r is Ok <==> reply.good(),
        r matches Err(e) ==> e matches NodeError::Failed(m) && m@ == remote_failure(
            node_id@,
            path@,
            reply.status@,
            reply.text@,
        ),
{
    if reply.code >= 200 && reply.code < 300 {
        return Ok(());
    }
    Err(
        NodeError::Failed(
            remote_error(node_id, path, reply.status.as_str(), reply.text.as_str()),
        ),
    )
}

/// What a request for a file on another node comes to, given the base64 text that
/// stands for the file in the answer. A file that is not there is told from other
/// failures.
pub open spec fn remote_bytes(
    node_id: Seq<char>,
    file: Seq<char>,
    reply: RemoteReply,
    data_b64: Seq<char>,
    r: Result<Vec<u8>, NodeError>,
) -> bool {
    match r {
        Ok(bytes) => reply.good() && decoded(data_b64) == Some(bytes@),
        Err(NodeError::FileNotFound(p)) => reply.code == 404 && p@ == file,
        Err(NodeError::Failed(m)) => reply.code != 404 && if reply.good() {
            decoded(data_b64) is None && m@ == "invalid base64"@
        } else {
            m@ == remote_failure(node_id, "/internal/read_file"@, reply.status@, reply.text@)
        },
    }
}

/// The bytes of a file on another node, given the base64 text in its answer.
pub fn remote_file(node_id: &str, file: &str, reply: &RemoteReply, data_b64: &str) -> (r: Result<
    Vec<u8>,
    NodeError,
>)
    ensures
        remote_bytes(node_id@, file@, *reply, data_b64@, r),
{
    if reply.code == 404 {
        return Err(file_not_found(file));
    }
    match remote_outcome(node_id, "/internal/read_file", reply) {
        Err(e) => Err(e),
        Ok(_) => match decode(data_b64) {
            Some(bytes) => Ok(bytes),
            None => Err(NodeError::Failed(String::from_str("invalid base64"))),
        },
    }
}

/// The bytes of a file on another node, by its answer. An answer that holds no text
/// for the file stands for an empty one.
pub fn remote_file_answer(node_id: &str, file: &str, reply: &RemoteReply) -> (r: Result<
    Vec<u8>,
    NodeError,
>)
    ensures
        remote_bytes(
            node_id@,
            file@,
            *reply,
            text_or(json_text(reply.body@, "data_b64"@), ""@),
            r,
        ),
{
    let data = or_text(text_under(reply.body.as_slice(), "data_b64"), "");
    remote_file(node_id, file, reply, data.as_str())
}

/// The number under a key of another node's answer, such as how long a resume took:
/// zero where there is none.
pub fn remote_count(reply: &RemoteReply, key: &str) -> (r: u64)
    ensures
        r == (match json_count(reply.body@, key@) {
            Some(n) => n,
            None => 0u64,
        }),
{
    match count_under(reply.body.as_slice(), key) {
        Some(n) => n,
        None => 0,
    }
}

/// The entries of a directory on another node, as JSON text.
pub fn remote_entries(reply: &RemoteReply) -> (r: String)
    ensures
        r@ == text_or(json_part(reply.body@, "entries"@), "[]"@),
{
    or_text(part_under(reply.body.as_slice(), "entries"), "[]")
}

/// The address at which another node exposes a port.
pub fn remote_addr(reply: &RemoteReply) -> (r: Result<String, String>)
    ensures
        match json_text(reply.body@, "addr"@) {
            Some(a) => r matches Ok(t) && t@ == a,
            None => r matches Err(e) && e@ == "no addr"@,
        },
{
    match text_under(reply.body.as_slice(), "addr") {
        Some(a) => Ok(a),
        None => Err(String::from_str("no addr")),
    }
}

} // verus!
