//! Interactive sessions.

use crate::admission::fault;
use crate::error::{ApiError, ApiResult, ErrorView};
use crate::model::Sandbox;
use crate::text::{concat2, same};
use vstd::prelude::*;
use vstd::string::*;

verus! {

/// Why no session is opened in a sandbox: it does not run, it has no VM, or the VM
/// is on another node.
pub open spec fn pty_fault(sb: Sandbox, local_id: Seq<char>) -> Option<ErrorView> {
    if !sb.state.active() {
        Some(ErrorView::Conflict("sandbox is "@ + sb.state.name()))
    } else if sb.runtime_handle is None {
        Some(ErrorView::Conflict("no runtime handle"@))
    } else if !(sb.node_id matches Some(n) && n@ == local_id) {
        Some(
            ErrorView::BadRequest("PTY is only available for sandboxes on the local node"@),
        )
    } else {
        None
    }
}

/// The VM in which a session is opened.
pub fn pty_handle(sb: &Sandbox, local_id: &str) -> (r: ApiResult<String>)
    ensures
        fault(r) == pty_fault(*sb, local_id@),
        r matches Ok(h) ==> sb.runtime_handle == Some(h),
{
    if !sb.state.is_active() {
        return Err(ApiError::Conflict(concat2("sandbox is ", sb.state.as_str())));
    }
    let handle = match &sb.runtime_handle {
        Some(h) => h.clone(),
        None => return Err(ApiError::Conflict(String::from_str("no runtime handle"))),
    };
    let local = match &sb.node_id {
        Some(n) => same(n.as_str(), local_id),
        None => false,
    };
    if !local {
        return Err(
            ApiError::BadRequest(
                String::from_str("PTY is only available for sandboxes on the local node"),
            ),
        );
    }
    Ok(handle)
}

} // verus!
