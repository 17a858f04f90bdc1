//! Persistent volumes: org-scoped block storage that outlives the sandboxes it is
//! attached to.

use crate::admission::fault;
use crate::auth::AuthContext;
use crate::error::{ApiError, ApiResult, ErrorView};
use crate::model::{CreateVolumeRequest, Volume};
use crate::nodes::Nanos;
use crate::numeral::{decimal, to_decimal};
use crate::text::{ascii_alnum, chars_of, concat2, concat3, is_alnum, same, str_views, strings, views};
use vstd::prelude::*;
use vstd::string::*;

verus! {

/// A volume's name: 1 to 64 letters, digits, dashes and underscores.
pub open spec fn is_volume_name(s: Seq<char>) -> bool {
    &&& 1 <= s.len() <= 64
    &&& forall|i: int| 0 <= i < s.len() ==> is_alnum(#[trigger] s[i]) || s[i] == '-' || s[i] == '_'
}

/// Can a volume have this name?
pub fn valid_name(name: &str) -> (r: bool)
    ensures
        r == is_volume_name(name@),
{
    let v = chars_of(name);
    if v.len() == 0 || v.len() > 64 {
        return false;
    }
    let mut i: usize = 0;
    while i < v.len()
        invariant
            i <= v@.len(),
            v@ == name@,
            forall|k: int| 0 <= k < i ==> is_alnum(#[trigger] v@[k]) || v@[k] == '-' || v@[k]
                == '_',
        decreases v@.len() - i,
    {
        if !(ascii_alnum(v[i]) || v[i] == '-' || v[i] == '_') {
            assert(!(is_alnum(name@[i as int]) || name@[i as int] == '-' || name@[i as int]
                == '_'));
            return false;
        }
        i = i + 1;
    }
    true
}

/// The sizes that volumes come in, in GiB, so that they pack predictably.
pub open spec fn allowed_size(gb: u32) -> bool {
    gb == 1 || gb == 5 || gb == 10 || gb == 20 || gb == 50 || gb == 100 || gb == 250
}

/// Why a volume is not created.
pub open spec fn create_fault(req: CreateVolumeRequest, name_taken: Result<bool, String>) -> Option<
    ErrorView,
> {
    if !is_volume_name(req.name@) {
        Some(
            ErrorView::BadRequest(
                "volume name must be 1–64 chars of letters, digits, '-' or '_'"@,
            ),
        )
    } else if !allowed_size(req.size_gb) {
        Some(
            ErrorView::BadRequest(
                "size_gb="@ + decimal(req.size_gb as nat)
                    + " is not allowed; choose one of [1, 5, 10, 20, 50, 100, 250] GB"@,
            ),
        )
    } else {
        match name_taken {
            Err(e) => Some(ErrorView::Internal(e@)),
            Ok(true) => Some(
                ErrorView::Conflict("a volume named '"@ + req.name@ + "' already exists"@),
            ),
            Ok(false) => None,
        }
    }
}

/// The volume of a request, not attached to anything.
pub fn create(
    ctx: &AuthContext,
    req: CreateVolumeRequest,
    name_taken: Result<bool, String>,
    id: String,
    now: Nanos,
) -> (r: ApiResult<Volume>)
    ensures
        fault(r) == create_fault(req, name_taken),
        r matches Ok(v) ==> {
            &&& v.id@ == id@
            &&& v.org_id@ == ctx.org_id@
            &&& v.name@ == req.name@
            &&& v.size_gb == req.size_gb
            &&& v.attached_to is None
            &&& v.created_at == now
            &&& v.updated_at == now
        },
{
    if !valid_name(req.name.as_str()) {
        return Err(
            ApiError::BadRequest(
                String::from_str("volume name must be 1–64 chars of letters, digits, '-' or '_'"),
            ),
        );
    }
    let gb: u32 = req.size_gb;
    if !(gb == 1 || gb == 5 || gb == 10 || gb == 20 || gb == 50 || gb == 100 || gb == 250) {
        return Err(
            ApiError::BadRequest(
                concat3(
                    "size_gb=",
                    to_decimal(gb as u64).as_str(),
                    " is not allowed; choose one of [1, 5, 10, 20, 50, 100, 250] GB",
                ),
            ),
        );
    }
    match name_taken {
        Err(e) => return Err(ApiError::Internal(e)),
        Ok(taken) => {
            if taken {
                return Err(
                    ApiError::Conflict(
                        concat3("a volume named '", req.name.as_str(), "' already exists"),
                    ),
                );
            }
        },
    }
    Ok(
        Volume {
            id,
            org_id: ctx.org_id.clone(),
            name: req.name,
            size_gb: gb,
            attached_to: None,
            created_at: now,
            updated_at: now,
        },
    )
}

/// The bytes of a volume's backing image.
pub fn image_bytes(size_gb: u32) -> (r: u64)
    ensures
        r == size_gb * 1_073_741_824,
{
    size_gb as u64 * 1_073_741_824
}

/// The command that formats a volume's backing image, with a label by which the
/// guest finds it whatever device it becomes.
pub fn format_command(path: &str, label: &str) -> (r: Vec<String>)
    ensures
        views(r@) == seq!["mkfs.ext4"@, "-F"@, "-q"@, "-L"@, label@, path@],
{
    let argv: [&str; 6] = ["mkfs.ext4", "-F", "-q", "-L", label, path];
    let out = strings(&argv);
    assert(str_views(argv@) =~= seq!["mkfs.ext4"@, "-F"@, "-q"@, "-L"@, label@, path@]);
    out
}

/// Why a caller does not get at a volume. Another org's is answered like one that
/// does not exist.
pub open spec fn owned_fault(ctx: AuthContext, id: Seq<char>, found: Result<Option<Volume>, String>) -> Option<
    ErrorView,
> {
    match found {
        Err(e) => Some(ErrorView::Internal(e@)),
        Ok(Some(v)) if v.org_id@ == ctx.org_id@ || ctx.admin => None,
        _ => Some(ErrorView::NotFound("volume "@ + id)),
    }
}

/// The volume that was found, if it is the caller's.
pub fn load_owned(ctx: &AuthContext, id: &str, found: Result<Option<Volume>, String>) -> (r: ApiResult<
    Volume,
>)
    ensures
        fault(r) == owned_fault(*ctx, id@, found),
        r matches Ok(v) ==> found == Ok::<Option<Volume>, String>(Some(v)),
{
    match found {
        Err(e) => Err(ApiError::Internal(e)),
        Ok(None) => Err(ApiError::NotFound(concat2("volume ", id))),
        Ok(Some(v)) => {
            if same(v.org_id.as_str(), ctx.org_id.as_str()) || ctx.admin {
                Ok(v)
            } else {
                Err(ApiError::NotFound(concat2("volume ", id)))
            }
        },
    }
}

/// Why a volume is not deleted: a sandbox still holds it.
pub open spec fn held_fault(v: Volume) -> Option<ErrorView> {
    match v.attached_to {
        Some(s) => Some(
            ErrorView::Conflict(
                "volume is attached to sandbox "@ + s@
                    + "; delete or stop that sandbox first"@,
            ),
        ),
        None => None,
    }
}

/// May the volume be deleted?
pub fn check_delete(v: &Volume) -> (r: ApiResult<()>)
    ensures
        fault(r) == held_fault(*v),
{
    match &v.attached_to {
        Some(s) => Err(
            ApiError::Conflict(
                concat3(
                    "volume is attached to sandbox ",
                    s.as_str(),
                    "; delete or stop that sandbox first",
                ),
            ),
        ),
        None => Ok(()),
    }
}

} // verus!
