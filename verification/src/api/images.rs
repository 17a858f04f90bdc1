//! Custom images: requests, and the simulated build of the development runtime.

use crate::admission::fault;
use crate::auth::AuthContext;
use crate::error::{ApiError, ApiResult, ErrorView};
use crate::ids::{image_id, is_id};
use crate::images::{
    CreateImageRequest, CreateImageSource, CustomImage, ImageSource, ImageStatus,
};
use crate::nodes::Nanos;
use crate::text::{chars_of, concat2, concat3, has_prefix, same, starts_with, string_of};
use crate::time::{date_of, date_text};
use vstd::prelude::*;
use vstd::string::*;

verus! {

/// Why an image is not built.
pub open spec fn create_fault(req: CreateImageRequest) -> Option<ErrorView> {
    let src = req.source;
    if !has_prefix(req.name@, "custom/"@) {
        Some(ErrorView::BadRequest("image name must be 'custom/<org>/<name>'"@))
    } else if src.source_type@ == "dockerfile"@ {
        if src.context_url is None {
            Some(ErrorView::BadRequest("dockerfile source needs context_url"@))
        } else {
            None
        }
    } else if src.source_type@ == "oci"@ {
        if src.image_ref is None {
            Some(ErrorView::BadRequest("oci source needs image_ref"@))
        } else {
            None
        }
    } else {
        Some(ErrorView::BadRequest("unknown source type '"@ + src.source_type@ + "'"@))
    }
}

/// What an image is built from.
pub open spec fn source_of(r: ImageSource, src: CreateImageSource) -> bool {
    if src.source_type@ == "dockerfile"@ {
        &&& r matches ImageSource::Dockerfile { context_url, dockerfile }
        &&& src.context_url == Some(context_url)
        &&& dockerfile@ == (match src.dockerfile {
            Some(d) => d@,
            None => "Dockerfile"@,
        })
    } else {
        r matches ImageSource::Oci { image_ref } && src.image_ref == Some(image_ref)
    }
}

/// The moment so many seconds after another, as far as moments reach.
pub open spec fn later(now: Nanos, seconds: u64) -> Nanos {
    if now + seconds * 1_000_000_000 <= i64::MAX {
        (now + seconds * 1_000_000_000) as Nanos
    } else {
        i64::MAX
    }
}

fn after_seconds(now: Nanos, seconds: u64) -> (r: Nanos)
    ensures
        r == later(now, seconds),
{
    let t: i128 = now as i128 + seconds as i128 * 1_000_000_000;
    if t <= i64::MAX as i128 {
        t as i64
    } else {
        i64::MAX
    }
}

/// When an image expires: an ephemeral one after its lifetime, an hour by default.
pub open spec fn expiry(req: CreateImageRequest, now: Nanos) -> Option<Nanos> {
    if req.ephemeral {
        Some(
            later(
                now,
                match req.ttl_seconds {
                    Some(t) => t,
                    None => 3600,
                },
            ),
        )
    } else {
        None
    }
}

/// A version: the date and six digits of a fresh id.
pub open spec fn is_version(v: Seq<char>, now: Nanos) -> bool {
    exists|id: Seq<char>| #[trigger]
        is_id(id, "img_"@, 6) && v == date_of(now) + "-"@ + id.subrange(4, 10)
}

fn fresh_version(now: Nanos) -> (r: String)
    ensures
        is_version(r@, now),
{
    let id = image_id();
    proof {
        crate::ids::law_id_length(id@, "img_"@, 6);
        reveal_strlit("img_");
    }
    let v = chars_of(id.as_str());
    let tail = string_of(&v, 4, 10);
    let mut s = date_text(now);
    s.append("-");
    s.append(tail.as_str());
    assert(is_id(id@, "img_"@, 6) && s@ == date_of(now) + "-"@ + id@.subrange(4, 10));
    s
}

/// The image of a request, queued to be built. Nothing is built or pulled while a
/// sandbox is created.
pub fn create(ctx: &AuthContext, req: CreateImageRequest, now: Nanos) -> (r: ApiResult<CustomImage>)
    ensures
        fault(r) == create_fault(req),
        r matches Ok(img) ==> {
            &&& is_id(img.id@, "img_"@, 6)
            &&& img.org_id@ == ctx.org_id@
            &&& img.name@ == req.name@
            &&& is_version(img.version@, now)
            &&& source_of(img.source, req.source)
            &&& img.status == ImageStatus::Building
            &&& img.resources_hint == req.resources_hint
            &&& img.build_log@ == "queued\n"@
            &&& img.first_node_cache_miss_ms is None
            &&& img.storage_bytes == 0
            &&& img.ephemeral == req.ephemeral
            &&& img.expires_at == expiry(req, now)
            &&& img.created_at == now
            &&& img.updated_at == now
        },
{
    if !starts_with(req.name.as_str(), "custom/") {
        return Err(
            ApiError::BadRequest(String::from_str("image name must be 'custom/<org>/<name>'")),
        );
    }
    let src = req.source;
    let source = if same(src.source_type.as_str(), "dockerfile") {
        let context_url = match src.context_url {
            Some(u) => u,
            None => {
                return Err(
                    ApiError::BadRequest(String::from_str("dockerfile source needs context_url")),
                );
            },
        };
        let dockerfile = match src.dockerfile {
            Some(d) => d,
            None => String::from_str("Dockerfile"),
        };
        ImageSource::Dockerfile { context_url, dockerfile }
    } else if same(src.source_type.as_str(), "oci") {
        match src.image_ref {
            Some(image_ref) => ImageSource::Oci { image_ref },
            None => {
                return Err(ApiError::BadRequest(String::from_str("oci source needs image_ref")));
            },
        }
    } else {
        return Err(
            ApiError::BadRequest(
                concat3("unknown source type '", src.source_type.as_str(), "'"),
            ),
        );
    };
    let expires_at: Option<Nanos> = if req.ephemeral {
        let ttl: u64 = match req.ttl_seconds {
            Some(t) => t,
            None => 3600,
        };
        Some(after_seconds(now, ttl))
    } else {
        None
    };
    Ok(
        CustomImage {
            id: image_id(),
            org_id: ctx.org_id.clone(),
            name: req.name,
            version: fresh_version(now),
            source,
            status: ImageStatus::Building,
            resources_hint: req.resources_hint,
            build_log: String::from_str("queued\n"),
            first_node_cache_miss_ms: None,
            storage_bytes: 0,
            ephemeral: req.ephemeral,
            expires_at,
            created_at: now,
            updated_at: now,
        },
    )
}

/// Why a caller does not get at an image. Another org's is answered like one that
/// does not exist.
pub open spec fn owned_fault(
    ctx: AuthContext,
    id: Seq<char>,
    found: Result<Option<CustomImage>, String>,
) -> Option<ErrorView> {
    match found {
        Err(e) => Some(ErrorView::Internal(e@)),
        Ok(Some(i)) if i.org_id@ == ctx.org_id@ || ctx.admin => None,
        _ => Some(ErrorView::NotFound("image "@ + id)),
    }
}

/// The image that was found, if it is the caller's.
pub fn load_owned(ctx: &AuthContext, id: &str, found: Result<Option<CustomImage>, String>) -> (r: ApiResult<
    CustomImage,
>)
    ensures
        fault(r) == owned_fault(*ctx, id@, found),
        r matches Ok(i) ==> found == Ok::<Option<CustomImage>, String>(Some(i)),
{
    match found {
        Err(e) => Err(ApiError::Internal(e)),
        Ok(None) => Err(ApiError::NotFound(concat2("image ", id))),
        Ok(Some(i)) => {
            if same(i.org_id.as_str(), ctx.org_id.as_str()) || ctx.admin {
                Ok(i)
            } else {
                Err(ApiError::NotFound(concat2("image ", id)))
            }
        },
    }
}

/// The image that was found, if it is of the org whose dashboard asks.
pub fn owned_image(org: &str, id: &str, found: Result<Option<CustomImage>, String>) -> (r: ApiResult<
    CustomImage,
>)
    ensures
        fault(r) == (match found {
            Err(e) => Some(ErrorView::Internal(e@)),
            Ok(Some(i)) if i.org_id@ == org@ => None,
            _ => Some(ErrorView::NotFound("image "@ + id@)),
        }),
        r matches Ok(i) ==> found == Ok::<Option<CustomImage>, String>(Some(i)),
{
    match found {
        Err(e) => Err(ApiError::Internal(e)),
        Ok(None) => Err(ApiError::NotFound(concat2("image ", id))),
        Ok(Some(i)) => {
            if !same(i.org_id.as_str(), org) {
                return Err(ApiError::NotFound(concat2("image ", id)));
            }
            Ok(i)
        },
    }
}

/// Withdraw an image: no new sandbox gets it, and those that run it go on.
pub fn delete(img: &mut CustomImage, now: Nanos)
    ensures
        *final(img) == (CustomImage {
            status: ImageStatus::Deleted,
            updated_at: now,
            ..*old(img)
        }),
{
    img.status = ImageStatus::Deleted;
    img.updated_at = now;
}

// ---------------------------------------------------------------------------
// The simulated build
// ---------------------------------------------------------------------------

/// One step of a simulated build, and the milliseconds it stands for.
#[derive(Debug, Clone, Copy)]
pub struct SimulatedStep {
    pub what: &'static str,
    pub ms: u64,
}

/// The steps of a simulated build.
pub fn simulated_steps() -> (r: Vec<SimulatedStep>)
    ensures
        r@.len() == 8,
        r@[0].what@ == "fetching build context"@ && r@[0].ms == 150,
        r@[1].what@ == "building rootfs"@ && r@[1].ms == 600,
        r@[2].what@ == "injecting guest agent"@ && r@[2].ms == 120,
        r@[3].what@ == "validating guest agent"@ && r@[3].ms == 120,
        r@[4].what@ == "scanning for blocked capabilities"@ && r@[4].ms == 200,
        r@[5].what@ == "booting + health check"@ && r@[5].ms == 400,
        r@[6].what@ == "scrubbing secrets and machine-id"@ && r@[6].ms == 100,
        r@[7].what@ == "publishing immutable version"@ && r@[7].ms == 120,
{
    vec![
        SimulatedStep { what: "fetching build context", ms: 150 },
        SimulatedStep { what: "building rootfs", ms: 600 },
        SimulatedStep { what: "injecting guest agent", ms: 120 },
        SimulatedStep { what: "validating guest agent", ms: 120 },
        SimulatedStep { what: "scanning for blocked capabilities", ms: 200 },
        SimulatedStep { what: "booting + health check", ms: 400 },
        SimulatedStep { what: "scrubbing secrets and machine-id", ms: 100 },
        SimulatedStep { what: "publishing immutable version", ms: 120 },
    ]
}

/// The size that a simulated artifact is said to take, in bytes.
pub const SIMULATED_BYTES: u64 = 503_316_480;

} // verus!
