//! Custom image registry types. Custom images are built or imported
//! asynchronously and never on the create path.

use crate::knobs::ResourcesRequest;
use crate::nodes::Nanos;
use crate::text::concat3;
use vstd::prelude::*;
use vstd::string::*;

verus! {

#[derive(Debug, Clone, Copy, PartialEq, Eq, Structural)]
pub enum ImageStatus {
    /// Build or import in progress.
    Building,
    /// Published immutable version, usable for sandbox create.
    Ready,
    /// Build failed; previous versions remain usable.
    Failed,
    /// Soft-deleted: prevents new creates, does not kill running sandboxes.
    Deleted,
}

impl ImageStatus {
    /// The wire name.
    pub open spec fn name(self) -> Seq<char> {
        match self {
            ImageStatus::Building => "building"@,
            ImageStatus::Ready => "ready"@,
            ImageStatus::Failed => "failed"@,
            ImageStatus::Deleted => "deleted"@,
        }
    }

    pub fn as_str(&self) -> (r: &'static str)
        ensures
            r@ == self.name(),
    {
        match self {
            ImageStatus::Building => "building",
            ImageStatus::Ready => "ready",
            ImageStatus::Failed => "failed",
            ImageStatus::Deleted => "deleted",
        }
    }
}

#[derive(Debug)]
pub enum ImageSource {
    /// Build from a Dockerfile and a build context tarball URL.
    Dockerfile { context_url: String, dockerfile: String },
    /// Import a pre-built OCI image reference.
    Oci { image_ref: String },
}

/// The file name a Dockerfile source has when none is given.
pub fn default_dockerfile() -> (r: String)
    ensures
        r@ == "Dockerfile"@,
{
    String::from_str("Dockerfile")
}

/// A shape that a custom image asks for.
pub type ResourcesHint = ResourcesRequest;

#[derive(Debug)]
pub struct CustomImage {
    pub id: String,
    pub org_id: String,
    /// Canonical name `custom/<org>/<name>`.
    pub name: String,
    /// Immutable version string.
    pub version: String,
    pub source: ImageSource,
    pub status: ImageStatus,
    pub resources_hint: ResourcesHint,
    /// Build and import log lines.
    pub build_log: String,
    /// First-node image cache miss time, once measured.
    pub first_node_cache_miss_ms: Option<u64>,
    /// Stored artifact size.
    pub storage_bytes: u64,
    /// Collected after `expires_at` once no active sandbox uses the image.
    pub ephemeral: bool,
    pub expires_at: Option<Nanos>,
    pub created_at: Nanos,
    pub updated_at: Nanos,
}

impl CustomImage {
    /// `custom/<org>/<name>:<version>`.
    pub open spec fn full_name(self) -> Seq<char> {
        self.name@ + seq![':'] + self.version@
    }

    /// Full reference used in sandbox create.
    pub fn reference(&self) -> (r: String)
        ensures
            r@ == self.full_name(),
    {
        proof {
            reveal_strlit(":");
            assert(":"@ =~= seq![':']);
        }
        concat3(self.name.as_str(), ":", self.version.as_str())
    }
}

/// A request for a custom image.
#[derive(Debug)]
pub struct CreateImageRequest {
    pub source: CreateImageSource,
    pub name: String,
    pub resources_hint: ResourcesHint,
    /// Build an image that is collected after `ttl_seconds` once unused.
    pub ephemeral: bool,
    /// Lifetime of an ephemeral image (default one hour).
    pub ttl_seconds: Option<u64>,
}

#[derive(Debug)]
pub struct CreateImageSource {
    pub source_type: String,
    pub context_url: Option<String>,
    pub dockerfile: Option<String>,
    pub image_ref: Option<String>,
}

} // verus!
