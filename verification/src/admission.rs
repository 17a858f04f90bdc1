//! Who may create a sandbox, and of what kind: the checks that a create request
//! passes before anything is reserved, in the order in which they refuse.

use crate::auth::AuthContext;
use crate::base64::{decode, decoded};
use crate::catalog::{classify, known_image, law_class_is_unique, unknown_image, ImageClass};
use crate::envmap::EnvMap;
use crate::error::{ApiError, ApiResult, ErrorView};
use crate::knobs::{
    auto_stop_of, auto_stop_refusal, filled, milli_text, shape_refusal, show_milli,
    validate_auto_stop, Resources, ResourcesRequest, AUTO_STOP_MAX_S, AUTO_STOP_MIN_S,
};
use crate::model::{
    policy_fault, BrowserConfig, CodingAgentConfig, CreateSandboxRequest, DockerConfig,
    EphemeralFile, MountSpec, StartupRecipe, Volume, VolumeAttach, VolumeAttachRequest,
};
use crate::numeral::{decimal, to_decimal};
use crate::secrets::{
    decrypt, decrypted, has_fitting_nonce, nonce_fits, SecretError, SecretRecord,
};
use crate::text::{concat2, concat3, has_prefix, same, starts_with, views};
use crate::usage::{Org, OrgStatus};
use vstd::prelude::*;
use vstd::string::*;
use vstd::utf8::*;

verus! {

/// The error that a result reports.
pub open spec fn fault<T>(r: ApiResult<T>) -> Option<ErrorView> {
    match r {
        Ok(_) => None,
        Err(e) => Some(e@),
    }
}

/// The first error of two checks.
pub open spec fn either(a: Option<ErrorView>, b: Option<ErrorView>) -> Option<ErrorView> {
    if a is Some {
        a
    } else {
        b
    }
}

fn refuse<T>(m: &str) -> (r: ApiResult<T>)
    ensures
        fault(r) == Some(ErrorView::BadRequest(m@)),
{
    Err(ApiError::BadRequest(String::from_str(m)))
}

// ---------------------------------------------------------------------------
// The org
// ---------------------------------------------------------------------------

/// Why an org may not create sandboxes at all.
pub open spec fn org_fault(admin: bool, org: Result<Option<Org>, String>) -> Option<ErrorView> {
    match org {
        Err(e) => Some(ErrorView::Internal(e@)),
        Ok(None) => Some(ErrorView::Unauthorized),
        Ok(Some(o)) => if o.status == OrgStatus::Suspended {
            Some(ErrorView::Forbidden("org suspended"@))
        } else if !admin && o.balance() <= 0 {
            Some(ErrorView::Forbidden("no prepaid credits remaining"@))
        } else {
            None
        },
    }
}

/// Amounts of the org are in range, as far as there is one.
pub open spec fn org_in_range(org: Result<Option<Org>, String>) -> bool {
    org matches Ok(Some(o)) ==> o.wf()
}

/// May the org create sandboxes? A suspended one may not, nor one without
/// credits, unless the key is an admin's.
pub fn check_org(admin: bool, org: Result<Option<Org>, String>) -> (r: ApiResult<Org>)
    requires
        org_in_range(org),
    ensures
        fault(r) == org_fault(admin, org),
        r matches Ok(o) ==> org == Ok::<Option<Org>, String>(Some(o)),
{
    match org {
        Err(e) => Err(ApiError::Internal(e)),
        Ok(None) => Err(ApiError::Unauthorized),
        Ok(Some(o)) => {
            if o.status == OrgStatus::Suspended {
                return Err(ApiError::Forbidden(String::from_str("org suspended")));
            }
            if !admin && o.balance_usd() <= 0 {
                return Err(ApiError::Forbidden(String::from_str("no prepaid credits remaining")));
            }
            Ok(o)
        },
    }
}

// ---------------------------------------------------------------------------
// The image
// ---------------------------------------------------------------------------

/// The image that a request names; the base image when it names none.
pub open spec fn image_text(image: Option<String>) -> Seq<char> {
    match image {
        Some(i) => i@,
        None => "base"@,
    }
}

/// The published image that a request for a custom one needs.
pub open spec fn custom_reference(image: Option<String>, version: Option<String>) -> Seq<char> {
    match version {
        Some(v) => image_text(image) + ":"@ + v@,
        None => image_text(image),
    }
}

/// Why an image cannot be used. A custom image is never built on create: it must
/// have been published.
pub open spec fn image_fault(
    image: Option<String>,
    version: Option<String>,
    published: Result<bool, String>,
) -> Option<ErrorView> {
    if !known_image(image_text(image)) {
        Some(ErrorView::BadRequest(unknown_image(image_text(image))))
    } else if has_prefix(image_text(image), "custom/"@) {
        match published {
            Err(e) => Some(ErrorView::Internal(e@)),
            Ok(true) => None,
            Ok(false) => Some(
                ErrorView::BadRequest(
                    "custom image '"@ + custom_reference(image, version)
                        + "' is not published; create and wait for it via POST /v1/images"@,
                ),
            ),
        }
    } else {
        None
    }
}

/// The reference under which a requested image is looked up.
pub fn image_reference(image: &Option<String>, version: &Option<String>) -> (r: String)
    ensures
        r@ == custom_reference(*image, *version),
{
    let base = match image {
        Some(i) => i.clone(),
        None => String::from_str("base"),
    };
    match version {
        Some(v) => concat3(base.as_str(), ":", v.as_str()),
        None => base,
    }
}

/// The image of a request and its class.
pub fn check_image(
    image: &Option<String>,
    version: &Option<String>,
    published: Result<bool, String>,
) -> (r: ApiResult<(String, ImageClass)>)
    ensures
        fault(r) == image_fault(*image, *version, published),
        r matches Ok((name, class)) ==> name@ == image_text(*image) && class.named(name@),
{
    let name = match image {
        Some(i) => i.clone(),
        None => String::from_str("base"),
    };
    let class = match classify(name.as_str()) {
        Ok(c) => c,
        Err(m) => return Err(ApiError::BadRequest(m)),
    };
    proof {
        lemma_custom_prefix(class, name@);
    }
    if class.is_custom() {
        match published {
            Err(e) => return Err(ApiError::Internal(e)),
            Ok(found) => {
                if !found {
                    return Err(
                        ApiError::BadRequest(
                            concat3(
                                "custom image '",
                                image_reference(image, version).as_str(),
                                "' is not published; create and wait for it via POST /v1/images",
                            ),
                        ),
                    );
                }
            },
        }
    }
    Ok((name, class))
}

/// Only custom images have a name that begins with `custom/`.
proof fn lemma_custom_prefix(class: ImageClass, name: Seq<char>)
    requires
        class.named(name),
    ensures
        class is Custom <==> has_prefix(name, "custom/"@),
{
    reveal_strlit("custom/");
    reveal_strlit("base");
    reveal_strlit("node-python");
    reveal_strlit("browser");
    reveal_strlit("heavy-build");
    if !(class is Custom) && has_prefix(name, "custom/"@) {
        assert(name.subrange(0, 7)[0] == 'c');
        assert(name[0] == 'c');
    }
}

// ---------------------------------------------------------------------------
// The shape
// ---------------------------------------------------------------------------

/// The shape is smaller than the image needs.
pub open spec fn below_minimum(class: ImageClass, r: Resources) -> bool {
    let min = class.minimum();
    r.cpu_milli < min.cpu_milli || r.memory_mb < min.memory_mb || r.disk_gb < min.disk_gb
}

/// The text about a shape that is too small for its image.
pub open spec fn minimum_text(class: ImageClass) -> Seq<char> {
    "image '"@ + class.key_text() + "' requires at least "@ + milli_text(
        class.minimum().cpu_milli as nat,
    ) + " vCPU / "@ + decimal(class.minimum().memory_mb as nat) + " MB / "@ + decimal(
        class.minimum().disk_gb as nat,
    ) + " GB; request explicit resources"@
}

/// The shape that a request asks for.
pub open spec fn shape_of(req: Option<ResourcesRequest>) -> Resources {
    match req {
        Some(r) => filled(r),
        None => filled(ResourcesRequest { cpu_milli: None, memory_mb: None, disk_gb: None }),
    }
}

/// Why a shape cannot be had.
pub open spec fn resources_fault(class: ImageClass, req: Option<ResourcesRequest>) -> Option<
    ErrorView,
> {
    match shape_refusal(shape_of(req)) {
        Some(m) => Some(ErrorView::BadRequest(m)),
        None => if below_minimum(class, shape_of(req)) {
            Some(ErrorView::BadRequest(minimum_text(class)))
        } else {
            None
        },
    }
}

/// Refuse a shape that is smaller than the image needs.
pub fn enforce_minimums(class: &ImageClass, r: &Resources) -> (v: ApiResult<()>)
    ensures
        fault(v) == (if below_minimum(*class, *r) {
            Some(ErrorView::BadRequest(minimum_text(*class)))
        } else {
            None
        }),
{
    let min = class.minimum_resources();
    if r.cpu_milli < min.cpu_milli || r.memory_mb < min.memory_mb || r.disk_gb < min.disk_gb {
        let mut m = concat3("image '", class.key(), "' requires at least ");
        m.append(show_milli(min.cpu_milli).as_str());
        m.append(" vCPU / ");
        m.append(to_decimal(min.memory_mb as u64).as_str());
        m.append(" MB / ");
        m.append(to_decimal(min.disk_gb as u64).as_str());
        m.append(" GB; request explicit resources");
        return Err(ApiError::BadRequest(m));
    }
    Ok(())
}

/// The shape of a request for an image.
pub fn check_resources(class: &ImageClass, req: Option<ResourcesRequest>) -> (v: ApiResult<Resources>)
    ensures
        fault(v) == resources_fault(*class, req),
        v matches Ok(r) ==> r == shape_of(req),
{
    let asked = match req {
        Some(r) => r,
        None => ResourcesRequest::default(),
    };
    let r = match Resources::validate(&asked) {
        Ok(r) => r,
        Err(m) => return Err(ApiError::BadRequest(m)),
    };
    match enforce_minimums(class, &r) {
        Ok(()) => Ok(r),
        Err(e) => Err(e),
    }
}

/// Why an idle window cannot be had.
pub open spec fn auto_stop_fault(seconds: Option<u32>) -> Option<ErrorView> {
    if AUTO_STOP_MIN_S <= auto_stop_of(seconds) <= AUTO_STOP_MAX_S {
        None
    } else {
        Some(ErrorView::BadRequest(auto_stop_refusal(auto_stop_of(seconds))))
    }
}

/// The idle window of a request.
pub fn check_auto_stop(seconds: Option<u32>) -> (r: ApiResult<u32>)
    ensures
        fault(r) == auto_stop_fault(seconds),
        r matches Ok(s) ==> s == auto_stop_of(seconds),
{
    match validate_auto_stop(seconds) {
        Ok(s) => Ok(s),
        Err(m) => Err(ApiError::BadRequest(m)),
    }
}

// ---------------------------------------------------------------------------
// Features
// ---------------------------------------------------------------------------

/// The browser that a request turns on, if it does.
pub open spec fn wanted_browser(b: Option<BrowserConfig>) -> Option<BrowserConfig> {
    match b {
        Some(c) if c.enabled => Some(c),
        _ => None,
    }
}

/// Why a browser cannot be had.
pub open spec fn browser_fault(class: ImageClass, b: Option<BrowserConfig>) -> Option<ErrorView> {
    if wanted_browser(b) is Some && !(class is Browser) {
        Some(ErrorView::BadRequest("browser requires the 'browser' curated image"@))
    } else {
        None
    }
}

/// The browser of a request.
pub fn check_browser(class: &ImageClass, b: Option<BrowserConfig>) -> (r: ApiResult<
    Option<BrowserConfig>,
>)
    ensures
        fault(r) == browser_fault(*class, b),
        r matches Ok(w) ==> w == wanted_browser(b),
{
    let wanted: Option<BrowserConfig> = match b {
        Some(c) => if c.enabled {
            Some(c)
        } else {
            None
        },
        None => None,
    };
    if wanted.is_some() && !class.is_browser() {
        return refuse("browser requires the 'browser' curated image");
    }
    Ok(wanted)
}

/// The startup recipe as a request writes it.
#[derive(Debug)]
pub enum StartupValue {
    /// Nothing, or null.
    Absent,
    /// A text, and why a text is no recipe.
    Text { text: String, fault: String },
    Recipe(StartupRecipe),
    /// Something else, and why it is no recipe.
    Unreadable(String),
}

/// The startup recipe of a request: none where none is written, or the text "none".
pub fn parse_startup(value: StartupValue) -> (r: Result<Option<StartupRecipe>, String>)
    ensures
        r == (match value {
            StartupValue::Absent => Ok::<Option<StartupRecipe>, String>(None),
            StartupValue::Text { text, fault } => if text@ == "none"@ {
                Ok(None)
            } else {
                Err(fault)
            },
            StartupValue::Recipe(s) => Ok(Some(s)),
            StartupValue::Unreadable(why) => Err(why),
        }),
{
    match value {
        StartupValue::Absent => Ok(None),
        StartupValue::Text { text, fault } => if same(text.as_str(), "none") {
            Ok(None)
        } else {
            Err(fault)
        },
        StartupValue::Recipe(s) => Ok(Some(s)),
        StartupValue::Unreadable(why) => Err(why),
    }
}

/// Why a startup recipe cannot be used: it could not be read, or its network
/// policy is not valid.
pub open spec fn startup_fault(startup: Result<Option<StartupRecipe>, String>) -> Option<ErrorView> {
    match startup {
        Err(e) => Some(ErrorView::BadRequest("invalid startup recipe: "@ + e@)),
        Ok(None) => None,
        Ok(Some(s)) => match policy_fault(s.network@) {
            Some(m) => Some(ErrorView::BadRequest(m)),
            None => None,
        },
    }
}

/// The startup recipe of a request.
pub fn check_startup(startup: Result<Option<StartupRecipe>, String>) -> (r: ApiResult<
    Option<StartupRecipe>,
>)
    ensures
        fault(r) == startup_fault(startup),
        r matches Ok(s) ==> startup == Ok::<Option<StartupRecipe>, String>(s),
{
    let recipe = match startup {
        Err(e) => return Err(
            ApiError::BadRequest(concat2("invalid startup recipe: ", e.as_str())),
        ),
        Ok(s) => s,
    };
    if let Some(s) = &recipe {
        if let Err(m) = s.network.validate() {
            return Err(ApiError::BadRequest(m));
        }
    }
    Ok(recipe)
}

/// The value of a stored secret. A record whose nonce has another length than
/// twelve bytes cannot be decrypted.
pub open spec fn secret_value(key: Seq<u8>, rec: SecretRecord) -> Result<Seq<char>, SecretError> {
    if nonce_fits(rec) {
        decrypted(key, rec.nonce_b64@, rec.ciphertext_b64@)
    } else {
        Err(SecretError::DecryptionFailed)
    }
}

/// What was found in the store for a secret's name.
pub type FoundSecret = Result<Option<SecretRecord>, String>;

/// Why the secret with this name cannot be injected.
pub open spec fn secret_fault(key: Seq<u8>, name: Seq<char>, found: FoundSecret) -> Option<ErrorView> {
    match found {
        Err(e) => Some(ErrorView::Internal(e@)),
        Ok(None) => Some(
            ErrorView::BadRequest("secret '"@ + name + "' is not defined for this org"@),
        ),
        Ok(Some(rec)) => match secret_value(key, rec) {
            Ok(_) => None,
            Err(e) => Some(ErrorView::Internal("decrypt secret '"@ + name + "': "@ + e.text())),
        },
    }
}

/// The first of the secrets from `i` on that cannot be injected.
pub open spec fn secrets_fault(
    key: Seq<u8>,
    names: Seq<String>,
    found: Seq<FoundSecret>,
    i: int,
) -> Option<ErrorView>
    decreases names.len() - i,
{
    if i < 0 || i >= names.len() {
        None
    } else {
        either(secret_fault(key, names[i]@, found[i]), secrets_fault(key, names, found, i + 1))
    }
}

/// The values of the first `n` secrets by name.
pub open spec fn secret_values(
    key: Seq<u8>,
    names: Seq<String>,
    found: Seq<FoundSecret>,
    n: int,
) -> Map<Seq<char>, Seq<char>>
    decreases n,
{
    if n <= 0 {
        Map::empty()
    } else {
        secret_values(key, names, found, n - 1).insert(
            names[n - 1]@,
            secret_value(key, found[n - 1]->Ok_0->Some_0)->Ok_0,
        )
    }
}

/// Decrypt the secrets that a recipe asks for, given what was found for each
/// name. The values stay apart from the stored record of the sandbox.
pub fn resolve_secrets(key: &[u8; 32], names: &Vec<String>, found: &Vec<FoundSecret>) -> (r: ApiResult<
    EnvMap,
>)
    requires
        names@.len() == found@.len(),
    ensures
        fault(r) == secrets_fault(key@, names@, found@, 0),
        r matches Ok(env) ==> env@ == secret_values(key@, names@, found@, names@.len() as int),
{
    let mut env = EnvMap::new();
    let mut i: usize = 0;
    while i < names.len()
        invariant
            i <= names@.len() == found@.len(),
            secrets_fault(key@, names@, found@, 0) == secrets_fault(key@, names@, found@, i as int),
            env@ == secret_values(key@, names@, found@, i as int),
        decreases names@.len() - i,
    {
        let name = names[i].as_str();
        match &found[i] {
            Err(e) => return Err(ApiError::Internal(e.clone())),
            Ok(None) => {
                return Err(
                    ApiError::BadRequest(
                        concat3("secret '", name, "' is not defined for this org"),
                    ),
                );
            },
            Ok(Some(rec)) => {
                let value = if has_fitting_nonce(rec) {
                    decrypt(key, rec)
                } else {
                    Err(SecretError::DecryptionFailed)
                };
                match value {
                    Ok(v) => {
                        env.set(name, v.as_str());
                    },
                    Err(e) => {
                        let mut m = concat3("decrypt secret '", name, "': ");
                        m.append(e.message().as_str());
                        return Err(ApiError::Internal(m));
                    },
                }
            },
        }
        i = i + 1;
    }
    Ok(env)
}

/// The bytes of an inline file, if its content can be read.
pub open spec fn file_bytes(f: EphemeralFile) -> Option<Seq<u8>> {
    match f.encoding {
        Some(e) if e@ == "base64"@ => decoded(f.content@),
        _ => Some(encode_utf8(f.content@)),
    }
}

/// The first of the files from `i` on whose content cannot be read.
pub open spec fn files_fault(files: Seq<EphemeralFile>, i: int) -> Option<ErrorView>
    decreases files.len() - i,
{
    if i < 0 || i >= files.len() {
        None
    } else if file_bytes(files[i]) is None {
        Some(ErrorView::BadRequest("file '"@ + files[i].path@ + "': invalid base64"@))
    } else {
        files_fault(files, i + 1)
    }
}

/// The built files are the requested ones, path by path and byte by byte.
pub open spec fn built_from(out: Seq<(String, Vec<u8>)>, files: Seq<EphemeralFile>) -> bool {
    &&& out.len() == files.len()
    &&& forall|i: int|
        0 <= i < out.len() ==> (#[trigger] out[i]).0@ == files[i].path@ && Some(out[i].1@)
            == file_bytes(files[i])
}

fn bytes_of_text(s: &str) -> (r: Vec<u8>)
    ensures
        r@ == encode_utf8(s@),
{
    let b = s.as_bytes();
    let mut v: Vec<u8> = Vec::new();
    let mut i: usize = 0;
    while i < b.len()
        invariant
            i <= b@.len(),
            v@ == b@.subrange(0, i as int),
        decreases b@.len() - i,
    {
        v.push(b[i]);
        i = i + 1;
        assert(b@.subrange(0, i as int) =~= b@.subrange(0, i - 1).push(b@[i - 1]));
    }
    assert(b@.subrange(0, i as int) =~= b@);
    v
}

/// Decode the inline files of a request.
pub fn build_ephemeral_files(files: &Vec<EphemeralFile>) -> (r: ApiResult<Vec<(String, Vec<u8>)>>)
    ensures
        fault(r) == files_fault(files@, 0),
        r matches Ok(out) ==> built_from(out@, files@),
{
    let mut out: Vec<(String, Vec<u8>)> = Vec::new();
    let mut i: usize = 0;
    while i < files.len()
        invariant
            i <= files@.len(),
            files_fault(files@, 0) == files_fault(files@, i as int),
            out@.len() == i,
            forall|k: int|
                0 <= k < i ==> (#[trigger] out@[k]).0@ == files@[k].path@ && Some(out@[k].1@)
                    == file_bytes(files@[k]),
        decreases files@.len() - i,
    {
        let f = &files[i];
        let is_base64 = match &f.encoding {
            Some(e) => same(e.as_str(), "base64"),
            None => false,
        };
        let bytes = if is_base64 {
            match decode(f.content.as_str()) {
                Some(b) => b,
                None => {
                    return Err(
                        ApiError::BadRequest(
                            concat3("file '", f.path.as_str(), "': invalid base64"),
                        ),
                    );
                },
            }
        } else {
            bytes_of_text(f.content.as_str())
        };
        out.push((f.path.clone(), bytes));
        i = i + 1;
    }
    Ok(out)
}

/// Why a mount cannot be had.
pub open spec fn mount_fault(m: MountSpec) -> Option<ErrorView> {
    if m.kind@ != "s3"@ {
        Some(ErrorView::BadRequest("unsupported mount type '"@ + m.kind@ + "' (only 's3')"@))
    } else if m.bucket@.len() == 0 {
        Some(ErrorView::BadRequest("mount requires a bucket"@))
    } else if !has_prefix(m.mount_path@, "/"@) {
        Some(ErrorView::BadRequest("mount_path '"@ + m.mount_path@ + "' must be absolute"@))
    } else {
        None
    }
}

/// The first of the mounts from `i` on that cannot be had.
pub open spec fn mounts_fault(mounts: Seq<MountSpec>, i: int) -> Option<ErrorView>
    decreases mounts.len() - i,
{
    if i < 0 || i >= mounts.len() {
        None
    } else {
        either(mount_fault(mounts[i]), mounts_fault(mounts, i + 1))
    }
}

/// Check the mounts of a request.
pub fn validate_mounts(mounts: &Vec<MountSpec>) -> (r: ApiResult<()>)
    ensures
        fault(r) == mounts_fault(mounts@, 0),
{
    let mut i: usize = 0;
    while i < mounts.len()
        invariant
            i <= mounts@.len(),
            mounts_fault(mounts@, 0) == mounts_fault(mounts@, i as int),
        decreases mounts@.len() - i,
    {
        let m = &mounts[i];
        if !same(m.kind.as_str(), "s3") {
            return Err(
                ApiError::BadRequest(
                    concat3("unsupported mount type '", m.kind.as_str(), "' (only 's3')"),
                ),
            );
        }
        if m.bucket.as_str().is_empty() {
            return refuse("mount requires a bucket");
        }
        if !starts_with(m.mount_path.as_str(), "/") {
            return Err(
                ApiError::BadRequest(
                    concat3("mount_path '", m.mount_path.as_str(), "' must be absolute"),
                ),
            );
        }
        i = i + 1;
    }
    Ok(())
}

/// Docker is turned on.
pub open spec fn wants_docker(d: Option<DockerConfig>) -> bool {
    d matches Some(c) && c.enabled
}

/// Why docker cannot be had: the base image has no daemon.
pub open spec fn docker_fault(class: ImageClass, d: Option<DockerConfig>) -> Option<ErrorView> {
    if wants_docker(d) && class is Base {
        Some(
            ErrorView::BadRequest(
                "docker-in-docker requires a docker-capable image (heavy-build or a custom image); the base image has no docker daemon"@,
            ),
        )
    } else {
        None
    }
}

/// Is docker turned on, and can the image run it?
pub fn check_docker(class: &ImageClass, d: Option<DockerConfig>) -> (r: ApiResult<bool>)
    ensures
        fault(r) == docker_fault(*class, d),
        r matches Ok(b) ==> b == wants_docker(d),
{
    let on = match d {
        Some(c) => c.enabled,
        None => false,
    };
    if on && matches!(class, ImageClass::Base) {
        return refuse(
            "docker-in-docker requires a docker-capable image (heavy-build or a custom image); the base image has no docker daemon",
        );
    }
    Ok(on)
}

/// The coding agent that a request turns on, if it does.
pub open spec fn wanted_agent(a: Option<CodingAgentConfig>) -> Option<CodingAgentConfig> {
    match a {
        Some(c) if c.enabled => Some(c),
        _ => None,
    }
}

/// Why a coding agent cannot be had.
pub open spec fn agent_fault(a: Option<CodingAgentConfig>) -> Option<ErrorView> {
    match wanted_agent(a) {
        Some(c) if c.kind_text() != "opencode"@ => Some(
            ErrorView::BadRequest(
                "unsupported coding agent '"@ + c.kind_text() + "' (only 'opencode')"@,
            ),
        ),
        _ => None,
    }
}

/// The coding agent of a request. It is installed only where it is asked for.
pub fn check_agent(a: Option<CodingAgentConfig>) -> (r: ApiResult<Option<CodingAgentConfig>>)
    ensures
        fault(r) == agent_fault(a),
        r matches Ok(w) ==> w == wanted_agent(a),
{
    match a {
        None => Ok(None),
        Some(c) => {
            if !c.enabled {
                return Ok(None);
            }
            if !same(c.kind(), "opencode") {
                return Err(
                    ApiError::BadRequest(
                        concat3("unsupported coding agent '", c.kind(), "' (only 'opencode')"),
                    ),
                );
            }
            Ok(Some(c))
        },
    }
}

/// What was found in the store for a volume's id.
pub type FoundVolume = Result<Option<Volume>, String>;

/// Some request before `i` names the same volume.
pub open spec fn named_before(reqs: Seq<VolumeAttachRequest>, i: int) -> bool {
    exists|k: int| 0 <= k < i && (#[trigger] reqs[k]).volume_id@ == reqs[i].volume_id@
}

/// Why the volume at `i` cannot be attached. Another org's volume is answered
/// like one that does not exist.
pub open spec fn volume_fault(
    org_id: Seq<char>,
    reqs: Seq<VolumeAttachRequest>,
    found: FoundVolume,
    i: int,
) -> Option<ErrorView> {
    let id = reqs[i].volume_id@;
    match found {
        Err(e) => Some(ErrorView::Internal(e@)),
        Ok(None) => Some(ErrorView::NotFound("volume "@ + id)),
        Ok(Some(v)) => if v.org_id@ != org_id {
            Some(ErrorView::NotFound("volume "@ + id))
        } else if !has_prefix(reqs[i].mount_path@, "/"@) {
            Some(
                ErrorView::BadRequest(
                    "mount_path '"@ + reqs[i].mount_path@ + "' must be absolute"@,
                ),
            )
        } else if v.attached_to is Some || named_before(reqs, i) {
            Some(ErrorView::Conflict("volume "@ + id + " is already attached"@))
        } else {
            None
        },
    }
}

/// The first of the volumes from `i` on that cannot be attached.
pub open spec fn volumes_fault(
    org_id: Seq<char>,
    reqs: Seq<VolumeAttachRequest>,
    found: Seq<FoundVolume>,
    i: int,
) -> Option<ErrorView>
    decreases reqs.len() - i,
{
    if i < 0 || i >= reqs.len() {
        None
    } else {
        either(volume_fault(org_id, reqs, found[i], i), volumes_fault(org_id, reqs, found, i + 1))
    }
}

/// The attachments are the requested ones.
pub open spec fn attached_as(out: Seq<VolumeAttach>, reqs: Seq<VolumeAttachRequest>) -> bool {
    &&& out.len() == reqs.len()
    &&& forall|i: int|
        0 <= i < out.len() ==> (#[trigger] out[i]).volume_id@ == reqs[i].volume_id@
            && out[i].mount_path@ == reqs[i].mount_path@
}

fn repeated(reqs: &Vec<VolumeAttachRequest>, i: usize) -> (r: bool)
    requires
        i < reqs@.len(),
    ensures
        r == named_before(reqs@, i as int),
{
    let mut k: usize = 0;
    while k < i
        invariant
            k <= i < reqs@.len(),
            forall|j: int| 0 <= j < k ==> (#[trigger] reqs@[j]).volume_id@ != reqs@[i as int].volume_id@,
        decreases i - k,
    {
        if same(reqs[k].volume_id.as_str(), reqs[i].volume_id.as_str()) {
            assert(reqs@[k as int].volume_id@ == reqs@[i as int].volume_id@);
            return true;
        }
        k = k + 1;
    }
    false
}

/// The volumes of a request. A volume is attached to one sandbox at a time.
pub fn check_volumes(org_id: &str, reqs: &Vec<VolumeAttachRequest>, found: &Vec<FoundVolume>) -> (r: ApiResult<
    Vec<VolumeAttach>,
>)
    requires
        reqs@.len() == found@.len(),
    ensures
        fault(r) == volumes_fault(org_id@, reqs@, found@, 0),
        r matches Ok(out) ==> attached_as(out@, reqs@),
{
    let mut out: Vec<VolumeAttach> = Vec::new();
    let mut i: usize = 0;
    while i < reqs.len()
        invariant
            i <= reqs@.len() == found@.len(),
            volumes_fault(org_id@, reqs@, found@, 0) == volumes_fault(
                org_id@,
                reqs@,
                found@,
                i as int,
            ),
            out@.len() == i,
            forall|k: int|
                0 <= k < i ==> (#[trigger] out@[k]).volume_id@ == reqs@[k].volume_id@
                    && out@[k].mount_path@ == reqs@[k].mount_path@,
        decreases reqs@.len() - i,
    {
        let id = reqs[i].volume_id.as_str();
        let path = reqs[i].mount_path.as_str();
        match &found[i] {
            Err(e) => return Err(ApiError::Internal(e.clone())),
            Ok(None) => return Err(ApiError::NotFound(concat2("volume ", id))),
            Ok(Some(v)) => {
                if !same(v.org_id.as_str(), org_id) {
                    return Err(ApiError::NotFound(concat2("volume ", id)));
                }
                if !starts_with(path, "/") {
                    return Err(
                        ApiError::BadRequest(concat3("mount_path '", path, "' must be absolute")),
                    );
                }
                if v.attached_to.is_some() || repeated(reqs, i) {
                    return Err(
                        ApiError::Conflict(concat3("volume ", id, " is already attached")),
                    );
                }
            },
        }
        out.push(
            VolumeAttach {
                volume_id: reqs[i].volume_id.clone(),
                mount_path: reqs[i].mount_path.clone(),
            },
        );
        i = i + 1;
    }
    Ok(out)
}

// ---------------------------------------------------------------------------
// All of it
// ---------------------------------------------------------------------------

/// What the store holds of the things that a request names: the org, whether the
/// custom image is published, and one entry for each secret and each volume.
#[derive(Debug)]
pub struct Lookups {
    pub org: Result<Option<Org>, String>,
    pub published: Result<bool, String>,
    pub secrets: Vec<FoundSecret>,
    pub volumes: Vec<FoundVolume>,
}

/// The names of the secrets that a request asks for.
pub open spec fn wanted_secrets(req: CreateSandboxRequest) -> Seq<String> {
    match req.startup {
        Ok(Some(s)) => s.secrets@,
        _ => Seq::empty(),
    }
}

/// The lookups belong to the request.
pub open spec fn looked_up(req: CreateSandboxRequest, found: Lookups) -> bool {
    &&& org_in_range(found.org)
    &&& found.secrets@.len() == wanted_secrets(req).len()
    &&& found.volumes@.len() == req.volumes@.len()
}

/// The class of an image name.
pub open spec fn family(image: Seq<char>) -> ImageClass {
    choose|c: ImageClass| c.named(image)
}

/// Whatever class a name belongs to, it is the family as far as minimums and
/// features go.
proof fn lemma_family(class: ImageClass, image: Seq<char>)
    requires
        class.named(image),
    ensures
        family(image).named(image),
        family(image).key_text() == class.key_text(),
        family(image).minimum() == class.minimum(),
        family(image) is Browser <==> class is Browser,
        family(image) is Base <==> class is Base,
{
    law_class_is_unique(image, class, family(image));
}

/// The first reason to refuse a request.
pub open spec fn request_fault(
    org_id: Seq<char>,
    admin: bool,
    key: Seq<u8>,
    req: CreateSandboxRequest,
    found: Lookups,
) -> Option<ErrorView> {
    let class = family(image_text(req.image));
    either(
        org_fault(admin, found.org),
        either(
            image_fault(req.image, req.image_version, found.published),
            either(
                resources_fault(class, req.resources),
                either(
                    auto_stop_fault(req.auto_stop_seconds),
                    either(
                        browser_fault(class, req.browser),
                        feature_fault(org_id, key, req, found),
                    ),
                ),
            ),
        ),
    )
}

/// The first reason to refuse what a request asks for besides image and shape.
pub open spec fn feature_fault(
    org_id: Seq<char>,
    key: Seq<u8>,
    req: CreateSandboxRequest,
    found: Lookups,
) -> Option<ErrorView> {
    let class = family(image_text(req.image));
    either(
        startup_fault(req.startup),
        either(
            secrets_fault(key, wanted_secrets(req), found.secrets@, 0),
            either(
                files_fault(req.files@, 0),
                either(
                    mounts_fault(req.mounts@, 0),
                    either(
                        docker_fault(class, req.docker),
                        either(
                            agent_fault(req.coding_agent),
                            volumes_fault(org_id, req.volumes@, found.volumes@, 0),
                        ),
                    ),
                ),
            ),
        ),
    )
}

/// A request that may be placed, with everything it asks for resolved.
#[derive(Debug)]
pub struct Admitted {
    pub org: Org,
    pub image: String,
    pub class: ImageClass,
    pub resources: Resources,
    pub auto_stop_seconds: u32,
    pub snapshot: bool,
    pub features: Features,
}

/// What a sandbox gets besides image and shape.
#[derive(Debug)]
pub struct Features {
    pub browser: Option<BrowserConfig>,
    pub startup: Option<StartupRecipe>,
    /// The values of the secrets, which never reach the stored record.
    pub secret_env: EnvMap,
    pub secret_names: Vec<String>,
    pub files: Vec<(String, Vec<u8>)>,
    pub mounts: Vec<MountSpec>,
    pub docker: bool,
    pub coding_agent: Option<CodingAgentConfig>,
    pub volumes: Vec<VolumeAttach>,
}

/// The features are the ones that a request asks for.
pub open spec fn features_of(
    f: Features,
    key: Seq<u8>,
    req: CreateSandboxRequest,
    found: Lookups,
) -> bool {
    &&& f.browser == wanted_browser(req.browser)
    &&& req.startup == Ok::<Option<StartupRecipe>, String>(f.startup)
    &&& f.secret_env@ == secret_values(
        key,
        wanted_secrets(req),
        found.secrets@,
        wanted_secrets(req).len() as int,
    )
    &&& views(f.secret_names@) == views(wanted_secrets(req))
    &&& built_from(f.files@, req.files@)
    &&& f.mounts == req.mounts
    &&& f.docker == wants_docker(req.docker)
    &&& f.coding_agent == wanted_agent(req.coding_agent)
    &&& attached_as(f.volumes@, req.volumes@)
}

fn copy_names(names: &Vec<String>) -> (r: Vec<String>)
    ensures
        views(r@) == views(names@),
{
    let mut r: Vec<String> = Vec::new();
    let mut i: usize = 0;
    while i < names.len()
        invariant
            i <= names@.len(),
            r@.len() == i,
            forall|k: int| 0 <= k < i ==> (#[trigger] r@[k])@ == names@[k]@,
        decreases names@.len() - i,
    {
        r.push(names[i].clone());
        i = i + 1;
    }
    assert(views(r@) =~= views(names@));
    r
}

fn check_features(
    org_id: &str,
    class: &ImageClass,
    key: &[u8; 32],
    req: CreateSandboxRequest,
    browser: Option<BrowserConfig>,
    found: Lookups,
) -> (r: ApiResult<Features>)
    requires
        looked_up(req, found),
        class.named(image_text(req.image)),
        browser == wanted_browser(req.browser),
    ensures
        fault(r) == feature_fault(org_id@, key@, req, found),
        r matches Ok(f) ==> features_of(f, key@, req, found),
{
    proof {
        lemma_family(*class, image_text(req.image));
    }
    let startup = match check_startup(req.startup) {
        Ok(s) => s,
        Err(e) => return Err(e),
    };
    let secret_names: Vec<String> = match &startup {
        Some(s) => copy_names(&s.secrets),
        None => Vec::new(),
    };
    let no_names: Vec<String> = Vec::new();
    let names: &Vec<String> = match &startup {
        Some(s) => &s.secrets,
        None => &no_names,
    };
    assert(names@ =~= wanted_secrets(req));
    let secret_env = match resolve_secrets(key, names, &found.secrets) {
        Ok(env) => env,
        Err(e) => return Err(e),
    };
    let files = match build_ephemeral_files(&req.files) {
        Ok(f) => f,
        Err(e) => return Err(e),
    };
    if let Err(e) = validate_mounts(&req.mounts) {
        return Err(e);
    }
    let docker = match check_docker(class, req.docker) {
        Ok(d) => d,
        Err(e) => return Err(e),
    };
    let coding_agent = match check_agent(req.coding_agent) {
        Ok(a) => a,
        Err(e) => return Err(e),
    };
    let volumes = match check_volumes(org_id, &req.volumes, &found.volumes) {
        Ok(v) => v,
        Err(e) => return Err(e),
    };
    Ok(
        Features {
            browser,
            startup,
            secret_env,
            secret_names,
            files,
            mounts: req.mounts,
            docker,
            coding_agent,
            volumes,
        },
    )
}

/// Check a request before anything is reserved for it, and resolve what it asks
/// for. It is refused for the first reason in the order: the org, the image, the
/// shape, the idle window, the browser, the startup recipe, the secrets, the
/// files, the mounts, docker, the coding agent, the volumes.
pub fn check_request(
    ctx: &AuthContext,
    key: &[u8; 32],
    req: CreateSandboxRequest,
    found: Lookups,
) -> (r: ApiResult<Admitted>)
    requires
        looked_up(req, found),
    ensures
        fault(r) == request_fault(ctx.org_id@, ctx.admin, key@, req, found),
        r matches Ok(a) ==> {
            &&& found.org == Ok::<Option<Org>, String>(Some(a.org))
            &&& a.image@ == image_text(req.image)
            &&& a.class.named(a.image@)
            &&& a.resources == shape_of(req.resources)
            &&& a.auto_stop_seconds == auto_stop_of(req.auto_stop_seconds)
            &&& a.snapshot == (req.snapshot == Some(true))
            &&& features_of(a.features, key@, req, found)
        },
{
    let Lookups { org, published, secrets, volumes } = found;
    let org = match check_org(ctx.admin, org) {
        Ok(o) => o,
        Err(e) => return Err(e),
    };
    let (image, class) = match check_image(&req.image, &req.image_version, published) {
        Ok(p) => p,
        Err(e) => return Err(e),
    };
    proof {
        lemma_family(class, image_text(req.image));
    }
    let resources = match check_resources(&class, req.resources) {
        Ok(s) => s,
        Err(e) => return Err(e),
    };
    let auto_stop_seconds: u32 = match check_auto_stop(req.auto_stop_seconds) {
        Ok(s) => s,
        Err(e) => return Err(e),
    };
    let browser = match check_browser(&class, req.browser) {
        Ok(b) => b,
        Err(e) => return Err(e),
    };
    let snapshot = match req.snapshot {
        Some(s) => s,
        None => false,
    };
    let rest = Lookups { org: Ok(None), published: Ok(false), secrets, volumes };
    match check_features(ctx.org_id.as_str(), &class, key, req, browser, rest) {
        Ok(features) => Ok(
            Admitted { org, image, class, resources, auto_stop_seconds, snapshot, features },
        ),
        Err(e) => Err(e),
    }
}

} // verus!
