//! Which requests are granted: what an org may have, what an image takes, and what may be
//! brought along.

use crate::admission::{
    build_ephemeral_files, check_agent, check_auto_stop, check_browser, check_docker, check_image,
    check_org, check_request, check_resources, check_startup, check_volumes, enforce_minimums,
    file_bytes, files_fault, image_reference, mount_fault, mounts_fault, named_before,
    parse_startup, resolve_secrets, secret_fault, secret_values, secrets_fault, validate_mounts,
    volume_fault, volumes_fault, Admitted, FoundSecret, FoundVolume, Lookups, StartupValue,
};
use crate::auth::AuthContext;
use crate::base64::decoded;
use crate::catalog::ImageClass;
use crate::envmap::EnvMap;
use crate::error::{ApiError, ApiResult};
use crate::knobs::{Resources, ResourcesRequest};
use crate::laws::shapes::{covers, given};
use crate::model::{
    domain_matches, BrowserConfig, CodingAgentConfig, CreateSandboxRequest, DockerConfig,
    EgressMode, EphemeralFile, MountSpec, NetworkPolicy, NetworkProtocol, NetworkRule,
    NetworkRuleKind, StartupRecipe, VolumeAttach, VolumeAttachRequest,
};
use crate::netaddr::{cidr, Ipv4};
use crate::secrets::decrypt;
use crate::usage::{Org, OrgStatus};
use vstd::prelude::*;
use vstd::string::*;
use vstd::utf8::*;

verus! {

// ---------------------------------------------------------------------------
// The org
// ---------------------------------------------------------------------------

/// An org may create sandboxes exactly when it is not suspended and has money left; an
/// admin of an org that is not suspended may in any case.
pub proof fn law_who_may_create(admin: bool, org: Org, r: ApiResult<Org>)
    requires
        call_ensures(check_org, (admin, Ok(Some(org))), r),
    ensures
        r is Ok <==> org.status != OrgStatus::Suspended && (admin || org.prepaid_credits
            > org.spent),
        r matches Ok(o) ==> o == org,
        r matches Err(e) ==> e is Forbidden,
{
}

/// Nobody creates for an org that does not exist.
pub proof fn law_unknown_orgs_create_nothing(admin: bool, r: ApiResult<Org>)
    requires
        call_ensures(check_org, (admin, Ok(None)), r),
    ensures
        r matches Err(ApiError::Unauthorized),
{
}

// ---------------------------------------------------------------------------
// Image and shape
// ---------------------------------------------------------------------------

/// A request that names no image gets the base image. One that names a custom image gets
/// it exactly when it is published.
pub proof fn law_which_image(
    image: Option<String>,
    version: Option<String>,
    published: bool,
    r: ApiResult<(String, ImageClass)>,
)
    requires
        call_ensures(check_image, (&image, &version, Ok(published)), r),
    ensures
        image is None ==> (r matches Ok((name, class)) && name@ == "base"@ && class is Base),
        r matches Ok((name, class)) ==> (image matches Some(i) ==> name@ == i@),
        r matches Ok((name, class)) ==> (class is Custom ==> published),
        r matches Ok((name, ImageClass::Custom(c))) ==> c@ == name@,
        r matches Err(e) ==> e is BadRequest,
        image matches Some(i) ==> i@.len() >= 7 && i@.subrange(0, 7) == "custom/"@ ==> (r is Ok
            <==> published),
{
    reveal_strlit("custom/");
    reveal_strlit("base");
    reveal_strlit("node-python");
    reveal_strlit("browser");
    reveal_strlit("heavy-build");
    if image is None && r is Ok {
        let class = r->Ok_0.1;
        if class is Custom {
            assert("base"@.subrange(0, 7).len() == 7);
        }
    }
}

/// An image is looked up under its name, and its version where one is asked for.
pub proof fn law_which_reference(image: String, version: Option<String>, r: String)
    requires
        call_ensures(image_reference, (&Some(image), &version), r),
    ensures
        version is None ==> r@ == image@,
        version matches Some(v) ==> r@ == image@ + ":"@ + v@,
{
}

/// A shape is granted for an image exactly when it is an allowed one and no smaller than
/// the image needs in any of its parts.
pub proof fn law_which_shape(
    class: ImageClass,
    req: ResourcesRequest,
    least: Resources,
    s: Resources,
    shape: Result<Resources, String>,
    r: ApiResult<Resources>,
)
    requires
        call_ensures(check_resources, (&class, Some(req)), r),
        call_ensures(ImageClass::minimum_resources, (&class,), least),
        call_ensures(Resources::validate, (&req,), shape),
        given(req.cpu_milli, 1000, s.cpu_milli),
        given(req.memory_mb, 2048, s.memory_mb),
        given(req.disk_gb, 8, s.disk_gb),
    ensures
        r is Ok <==> shape is Ok && covers(s, least),
        r matches Ok(got) ==> got == s,
        r matches Err(e) ==> e is BadRequest,
{
}

/// A request without a shape gets the default one, where the image takes it.
pub proof fn law_default_shape(class: ImageClass, least: Resources, r: ApiResult<Resources>)
    requires
        call_ensures(check_resources, (&class, None), r),
        call_ensures(ImageClass::minimum_resources, (&class,), least),
    ensures
        r is Ok <==> least.cpu_milli <= 1000 && least.memory_mb <= 2048 && least.disk_gb <= 8,
        r matches Ok(s) ==> s == (Resources { cpu_milli: 1000, memory_mb: 2048, disk_gb: 8 }),
{
}

/// A shape is too small for an image when any of its parts is.
pub proof fn law_minimums_are_enforced(
    class: ImageClass,
    s: Resources,
    least: Resources,
    r: ApiResult<()>,
)
    requires
        call_ensures(enforce_minimums, (&class, &s), r),
        call_ensures(ImageClass::minimum_resources, (&class,), least),
    ensures
        r is Ok <==> covers(s, least),
{
}

/// The idle window of a request.
pub proof fn law_which_window(asked: Option<u32>, r: ApiResult<u32>)
    requires
        call_ensures(check_auto_stop, (asked,), r),
    ensures
        asked is None ==> r == Ok::<u32, ApiError>(120),
        asked matches Some(s) ==> (r is Ok <==> 30 <= s <= 3600),
        r matches Ok(s) ==> (asked matches Some(a) ==> s == a),
        r matches Err(e) ==> e is BadRequest,
{
}

// ---------------------------------------------------------------------------
// Features
// ---------------------------------------------------------------------------

/// A browser is had only where it is turned on, and only with the browser image; one that
/// is turned off is as good as none.
pub proof fn law_browsers(
    class: ImageClass,
    asked: Option<BrowserConfig>,
    r: ApiResult<Option<BrowserConfig>>,
)
    requires
        call_ensures(check_browser, (&class, asked), r),
    ensures
        asked matches Some(c) ==> c.enabled ==> (r is Ok <==> class is Browser),
        asked matches Some(c) ==> c.enabled ==> (r matches Ok(got) ==> got == asked),
        (asked matches Some(c) ==> !c.enabled) ==> r == Ok::<Option<BrowserConfig>, ApiError>(None),
{
}

/// Docker is had where it is turned on, except on the base image.
pub proof fn law_docker(class: ImageClass, asked: Option<DockerConfig>, r: ApiResult<bool>)
    requires
        call_ensures(check_docker, (&class, asked), r),
    ensures
        asked == Some(DockerConfig { enabled: true }) ==> (r is Ok <==> !(class is Base)),
        r matches Ok(on) ==> (on <==> asked == Some(DockerConfig { enabled: true })),
        asked != Some(DockerConfig { enabled: true }) ==> r is Ok,
{
}

/// A coding agent is had where it is turned on; the one that can be had is `opencode`.
pub proof fn law_coding_agents(
    asked: CodingAgentConfig,
    kind: &str,
    r: ApiResult<Option<CodingAgentConfig>>,
)
    requires
        call_ensures(check_agent, (Some(asked),), r),
        call_ensures(CodingAgentConfig::kind, (&asked,), kind),
    ensures
        !asked.enabled ==> r == Ok::<Option<CodingAgentConfig>, ApiError>(None),
        asked.enabled ==> (r is Ok <==> kind@ == "opencode"@),
        asked.enabled && r is Ok ==> r == Ok::<Option<CodingAgentConfig>, ApiError>(Some(asked)),
{
}

/// No recipe is the recipe `none`, and any other text is none.
pub proof fn law_written_recipes(value: StartupValue, r: Result<Option<StartupRecipe>, String>)
    requires
        call_ensures(parse_startup, (value,), r),
    ensures
        value is Absent ==> r == Ok::<Option<StartupRecipe>, String>(None),
        value matches StartupValue::Text { text, fault } ==> (r is Ok <==> text@ == "none"@) && (
        r matches Ok(s) ==> s is None) && (r matches Err(e) ==> e == fault),
        value matches StartupValue::Recipe(s) ==> r == Ok::<Option<StartupRecipe>, String>(Some(s)),
        value matches StartupValue::Unreadable(why) ==> r == Err::<Option<StartupRecipe>, String>(
            why,
        ),
{
}

/// A recipe is used exactly when its network policy is valid.
pub proof fn law_recipes_need_a_valid_policy(
    recipe: StartupRecipe,
    policy: Result<(), String>,
    r: ApiResult<Option<StartupRecipe>>,
)
    requires
        call_ensures(check_startup, (Ok(Some(recipe)),), r),
        call_ensures(NetworkPolicy::validate, (&recipe.network,), policy),
    ensures
        r is Ok <==> policy is Ok,
        r matches Ok(s) ==> s == Some(recipe),
        r matches Err(e) ==> (e matches ApiError::BadRequest(m) && m@ == policy->Err_0@),
{
}

/// What a mount must be: a bucket of the one kind there is, at an absolute path.
pub open spec fn mountable(m: MountSpec) -> bool {
    m.kind@ == "s3"@ && m.bucket@.len() > 0 && m.mount_path@.len() > 0 && m.mount_path@[0] == '/'
}

proof fn lemma_absolute(path: Seq<char>)
    ensures
        crate::text::has_prefix(path, "/"@) <==> path.len() > 0 && path[0] == '/',
{
    reveal_strlit("/");
    if path.len() > 0 {
        assert(path.subrange(0, 1)[0] == path[0]);
        if path[0] == '/' {
            assert(path.subrange(0, 1) =~= "/"@);
        }
    }
}

proof fn lemma_mounts(mounts: Seq<MountSpec>, i: int)
    requires
        0 <= i <= mounts.len(),
    ensures
        mounts_fault(mounts, i) is None <==> forall|k: int|
            i <= k < mounts.len() ==> mountable(#[trigger] mounts[k]),
    decreases mounts.len() - i,
{
    if i < mounts.len() {
        lemma_mounts(mounts, i + 1);
        lemma_absolute(mounts[i].mount_path@);
        assert(mount_fault(mounts[i]) is None <==> mountable(mounts[i]));
        if forall|k: int| i + 1 <= k < mounts.len() ==> mountable(#[trigger] mounts[k]) {
            if mountable(mounts[i]) {
                assert forall|k: int| i <= k < mounts.len() implies mountable(
                    #[trigger] mounts[k],
                ) by {}
            }
        }
    }
}

/// The mounts of a request are granted exactly when every one of them can be mounted.
pub proof fn law_mounts(mounts: Vec<MountSpec>, r: ApiResult<()>)
    requires
        call_ensures(validate_mounts, (&mounts,), r),
    ensures
        r is Ok <==> forall|k: int| 0 <= k < mounts@.len() ==> mountable(#[trigger] mounts@[k]),
{
    lemma_mounts(mounts@, 0);
}

proof fn lemma_files(files: Seq<EphemeralFile>, i: int)
    requires
        0 <= i <= files.len(),
    ensures
        files_fault(files, i) is None <==> forall|k: int|
            i <= k < files.len() ==> file_bytes(#[trigger] files[k]) is Some,
    decreases files.len() - i,
{
    if i < files.len() {
        lemma_files(files, i + 1);
        if file_bytes(files[i]) is Some && files_fault(files, i + 1) is None {
            assert forall|k: int| i <= k < files.len() implies file_bytes(
                #[trigger] files[k],
            ) is Some by {}
        }
    }
}

/// A file that is brought along is written under its path, with the text it has or the
/// bytes that its base64 stands for. Only base64 that cannot be read is refused.
pub proof fn law_files(
    files: Vec<EphemeralFile>,
    i: int,
    r: ApiResult<Vec<(String, Vec<u8>)>>,
)
    requires
        call_ensures(build_ephemeral_files, (&files,), r),
        0 <= i < files@.len(),
    ensures
        r matches Ok(out) ==> {
            &&& out@.len() == files@.len()
            &&& out@[i].0@ == files@[i].path@
            &&& files@[i].encoding is None ==> out@[i].1@ == encode_utf8(files@[i].content@)
            &&& files@[i].encoding matches Some(e) ==> e@ == "base64"@ ==> decoded(
                files@[i].content@,
            ) == Some(out@[i].1@)
            &&& files@[i].encoding matches Some(e) ==> e@ != "base64"@ ==> out@[i].1@
                == encode_utf8(files@[i].content@)
        },
        (forall|k: int| 0 <= k < files@.len() ==> (#[trigger] files@[k]).encoding is None)
            ==> r is Ok,
{
    lemma_files(files@, 0);
    if r is Ok {
        let out = r->Ok_0;
        assert(Some(out@[i].1@) == file_bytes(files@[i]));
    }
    if forall|k: int| 0 <= k < files@.len() ==> (#[trigger] files@[k]).encoding is None {
        assert forall|k: int| 0 <= k < files@.len() implies file_bytes(
            #[trigger] files@[k],
        ) is Some by {}
    }
}

/// The volume at `i` is there, is the org's, is free, and is asked for once and at an
/// absolute path.
pub open spec fn attachable(
    org: Seq<char>,
    reqs: Seq<VolumeAttachRequest>,
    found: Seq<FoundVolume>,
    i: int,
) -> bool {
    &&& found[i] matches Ok(Some(v)) && v.org_id@ == org && v.attached_to is None
    &&& reqs[i].mount_path@.len() > 0 && reqs[i].mount_path@[0] == '/'
    &&& forall|k: int| 0 <= k < i ==> (#[trigger] reqs[k]).volume_id@ != reqs[i].volume_id@
}

proof fn lemma_volumes(
    org: Seq<char>,
    reqs: Seq<VolumeAttachRequest>,
    found: Seq<FoundVolume>,
    i: int,
)
    requires
        0 <= i <= reqs.len(),
        reqs.len() == found.len(),
    ensures
        volumes_fault(org, reqs, found, i) is None <==> forall|k: int|
            i <= k < reqs.len() ==> #[trigger] attachable(org, reqs, found, k),
    decreases reqs.len() - i,
{
    if i < reqs.len() {
        lemma_volumes(org, reqs, found, i + 1);
        lemma_absolute(reqs[i].mount_path@);
        assert(named_before(reqs, i) <==> !(forall|k: int|
            0 <= k < i ==> (#[trigger] reqs[k]).volume_id@ != reqs[i].volume_id@));
        assert(volume_fault(org, reqs, found[i], i) is None <==> attachable(org, reqs, found, i));
        if attachable(org, reqs, found, i) && volumes_fault(org, reqs, found, i + 1) is None {
            assert forall|k: int| i <= k < reqs.len() implies #[trigger] attachable(
                org,
                reqs,
                found,
                k,
            ) by {}
        }
    }
}

/// Volumes are attached exactly when each of them can be, and as asked.
pub proof fn law_volumes(
    org: &str,
    reqs: Vec<VolumeAttachRequest>,
    found: Vec<FoundVolume>,
    r: ApiResult<Vec<VolumeAttach>>,
)
    requires
        call_ensures(check_volumes, (org, &reqs, &found), r),
        reqs@.len() == found@.len(),
    ensures
        r is Ok <==> forall|k: int|
            0 <= k < reqs@.len() ==> #[trigger] attachable(org@, reqs@, found@, k),
        r matches Ok(out) ==> out@.len() == reqs@.len() && forall|k: int|
            0 <= k < reqs@.len() ==> (#[trigger] out@[k]).volume_id@ == reqs@[k].volume_id@
                && out@[k].mount_path@ == reqs@[k].mount_path@,
{
    lemma_volumes(org@, reqs@, found@, 0);
}

// ---------------------------------------------------------------------------
// Secrets
// ---------------------------------------------------------------------------

proof fn lemma_no_secret_fault(
    key: Seq<u8>,
    names: Seq<String>,
    found: Seq<FoundSecret>,
    from: int,
    i: int,
)
    requires
        secrets_fault(key, names, found, from) is None,
        0 <= from <= i < names.len(),
    ensures
        secret_fault(key, names[i]@, found[i]) is None,
    decreases i - from,
{
    if from < i {
        lemma_no_secret_fault(key, names, found, from + 1, i);
    }
}

proof fn lemma_secret_values(
    key: Seq<u8>,
    names: Seq<String>,
    found: Seq<FoundSecret>,
    n: int,
    i: int,
)
    requires
        0 <= i < n <= names.len(),
        forall|k: int| i < k < n ==> (#[trigger] names[k])@ != names[i]@,
    ensures
        secret_values(key, names, found, n).dom().contains(names[i]@),
        secret_values(key, names, found, n)[names[i]@] == crate::admission::secret_value(
            key,
            found[i]->Ok_0->Some_0,
        )->Ok_0,
    decreases n,
{
    if i < n - 1 {
        lemma_secret_values(key, names, found, n - 1, i);
        assert(names[n - 1]@ != names[i]@);
    }
}

proof fn lemma_secret_names(
    key: Seq<u8>,
    names: Seq<String>,
    found: Seq<FoundSecret>,
    n: int,
    name: Seq<char>,
)
    requires
        0 <= n <= names.len(),
        secret_values(key, names, found, n).dom().contains(name),
    ensures
        exists|i: int| 0 <= i < n && (#[trigger] names[i])@ == name,
    decreases n,
{
    if n > 0 {
        if names[n - 1]@ != name {
            lemma_secret_names(key, names, found, n - 1, name);
        }
    }
}

/// Every secret that is asked for is injected under its name, with the value that its
/// record decrypts to. A secret that is not there refuses the request.
pub proof fn law_secrets_are_injected(
    key: [u8; 32],
    names: Vec<String>,
    found: Vec<FoundSecret>,
    i: int,
    value: Result<String, crate::secrets::SecretError>,
    r: ApiResult<EnvMap>,
)
    requires
        call_ensures(resolve_secrets, (&key, &names, &found), r),
        names@.len() == found@.len(),
        0 <= i < names@.len(),
        forall|k: int| i < k < names@.len() ==> (#[trigger] names@[k])@ != names@[i]@,
        found@[i] matches Ok(Some(rec)) ==> call_ensures(decrypt, (&key, &rec), value),
    ensures
        found@[i] matches Ok(None) ==> r is Err,
        found@[i] is Err ==> r is Err,
        r matches Ok(env) ==> {
            &&& found@[i] matches Ok(Some(rec))
            &&& value is Ok
            &&& env@.dom().contains(names@[i]@)
            &&& env@[names@[i]@] == value->Ok_0@
        },
{
    if secrets_fault(key@, names@, found@, 0) is None {
        lemma_no_secret_fault(key@, names@, found@, 0, i);
        lemma_secret_values(key@, names@, found@, names@.len() as int, i);
    }
}

/// Nothing is injected but what was asked for.
pub proof fn law_only_asked_secrets(
    key: [u8; 32],
    names: Vec<String>,
    found: Vec<FoundSecret>,
    name: Seq<char>,
    r: ApiResult<EnvMap>,
)
    requires
        call_ensures(resolve_secrets, (&key, &names, &found), r),
        forall|i: int| 0 <= i < names@.len() ==> (#[trigger] names@[i])@ != name,
    ensures
        r matches Ok(env) ==> !env@.dom().contains(name),
{
    if r is Ok && r->Ok_0@.dom().contains(name) {
        lemma_secret_names(key@, names@, found@, names@.len() as int, name);
    }
}

// ---------------------------------------------------------------------------
// The whole request
// ---------------------------------------------------------------------------

/// What an admitted request is: of an org that may create, with an image and a shape that
/// fit each other, an idle window in range, and the features that were asked for.
pub proof fn law_admitted_requests(
    ctx: AuthContext,
    key: [u8; 32],
    req: CreateSandboxRequest,
    found: Lookups,
    least: Resources,
    i: int,
    r: ApiResult<Admitted>,
)
    requires
        call_ensures(check_request, (&ctx, &key, req, found), r),
        r matches Ok(a) ==> call_ensures(ImageClass::minimum_resources, (&a.class,), least),
        found.volumes@.len() == req.volumes@.len(),
        0 <= i,
    ensures
        r matches Ok(a) ==> {
            &&& found.org matches Ok(Some(o)) && a.org == o && o.status != OrgStatus::Suspended && (
            ctx.admin || o.prepaid_credits > o.spent)
            &&& req.image is None ==> a.image@ == "base"@
            &&& req.image matches Some(name) ==> a.image@ == name@
            &&& a.class is Custom ==> found.published == Ok::<bool, String>(true)
            &&& covers(a.resources, least)
            &&& 30 <= a.auto_stop_seconds <= 3600
            &&& req.auto_stop_seconds matches Some(s) ==> a.auto_stop_seconds == s
            &&& a.snapshot <==> req.snapshot == Some(true)
            &&& a.features.browser is Some ==> a.class is Browser && a.features.browser
                == req.browser
            &&& a.features.docker ==> req.docker == Some(DockerConfig { enabled: true })
            &&& a.features.mounts == req.mounts
            &&& req.startup == Ok::<Option<StartupRecipe>, String>(a.features.startup)
            &&& a.features.files@.len() == req.files@.len()
            &&& i < req.volumes@.len() ==> attachable(
                ctx.org_id@,
                req.volumes@,
                found.volumes@,
                i,
            ) && a.features.volumes@[i].volume_id@ == req.volumes@[i].volume_id@
                && a.features.volumes@[i].mount_path@ == req.volumes@[i].mount_path@
            &&& i < req.mounts@.len() ==> mountable(req.mounts@[i])
        },
{
    if r is Ok {
        let a = r->Ok_0;
        lemma_volumes(ctx.org_id@, req.volumes@, found.volumes@, 0);
        lemma_mounts(req.mounts@, 0);
        crate::catalog::law_class_is_unique(
            a.image@,
            a.class,
            crate::admission::family(a.image@),
        );
        reveal_strlit("custom/");
        if a.class is Custom {
            assert(crate::text::has_prefix(a.image@, "custom/"@));
        }
    }
}

// ---------------------------------------------------------------------------
// Network policies
// ---------------------------------------------------------------------------

/// A policy that is accepted has the rules that its mode is about and no others.
pub proof fn law_accepted_policies(p: NetworkPolicy, r: Result<(), String>)
    requires
        call_ensures(NetworkPolicy::validate, (&p,), r),
        r is Ok,
    ensures
        p.egress == EgressMode::Allowlist <==> p.allow@.len() > 0,
        p.egress == EgressMode::Denylist <==> p.deny@.len() > 0,
{
}

proof fn lemma_rules(rules: Seq<crate::model::RuleView>, from: int, i: int)
    requires
        crate::model::first_rule_fault(rules, from) is None,
        0 <= from <= i < rules.len(),
    ensures
        crate::model::rule_fault(rules[i]) is None,
    decreases i - from,
{
    if from < i {
        lemma_rules(rules, from + 1, i);
    }
}

/// A rule of an accepted policy names no port zero, and a range that can be read where it
/// is about one.
pub proof fn law_accepted_rules(p: NetworkPolicy, i: int, j: int, r: Result<(), String>)
    requires
        call_ensures(NetworkPolicy::validate, (&p,), r),
        r is Ok,
    ensures
        0 <= i < p.allow@.len() && 0 <= j < p.allow@[i].ports@.len() ==> p.allow@[i].ports@[j] != 0,
        0 <= i < p.deny@.len() && 0 <= j < p.deny@[i].ports@.len() ==> p.deny@[i].ports@[j] != 0,
        0 <= i < p.allow@.len() && p.allow@[i].kind == NetworkRuleKind::Cidr ==> cidr(
            p.allow@[i].value@,
        ) is Some,
        0 <= i < p.deny@.len() && p.deny@[i].kind == NetworkRuleKind::Cidr ==> cidr(
            p.deny@[i].value@,
        ) is Some,
{
    let all = p@.allow + p@.deny;
    if 0 <= i < p.allow@.len() {
        lemma_rules(all, 0, i);
        assert(all[i] == p.allow@[i]@);
    }
    if 0 <= i < p.deny@.len() {
        let k = p.allow@.len() + i;
        lemma_rules(all, 0, k);
        assert(all[k] == p.deny@[i]@);
    }
}

proof fn lemma_private(a: Ipv4)
    ensures
        crate::model::is_hard_denied(a.value()) <==> a.0 == 10 || a.0 == 127 || (a.0 == 172 && 16
            <= a.1 < 32) || (a.0 == 192 && a.1 == 168) || (a.0 == 169 && a.1 == 254) || a == Ipv4(
            100,
            100,
            100,
            200,
        ),
{
    vstd::arithmetic::power2::lemma2_to64();
    assert(crate::netaddr::range_size(8) == 16_777_216);
    assert(crate::netaddr::range_size(12) == 1_048_576);
    assert(crate::netaddr::range_size(16) == 65_536);
    assert(crate::netaddr::range_size(32) == 1);
    let x = a.value();
    assert(x / 16_777_216 == a.0);
    assert(x / 65_536 == a.0 * 256 + a.1);
    assert(x / 1_048_576 == a.0 * 16 + a.1 as int / 16);
    assert(x / 1 == x);
    assert(Ipv4(10, 0, 0, 0).value() / 16_777_216 == 10);
    assert(Ipv4(127, 0, 0, 0).value() / 16_777_216 == 127);
    assert(Ipv4(172, 16, 0, 0).value() / 1_048_576 == 172 * 16 + 1);
    assert(Ipv4(192, 168, 0, 0).value() / 65_536 == 192 * 256 + 168);
    assert(Ipv4(169, 254, 0, 0).value() / 65_536 == 169 * 256 + 254);
    assert(Ipv4(100, 100, 100, 200).value() / 1 == 1_684_301_000);
    if x == 1_684_301_000 {
        assert(a.0 == 100 && a.1 == 100 && a.2 == 100 && a.3 == 200);
    }
}

/// No accepted allowlist names an address of a private network, of the host itself, of the
/// link, or of a metadata service.
pub proof fn law_private_addresses_are_never_allowed(
    p: NetworkPolicy,
    i: int,
    a: Ipv4,
    prefix: u8,
    r: Result<(), String>,
)
    requires
        call_ensures(NetworkPolicy::validate, (&p,), r),
        p.egress == EgressMode::Allowlist,
        0 <= i < p.allow@.len(),
        p.allow@[i].kind == NetworkRuleKind::Cidr,
        cidr(p.allow@[i].value@) == Some((a, prefix)),
        a.0 == 10 || a.0 == 127 || (a.0 == 172 && 16 <= a.1 < 32) || (a.0 == 192 && a.1 == 168) || (
        a.0 == 169 && a.1 == 254) || a == Ipv4(100, 100, 100, 200),
    ensures
        r is Err,
{
    if r is Ok {
        crate::model::law_accepted_allowlist_spares_hard_denied(p@, i);
        assert(p@.allow[i] == p.allow@[i]@);
        let (b, q) = cidr(p@.allow[i].value)->Some_0;
        assert(b == a && q == prefix);
        assert(crate::netaddr::in_range(a.value(), b, q));
        lemma_private(a);
    }
}

/// A public address can be allowed, and any readable range can be denied.
pub proof fn law_public_addresses_can_be_allowed(
    p: NetworkPolicy,
    a: Ipv4,
    r: Result<(), String>,
)
    requires
        call_ensures(NetworkPolicy::validate, (&p,), r),
        p.egress == EgressMode::Allowlist && p.allow@.len() == 1 && p.deny@.len() == 0
            || p.egress == EgressMode::Denylist && p.deny@.len() == 1 && p.allow@.len() == 0,
        ({
            let rule = (p.allow@ + p.deny@)[0];
            &&& rule.kind == NetworkRuleKind::Cidr
            &&& rule.ports@.len() == 0
            &&& crate::text::trimmed(rule.value@).len() > 0
            &&& cidr(rule.value@) == Some((a, 32u8))
        }),
        p.egress == EgressMode::Allowlist ==> a.0 != 10 && a.0 != 127 && a.0 != 172 && a.0 != 192
            && a.0 != 169 && a.0 != 100,
    ensures
        r is Ok,
{
    reveal_with_fuel(crate::model::first_rule_fault, 2);
    reveal_with_fuel(crate::model::first_hard_denied, 2);
    let all = p@.allow + p@.deny;
    assert(all.len() == 1);
    assert(all[0] == (p.allow@ + p.deny@)[0]@);
    assert(!all[0].ports.contains(0));
    lemma_private(a);
    if p.egress == EgressMode::Allowlist {
        assert(p@.allow.len() == 1);
        assert(p@.allow[0] == all[0]);
        assert(!crate::model::hard_denied(a, 32));
    }
}

/// A structured rule has the kind, the protocol and the ports that it was given; a bare
/// value is about all protocols and ports.
pub proof fn law_written_rules(
    kind: NetworkRuleKind,
    value: &str,
    protocol: Option<NetworkProtocol>,
    ports: Vec<u16>,
    bare: NetworkRule,
    full: NetworkRule,
)
    requires
        call_ensures(NetworkRule::from_value, (value,), bare),
        call_ensures(NetworkRule::from_parts, (Some(kind), value, protocol, ports), full),
    ensures
        full.kind == kind && full.protocol == protocol && full.ports@ == ports@,
        full.value@ == bare.value@,
        bare.protocol is None && bare.ports@.len() == 0,
        bare.kind == NetworkRuleKind::Cidr <==> cidr(bare.value@) is Some,
{
    assert(full@.value == bare@.value);
    assert(bare@.ports.len() == 0);
}

/// The rules that count are those of the mode.
pub proof fn law_rules_that_count(p: NetworkPolicy, r: &[NetworkRule])
    requires
        call_ensures(NetworkPolicy::rules_for_mode, (&p,), r),
    ensures
        p.egress == EgressMode::Allowlist ==> r@ == p.allow@,
        p.egress == EgressMode::Denylist ==> r@ == p.deny@,
        p.egress == EgressMode::Default || p.egress == EgressMode::Closed ==> r@.len() == 0,
{
}

/// A name that is written plainly: in lower case and without a final dot.
pub open spec fn written_plainly(name: Seq<char>) -> bool {
    crate::model::canonical(name) == name
}

/// A pattern without a wildcard matches the same name and no other. One that begins with
/// `*.` matches what has one label more, neither the rest alone nor anything deeper.
pub proof fn law_matching_names(
    pattern: &str,
    domain: &str,
    label: Seq<char>,
    suffix: Seq<char>,
    r: bool,
)
    requires
        call_ensures(domain_matches, (pattern, domain), r),
        written_plainly(pattern@),
        written_plainly(domain@),
    ensures
        (pattern@.len() == 0 || pattern@[0] != '*') ==> (r <==> pattern@ == domain@),
        pattern@ == "*."@ + suffix && domain@ == label + seq!['.'] + suffix && label.len() > 0
            && !label.contains('.') ==> r,
        pattern@ == "*."@ + suffix && domain@ == suffix ==> !r,
        pattern@ == "*."@ + suffix && domain@ == label + seq!['.'] + suffix && label.contains('.')
            ==> !r,
{
    reveal_strlit("*.");
    if pattern@.len() >= 2 && pattern@.subrange(0, 2) == "*."@ {
        assert(pattern@.subrange(0, 2)[0] == '*');
    }
    if pattern@ == "*."@ + suffix {
        assert(pattern@.subrange(0, 2) =~= "*."@);
        assert(pattern@.subrange(2, pattern@.len() as int) =~= suffix);
        if domain@ == label + seq!['.'] + suffix && label.len() > 0 && !label.contains('.') {
            assert(crate::model::one_label_before(domain@, suffix));
        }
        if r {
            assert(crate::model::one_label_before(domain@, suffix));
            let b = choose|l: Seq<char>|
                l.len() > 0 && !l.contains('.') && domain@ == #[trigger] (l + seq!['.'] + suffix);
            assert((b + seq!['.'] + suffix).len() == b.len() + 1 + suffix.len());
            if domain@ == label + seq!['.'] + suffix {
                assert((label + seq!['.'] + suffix).len() == label.len() + 1 + suffix.len());
                assert(b.len() == label.len());
                assert forall|i: int| 0 <= i < b.len() implies b[i] == label[i] by {
                    assert((b + seq!['.'] + suffix)[i] == b[i]);
                    assert((label + seq!['.'] + suffix)[i] == label[i]);
                }
                assert(b =~= label);
            }
        }
    }
}

} // verus!
