//! Building an image: each step works on what the step before it made.

use crate::builder::{
    action_of, advance, advanced, content_of, next_action, size_of, BuildAction, BuildEvent,
    BuildJob, Stage,
};
use crate::images::ImageSource;
use crate::paths::under;
use crate::runtime::vm::Settings;
use crate::text::{quoted, trimmed};
use vstd::prelude::*;
use vstd::string::*;

verus! {

/// The shell command of a stage.
pub open spec fn command_of(job: BuildJob, s: Stage<Seq<char>>) -> Seq<char> {
    match action_of(job, s) {
        BuildAction::Shell { cmd, .. } => cmd,
        BuildAction::Capture(cmd) => cmd,
        _ => Seq::<char>::empty(),
    }
}

/// Something went well: it finished, or it said something.
pub open spec fn went_well(e: BuildEvent<Seq<char>>) -> bool {
    e is Finished || e is Output
}

/// The workspace of a build.
pub open spec fn workspace(job: BuildJob) -> Seq<char> {
    under(under(job.data_dir@, "builds"@), job.image_id@)
}

/// A Dockerfile is built in the one directory that the context unpacks to, where
/// there is one, else in the context itself: the Dockerfile is looked for there, and
/// that is what is handed to the build. Other reports than of a directory count as
/// none.
pub proof fn law_build_runs_where_the_context_is(
    job: BuildJob,
    context_url: String,
    dockerfile: String,
    e: BuildEvent<Seq<char>>,
)
    requires
        job.source == (ImageSource::Dockerfile { context_url, dockerfile }),
    ensures
        ({
            let dir = match e {
                BuildEvent::Subdir(Some(d)) => d,
                _ => under(workspace(job), "ctx"@),
            };
            let next = advanced(job, Stage::Look, e);
            &&& action_of(job, next) is Shell
            &&& command_of(job, next) == "docker build -f "@ + quoted(under(dir, dockerfile@))
                + " -t "@ + quoted("workdir-build-"@ + job.image_id@) + " "@ + quoted(dir)
        }),
        action_of(job, Stage::Look) == BuildAction::OnlySubdir(under(workspace(job), "ctx"@)),
{
}

/// The context is fetched from its address and unpacked into the directory that is
/// then looked into.
pub proof fn law_context_is_fetched_and_unpacked(
    job: BuildJob,
    context_url: String,
    dockerfile: String,
    e: BuildEvent<Seq<char>>,
)
    requires
        job.source == (ImageSource::Dockerfile { context_url, dockerfile }),
        went_well(e),
    ensures
        ({
            let tar = under(workspace(job), "context.tar"@);
            let dir = under(workspace(job), "ctx"@);
            let (a, b, c) = (
                Stage::<Seq<char>>::Source,
                advanced(job, Stage::Source, e),
                advanced(job, advanced(job, Stage::Source, e), e),
            );
            &&& action_of(job, a) == BuildAction::MakeDir(dir)
            &&& action_of(job, b) is Shell && command_of(job, b) == "curl -fsSL -o "@ + quoted(tar)
                + " "@ + quoted(context_url@)
            &&& action_of(job, c) is Shell && command_of(job, c) == "tar -xaf "@ + quoted(tar)
                + " -C "@ + quoted(dir)
            &&& action_of(job, advanced(job, c, e)) == BuildAction::OnlySubdir(dir)
        }),
{
}

/// What becomes a container is what was pulled, or what was built: an image
/// reference under its own name, a Dockerfile's image under the tag it was built
/// with.
pub proof fn law_container_is_of_the_source(
    job: BuildJob,
    dir: Seq<char>,
    e: BuildEvent<Seq<char>>,
)
    requires
        went_well(e),
    ensures
        job.source matches ImageSource::Oci { image_ref } ==> {
            &&& action_of(job, Stage::Source) is Shell
            &&& command_of(job, Stage::Source) == "docker pull "@ + quoted(image_ref@)
            &&& command_of(job, advanced(job, Stage::Source, e)) == "docker create "@ + quoted(
                image_ref@,
            )
        },
        job.source is Dockerfile ==> command_of(job, advanced(job, Stage::Assemble(dir), e))
            == "docker create "@ + quoted("workdir-build-"@ + job.image_id@),
{
}

/// The container that was made is the one that is exported, into the root file system
/// of the workspace, and the one that is removed; the image that was built for it is
/// removed too.
pub proof fn law_container_is_flattened(
    job: BuildJob,
    reference: Seq<char>,
    said: Seq<char>,
    e: BuildEvent<Seq<char>>,
)
    requires
        went_well(e),
    ensures
        ({
            let a = advanced(job, Stage::Container(reference), BuildEvent::Output(said));
            let b = advanced(job, a, e);
            let c = advanced(job, b, e);
            &&& action_of(job, a) is Shell
            &&& command_of(job, a) == "docker export "@ + quoted(trimmed(said)) + " | tar -x -C "@
                + quoted(under(workspace(job), "rootfs"@))
            &&& command_of(job, b) == "docker rm "@ + quoted(trimmed(said))
            &&& job.source is Dockerfile ==> command_of(job, c) == "docker rmi "@ + (
            "workdir-build-"@ + job.image_id@)
            &&& job.source is Dockerfile ==> advanced(job, c, e) is Agent
            &&& job.source is Oci ==> c is Agent
            &&& action_of(job, Stage::Workspace) == BuildAction::MakeDir(
                under(workspace(job), "rootfs"@),
            )
        }),
{
}

/// The agent that is put in is the static one where there is one, else the dynamic
/// one; without either the build fails. It goes where the init starts it from.
pub proof fn law_agent_is_put_in(
    job: BuildJob,
    has_static: bool,
    has_dynamic: bool,
    e: BuildEvent<Seq<char>>,
)
    requires
        went_well(e),
    ensures
        ({
            let fixed = under(job.data_dir@, "sandbox-guest-agent-static"@);
            let plain = under(job.data_dir@, "sandbox-guest-agent"@);
            let root = under(workspace(job), "rootfs"@);
            let a = advanced(job, Stage::Agent, BuildEvent::Existing(has_static, has_dynamic));
            let b = advanced(job, a, e);
            let c = advanced(job, b, e);
            let d = advanced(job, c, e);
            let f = advanced(job, d, e);
            let g = advanced(job, f, e);
            &&& action_of(job, Stage::Agent) == BuildAction::Exist(fixed, plain)
            &&& !has_static && !has_dynamic ==> a is Failed
            &&& has_static || has_dynamic ==> {
                &&& action_of(job, a) == BuildAction::MakeDir(under(root, "usr/local/bin"@))
                &&& action_of(job, b) == BuildAction::MakeDir(under(root, "sbin"@))
                &&& action_of(job, c) == BuildAction::Copy(
                    if has_static {
                        fixed
                    } else {
                        plain
                    },
                    under(root, "usr/local/bin/sandbox-guest-agent"@),
                )
                &&& action_of(job, d) == BuildAction::WriteInit(under(root, "sbin/sandbox-init"@))
                &&& command_of(job, f) == "chmod 755 "@ + quoted(
                    under(root, "usr/local/bin/sandbox-guest-agent"@),
                )
                &&& command_of(job, g) == "chmod 755 "@ + quoted(under(root, "sbin/sandbox-init"@))
                &&& advanced(job, g, e) is Measure
            }
        }),
{
}

/// The image file is made of the root file system that was filled, with room for what
/// it was measured to hold and for what was asked for, and at least four GiB; it is
/// published under the image's name, where the runtime looks for it, and its size on
/// disk is what is recorded.
pub proof fn law_packed_image_is_published(
    job: BuildJob,
    measured: BuildEvent<Seq<char>>,
    e: BuildEvent<Seq<char>>,
    bytes: u64,
    s: Settings,
)
    requires
        went_well(e),
        s.images_dir@ == job.images_dir@,
    ensures
        ({
            let root = under(workspace(job), "rootfs"@);
            let packed = under(workspace(job), "rootfs.ext4"@);
            let out = s.rootfs("custom"@, job.name@);
            let a = advanced(job, Stage::Measure, measured);
            let b = advanced(job, a, e);
            let c = advanced(job, b, e);
            let d = advanced(job, c, e);
            let f = advanced(job, d, e);
            let g = advanced(job, f, BuildEvent::Bytes(bytes));
            &&& command_of(job, Stage::Measure) == "du -sm "@ + quoted(root) + " | cut -f1"@
            &&& a matches Stage::Allocate(gb, mb) && action_of(job, a) matches BuildAction::CreateSized(
                file,
                size,
            ) && file == packed && gb >= 4 && gb * 1024 > mb && (job.disk_hint_gb matches Some(h)
                ==> gb >= h) && (gb * 1_073_741_824 <= u64::MAX ==> size == gb * 1_073_741_824)
                && mb == content_of(measured)
            &&& action_of(job, b) is Shell && command_of(job, b) == "mkfs.ext4 -F -q -d "@ + quoted(
                root,
            ) + " -L wd-custom "@ + quoted(packed)
            &&& action_of(job, c) == BuildAction::MakeDir(under(job.images_dir@, "custom"@))
            &&& action_of(job, d) == BuildAction::Move(packed, out)
            &&& action_of(job, f) == BuildAction::DiskUse(out)
            &&& action_of(job, g) == BuildAction::RemoveDir(workspace(job))
            &&& advanced(job, g, e) == Stage::<Seq<char>>::Done(bytes)
        }),
{
    reveal_strlit("custom");
}

/// The content of an image is what was measured, in MiB, and counts as one GiB where
/// nothing could be read. The image is no larger than it has to be: four GiB, what was
/// asked for, or the content with three tenths to spare and one GiB.
pub proof fn law_image_size(hint: Option<u32>, mb: u64, e: BuildEvent<Seq<char>>)
    ensures
        ({
            let gb = size_of(hint, mb);
            &&& gb == 4 || (hint matches Some(h) && gb == h) || gb == mb * 13 / 10 / 1024 + 1
            &&& gb >= 4
            &&& gb >= mb * 13 / 10 / 1024 + 1
            &&& hint matches Some(h) ==> gb >= h
        }),
        !(e is Output) ==> content_of(e) == 1024,
        e matches BuildEvent::Output(t) ==> (crate::numeral::parsed(trimmed(t), u64::MAX as nat)
            matches Some(n) ==> content_of(e) == n),
        e matches BuildEvent::Output(t) ==> (crate::numeral::parsed(trimmed(t), u64::MAX as nat)
            is None ==> content_of(e) == 1024),
{
}

/// A step that is refused ends the build, if the build cannot go on without it: the
/// daemon, the workspace, the pull or the context, the build, the container, the
/// agent, the init, the image file, its formatting, its publication.
pub proof fn law_refusals_end_the_build(job: BuildJob, s: Stage<Seq<char>>, why: Seq<char>)
    requires
        s is Docker || s is Workspace || s is Source || s is Fetch || s is Unpack || s is Assemble
            || s is Container || s is PutAgent || s is PutInit || s is Allocate || s is Format
            || s is OutDir || s is Publish,
    ensures
        advanced(job, s, BuildEvent::Refused(why)) is Failed,
        advanced(job, s, BuildEvent::NotStarted(why)) is Failed,
        forall|cid: Seq<char>| #[trigger]
            advanced(
                job,
                advanced(job, Stage::Flatten(cid), BuildEvent::Refused(why)),
                BuildEvent::Finished,
            ) is Failed,
{
}

/// The actions and the stages that are handed out are the ones that these laws speak
/// of.
pub proof fn law_builds_are_driven(
    job: BuildJob,
    s: Stage<String>,
    e: BuildEvent<String>,
    a: BuildAction<String>,
    n: Stage<String>,
)
    requires
        call_ensures(next_action, (&job, &s), a),
        call_ensures(advance, (&job, s, e), n),
    ensures
        a@ == action_of(job, s@),
        n@ == advanced(job, s@, e@),
{
}

} // verus!
