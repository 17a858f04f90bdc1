//! Building a custom image on the node: an OCI reference or a Dockerfile becomes
//! a bootable root filesystem with the guest agent inside, published where the
//! runtime looks for it.
//!
//! The build is a machine. Whoever drives it performs the action of the current
//! stage and reports what came of it; the next stage, the log entry and the
//! outcome are decided here.

use crate::images::{CustomImage, ImageSource, ImageStatus};
use crate::nodes::Nanos;
use crate::numeral::{decimal, parse_max, parsed, to_decimal};
use crate::paths::{path_join, under};
use crate::runtime::vm::Settings;
use crate::text::{
    concat2, concat3, line_list, lines, quote, quoted, replace_char, trim, trimmed, views,
    with_char,
};
use vstd::prelude::*;
use vstd::string::*;

verus! {

/// The init that is put into the image at `/sbin/sandbox-init`. It mounts, brings
/// up the network where the image has an `ip` binary, and starts the guest agent,
/// which listens on vsock itself: an arbitrary userland need not have anything
/// else.
pub const CUSTOM_INIT: &'static str = "#!/bin/sh
# workdir custom-image init (injected at build time).
export PATH=/usr/local/sbin:/usr/local/bin:/usr/sbin:/usr/bin:/sbin:/bin
mount -t proc proc /proc 2>/dev/null
mount -t sysfs sysfs /sys 2>/dev/null
mount -t devtmpfs devtmpfs /dev 2>/dev/null
mkdir -p /dev/pts && mount -t devpts devpts /dev/pts 2>/dev/null
mkdir -p /sys/fs/cgroup && mount -t cgroup2 none /sys/fs/cgroup 2>/dev/null
mkdir -p /workspace /run /tmp

ip link set lo up 2>/dev/null
WDIP=\"\"; WDGW=\"\"; WDDNS=\"1.1.1.1\"
for tok in $(cat /proc/cmdline); do
  case \"$tok\" in
    wd.ip=*)  WDIP=${tok#wd.ip=} ;;
    wd.gw=*)  WDGW=${tok#wd.gw=} ;;
    wd.dns=*) WDDNS=${tok#wd.dns=} ;;
  esac
done
if [ -n \"$WDIP\" ] && command -v ip >/dev/null 2>&1; then
  i=0; while [ $i -lt 20 ] && ! ip link show eth0 >/dev/null 2>&1; do i=$((i+1)); sleep 0.1; done
  ip addr add \"$WDIP/16\" dev eth0 2>/dev/null
  ip link set eth0 up 2>/dev/null
  ip route add default via \"$WDGW\" 2>/dev/null
  printf 'nameserver %s\\n' \"$WDDNS\" > /etc/resolv.conf 2>/dev/null
fi

exec /usr/local/bin/sandbox-guest-agent --vsock-listen 5005
";

// ---------------------------------------------------------------------------
// Stages, actions and events
// ---------------------------------------------------------------------------

/// What is built, and where.
#[derive(Debug)]
pub struct BuildJob {
    pub image_id: String,
    /// `custom/<org>/<name>`.
    pub name: String,
    pub source: ImageSource,
    /// The disk that the image asks for, in GiB.
    pub disk_hint_gb: Option<u32>,
    pub data_dir: String,
    pub images_dir: String,
}

/// Where a build stands. `S` is a text.
#[derive(Debug)]
pub enum Stage<S> {
    /// Is there a docker daemon?
    Docker,
    /// Make the workspace.
    Workspace,
    /// Pull the image, or make room for the build context.
    Source,
    Fetch,
    Unpack,
    /// Does the context nest everything under one directory?
    Look,
    /// Build from this directory.
    Assemble(S),
    /// Make a container of this image.
    Container(S),
    /// Flatten this container.
    Flatten(S),
    /// Remove this container; the flattening failed with this, if it did.
    Discard(S, Option<S>),
    /// Remove the image that was built.
    Untag,
    /// Which agent binaries are there?
    Agent,
    BinDir(S),
    SbinDir(S),
    /// Put this agent binary in.
    PutAgent(S),
    PutInit,
    AgentMode,
    InitMode,
    /// How large is it?
    Measure,
    /// Make an image file of this many GiB for this many MiB of content.
    Allocate(u64, u64),
    Format(u64, u64),
    OutDir,
    Publish,
    /// How much does it take on disk?
    Weigh,
    /// Remove the workspace; the artifact takes this many bytes.
    Clean(u64),
    /// Published; the bytes it takes.
    Done(u64),
    Failed(S),
}

/// One piece of outside work.
#[derive(Debug)]
pub enum BuildAction<S> {
    /// Run a shell command that shows up in the log under its title.
    Shell { title: S, cmd: S },
    /// Run a shell command for its output.
    Capture(S),
    /// Create a directory and those above it.
    MakeDir(S),
    /// The one entry of a directory, if it has one and that is a directory.
    OnlySubdir(S),
    /// Do these two files exist?
    Exist(S, S),
    /// Copy the first path to the second.
    Copy(S, S),
    /// Write [`CUSTOM_INIT`] to a path.
    WriteInit(S),
    /// Create a file of so many bytes, without filling it.
    CreateSized(S, u64),
    /// Move the first path to the second, by copying where it has to be.
    Move(S, S),
    /// The bytes that a file takes on disk.
    DiskUse(S),
    /// Remove a directory and all it holds.
    RemoveDir(S),
    /// Nothing: the build is over.
    Rest,
}

/// What came of an action.
#[derive(Debug)]
pub enum BuildEvent<S> {
    /// It succeeded.
    Finished,
    /// A command succeeded with this output.
    Output(S),
    /// It failed; a command's error output, or the reason.
    Refused(S),
    /// A command could not be started, for this reason.
    NotStarted(S),
    /// A file was created and could not be given its size, for this reason.
    NotSized(S),
    Subdir(Option<S>),
    /// Whether the first and the second file exist.
    Existing(bool, bool),
    Bytes(u64),
}

/// A text inside an option.
pub open spec fn seen(o: Option<String>) -> Option<Seq<char>> {
    match o {
        Some(s) => Some(s@),
        None => None,
    }
}

impl View for Stage<String> {
    type V = Stage<Seq<char>>;

    open spec fn view(&self) -> Stage<Seq<char>> {
        match *self {
            Stage::Docker => Stage::Docker,
            Stage::Workspace => Stage::Workspace,
            Stage::Source => Stage::Source,
            Stage::Fetch => Stage::Fetch,
            Stage::Unpack => Stage::Unpack,
            Stage::Look => Stage::Look,
            Stage::Assemble(s) => Stage::Assemble(s@),
            Stage::Container(s) => Stage::Container(s@),
            Stage::Flatten(s) => Stage::Flatten(s@),
            Stage::Discard(s, e) => Stage::Discard(s@, seen(e)),
            Stage::Untag => Stage::Untag,
            Stage::Agent => Stage::Agent,
            Stage::BinDir(s) => Stage::BinDir(s@),
            Stage::SbinDir(s) => Stage::SbinDir(s@),
            Stage::PutAgent(s) => Stage::PutAgent(s@),
            Stage::PutInit => Stage::PutInit,
            Stage::AgentMode => Stage::AgentMode,
            Stage::InitMode => Stage::InitMode,
            Stage::Measure => Stage::Measure,
            Stage::Allocate(g, m) => Stage::Allocate(g, m),
            Stage::Format(g, m) => Stage::Format(g, m),
            Stage::OutDir => Stage::OutDir,
            Stage::Publish => Stage::Publish,
            Stage::Weigh => Stage::Weigh,
            Stage::Clean(b) => Stage::Clean(b),
            Stage::Done(b) => Stage::Done(b),
            Stage::Failed(s) => Stage::Failed(s@),
        }
    }
}

impl View for BuildAction<String> {
    type V = BuildAction<Seq<char>>;

    open spec fn view(&self) -> BuildAction<Seq<char>> {
        match *self {
            BuildAction::Shell { title, cmd } => BuildAction::Shell { title: title@, cmd: cmd@ },
            BuildAction::Capture(s) => BuildAction::Capture(s@),
            BuildAction::MakeDir(s) => BuildAction::MakeDir(s@),
            BuildAction::OnlySubdir(s) => BuildAction::OnlySubdir(s@),
            BuildAction::Exist(a, b) => BuildAction::Exist(a@, b@),
            BuildAction::Copy(a, b) => BuildAction::Copy(a@, b@),
            BuildAction::WriteInit(s) => BuildAction::WriteInit(s@),
            BuildAction::CreateSized(s, n) => BuildAction::CreateSized(s@, n),
            BuildAction::Move(a, b) => BuildAction::Move(a@, b@),
            BuildAction::DiskUse(s) => BuildAction::DiskUse(s@),
            BuildAction::RemoveDir(s) => BuildAction::RemoveDir(s@),
            BuildAction::Rest => BuildAction::Rest,
        }
    }
}

impl View for BuildEvent<String> {
    type V = BuildEvent<Seq<char>>;

    open spec fn view(&self) -> BuildEvent<Seq<char>> {
        match *self {
            BuildEvent::Finished => BuildEvent::Finished,
            BuildEvent::Output(s) => BuildEvent::Output(s@),
            BuildEvent::Refused(s) => BuildEvent::Refused(s@),
            BuildEvent::NotStarted(s) => BuildEvent::NotStarted(s@),
            BuildEvent::NotSized(s) => BuildEvent::NotSized(s@),
            BuildEvent::Subdir(o) => BuildEvent::Subdir(seen(o)),
            BuildEvent::Existing(a, b) => BuildEvent::Existing(a, b),
            BuildEvent::Bytes(n) => BuildEvent::Bytes(n),
        }
    }
}

// ---------------------------------------------------------------------------
// Places
// ---------------------------------------------------------------------------

impl BuildJob {
    /// The workspace of the build.
    pub open spec fn work(self) -> Seq<char> {
        under(under(self.data_dir@, "builds"@), self.image_id@)
    }

    pub open spec fn rootfs(self) -> Seq<char> {
        under(self.work(), "rootfs"@)
    }

    pub open spec fn context(self) -> Seq<char> {
        under(self.work(), "ctx"@)
    }

    pub open spec fn tarball(self) -> Seq<char> {
        under(self.work(), "context.tar"@)
    }

    /// The tag of the image that a Dockerfile builds.
    pub open spec fn tag(self) -> Seq<char> {
        "workdir-build-"@ + self.image_id@
    }

    /// The agent that runs on any C library.
    pub open spec fn static_agent(self) -> Seq<char> {
        under(self.data_dir@, "sandbox-guest-agent-static"@)
    }

    /// The agent that needs the GNU C library.
    pub open spec fn dynamic_agent(self) -> Seq<char> {
        under(self.data_dir@, "sandbox-guest-agent"@)
    }

    /// The image file before it is published.
    pub open spec fn packed(self) -> Seq<char> {
        under(self.work(), "rootfs.ext4"@)
    }

    pub open spec fn out_dir(self) -> Seq<char> {
        under(self.images_dir@, "custom"@)
    }

    /// Where the artifact is published: the name with its slashes and colons
    /// flattened.
    pub open spec fn artifact(self) -> Seq<char> {
        under(self.out_dir(), with_char(with_char(self.name@, '/', '_'), ':', '_') + ".ext4"@)
    }

    fn work_dir(&self) -> (r: String)
        ensures
            r@ == self.work(),
    {
        path_join(
            path_join(self.data_dir.as_str(), "builds").as_str(),
            self.image_id.as_str(),
        )
    }

    fn in_work(&self, name: &str) -> (r: String)
        ensures
            r@ == under(self.work(), name@),
    {
        path_join(self.work_dir().as_str(), name)
    }

    fn in_rootfs(&self, name: &str) -> (r: String)
        ensures
            r@ == under(self.rootfs(), name@),
    {
        path_join(self.in_work("rootfs").as_str(), name)
    }

    fn out(&self) -> (r: String)
        ensures
            r@ == self.artifact(),
    {
        let a = replace_char(self.name.as_str(), '/', '_');
        let safe = replace_char(a.as_str(), ':', '_');
        path_join(
            path_join(self.images_dir.as_str(), "custom").as_str(),
            concat2(safe.as_str(), ".ext4").as_str(),
        )
    }
}

/// An artifact is published where the runtime looks for the image.
pub proof fn law_published_where_the_runtime_looks(job: BuildJob, s: Settings)
    requires
        s.images_dir@ == job.images_dir@,
    ensures
        job.artifact() == s.rootfs("custom"@, job.name@),
{
}

// ---------------------------------------------------------------------------
// The action of a stage
// ---------------------------------------------------------------------------

/// `cmd` applied to two quoted words, with `mid` between them.
pub open spec fn two_words(cmd: Seq<char>, a: Seq<char>, mid: Seq<char>, b: Seq<char>) -> Seq<char> {
    cmd + quoted(a) + mid + quoted(b)
}

fn words2(cmd: &str, a: &str, mid: &str, b: &str) -> (r: String)
    ensures
        r@ == two_words(cmd@, a@, mid@, b@),
{
    let mut s = concat3(cmd, quote(a).as_str(), mid);
    s.append(quote(b).as_str());
    s
}

fn word1(cmd: &str, a: &str) -> (r: String)
    ensures
        r@ == cmd@ + quoted(a@),
{
    concat2(cmd, quote(a).as_str())
}

/// Bytes in a GiB.
pub const GIB: u64 = 1_073_741_824;

/// The title of the packing step.
pub open spec fn format_title(size_gb: u64, content_mb: u64) -> Seq<char> {
    "mkfs.ext4 ("@ + decimal(size_gb as nat) + "G, content "@ + decimal(content_mb as nat) + "MB)"@
}

/// The shell step of a stage: its title and its command.
pub open spec fn shell_of(job: BuildJob, s: Stage<Seq<char>>) -> Option<(Seq<char>, Seq<char>)> {
    match s {
        Stage::Docker => Some(
            ("docker available"@, "docker version --format {{.Server.Version}}"@),
        ),
        Stage::Source => match job.source {
            ImageSource::Oci { image_ref } => Some(
                ("pull "@ + image_ref@, "docker pull "@ + quoted(image_ref@)),
            ),
            ImageSource::Dockerfile { .. } => None,
        },
        Stage::Fetch => match job.source {
            ImageSource::Dockerfile { context_url, .. } => Some(
                (
                    "fetch build context"@,
                    two_words("curl -fsSL -o "@, job.tarball(), " "@, context_url@),
                ),
            ),
            ImageSource::Oci { .. } => None,
        },
        Stage::Unpack => Some(
            (
                "unpack build context"@,
                two_words("tar -xaf "@, job.tarball(), " -C "@, job.context()),
            ),
        ),
        Stage::Assemble(dir) => match job.source {
            ImageSource::Dockerfile { dockerfile, .. } => Some(
                (
                    "docker build"@,
                    two_words("docker build -f "@, under(dir, dockerfile@), " -t "@, job.tag())
                        + " "@ + quoted(dir),
                ),
            ),
            ImageSource::Oci { .. } => None,
        },
        Stage::Flatten(cid) => Some(
            (
                "export rootfs"@,
                two_words("docker export "@, cid, " | tar -x -C "@, job.rootfs()),
            ),
        ),
        Stage::Format(size_gb, content_mb) => Some(
            (
                format_title(size_gb, content_mb),
                two_words("mkfs.ext4 -F -q -d "@, job.rootfs(), " -L wd-custom "@, job.packed()),
            ),
        ),
        _ => None,
    }
}

/// The action of a stage.
pub open spec fn action_of(job: BuildJob, s: Stage<Seq<char>>) -> BuildAction<Seq<char>> {
    match shell_of(job, s) {
        Some((title, cmd)) => BuildAction::Shell { title, cmd },
        None => match s {
            Stage::Workspace => BuildAction::MakeDir(job.rootfs()),
            Stage::Source => BuildAction::MakeDir(job.context()),
            Stage::Look => BuildAction::OnlySubdir(job.context()),
            Stage::Container(reference) => BuildAction::Capture(
                "docker create "@ + quoted(reference),
            ),
            Stage::Discard(cid, _) => BuildAction::Capture("docker rm "@ + quoted(cid)),
            Stage::Untag => BuildAction::Capture("docker rmi "@ + job.tag()),
            Stage::Agent => BuildAction::Exist(job.static_agent(), job.dynamic_agent()),
            Stage::BinDir(_) => BuildAction::MakeDir(under(job.rootfs(), "usr/local/bin"@)),
            Stage::SbinDir(_) => BuildAction::MakeDir(under(job.rootfs(), "sbin"@)),
            Stage::PutAgent(src) => BuildAction::Copy(
                src,
                under(job.rootfs(), "usr/local/bin/sandbox-guest-agent"@),
            ),
            Stage::PutInit => BuildAction::WriteInit(under(job.rootfs(), "sbin/sandbox-init"@)),
            Stage::AgentMode => BuildAction::Capture(
                "chmod 755 "@ + quoted(
                    under(job.rootfs(), "usr/local/bin/sandbox-guest-agent"@),
                ),
            ),
            Stage::InitMode => BuildAction::Capture(
                "chmod 755 "@ + quoted(under(job.rootfs(), "sbin/sandbox-init"@)),
            ),
            Stage::Measure => BuildAction::Capture(
                "du -sm "@ + quoted(job.rootfs()) + " | cut -f1"@,
            ),
            Stage::Allocate(size_gb, _) => BuildAction::CreateSized(
                job.packed(),
                bytes_of(size_gb),
            ),
            Stage::OutDir => BuildAction::MakeDir(job.out_dir()),
            Stage::Publish => BuildAction::Move(job.packed(), job.artifact()),
            Stage::Weigh => BuildAction::DiskUse(job.artifact()),
            Stage::Clean(_) => BuildAction::RemoveDir(job.work()),
            _ => BuildAction::Rest,
        },
    }
}

/// The bytes in so many GiB, as far as they can be counted.
pub open spec fn bytes_of(size_gb: u64) -> u64 {
    if size_gb * GIB <= u64::MAX {
        (size_gb * GIB) as u64
    } else {
        u64::MAX
    }
}

fn count_bytes(size_gb: u64) -> (r: u64)
    ensures
        r == bytes_of(size_gb),
{
    match size_gb.checked_mul(GIB) {
        Some(b) => b,
        None => u64::MAX,
    }
}

fn shell_step(job: &BuildJob, s: &Stage<String>) -> (r: Option<(String, String)>)
    ensures
        (match r {
            Some((t, c)) => Some((t@, c@)),
            None => None,
        }) == shell_of(*job, s@),
{
    match s {
        Stage::Docker => Some(
            (
                String::from_str("docker available"),
                String::from_str("docker version --format {{.Server.Version}}"),
            ),
        ),
        Stage::Source => match &job.source {
            ImageSource::Oci { image_ref } => Some(
                (
                    concat2("pull ", image_ref.as_str()),
                    word1("docker pull ", image_ref.as_str()),
                ),
            ),
            ImageSource::Dockerfile { .. } => None,
        },
        Stage::Fetch => match &job.source {
            ImageSource::Dockerfile { context_url, .. } => Some(
                (
                    String::from_str("fetch build context"),
                    words2(
                        "curl -fsSL -o ",
                        job.in_work("context.tar").as_str(),
                        " ",
                        context_url.as_str(),
                    ),
                ),
            ),
            ImageSource::Oci { .. } => None,
        },
        Stage::Unpack => Some(
            (
                String::from_str("unpack build context"),
                words2(
                    "tar -xaf ",
                    job.in_work("context.tar").as_str(),
                    " -C ",
                    job.in_work("ctx").as_str(),
                ),
            ),
        ),
        Stage::Assemble(dir) => match &job.source {
            ImageSource::Dockerfile { dockerfile, .. } => {
                let mut cmd = words2(
                    "docker build -f ",
                    path_join(dir.as_str(), dockerfile.as_str()).as_str(),
                    " -t ",
                    concat2("workdir-build-", job.image_id.as_str()).as_str(),
                );
                cmd.append(" ");
                cmd.append(quote(dir.as_str()).as_str());
                Some((String::from_str("docker build"), cmd))
            },
            ImageSource::Oci { .. } => None,
        },
        Stage::Flatten(cid) => Some(
            (
                String::from_str("export rootfs"),
                words2(
                    "docker export ",
                    cid.as_str(),
                    " | tar -x -C ",
                    job.in_work("rootfs").as_str(),
                ),
            ),
        ),
        Stage::Format(size_gb, content_mb) => {
            let mut title = concat3("mkfs.ext4 (", to_decimal(*size_gb).as_str(), "G, content ");
            title.append(to_decimal(*content_mb).as_str());
            title.append("MB)");
            Some(
                (
                    title,
                    words2(
                        "mkfs.ext4 -F -q -d ",
                        job.in_work("rootfs").as_str(),
                        " -L wd-custom ",
                        job.in_work("rootfs.ext4").as_str(),
                    ),
                ),
            )
        },
        _ => None,
    }
}

/// The action of a stage.
pub fn next_action(job: &BuildJob, s: &Stage<String>) -> (r: BuildAction<String>)
    ensures
        r@ == action_of(*job, s@),
{
    if let Some((title, cmd)) = shell_step(job, s) {
        return BuildAction::Shell { title, cmd };
    }
    match s {
        Stage::Workspace => BuildAction::MakeDir(job.in_work("rootfs")),
        Stage::Source => BuildAction::MakeDir(job.in_work("ctx")),
        Stage::Look => BuildAction::OnlySubdir(job.in_work("ctx")),
        Stage::Container(reference) => BuildAction::Capture(
            word1("docker create ", reference.as_str()),
        ),
        Stage::Discard(cid, _) => BuildAction::Capture(word1("docker rm ", cid.as_str())),
        Stage::Untag => BuildAction::Capture(
            concat2(
                "docker rmi ",
                concat2("workdir-build-", job.image_id.as_str()).as_str(),
            ),
        ),
        Stage::Agent => BuildAction::Exist(
            path_join(job.data_dir.as_str(), "sandbox-guest-agent-static"),
            path_join(job.data_dir.as_str(), "sandbox-guest-agent"),
        ),
        Stage::BinDir(_) => BuildAction::MakeDir(job.in_rootfs("usr/local/bin")),
        Stage::SbinDir(_) => BuildAction::MakeDir(job.in_rootfs("sbin")),
        Stage::PutAgent(src) => BuildAction::Copy(
            src.clone(),
            job.in_rootfs("usr/local/bin/sandbox-guest-agent"),
        ),
        Stage::PutInit => BuildAction::WriteInit(job.in_rootfs("sbin/sandbox-init")),
        Stage::AgentMode => BuildAction::Capture(
            word1("chmod 755 ", job.in_rootfs("usr/local/bin/sandbox-guest-agent").as_str()),
        ),
        Stage::InitMode => BuildAction::Capture(
            word1("chmod 755 ", job.in_rootfs("sbin/sandbox-init").as_str()),
        ),
        Stage::Measure => BuildAction::Capture(
            concat2(word1("du -sm ", job.in_work("rootfs").as_str()).as_str(), " | cut -f1"),
        ),
        Stage::Allocate(size_gb, _) => BuildAction::CreateSized(
            job.in_work("rootfs.ext4"),
            count_bytes(*size_gb),
        ),
        Stage::OutDir => BuildAction::MakeDir(path_join(job.images_dir.as_str(), "custom")),
        Stage::Publish => BuildAction::Move(job.in_work("rootfs.ext4"), job.out()),
        Stage::Weigh => BuildAction::DiskUse(job.out()),
        Stage::Clean(_) => BuildAction::RemoveDir(job.work_dir()),
        _ => BuildAction::Rest,
    }
}

// ---------------------------------------------------------------------------
// The next stage
// ---------------------------------------------------------------------------

/// The last line of a text.
pub open spec fn last_line(s: Seq<char>) -> Seq<char> {
    let l = line_list(s);
    if l.len() > 0 {
        l.last()
    } else {
        "(no stderr)"@
    }
}

fn final_line(s: &str) -> (r: String)
    ensures
        r@ == last_line(s@),
{
    let l = lines(s);
    let ghost all = line_list(s@);
    assert(views(l@).len() == all.len());
    if l.len() > 0 {
        assert(all.last() == l@[l@.len() - 1]@);
        l[l.len() - 1].clone()
    } else {
        String::from_str("(no stderr)")
    }
}

/// Why a shell step failed, if it did.
pub open spec fn shell_error(title: Seq<char>, e: BuildEvent<Seq<char>>) -> Option<Seq<char>> {
    match e {
        BuildEvent::Finished | BuildEvent::Output(_) => None,
        BuildEvent::Refused(err) => Some(title + ": "@ + last_line(err)),
        BuildEvent::NotStarted(err) => Some("spawn: "@ + title + ": "@ + err),
        _ => Some(title + ": unexpected reply"@),
    }
}

fn failed_shell(title: &str, e: &BuildEvent<String>) -> (r: Option<String>)
    ensures
        seen(r) == shell_error(title@, e@),
{
    match e {
        BuildEvent::Finished => None,
        BuildEvent::Output(_) => None,
        BuildEvent::Refused(err) => Some(
            concat3(title, ": ", final_line(err.as_str()).as_str()),
        ),
        BuildEvent::NotStarted(err) => {
            let mut m = concat3("spawn: ", title, ": ");
            m.append(err.as_str());
            Some(m)
        },
        _ => Some(concat2(title, ": unexpected reply")),
    }
}

/// Why a piece of file work failed, if it did.
pub open spec fn file_error(what: Seq<char>, e: BuildEvent<Seq<char>>) -> Option<Seq<char>> {
    match e {
        BuildEvent::Finished | BuildEvent::Output(_) => None,
        BuildEvent::Refused(err) | BuildEvent::NotStarted(err) => Some(what + ": "@ + err),
        _ => Some(what + ": unexpected reply"@),
    }
}

fn failed_file(what: &str, e: &BuildEvent<String>) -> (r: Option<String>)
    ensures
        seen(r) == file_error(what@, e@),
{
    match e {
        BuildEvent::Finished => None,
        BuildEvent::Output(_) => None,
        BuildEvent::Refused(err) => Some(concat3(what, ": ", err.as_str())),
        BuildEvent::NotStarted(err) => Some(concat3(what, ": ", err.as_str())),
        _ => Some(concat2(what, ": unexpected reply")),
    }
}

/// The stage that follows a step, or the failure.
pub open spec fn or_fail(err: Option<Seq<char>>, next: Stage<Seq<char>>) -> Stage<Seq<char>> {
    match err {
        Some(m) => Stage::Failed(m),
        None => next,
    }
}

/// The content of an image in MiB as `du` reports it; a GiB where it does not.
pub open spec fn content_of(e: BuildEvent<Seq<char>>) -> u64 {
    match e {
        BuildEvent::Output(s) => match parsed(trimmed(s), u64::MAX as nat) {
            Some(n) => n as u64,
            None => 1024,
        },
        _ => 1024,
    }
}

/// The size of an image in GiB: what it asks for, or its content with three
/// tenths to spare and one GiB, and at least four.
pub open spec fn size_of(hint: Option<u32>, content_mb: u64) -> u64 {
    let asked = match hint {
        Some(g) => g as int,
        None => 0int,
    };
    let needed = content_mb * 13 / 10 / 1024 + 1;
    let most = if asked > needed {
        asked
    } else {
        needed
    };
    if most > 4 {
        most as u64
    } else {
        4
    }
}

/// How a path is shown in double quotes, its quotes, backslashes and unprintable
/// characters escaped.
pub uninterp spec fn debug_path(path: Seq<char>) -> Seq<char>;

/// Shows a path by `std::path::Path`'s `Debug`: the text is a function of the path
/// alone, called `debug_path`. Which characters it escapes, and how, is left unsaid:
/// it goes by the tables of printable characters that std holds.
#[verifier::external_body]
fn debug_of_path(path: &str) -> (r: String)
    ensures
        r@ == debug_path(path@),
{
    format!("{:?}", std::path::Path::new(path))
}

/// The complaint about an agent binary that is not there, from its path as shown.
pub open spec fn missing_agent(shown: Seq<char>) -> Seq<char> {
    "guest agent binary missing at "@ + shown + " (the installer stages it)"@
}

/// The complaint about an agent binary that is not there, from its path as shown.
pub fn missing_agent_text(shown: &str) -> (r: String)
    ensures
        r@ == missing_agent(shown@),
{
    concat3("guest agent binary missing at ", shown, " (the installer stages it)")
}

/// The stage that follows a stage.
pub open spec fn advanced(job: BuildJob, s: Stage<Seq<char>>, e: BuildEvent<Seq<char>>) -> Stage<
    Seq<char>,
> {
    match s {
        Stage::Docker => match shell_error("docker available"@, e) {
            Some(m) => Stage::Failed(
                "the node's image builder needs the docker CLI (the installer ships it): "@ + m,
            ),
            None => Stage::Workspace,
        },
        Stage::Workspace => or_fail(file_error("create build workspace"@, e), Stage::Source),
        Stage::Source => match job.source {
            ImageSource::Oci { image_ref } => or_fail(
                shell_error("pull "@ + image_ref@, e),
                Stage::Container(image_ref@),
            ),
            ImageSource::Dockerfile { .. } => or_fail(
                file_error("create context dir"@, e),
                Stage::Fetch,
            ),
        },
        Stage::Fetch => or_fail(shell_error("fetch build context"@, e), Stage::Unpack),
        Stage::Unpack => or_fail(shell_error("unpack build context"@, e), Stage::Look),
        Stage::Look => Stage::Assemble(
            match e {
                BuildEvent::Subdir(Some(d)) => d,
                _ => job.context(),
            },
        ),
        Stage::Assemble(_) => or_fail(
            shell_error("docker build"@, e),
            Stage::Container(job.tag()),
        ),
        Stage::Container(reference) => match e {
            BuildEvent::Output(cid) => Stage::Flatten(trimmed(cid)),
            BuildEvent::NotStarted(err) => Stage::Failed("docker create: "@ + err),
            _ => Stage::Failed(
                "docker create: command failed: docker create "@ + quoted(reference),
            ),
        },
        Stage::Flatten(cid) => Stage::Discard(cid, shell_error("export rootfs"@, e)),
        Stage::Discard(_, Some(m)) => Stage::Failed(m),
        Stage::Discard(_, None) => if job.source is Dockerfile {
            Stage::Untag
        } else {
            Stage::Agent
        },
        Stage::Untag => Stage::Agent,
        Stage::Agent => match e {
            BuildEvent::Existing(true, _) => Stage::BinDir(job.static_agent()),
            BuildEvent::Existing(false, true) => Stage::BinDir(job.dynamic_agent()),
            _ => Stage::Failed(missing_agent(debug_path(job.dynamic_agent()))),
        },
        Stage::BinDir(src) => Stage::SbinDir(src),
        Stage::SbinDir(src) => Stage::PutAgent(src),
        Stage::PutAgent(_) => or_fail(file_error("inject guest agent"@, e), Stage::PutInit),
        Stage::PutInit => or_fail(file_error("inject init"@, e), Stage::AgentMode),
        Stage::AgentMode => Stage::InitMode,
        Stage::InitMode => Stage::Measure,
        Stage::Measure => Stage::Allocate(
            size_of(job.disk_hint_gb, content_of(e)),
            content_of(e),
        ),
        Stage::Allocate(g, m) => match e {
            BuildEvent::NotSized(err) => Stage::Failed("size image file: "@ + err),
            _ => or_fail(file_error("create image file"@, e), Stage::Format(g, m)),
        },
        Stage::Format(g, m) => or_fail(shell_error(format_title(g, m), e), Stage::OutDir),
        Stage::OutDir => or_fail(file_error("create custom images dir"@, e), Stage::Publish),
        Stage::Publish => or_fail(file_error("publish artifact"@, e), Stage::Weigh),
        Stage::Weigh => Stage::Clean(
            match e {
                BuildEvent::Bytes(n) => n,
                _ => 0,
            },
        ),
        Stage::Clean(bytes) => Stage::Done(bytes),
        Stage::Done(_) => s,
        Stage::Failed(_) => s,
    }
}

fn on(err: Option<String>, next: Stage<String>) -> (r: Stage<String>)
    ensures
        r@ == or_fail(seen(err), next@),
{
    match err {
        Some(m) => Stage::Failed(m),
        None => next,
    }
}

fn content_mb(e: &BuildEvent<String>) -> (r: u64)
    ensures
        r == content_of(e@),
{
    match e {
        BuildEvent::Output(s) => match parse_max(trim(s.as_str()).as_str(), u64::MAX) {
            Some(n) => n,
            None => 1024,
        },
        _ => 1024,
    }
}

fn image_size_gb(hint: Option<u32>, content_mb: u64) -> (r: u64)
    ensures
        r == size_of(hint, content_mb),
{
    let asked: u64 = match hint {
        Some(g) => g as u64,
        None => 0,
    };
    let needed: u64 = (content_mb as u128 * 13 / 10 / 1024) as u64 + 1;
    let most: u64 = if asked > needed {
        asked
    } else {
        needed
    };
    if most > 4 {
        most
    } else {
        4
    }
}

fn from_source(job: &BuildJob, e: &BuildEvent<String>) -> (r: Stage<String>)
    ensures
        r@ == advanced(*job, Stage::Source, e@),
{
    match &job.source {
        ImageSource::Oci { image_ref } => on(
            failed_shell(concat2("pull ", image_ref.as_str()).as_str(), e),
            Stage::Container(image_ref.clone()),
        ),
        ImageSource::Dockerfile { .. } => on(failed_file("create context dir", e), Stage::Fetch),
    }
}

fn from_container(job: &BuildJob, reference: &str, e: &BuildEvent<String>) -> (r: Stage<String>)
    ensures
        r@ == advanced(*job, Stage::Container(reference@), e@),
{
    match e {
        BuildEvent::Output(cid) => Stage::Flatten(trim(cid.as_str())),
        BuildEvent::NotStarted(err) => Stage::Failed(concat2("docker create: ", err.as_str())),
        _ => Stage::Failed(word1("docker create: command failed: docker create ", reference)),
    }
}

fn from_agent(job: &BuildJob, e: &BuildEvent<String>) -> (r: Stage<String>)
    ensures
        r@ == advanced(*job, Stage::Agent, e@),
{
    let fixed = path_join(job.data_dir.as_str(), "sandbox-guest-agent-static");
    let dynamic = path_join(job.data_dir.as_str(), "sandbox-guest-agent");
    match e {
        BuildEvent::Existing(has_static, has_dynamic) => {
            if *has_static {
                return Stage::BinDir(fixed);
            }
            if *has_dynamic {
                return Stage::BinDir(dynamic);
            }
        },
        _ => {},
    }
    Stage::Failed(missing_agent_text(debug_of_path(dynamic.as_str()).as_str()))
}

fn from_look(job: &BuildJob, e: BuildEvent<String>) -> (r: Stage<String>)
    ensures
        r@ == advanced(*job, Stage::Look, e@),
{
    match e {
        BuildEvent::Subdir(Some(d)) => Stage::Assemble(d),
        _ => Stage::Assemble(job.in_work("ctx")),
    }
}

fn packing(job: &BuildJob, s: Stage<String>, e: &BuildEvent<String>) -> (r: Stage<String>)
    requires
        s is Measure || s is Allocate || s is Format || s is OutDir || s is Publish || s is Weigh
            || s is Clean,
    ensures
        r@ == advanced(*job, s@, e@),
{
    match s {
        Stage::Measure => {
            let content: u64 = content_mb(e);
            Stage::Allocate(image_size_gb(job.disk_hint_gb, content), content)
        },
        Stage::Allocate(g, m) => match e {
            BuildEvent::NotSized(err) => Stage::Failed(concat2("size image file: ", err.as_str())),
            _ => on(failed_file("create image file", e), Stage::Format(g, m)),
        },
        Stage::Format(g, m) => {
            let mut title = concat3("mkfs.ext4 (", to_decimal(g).as_str(), "G, content ");
            title.append(to_decimal(m).as_str());
            title.append("MB)");
            on(failed_shell(title.as_str(), e), Stage::OutDir)
        },
        Stage::OutDir => on(failed_file("create custom images dir", e), Stage::Publish),
        Stage::Publish => on(failed_file("publish artifact", e), Stage::Weigh),
        Stage::Weigh => {
            let bytes: u64 = match e {
                BuildEvent::Bytes(n) => *n,
                _ => 0,
            };
            Stage::Clean(bytes)
        },
        Stage::Clean(bytes) => Stage::Done(bytes),
        other => other,
    }
}

/// The stage that follows a stage.
pub fn advance(job: &BuildJob, s: Stage<String>, e: BuildEvent<String>) -> (r: Stage<String>)
    ensures
        r@ == advanced(*job, s@, e@),
{
    match s {
        Stage::Docker => match failed_shell("docker available", &e) {
            Some(m) => Stage::Failed(
                concat2(
                    "the node's image builder needs the docker CLI (the installer ships it): ",
                    m.as_str(),
                ),
            ),
            None => Stage::Workspace,
        },
        Stage::Workspace => on(failed_file("create build workspace", &e), Stage::Source),
        Stage::Source => from_source(job, &e),
        Stage::Fetch => on(failed_shell("fetch build context", &e), Stage::Unpack),
        Stage::Unpack => on(failed_shell("unpack build context", &e), Stage::Look),
        Stage::Look => from_look(job, e),
        Stage::Assemble(_) => on(
            failed_shell("docker build", &e),
            Stage::Container(concat2("workdir-build-", job.image_id.as_str())),
        ),
        Stage::Container(reference) => from_container(job, reference.as_str(), &e),
        Stage::Flatten(cid) => Stage::Discard(cid, failed_shell("export rootfs", &e)),
        Stage::Discard(_, err) => match err {
            Some(m) => Stage::Failed(m),
            None => if matches!(job.source, ImageSource::Dockerfile { .. }) {
                Stage::Untag
            } else {
                Stage::Agent
            },
        },
        Stage::Untag => Stage::Agent,
        Stage::Agent => from_agent(job, &e),
        Stage::BinDir(src) => Stage::SbinDir(src),
        Stage::SbinDir(src) => Stage::PutAgent(src),
        Stage::PutAgent(_) => on(failed_file("inject guest agent", &e), Stage::PutInit),
        Stage::PutInit => on(failed_file("inject init", &e), Stage::AgentMode),
        Stage::AgentMode => Stage::InitMode,
        Stage::InitMode => Stage::Measure,
        Stage::Done(b) => Stage::Done(b),
        Stage::Failed(m) => Stage::Failed(m),
        other => packing(job, other, &e),
    }
}

// ---------------------------------------------------------------------------
// The log
// ---------------------------------------------------------------------------

/// A text filled up with spaces in front.
pub open spec fn padded(s: Seq<char>, width: nat) -> Seq<char>
    decreases width - s.len(),
{
    if s.len() >= width {
        s
    } else {
        padded(seq![' '] + s, width)
    }
}

fn pad(s: String, width: usize) -> (r: String)
    ensures
        r@ == padded(s@, width as nat),
{
    let mut out = s;
    let mut n: usize = out.as_str().unicode_len();
    while n < width
        invariant
            n == out@.len(),
            padded(s@, width as nat) == padded(out@, width as nat),
        decreases width - n,
    {
        let mut next = String::new();
        next.push(' ');
        next.append(out.as_str());
        assert(next@ =~= seq![' '] + out@);
        out = next;
        n = n + 1;
    }
    out
}

/// The head of a timed entry.
pub open spec fn timed(ms: u64) -> Seq<char> {
    "["@ + padded(decimal(ms as nat), 6) + "ms] "@
}

/// What a step adds to the log: a shell step its title and how long it took, and
/// its error output where it failed; the other steps that the log mentions an
/// entry without a time.
pub open spec fn entry_of(job: BuildJob, s: Stage<Seq<char>>, e: BuildEvent<Seq<char>>, ms: u64) -> Seq<
    char,
> {
    match shell_of(job, s) {
        Some((title, _)) => match e {
            BuildEvent::Finished | BuildEvent::Output(_) => timed(ms) + title + "\n"@,
            BuildEvent::Refused(err) => timed(ms) + title + " FAILED\n"@ + trimmed(err) + "\n"@,
            _ => ""@,
        },
        None => match s {
            Stage::Agent => if e == BuildEvent::<Seq<char>>::Existing(false, true) {
                "[      ] warning: injecting the dynamic (glibc) agent — musl images (alpine) will not boot; stage sandbox-guest-agent-static\n"@
            } else {
                ""@
            },
            Stage::InitMode => "[      ] inject guest agent + init\n"@,
            Stage::Publish => if file_error("publish artifact"@, e) is None {
                "[      ] publish "@ + job.artifact() + "\n"@
            } else {
                ""@
            },
            _ => ""@,
        },
    }
}

fn shell_entry(title: &str, e: &BuildEvent<String>, ms: u64) -> (r: String)
    ensures
        r@ == (match e@ {
            BuildEvent::Finished | BuildEvent::Output(_) => timed(ms) + title@ + "\n"@,
            BuildEvent::Refused(err) => timed(ms) + title@ + " FAILED\n"@ + trimmed(err) + "\n"@,
            _ => ""@,
        }),
{
    let mut m = concat3("[", pad(to_decimal(ms), 6).as_str(), "ms] ");
    m.append(title);
    match e {
        BuildEvent::Finished => {
            m.append("\n");
            m
        },
        BuildEvent::Output(_) => {
            m.append("\n");
            m
        },
        BuildEvent::Refused(err) => {
            m.append(" FAILED\n");
            m.append(trim(err.as_str()).as_str());
            m.append("\n");
            m
        },
        _ => String::from_str(""),
    }
}

/// What a step adds to the log.
pub fn log_entry(job: &BuildJob, s: &Stage<String>, e: &BuildEvent<String>, ms: u64) -> (r: String)
    ensures
        r@ == entry_of(*job, s@, e@, ms),
{
    if let Some((title, _)) = shell_step(job, s) {
        return shell_entry(title.as_str(), e, ms);
    }
    match s {
        Stage::Agent => match e {
            BuildEvent::Existing(has_static, has_dynamic) => {
                if !*has_static && *has_dynamic {
                    String::from_str(
                        "[      ] warning: injecting the dynamic (glibc) agent — musl images (alpine) will not boot; stage sandbox-guest-agent-static\n",
                    )
                } else {
                    String::from_str("")
                }
            },
            _ => String::from_str(""),
        },
        Stage::InitMode => String::from_str("[      ] inject guest agent + init\n"),
        Stage::Publish => {
            if failed_file("publish artifact", e).is_none() {
                concat3("[      ] publish ", job.out().as_str(), "\n")
            } else {
                String::from_str("")
            }
        },
        _ => String::from_str(""),
    }
}

/// The image once its build is over: ready with the size it takes, or failed with
/// the reason in the log. Earlier versions are not touched.
pub fn finish(img: &mut CustomImage, s: &Stage<String>, log: &str, took_ms: u64, now: Nanos)
    requires
        s is Done || s is Failed,
    ensures
        match s@ {
            Stage::Done(bytes) => {
                &&& final(img).build_log@ == log@ + "published "@ + old(img).full_name() + "\n"@
                &&& *final(img) == (CustomImage {
                    status: ImageStatus::Ready,
                    storage_bytes: bytes,
                    first_node_cache_miss_ms: Some(took_ms),
                    build_log: final(img).build_log,
                    updated_at: now,
                    ..*old(img)
                })
            },
            Stage::Failed(m) => {
                &&& final(img).build_log@ == log@ + "BUILD FAILED: "@ + m + "\n"@
                &&& *final(img) == (CustomImage {
                    status: ImageStatus::Failed,
                    build_log: final(img).build_log,
                    updated_at: now,
                    ..*old(img)
                })
            },
            _ => true,
        },
{
    match s {
        Stage::Done(bytes) => {
            let mut text = concat2(log, "published ");
            text.append(img.reference().as_str());
            text.append("\n");
            img.status = ImageStatus::Ready;
            img.storage_bytes = *bytes;
            img.first_node_cache_miss_ms = Some(took_ms);
            img.build_log = text;
        },
        Stage::Failed(m) => {
            let mut text = concat3(log, "BUILD FAILED: ", m.as_str());
            text.append("\n");
            img.status = ImageStatus::Failed;
            img.build_log = text;
        },
        _ => {},
    }
    img.updated_at = now;
}

// ---------------------------------------------------------------------------
// Laws
// ---------------------------------------------------------------------------

/// How far a stage is from the end.
pub open spec fn distance(s: Stage<Seq<char>>) -> int {
    match s {
        Stage::Docker => 26,
        Stage::Workspace => 25,
        Stage::Source => 24,
        Stage::Fetch => 23,
        Stage::Unpack => 22,
        Stage::Look => 21,
        Stage::Assemble(_) => 20,
        Stage::Container(_) => 19,
        Stage::Flatten(_) => 18,
        Stage::Discard(_, _) => 17,
        Stage::Untag => 16,
        Stage::Agent => 15,
        Stage::BinDir(_) => 14,
        Stage::SbinDir(_) => 13,
        Stage::PutAgent(_) => 12,
        Stage::PutInit => 11,
        Stage::AgentMode => 10,
        Stage::InitMode => 9,
        Stage::Measure => 8,
        Stage::Allocate(_, _) => 7,
        Stage::Format(_, _) => 6,
        Stage::OutDir => 5,
        Stage::Publish => 4,
        Stage::Weigh => 3,
        Stage::Clean(_) => 2,
        Stage::Done(_) | Stage::Failed(_) => 0,
    }
}

/// A build ends: every step brings it nearer to its end, whatever is reported.
pub proof fn law_builds_end(job: BuildJob, s: Stage<Seq<char>>, e: BuildEvent<Seq<char>>)
    ensures
        s is Done || s is Failed || distance(advanced(job, s, e)) < distance(s),
{
}

/// A build is done only once its artifact has landed: the last steps are the move
/// to its place, which must succeed, the weighing and the cleaning.
pub proof fn law_ready_only_after_publishing(
    job: BuildJob,
    s: Stage<Seq<char>>,
    e: BuildEvent<Seq<char>>,
)
    ensures
        advanced(job, s, e) is Done ==> s is Clean || s is Done,
        advanced(job, s, e) is Clean ==> s is Weigh,
        advanced(job, s, e) is Weigh ==> s is Publish && file_error("publish artifact"@, e) is None,
{
}

/// A container that was made is removed again, whether its flattening succeeds or
/// not.
pub proof fn law_container_is_removed(job: BuildJob, cid: Seq<char>, e: BuildEvent<Seq<char>>)
    ensures
        advanced(job, Stage::Flatten(cid), e) matches Stage::Discard(c, _) && c == cid,
        action_of(job, advanced(job, Stage::Flatten(cid), e)) == BuildAction::Capture(
            "docker rm "@ + quoted(cid),
        ),
{
}

/// An image is given the disk it asks for and more than its content takes.
pub proof fn law_image_has_room(hint: Option<u32>, content_mb: u64)
    ensures
        size_of(hint, content_mb) * 1024 > content_mb,
        hint matches Some(g) ==> size_of(hint, content_mb) >= g,
{
}

} // verus!
