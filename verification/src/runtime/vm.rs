//! What is known of a VM: its record, its place on the host's network, and the
//! paths and names that belong to it.

use crate::catalog::{classify, law_class_is_unique, ImageClass};
use crate::envmap::EnvMap;
use crate::ids::{has_label, label_text, volume_label};
use crate::knobs::Resources;
use crate::model::VolumeAttach;
use crate::numeral::{decimal, hex_byte, push_hex, to_decimal};
use crate::paths::{path_join, under};
use crate::runtime::VmSpec;
use crate::text::{concat2, concat3, replace_char, same, with_char};
use vstd::prelude::*;
use vstd::string::*;

verus! {

/// One attached persistent volume as the runtime staged it.
#[derive(Debug)]
pub struct VolumeStage {
    /// Backing file name as the drive references it, e.g. `vol_ab12cd.ext4`.
    pub file: String,
    /// The backing image itself, under the volumes directory.
    pub host_path: String,
    /// Guest mount point.
    pub mount_path: String,
    /// ext4 label, by which the guest mounts it.
    pub label: String,
}

/// A staged volume by the views of its texts.
pub struct StageView {
    pub file: Seq<char>,
    pub host_path: Seq<char>,
    pub mount_path: Seq<char>,
    pub label: Seq<char>,
}

impl View for VolumeStage {
    type V = StageView;

    open spec fn view(&self) -> StageView {
        StageView {
            file: self.file@,
            host_path: self.host_path@,
            mount_path: self.mount_path@,
            label: self.label@,
        }
    }
}

/// The views of staged volumes.
pub open spec fn stage_views(v: Seq<VolumeStage>) -> Seq<StageView> {
    Seq::new(v.len(), |i: int| v[i]@)
}

impl Clone for VolumeStage {
    fn clone(&self) -> (r: Self)
        ensures
            r@ == self@,
    {
        VolumeStage {
            file: self.file.clone(),
            host_path: self.host_path.clone(),
            mount_path: self.mount_path.clone(),
            label: self.label.clone(),
        }
    }
}

/// Copy a list of staged volumes.
pub fn copy_stages(list: &Vec<VolumeStage>) -> (r: Vec<VolumeStage>)
    ensures
        stage_views(r@) == stage_views(list@),
{
    let mut out: Vec<VolumeStage> = Vec::new();
    let mut i: usize = 0;
    while i < list.len()
        invariant
            i <= list@.len(),
            out@.len() == i,
            forall|k: int| 0 <= k < i ==> (#[trigger] out@[k])@ == list@[k]@,
        decreases list@.len() - i,
    {
        out.push(list[i].clone());
        i = i + 1;
    }
    assert(stage_views(out@) =~= stage_views(list@));
    out
}

/// What the runtime remembers of a VM.
#[derive(Debug)]
pub struct VmRecord {
    /// Firecracker's API control socket.
    pub api_sock: String,
    /// Host-side socket that fronts the guest's vsock.
    pub vsock_uds: String,
    /// The vsock path as Firecracker itself sees it.
    pub vsock_fc: String,
    /// Guest CID of the vsock device.
    pub cid: u32,
    /// Process id, for teardown; nothing once evicted to standby.
    pub pid: Option<u32>,
    pub image_key: String,
    /// Host tap device of the VM's network interface, removed on teardown.
    pub tap: Option<String>,
    /// Tap allocation index; it determines the VM's address.
    pub tap_idx: Option<u32>,
    /// Guest address on the bridge, which the preview proxy dials.
    pub guest_ip: Option<String>,
    /// Environment of every exec: startup environment and injected secrets. Kept
    /// on the host, so that secrets never reach a guest file or a snapshot.
    pub resident_env: EnvMap,
    /// Secret values are resident; snapshots are refused.
    pub has_secrets: bool,
    /// Parked: snapshot on disk, memory freed, tap torn down.
    pub standby: bool,
    /// A full snapshot's memory file exists, so that the next standby can write
    /// only what changed.
    pub snapshotted: bool,
    /// Persistent volumes attached at boot.
    pub volumes: Vec<VolumeStage>,
    /// Current balloon target in MiB (0 = deflated).
    pub ballooned_mib: u32,
}

/// A VM record by the views of its parts.
pub struct RecordView {
    pub api_sock: Seq<char>,
    pub vsock_uds: Seq<char>,
    pub vsock_fc: Seq<char>,
    pub cid: u32,
    pub pid: Option<u32>,
    pub image_key: Seq<char>,
    pub tap: Option<Seq<char>>,
    pub tap_idx: Option<u32>,
    pub guest_ip: Option<Seq<char>>,
    pub resident_env: Map<Seq<char>, Seq<char>>,
    pub has_secrets: bool,
    pub standby: bool,
    pub snapshotted: bool,
    pub volumes: Seq<StageView>,
    pub ballooned_mib: u32,
}

/// The view of an optional text.
pub open spec fn opt_text(o: Option<String>) -> Option<Seq<char>> {
    match o {
        Some(s) => Some(s@),
        None => None,
    }
}

impl View for VmRecord {
    type V = RecordView;

    open spec fn view(&self) -> RecordView {
        RecordView {
            api_sock: self.api_sock@,
            vsock_uds: self.vsock_uds@,
            vsock_fc: self.vsock_fc@,
            cid: self.cid,
            pid: self.pid,
            image_key: self.image_key@,
            tap: opt_text(self.tap),
            tap_idx: self.tap_idx,
            guest_ip: opt_text(self.guest_ip),
            resident_env: self.resident_env@,
            has_secrets: self.has_secrets,
            standby: self.standby,
            snapshotted: self.snapshotted,
            volumes: stage_views(self.volumes@),
            ballooned_mib: self.ballooned_mib,
        }
    }
}

// ---------------------------------------------------------------------------
// Network
// ---------------------------------------------------------------------------

/// Gateway of the guests: the bridge's host address.
pub const NET_GATEWAY: &'static str = "10.200.0.1";

/// Name server that guests are told.
pub const NET_DNS: &'static str = "1.1.1.1";

/// Host bridge that sandbox taps attach to.
pub const NET_BRIDGE: &'static str = "wdbr0";

/// The host part of the address of the tap at `index`: what the index plus two
/// leaves modulo 65536, so that .0 and the gateway .1 come last.
pub open spec fn host_part(index: u32) -> int {
    (index + 2) % 65536
}

/// The guest address for a tap index.
pub open spec fn ip_text(index: u32) -> Seq<char> {
    "10.200."@ + decimal((host_part(index) / 256) as nat) + "."@ + decimal(
        (host_part(index) % 256) as nat,
    )
}

/// The guest's locally administered hardware address for a tap index.
pub open spec fn mac_text(index: u32) -> Seq<char> {
    "06:00:0a:c8:"@ + hex_byte((host_part(index) / 256) as u8) + ":"@ + hex_byte(
        (host_part(index) % 256) as u8,
    )
}

/// The host device for a tap index.
pub open spec fn tap_text(index: u32) -> Seq<char> {
    "wdtap"@ + decimal(index as nat)
}

fn host_bytes(index: u32) -> (r: (u8, u8))
    requires
        index <= u32::MAX - 2,
    ensures
        r.0 == host_part(index) / 256,
        r.1 == host_part(index) % 256,
{
    let n: u32 = (index + 2) % 65536;
    ((n / 256) as u8, (n % 256) as u8)
}

/// The guest address for a tap index.
pub fn guest_ip(index: u32) -> (r: String)
    requires
        index <= u32::MAX - 2,
    ensures
        r@ == ip_text(index),
{
    let (hi, lo) = host_bytes(index);
    let mut s = concat3("10.200.", to_decimal(hi as u64).as_str(), ".");
    s.append(to_decimal(lo as u64).as_str());
    s
}

/// The guest's hardware address for a tap index.
pub fn guest_mac(index: u32) -> (r: String)
    requires
        index <= u32::MAX - 2,
    ensures
        r@ == mac_text(index),
{
    let (hi, lo) = host_bytes(index);
    let mut s = String::from_str("06:00:0a:c8:");
    push_hex(&mut s, hi);
    s.append(":");
    push_hex(&mut s, lo);
    s
}

/// The host device for a tap index.
pub fn tap_name(index: u32) -> (r: String)
    ensures
        r@ == tap_text(index),
{
    concat2("wdtap", to_decimal(index as u64).as_str())
}

// ---------------------------------------------------------------------------
// Settings, paths and names
// ---------------------------------------------------------------------------

/// The runtime's settings.
#[derive(Debug)]
pub struct Settings {
    pub firecracker_bin: String,
    pub jailer_bin: String,
    pub kernel_image: String,
    pub images_dir: String,
    /// Backing images of persistent volumes.
    pub volumes_dir: String,
    pub workspace_dir: String,
    pub use_jailer: bool,
    pub jailer_uid_base: u32,
    /// Warm the memory file into the page cache before a restore.
    pub prewarm_mem_cache: bool,
    /// CPU template for portable snapshots; empty for none.
    pub cpu_template: String,
    /// Share one read-only root disk across VMs.
    pub shared_rootfs: bool,
    /// Attach a balloon to every VM.
    pub balloon: bool,
    /// Keep the guest kernel from logging its boot on the serial line.
    pub quiet_boot: bool,
    /// Start Firecracker without its seccomp filter.
    pub no_seccomp: bool,
    pub jailer_pool_size: u32,
    /// Refuse to fork or to stage a private disk by a full copy.
    pub require_reflink: bool,
    /// The data file system shares blocks between copies, as was found at the start.
    pub shares_blocks: bool,
}

/// Why nothing is copied.
pub const NO_REFLINK: &'static str = "the data file system cannot share blocks between copies, and require_reflink refuses a full one";

/// The handle of a sandbox's VM.
pub open spec fn handle_text(sandbox_id: Seq<char>) -> Seq<char> {
    "vm_"@ + sandbox_id
}

/// A handle as a jail id.
pub open spec fn jail_id(handle: Seq<char>) -> Seq<char> {
    with_char(handle, '_', '-')
}

/// The handle of a sandbox's VM.
pub fn handle_of(sandbox_id: &str) -> (r: String)
    ensures
        r@ == handle_text(sandbox_id@),
{
    concat2("vm_", sandbox_id)
}

/// A handle as a jail id.
pub fn jail_id_of(handle: &str) -> (r: String)
    ensures
        r@ == jail_id(handle@),
{
    replace_char(handle, '_', '-')
}

impl Settings {
    /// Where jails live.
    pub open spec fn chroot_base(self) -> Seq<char> {
        under(self.workspace_dir@, "jail"@)
    }

    /// A VM's jail directory: its sockets, logs, snapshots and record.
    pub open spec fn jail(self, handle: Seq<char>) -> Seq<char> {
        under(self.chroot_base(), handle)
    }

    /// The jailer's directory for a jail id.
    pub open spec fn chroot_dir(self, id: Seq<char>) -> Seq<char> {
        under(under(self.chroot_base(), "firecracker"@), id)
    }

    /// The root of a jail id's chroot.
    pub open spec fn chroot_root(self, id: Seq<char>) -> Seq<char> {
        under(self.chroot_dir(id), "root"@)
    }

    /// A VM's workspace directory.
    pub open spec fn workspace(self, handle: Seq<char>) -> Seq<char> {
        under(self.workspace_dir@, handle)
    }

    /// VMs of this image share one read-only root disk.
    pub open spec fn shares(self, image_key: Seq<char>) -> bool {
        &&& self.shared_rootfs
        &&& image_key == "base"@ || image_key == "browser"@
    }

    /// A copy that would take up all its blocks is refused.
    pub open spec fn refuses_copies(self) -> bool {
        self.require_reflink && !self.shares_blocks
    }

    /// Why a VM of the image cannot be given its root disk, if it cannot: one that is
    /// not shared is copied.
    pub open spec fn disk_refusal(self, image_key: Seq<char>) -> Option<Seq<char>> {
        if self.refuses_copies() && !self.shares(image_key) {
            Some(NO_REFLINK@)
        } else {
            None
        }
    }

    /// The read-only root disk of an image.
    pub open spec fn rootfs(self, image_key: Seq<char>, image_ref: Seq<char>) -> Seq<char> {
        if image_key == "custom"@ {
            under(
                under(self.images_dir@, "custom"@),
                with_char(with_char(image_ref, '/', '_'), ':', '_') + ".ext4"@,
            )
        } else {
            under(under(self.images_dir@, image_key), "rootfs.ext4"@)
        }
    }

    /// Where the snapshot artifacts of an image and memory size live.
    pub open spec fn golden(self, image_key: Seq<char>, memory_mb: u32) -> Seq<char> {
        under(
            under(under(self.images_dir@, "snapshots"@), image_key),
            decimal(memory_mb as nat),
        )
    }

    /// The backing image of a volume.
    pub open spec fn volume_image(self, id: Seq<char>) -> Seq<char> {
        under(self.volumes_dir@, id + ".ext4"@)
    }

    pub fn chroot_base_dir(&self) -> (r: String)
        ensures
            r@ == self.chroot_base(),
    {
        path_join(self.workspace_dir.as_str(), "jail")
    }

    pub fn jail_dir(&self, handle: &str) -> (r: String)
        ensures
            r@ == self.jail(handle@),
    {
        path_join(self.chroot_base_dir().as_str(), handle)
    }

    pub fn chroot_dir_of(&self, id: &str) -> (r: String)
        ensures
            r@ == self.chroot_dir(id@),
    {
        path_join(path_join(self.chroot_base_dir().as_str(), "firecracker").as_str(), id)
    }

    pub fn chroot_root_of(&self, id: &str) -> (r: String)
        ensures
            r@ == self.chroot_root(id@),
    {
        path_join(self.chroot_dir_of(id).as_str(), "root")
    }

    /// The jailer's chroot directory of a VM handle.
    pub fn jailer_chroot(&self, handle: &str) -> (r: String)
        ensures
            r@ == self.chroot_dir(jail_id(handle@)),
    {
        self.chroot_dir_of(jail_id_of(handle).as_str())
    }

    pub fn workspace_of(&self, handle: &str) -> (r: String)
        ensures
            r@ == self.workspace(handle@),
    {
        path_join(self.workspace_dir.as_str(), handle)
    }

    /// Is a copy that would take up all its blocks refused?
    pub fn copies_refused(&self) -> (r: bool)
        ensures
            r == self.refuses_copies(),
    {
        self.require_reflink && !self.shares_blocks
    }

    /// Can a VM of the image be given its root disk?
    pub fn check_disk(&self, image_key: &str) -> (r: Result<(), String>)
        ensures
            (match r {
                Ok(_) => None,
                Err(m) => Some(m@),
            }) == self.disk_refusal(image_key@),
    {
        if self.copies_refused() && !self.shared_image(image_key) {
            Err(String::from_str(NO_REFLINK))
        } else {
            Ok(())
        }
    }

    /// Do VMs of this image share one read-only root disk? Only images whose init
    /// can layer a writable overlay in memory over it do.
    pub fn shared_image(&self, image_key: &str) -> (r: bool)
        ensures
            r == self.shares(image_key@),
    {
        if !self.shared_rootfs {
            return false;
        }
        match classify(image_key) {
            Ok(c) => {
                proof {
                    if image_key@ == "base"@ {
                        law_class_is_unique(image_key@, c, ImageClass::Base);
                    }
                    if image_key@ == "browser"@ {
                        law_class_is_unique(image_key@, c, ImageClass::Browser);
                    }
                }
                c.supports_shared_rootfs()
            },
            Err(_) => false,
        }
    }

    /// The read-only root disk of an image.
    pub fn rootfs_path(&self, spec: &VmSpec) -> (r: String)
        ensures
            r@ == self.rootfs(spec.image_key@, spec.image_ref@),
    {
        if same(spec.image_key.as_str(), "custom") {
            let a = replace_char(spec.image_ref.as_str(), '/', '_');
            let safe = replace_char(a.as_str(), ':', '_');
            path_join(
                path_join(self.images_dir.as_str(), "custom").as_str(),
                concat2(safe.as_str(), ".ext4").as_str(),
            )
        } else {
            path_join(
                path_join(self.images_dir.as_str(), spec.image_key.as_str()).as_str(),
                "rootfs.ext4",
            )
        }
    }

    /// Where the snapshot artifacts of an image and shape live. A snapshot fixes
    /// the guest's memory size, so that size is part of the key.
    pub fn golden_dir(&self, image_key: &str, resources: &Resources) -> (r: String)
        ensures
            r@ == self.golden(image_key@, resources.memory_mb),
    {
        path_join(
            path_join(path_join(self.images_dir.as_str(), "snapshots").as_str(), image_key).as_str(),
            to_decimal(resources.memory_mb as u64).as_str(),
        )
    }

    pub fn volume_image_of(&self, volume_id: &str) -> (r: String)
        ensures
            r@ == self.volume_image(volume_id@),
    {
        path_join(self.volumes_dir.as_str(), concat2(volume_id, ".ext4").as_str())
    }
}

/// A volume attachment as it is staged.
pub open spec fn staged(s: Settings, v: VolumeAttach) -> StageView {
    StageView {
        file: v.volume_id@ + ".ext4"@,
        host_path: s.volume_image(v.volume_id@),
        mount_path: v.mount_path@,
        label: label_text(v.volume_id@),
    }
}

/// The attachments as they are staged.
pub open spec fn stages(s: Settings, v: Seq<VolumeAttach>) -> Seq<StageView> {
    Seq::new(v.len(), |i: int| staged(s, v[i]))
}

/// Every volume id has a label.
pub open spec fn labelled(v: Seq<VolumeAttach>) -> bool {
    forall|i: int| 0 <= i < v.len() ==> has_label((#[trigger] v[i]).volume_id@)
}

/// Stage the volumes of a VM.
pub fn stage_volumes(s: &Settings, volumes: &Vec<VolumeAttach>) -> (r: Vec<VolumeStage>)
    requires
        labelled(volumes@),
    ensures
        stage_views(r@) == stages(*s, volumes@),
{
    let mut out: Vec<VolumeStage> = Vec::new();
    let mut i: usize = 0;
    while i < volumes.len()
        invariant
            i <= volumes@.len(),
            out@.len() == i,
            labelled(volumes@),
            forall|k: int| 0 <= k < i ==> (#[trigger] out@[k])@ == staged(*s, volumes@[k]),
        decreases volumes@.len() - i,
    {
        let v = &volumes[i];
        assert(has_label(volumes@[i as int].volume_id@));
        out.push(
            VolumeStage {
                file: concat2(v.volume_id.as_str(), ".ext4"),
                host_path: s.volume_image_of(v.volume_id.as_str()),
                mount_path: v.mount_path.clone(),
                label: volume_label(v.volume_id.as_str()),
            },
        );
        i = i + 1;
    }
    assert(stage_views(out@) =~= stages(*s, volumes@));
    out
}

// ---------------------------------------------------------------------------
// Laws
// ---------------------------------------------------------------------------

proof fn lemma_decimal_length(n: nat)
    requires
        n < 256,
    ensures
        n < 10 ==> decimal(n).len() == 1,
        10 <= n < 100 ==> decimal(n).len() == 2,
        100 <= n ==> decimal(n).len() == 3,
        forall|i: int| 0 <= i < decimal(n).len() ==> #[trigger] decimal(n)[i] != '.',
{
    reveal_with_fuel(decimal, 4);
}

/// Two different tap indices have different guest addresses, unless they are a
/// multiple of 65536 apart.
pub proof fn law_addresses_differ(i: u32, j: u32)
    requires
        host_part(i) != host_part(j),
    ensures
        ip_text(i) != ip_text(j),
{
    if ip_text(i) == ip_text(j) {
        let (ai, bi) = (host_part(i) / 256, host_part(i) % 256);
        let (aj, bj) = (host_part(j) / 256, host_part(j) % 256);
        reveal_strlit("10.200.");
        reveal_strlit(".");
        lemma_decimal_length(ai as nat);
        lemma_decimal_length(aj as nat);
        let (x, y) = (decimal(ai as nat), decimal(aj as nat));
        let (u, v) = (decimal(bi as nat), decimal(bj as nat));
        let (s, t) = (ip_text(i), ip_text(j));
        let (m, n) = (x.len() as int, y.len() as int);
        assert(s[7 + m] == '.');
        assert(t[7 + n] == '.');
        if m < n {
            assert(t[7 + m] == y[m]);
        }
        if n < m {
            assert(s[7 + n] == x[n]);
        }
        assert(s.subrange(7, 7 + m) =~= x);
        assert(t.subrange(7, 7 + n) =~= y);
        assert(s.subrange(8 + m, s.len() as int) =~= u);
        assert(t.subrange(8 + n, t.len() as int) =~= v);
        crate::numeral::law_parse_undoes_decimal(ai as nat, 255);
        crate::numeral::law_parse_undoes_decimal(aj as nat, 255);
        crate::numeral::law_parse_undoes_decimal(bi as nat, 255);
        crate::numeral::law_parse_undoes_decimal(bj as nat, 255);
        assert(ai == aj && bi == bj);
        assert(host_part(i) == ai * 256 + bi);
    }
}

} // verus!
