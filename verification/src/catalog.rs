//! Curated image catalog and image-name classification.
//!
//! Curated images are platform-maintained root filesystems that can be
//! hot-pooled and restored from snapshots. Custom images are
//! `custom/<org>/<name>` references that are built asynchronously.

use crate::knobs::Resources;
use crate::text::{has_prefix, same, starts_with};
use vstd::prelude::*;
use vstd::string::*;

verus! {

#[derive(Debug, Clone, Copy, PartialEq, Eq, Structural)]
pub enum HotPoolPriority {
    Highest,
    High,
    Medium,
    Low,
    Never,
}

/// One of the curated image families, or a user's custom image.
#[derive(Debug, PartialEq, Eq)]
pub enum ImageClass {
    Base,
    NodePython,
    Browser,
    HeavyBuild,
    /// `custom/<org>/<name>[:<version>]`
    Custom(String),
}

impl Clone for ImageClass {
    fn clone(&self) -> (r: Self)
        ensures
            r == *self,
    {
        match self {
            ImageClass::Base => ImageClass::Base,
            ImageClass::NodePython => ImageClass::NodePython,
            ImageClass::Browser => ImageClass::Browser,
            ImageClass::HeavyBuild => ImageClass::HeavyBuild,
            ImageClass::Custom(s) => ImageClass::Custom(s.clone()),
        }
    }
}

impl ImageClass {
    /// The short key of the family.
    pub open spec fn key_text(self) -> Seq<char> {
        match self {
            ImageClass::Base => "base"@,
            ImageClass::NodePython => "node-python"@,
            ImageClass::Browser => "browser"@,
            ImageClass::HeavyBuild => "heavy-build"@,
            ImageClass::Custom(_) => "custom"@,
        }
    }

    /// The image names that belong to the class: a curated image has one name,
    /// a custom one the reference it carries.
    pub open spec fn named(self, image: Seq<char>) -> bool {
        match self {
            ImageClass::Custom(s) => s@ == image && has_prefix(image, "custom/"@),
            _ => image == self.key_text(),
        }
    }

    /// Thousandths by which the family multiplies the price.
    pub open spec fn multiplier(self) -> u32 {
        match self {
            ImageClass::Base => 1000,
            ImageClass::NodePython => 1100,
            ImageClass::Browser => 2500,
            ImageClass::HeavyBuild => 2000,
            ImageClass::Custom(_) => 1200,
        }
    }

    /// The smallest shape the family runs with.
    pub open spec fn minimum(self) -> Resources {
        match self {
            ImageClass::Base => Resources { cpu_milli: 1000, memory_mb: 2048, disk_gb: 8 },
            ImageClass::NodePython => Resources { cpu_milli: 1000, memory_mb: 2048, disk_gb: 16 },
            ImageClass::Browser => Resources { cpu_milli: 2000, memory_mb: 4096, disk_gb: 16 },
            ImageClass::HeavyBuild => Resources { cpu_milli: 2000, memory_mb: 8192, disk_gb: 32 },
            ImageClass::Custom(_) => Resources { cpu_milli: 1000, memory_mb: 2048, disk_gb: 8 },
        }
    }

    /// The place of the family in the warming order.
    pub open spec fn priority(self) -> HotPoolPriority {
        match self {
            ImageClass::Base => HotPoolPriority::Highest,
            ImageClass::NodePython => HotPoolPriority::High,
            ImageClass::Browser => HotPoolPriority::Medium,
            ImageClass::HeavyBuild => HotPoolPriority::Low,
            ImageClass::Custom(_) => HotPoolPriority::Never,
        }
    }

    /// The canonical short key used for multipliers and hot-pool buckets.
    pub fn key(&self) -> (r: &'static str)
        ensures
            r@ == self.key_text(),
    {
        match self {
            ImageClass::Base => "base",
            ImageClass::NodePython => "node-python",
            ImageClass::Browser => "browser",
            ImageClass::HeavyBuild => "heavy-build",
            ImageClass::Custom(_) => "custom",
        }
    }

    pub fn is_custom(&self) -> (r: bool)
        ensures
            r == (self is Custom),
    {
        matches!(self, ImageClass::Custom(_))
    }

    pub fn is_browser(&self) -> (r: bool)
        ensures
            r == (self is Browser),
    {
        matches!(self, ImageClass::Browser)
    }

    /// Whether many VMs of the family can share one read-only root filesystem:
    /// only where the image's init can pivot into an overlay.
    pub fn supports_shared_rootfs(&self) -> (r: bool)
        ensures
            r == (self is Base || self is Browser),
    {
        matches!(self, ImageClass::Base | ImageClass::Browser)
    }

    /// Default price multiplier in thousandths; the pricing configuration may
    /// override it.
    pub fn default_multiplier(&self) -> (r: u32)
        ensures
            r == self.multiplier(),
    {
        match self {
            ImageClass::Base => 1000,
            ImageClass::NodePython => 1100,
            ImageClass::Browser => 2500,
            ImageClass::HeavyBuild => 2000,
            ImageClass::Custom(_) => 1200,
        }
    }

    /// Minimum resources the image is allowed to run with.
    pub fn minimum_resources(&self) -> (r: Resources)
        ensures
            r == self.minimum(),
    {
        match self {
            ImageClass::Base => Resources { cpu_milli: 1000, memory_mb: 2048, disk_gb: 8 },
            ImageClass::NodePython => Resources { cpu_milli: 1000, memory_mb: 2048, disk_gb: 16 },
            ImageClass::Browser => Resources { cpu_milli: 2000, memory_mb: 4096, disk_gb: 16 },
            ImageClass::HeavyBuild => Resources { cpu_milli: 2000, memory_mb: 8192, disk_gb: 32 },
            // Custom images carry a resources hint; the base minimum applies.
            ImageClass::Custom(_) => Resources { cpu_milli: 1000, memory_mb: 2048, disk_gb: 8 },
        }
    }

    pub fn hot_pool_priority(&self) -> (r: HotPoolPriority)
        ensures
            r == self.priority(),
    {
        match self {
            ImageClass::Base => HotPoolPriority::Highest,
            ImageClass::NodePython => HotPoolPriority::High,
            ImageClass::Browser => HotPoolPriority::Medium,
            ImageClass::HeavyBuild => HotPoolPriority::Low,
            // Hot pools for custom images are an opt-in paid option.
            ImageClass::Custom(_) => HotPoolPriority::Never,
        }
    }
}

/// The names that denote an image: the four curated ones and `custom/...`.
pub open spec fn known_image(image: Seq<char>) -> bool {
    image == "base"@ || image == "node-python"@ || image == "browser"@ || image == "heavy-build"@
        || has_prefix(image, "custom/"@)
}

/// The message for a name that denotes no image.
pub open spec fn unknown_image(image: Seq<char>) -> Seq<char> {
    "unknown image '"@ + image
        + "'; allowed: base, node-python, browser, heavy-build, custom/<org>/<name>"@
}

/// Parse an image reference into a class. Unknown bare names are rejected.
pub fn classify(image: &str) -> (r: Result<ImageClass, String>)
    ensures
        r is Ok <==> known_image(image@),
        r matches Ok(c) ==> c.named(image@),
        r matches Err(m) ==> m@ == unknown_image(image@),
{
    if same(image, "base") {
        Ok(ImageClass::Base)
    } else if same(image, "node-python") {
        Ok(ImageClass::NodePython)
    } else if same(image, "browser") {
        Ok(ImageClass::Browser)
    } else if same(image, "heavy-build") {
        Ok(ImageClass::HeavyBuild)
    } else if starts_with(image, "custom/") {
        Ok(ImageClass::Custom(String::from_str(image)))
    } else {
        let mut m = String::from_str("unknown image '");
        m.append(image);
        m.append("'; allowed: base, node-python, browser, heavy-build, custom/<org>/<name>");
        Err(m)
    }
}

proof fn lemma_curated_names(a: ImageClass)
    requires
        !(a is Custom),
    ensures
        a.key_text().len() == (match a {
            ImageClass::Base => 4int,
            ImageClass::Browser => 7int,
            _ => 11int,
        }),
        a.key_text()[0] == (match a {
            ImageClass::NodePython => 'n',
            ImageClass::HeavyBuild => 'h',
            _ => 'b',
        }),
{
    reveal_strlit("base");
    reveal_strlit("node-python");
    reveal_strlit("browser");
    reveal_strlit("heavy-build");
}

/// An image name belongs to at most one class.
pub proof fn law_class_is_unique(image: Seq<char>, a: ImageClass, b: ImageClass)
    requires
        a.named(image),
        b.named(image),
    ensures
        a is Custom <==> b is Custom,
        !(a is Custom) ==> a == b,
        a.key_text() == b.key_text(),
{
    reveal_strlit("custom/");
    if !(a is Custom) {
        lemma_curated_names(a);
    }
    if !(b is Custom) {
        lemma_curated_names(b);
    }
    if a is Custom || b is Custom {
        assert(image.subrange(0, 7)[0] == 'c');
        assert(image[0] == 'c');
    }
}

/// Every family's minimum is itself an allowed shape.
pub proof fn law_minimums_are_allowed(c: ImageClass)
    ensures
        c.minimum().allowed(),
{
}

/// A curated image that warms a hot pool by default.
pub struct DefaultPool {
    pub image_key: &'static str,
    pub shape: Resources,
    pub target: u32,
}

/// Curated images that warm hot pools by default.
pub fn default_hot_pools() -> (r: Vec<DefaultPool>)
    ensures
        r@.len() == 3,
        r@[0].image_key@ == "base"@ && r@[0].shape == ImageClass::Base.minimum() && r@[0].target
            == 2,
        r@[1].image_key@ == "node-python"@ && r@[1].shape == ImageClass::NodePython.minimum()
            && r@[1].target == 1,
        r@[2].image_key@ == "browser"@ && r@[2].shape == ImageClass::Browser.minimum()
            && r@[2].target == 1,
{
    let mut v: Vec<DefaultPool> = Vec::new();
    v.push(
        DefaultPool {
            image_key: "base",
            shape: Resources { cpu_milli: 1000, memory_mb: 2048, disk_gb: 8 },
            target: 2,
        },
    );
    v.push(
        DefaultPool {
            image_key: "node-python",
            shape: Resources { cpu_milli: 1000, memory_mb: 2048, disk_gb: 16 },
            target: 1,
        },
    );
    v.push(
        DefaultPool {
            image_key: "browser",
            shape: Resources { cpu_milli: 2000, memory_mb: 4096, disk_gb: 16 },
            target: 1,
        },
    );
    v
}

/// Static description of a curated image for the image listing.
#[derive(Debug)]
pub struct CuratedImage {
    pub id: &'static str,
    pub kind: &'static str,
    pub intended_use: &'static str,
    pub min_cpu_milli: u32,
    pub min_memory_mb: u32,
    pub min_disk_gb: u32,
    pub hot_pool_priority: HotPoolPriority,
    pub immutable: bool,
}

/// What a curated family is for.
pub open spec fn intended_use(c: ImageClass) -> Seq<char> {
    match c {
        ImageClass::Base => "shell, git, Python/Node basics, small agent tasks"@,
        ImageClass::NodePython => "web app tasks, package installs, tests"@,
        ImageClass::Browser => "Chromium, Playwright, headed browser, VNC/noVNC"@,
        ImageClass::HeavyBuild => "larger native builds and polyglot repos"@,
        ImageClass::Custom(_) => Seq::<char>::empty(),
    }
}

impl CuratedImage {
    /// The entry describes the family `c`.
    pub open spec fn describes(self, c: ImageClass) -> bool {
        &&& self.id@ == c.key_text()
        &&& self.kind@ == "curated"@
        &&& self.intended_use@ == intended_use(c)
        &&& self.min_cpu_milli == c.minimum().cpu_milli
        &&& self.min_memory_mb == c.minimum().memory_mb
        &&& self.min_disk_gb == c.minimum().disk_gb
        &&& self.hot_pool_priority == c.priority()
        &&& self.immutable
    }
}

fn curated(c: &ImageClass, what: &'static str) -> (r: CuratedImage)
    requires
        what@ == intended_use(*c),
    ensures
        r.describes(*c),
{
    let m = c.minimum_resources();
    CuratedImage {
        id: c.key(),
        kind: "curated",
        intended_use: what,
        min_cpu_milli: m.cpu_milli,
        min_memory_mb: m.memory_mb,
        min_disk_gb: m.disk_gb,
        hot_pool_priority: c.hot_pool_priority(),
        immutable: true,
    }
}

/// The catalog, cheapest family first.
pub fn curated_images() -> (r: Vec<CuratedImage>)
    ensures
        r@.len() == 4,
        r@[0].describes(ImageClass::Base),
        r@[1].describes(ImageClass::NodePython),
        r@[2].describes(ImageClass::Browser),
        r@[3].describes(ImageClass::HeavyBuild),
{
    let mut v: Vec<CuratedImage> = Vec::new();
    v.push(curated(&ImageClass::Base, "shell, git, Python/Node basics, small agent tasks"));
    v.push(curated(&ImageClass::NodePython, "web app tasks, package installs, tests"));
    v.push(curated(&ImageClass::Browser, "Chromium, Playwright, headed browser, VNC/noVNC"));
    v.push(curated(&ImageClass::HeavyBuild, "larger native builds and polyglot repos"));
    v
}

} // verus!
