//! Boot measurements. The boot paths are measured and reported apart and never
//! merged: a fast path does not hide a slow one.

use crate::catalog::{classify, known_image, ImageClass};
use crate::envmap::EnvMap;
use crate::knobs::Resources;
use crate::model::{BootPath, Sandbox};
use crate::node::{bare, bare_spec};
use crate::nodes::Nanos;
use crate::order::{ascending, before, distinct_sorted};
use crate::runtime::{ExecRequest, VmSpec};
use crate::text::{same, views};
use vstd::prelude::*;
use vstd::seq_lib::*;
use vstd::string::*;

verus! {

/// One measured allocation along one boot path.
#[derive(Debug)]
pub struct BenchmarkSample {
    pub id: String,
    pub image: String,
    pub boot_path: BootPath,
    /// From the request until the guest answers.
    pub ready_ms: u64,
    /// From the request until the first command has come back.
    pub create_to_echo_ms: u64,
    pub recorded_at: Nanos,
}

// ---------------------------------------------------------------------------
// What is measured
// ---------------------------------------------------------------------------

/// An image and the shape it is measured at.
#[derive(Debug)]
pub struct Target {
    pub image: String,
    pub resources: Resources,
}

/// The curated images, in the order of a sweep.
pub open spec fn curated() -> Seq<ImageClass> {
    seq![
        ImageClass::Base,
        ImageClass::NodePython,
        ImageClass::Browser,
        ImageClass::HeavyBuild,
    ]
}

fn target_of(c: ImageClass) -> (r: Target)
    ensures
        r.image@ == c.key_text(),
        r.resources == c.minimum(),
{
    Target { image: String::from_str(c.key()), resources: c.minimum_resources() }
}

/// The throwaway VM of a measurement.
pub fn bench_spec(id: String, image_key: &str, resources: Resources) -> (r: VmSpec)
    ensures
        bare(r, id@, "bench"@, image_key@, resources),
{
    bare_spec(id, "bench", image_key, resources)
}

/// What a sweep measures, each image at its smallest shape: every curated image
/// for `all`, else the one named, if there is such an image.
pub fn sweep_targets(image: &str) -> (r: Vec<Target>)
    ensures
        image@ == "all"@ ==> r@.len() == 4 && forall|i: int|
            0 <= i < 4 ==> (#[trigger] r@[i]).image@ == curated()[i].key_text() && r@[i].resources
                == curated()[i].minimum(),
        image@ != "all"@ && !known_image(image@) ==> r@.len() == 0,
        image@ != "all"@ && known_image(image@) ==> r@.len() == 1 && r@[0].image@ == image@
            && exists|c: ImageClass| #[trigger]
                c.named(image@) && r@[0].resources == c.minimum(),
{
    let mut out: Vec<Target> = Vec::new();
    if same(image, "all") {
        out.push(target_of(ImageClass::Base));
        out.push(target_of(ImageClass::NodePython));
        out.push(target_of(ImageClass::Browser));
        out.push(target_of(ImageClass::HeavyBuild));
        return out;
    }
    match classify(image) {
        Ok(c) => {
            assert(c.named(image@));
            out.push(
                Target { image: String::from_str(image), resources: c.minimum_resources() },
            );
        },
        Err(_) => {},
    }
    out
}

/// How often each path is measured: at least once.
pub fn rounds(iterations: u32) -> (r: u32)
    ensures
        r == (if iterations == 0 {
            1
        } else {
            iterations
        }),
{
    if iterations == 0 {
        1
    } else {
        iterations
    }
}

/// The command whose round trip is measured.
pub fn echo_request() -> (r: ExecRequest)
    ensures
        r.cmd@ == "echo ok"@,
        r.cwd is None,
        r.env@ == Map::<Seq<char>, Seq<char>>::empty(),
        !r.background,
{
    ExecRequest { cmd: String::from_str("echo ok"), cwd: None, env: EnvMap::new(), background: false }
}

/// The time until a VM was ready: what the runtime reports, or what passed on the
/// clock, whichever is more.
pub fn ready_time(reported_ms: u64, clock_ms: u64) -> (r: u64)
    ensures
        r == (if reported_ms > clock_ms {
            reported_ms
        } else {
            clock_ms
        }),
{
    if reported_ms > clock_ms {
        reported_ms
    } else {
        clock_ms
    }
}

// ---------------------------------------------------------------------------
// Percentiles
// ---------------------------------------------------------------------------

/// Rising, equals allowed.
pub open spec fn rising(s: Seq<u64>) -> bool {
    forall|i: int, j: int| 0 <= i <= j < s.len() ==> s[i] <= s[j]
}

/// The rank of the p-th percentile among `n` values: the nearest to `p` hundredths
/// of the way from the first to the last, a tie upwards.
pub open spec fn rank(n: int, p: int) -> int {
    (p * (n - 1) + 50) / 100
}

/// The p-th percentile of rising values; 0 where there are none.
pub open spec fn percentile_of(sorted: Seq<u64>, p: int) -> u64 {
    if sorted.len() == 0 {
        0
    } else if rank(sorted.len() as int, p) < sorted.len() {
        sorted[rank(sorted.len() as int, p)]
    } else {
        sorted.last()
    }
}

/// The p-th percentile of rising values.
pub fn percentile(sorted: &[u64], p: u32) -> (r: u64)
    ensures
        r == percentile_of(sorted@, p as int),
{
    let n: usize = sorted.len();
    if n == 0 {
        return 0;
    }
    assert(p * (n - 1) <= 0xffff_ffff * 0xffff_ffff_ffff_ffff) by (nonlinear_arith)
        requires
            p <= 0xffff_ffffu32,
            1 <= n <= 0xffff_ffff_ffff_ffff,
    ;
    assert(0 <= p * (n - 1)) by (nonlinear_arith)
        requires
            n >= 1,
    ;
    let at: u128 = (p as u128 * (n - 1) as u128 + 50) / 100;
    if at < n as u128 {
        sorted[at as usize]
    } else {
        sorted[n - 1]
    }
}

/// A percentile is one of the values, and a higher percentile is not less.
pub proof fn law_percentiles_rise(sorted: Seq<u64>, p: int, q: int)
    requires
        rising(sorted),
        sorted.len() > 0,
        0 <= p <= q,
    ensures
        sorted.contains(percentile_of(sorted, p)),
        percentile_of(sorted, p) <= percentile_of(sorted, q),
{
    let n = sorted.len() as int;
    assert(0 <= p * (n - 1) <= q * (n - 1)) by (nonlinear_arith)
        requires
            0 <= p <= q,
            n >= 1,
    ;
    assert(0 <= rank(n, p) <= rank(n, q));
    if rank(n, p) < n {
        assert(sorted[rank(n, p)] == percentile_of(sorted, p));
    } else {
        assert(sorted[n - 1] == percentile_of(sorted, p));
    }
}

/// The values in rising order.
pub fn sorted_values(v: &Vec<u64>) -> (r: Vec<u64>)
    ensures
        rising(r@),
        r@.to_multiset() == v@.to_multiset(),
        r@.len() == v@.len(),
{
    let mut out: Vec<u64> = Vec::new();
    let mut i: usize = 0;
    assert(v@.subrange(0, 0) =~= out@);
    while i < v.len()
        invariant
            i <= v@.len(),
            out@.len() == i,
            rising(out@),
            out@.to_multiset() == v@.subrange(0, i as int).to_multiset(),
        decreases v@.len() - i,
    {
        let x: u64 = v[i];
        let mut at: usize = 0;
        while at < out.len() && out[at] <= x
            invariant
                at <= out@.len(),
                rising(out@),
                forall|k: int| 0 <= k < at ==> out@[k] <= x,
            decreases out@.len() - at,
        {
            at = at + 1;
        }
        let ghost was = out@;
        out.insert(at, x);
        proof {
            lemma_insert_rising(was, at as int, x);
            assert(out@ == was.insert(at as int, x));
            was.insert_ensures(at as int, x);
            vstd::seq_lib::to_multiset_insert(was, at as int, x);
            let part = v@.subrange(0, i as int);
            assert(v@.subrange(0, i + 1) =~= part.push(x));
            part.to_multiset_ensures();
        }
        i = i + 1;
    }
    assert(v@.subrange(0, i as int) =~= v@);
    out
}

proof fn lemma_insert_rising(s: Seq<u64>, at: int, x: u64)
    requires
        rising(s),
        0 <= at <= s.len(),
        forall|k: int| 0 <= k < at ==> s[k] <= x,
        at < s.len() ==> s[at] > x,
    ensures
        rising(s.insert(at, x)),
{
}

// ---------------------------------------------------------------------------
// The table
// ---------------------------------------------------------------------------

/// The measurements of one image along one boot path.
#[derive(Debug)]
pub struct Series {
    pub image: String,
    pub boot_path: BootPath,
    pub samples: usize,
    pub ready_ms_p50: u64,
    pub ready_ms_p90: u64,
    pub ready_ms_p95: u64,
    pub create_to_echo_ms_p50: u64,
    pub create_to_echo_ms_p95: u64,
}

/// The samples among the first `n` of an image and a boot path.
pub open spec fn of_path(s: Seq<BenchmarkSample>, image: Seq<char>, path: BootPath, n: int) -> Seq<
    BenchmarkSample,
>
    decreases n,
{
    if n <= 0 {
        Seq::empty()
    } else if s[n - 1].image@ == image && s[n - 1].boot_path == path {
        of_path(s, image, path, n - 1).push(s[n - 1])
    } else {
        of_path(s, image, path, n - 1)
    }
}

/// The times until ready.
pub open spec fn ready_times(s: Seq<BenchmarkSample>) -> Seq<u64> {
    Seq::new(s.len(), |i: int| s[i].ready_ms)
}

/// The times until the first command has come back.
pub open spec fn echo_times(s: Seq<BenchmarkSample>) -> Seq<u64> {
    Seq::new(s.len(), |i: int| s[i].create_to_echo_ms)
}

/// `order` holds the values in rising order.
pub open spec fn sorts(order: Seq<u64>, values: Seq<u64>) -> bool {
    rising(order) && order.to_multiset() == values.to_multiset() && order.len() == values.len()
}

/// The row tells of the samples of its image and boot path, and of no others.
pub open spec fn tells(row: Series, all: Seq<BenchmarkSample>) -> bool {
    let mine = of_path(all, row.image@, row.boot_path, all.len() as int);
    &&& row.samples == mine.len()
    &&& exists|ready: Seq<u64>, echo: Seq<u64>|
        {
            &&& #[trigger] sorts(ready, ready_times(mine))
            &&& #[trigger] sorts(echo, echo_times(mine))
            &&& row.ready_ms_p50 == percentile_of(ready, 50)
            &&& row.ready_ms_p90 == percentile_of(ready, 90)
            &&& row.ready_ms_p95 == percentile_of(ready, 95)
            &&& row.create_to_echo_ms_p50 == percentile_of(echo, 50)
            &&& row.create_to_echo_ms_p95 == percentile_of(echo, 95)
        }
}

fn series_of(all: &Vec<BenchmarkSample>, image: &str, path: BootPath) -> (row: Series)
    ensures
        row.image@ == image@,
        row.boot_path == path,
        tells(row, all@),
{
    let mut ready: Vec<u64> = Vec::new();
    let mut echo: Vec<u64> = Vec::new();
    let mut i: usize = 0;
    assert(ready@ =~= ready_times(of_path(all@, image@, path, 0)));
    assert(echo@ =~= echo_times(of_path(all@, image@, path, 0)));
    while i < all.len()
        invariant
            i <= all@.len(),
            ready@ == ready_times(of_path(all@, image@, path, i as int)),
            echo@ == echo_times(of_path(all@, image@, path, i as int)),
        decreases all@.len() - i,
    {
        let s = &all[i];
        if same(s.image.as_str(), image) && s.boot_path == path {
            ready.push(s.ready_ms);
            echo.push(s.create_to_echo_ms);
        }
        i = i + 1;
        assert(ready@ =~= ready_times(of_path(all@, image@, path, i as int)));
        assert(echo@ =~= echo_times(of_path(all@, image@, path, i as int)));
    }
    let r = sorted_values(&ready);
    let e = sorted_values(&echo);
    let row = Series {
        image: String::from_str(image),
        boot_path: path,
        samples: ready.len(),
        ready_ms_p50: percentile(r.as_slice(), 50),
        ready_ms_p90: percentile(r.as_slice(), 90),
        ready_ms_p95: percentile(r.as_slice(), 95),
        create_to_echo_ms_p50: percentile(e.as_slice(), 50),
        create_to_echo_ms_p95: percentile(e.as_slice(), 95),
    };
    assert(tells(row, all@)) by {
        let mine = of_path(all@, row.image@, row.boot_path, all@.len() as int);
        assert(ready@ == ready_times(mine));
        assert(echo@ == echo_times(mine));
        assert(ready_times(mine).len() == mine.len());
        assert(row.samples == mine.len());
        assert(sorts(r@, ready_times(mine)));
        assert(sorts(e@, echo_times(mine)));
    }
    row
}

/// The place of a boot path in the table, by its name.
pub open spec fn path_place(p: BootPath) -> int {
    match p {
        BootPath::ColdBoot => 0,
        BootPath::Fork => 1,
        BootPath::HotPool => 2,
        BootPath::SnapshotRestore => 3,
    }
}

/// One row comes before another: by image, then by boot path.
pub open spec fn row_before(a: Series, b: Series) -> bool {
    before(a.image@, b.image@) || (a.image@ == b.image@ && path_place(a.boot_path) < path_place(
        b.boot_path,
    ))
}

/// There is a row for the image and the boot path.
pub open spec fn has_row(rows: Seq<Series>, image: Seq<char>, path: BootPath) -> bool {
    exists|i: int| 0 <= i < rows.len() && (#[trigger] rows[i]).image@ == image && rows[i].boot_path
        == path
}

/// The rows are in order, none is empty, and each tells of its samples.
pub open spec fn table(rows: Seq<Series>, all: Seq<BenchmarkSample>) -> bool {
    &&& forall|i: int| 0 <= i < rows.len() ==> tells(#[trigger] rows[i], all) && rows[i].samples > 0
    &&& forall|i: int, j: int|
        0 <= i < j < rows.len() ==> row_before(#[trigger] rows[i], #[trigger] rows[j])
}

fn add_path(rows: &mut Vec<Series>, all: &Vec<BenchmarkSample>, image: &str, path: BootPath)
    requires
        table(old(rows)@, all@),
        forall|i: int|
            0 <= i < old(rows)@.len() ==> before(#[trigger] old(rows)@[i].image@, image@) || (
            old(rows)@[i].image@ == image@ && path_place(old(rows)@[i].boot_path) < path_place(
                path,
            )),
    ensures
        table(final(rows)@, all@),
        old(rows)@.len() <= final(rows)@.len(),
        forall|i: int| 0 <= i < old(rows)@.len() ==> final(rows)@[i] == old(rows)@[i],
        forall|i: int|
            old(rows)@.len() <= i < final(rows)@.len() ==> (#[trigger] final(rows)@[i]).image@
                == image@ && final(rows)@[i].boot_path == path,
        of_path(all@, image@, path, all@.len() as int).len() > 0 ==> has_row(
            final(rows)@,
            image@,
            path,
        ),
{
    let row = series_of(all, image, path);
    if row.samples > 0 {
        let ghost was = rows@;
        rows.push(row);
        assert(rows@[was.len() as int].image@ == image@);
        assert forall|i: int, j: int| 0 <= i < j < rows@.len() implies row_before(
            #[trigger] rows@[i],
            #[trigger] rows@[j],
        ) by {
            assert(rows@[i] == was[i]);
            if j < was.len() {
                assert(rows@[j] == was[j]);
            } else {
                assert(before(was[i].image@, image@) || was[i].image@ == image@);
            }
        }
    }
}

fn add_image(rows: &mut Vec<Series>, all: &Vec<BenchmarkSample>, image: &str)
    requires
        table(old(rows)@, all@),
        forall|i: int| 0 <= i < old(rows)@.len() ==> before(#[trigger] old(rows)@[i].image@, image@),
    ensures
        table(final(rows)@, all@),
        old(rows)@.len() <= final(rows)@.len(),
        forall|i: int| 0 <= i < old(rows)@.len() ==> final(rows)@[i] == old(rows)@[i],
        forall|i: int|
            old(rows)@.len() <= i < final(rows)@.len() ==> (#[trigger] final(rows)@[i]).image@
                == image@,
        forall|p: BootPath|
            #![trigger of_path(all@, image@, p, all@.len() as int)]
            of_path(all@, image@, p, all@.len() as int).len() > 0 ==> has_row(
                final(rows)@,
                image@,
                p,
            ),
{
    let ghost r0 = rows@;
    add_path(rows, all, image, BootPath::ColdBoot);
    let ghost r1 = rows@;
    add_path(rows, all, image, BootPath::Fork);
    let ghost r2 = rows@;
    add_path(rows, all, image, BootPath::HotPool);
    let ghost r3 = rows@;
    add_path(rows, all, image, BootPath::SnapshotRestore);
    let ghost r4 = rows@;
    proof {
        assert forall|p: BootPath|
            #![trigger of_path(all@, image@, p, all@.len() as int)]
            of_path(all@, image@, p, all@.len() as int).len() > 0 implies has_row(
            r4,
            image@,
            p,
        ) by {
            let at = match p {
                BootPath::ColdBoot => r1,
                BootPath::Fork => r2,
                BootPath::HotPool => r3,
                BootPath::SnapshotRestore => r4,
            };
            assert(has_row(at, image@, p));
            let i = choose|i: int|
                0 <= i < at.len() && (#[trigger] at[i]).image@ == image@ && at[i].boot_path == p;
            assert(r4[i] == at[i]);
        }
    }
}

/// The table of all measurements, by image and boot path: every sample is told of
/// by one row, with those of its own image and path only.
pub fn series(all: &Vec<BenchmarkSample>) -> (r: Vec<Series>)
    ensures
        table(r@, all@),
        forall|i: int|
            0 <= i < all@.len() ==> has_row(r@, (#[trigger] all@[i]).image@, all@[i].boot_path),
{
    let mut names: Vec<String> = Vec::new();
    let mut i: usize = 0;
    while i < all.len()
        invariant
            i <= all@.len(),
            names@.len() == i,
            forall|k: int| 0 <= k < i ==> (#[trigger] names@[k])@ == all@[k].image@,
        decreases all@.len() - i,
    {
        names.push(all[i].image.clone());
        i = i + 1;
    }
    let images = distinct_sorted(&names);
    let ghost iv = views(images@);
    let mut rows: Vec<Series> = Vec::new();
    let mut j: usize = 0;
    while j < images.len()
        invariant
            j <= images@.len(),
            iv == views(images@),
            ascending(iv),
            table(rows@, all@),
            forall|k: int|
                0 <= k < rows@.len() ==> exists|m: int|
                    0 <= m < j && iv[m] == (#[trigger] rows@[k]).image@,
            forall|m: int, p: BootPath|
                #![trigger of_path(all@, iv[m], p, all@.len() as int)]
                0 <= m < j && of_path(all@, iv[m], p, all@.len() as int).len() > 0 ==> has_row(
                    rows@,
                    iv[m],
                    p,
                ),
        decreases images@.len() - j,
    {
        let ghost was = rows@;
        assert(iv[j as int] == images@[j as int]@);
        assert forall|k: int| 0 <= k < was.len() implies before(
            #[trigger] was[k].image@,
            images@[j as int]@,
        ) by {
            let m = choose|m: int| 0 <= m < j && iv[m] == was[k].image@;
            assert(before(iv[m], iv[j as int]));
        }
        add_image(&mut rows, all, images[j].as_str());
        proof {
            assert forall|k: int| 0 <= k < rows@.len() implies exists|m: int|
                0 <= m < j + 1 && iv[m] == (#[trigger] rows@[k]).image@ by {
                if k < was.len() {
                    assert(rows@[k] == was[k]);
                    let m = choose|m: int| 0 <= m < j && iv[m] == was[k].image@;
                    assert(iv[m] == rows@[k].image@);
                } else {
                    assert(iv[j as int] == rows@[k].image@);
                }
            }
            assert forall|m: int, p: BootPath|
                #![trigger of_path(all@, iv[m], p, all@.len() as int)]
                0 <= m < j + 1 && of_path(all@, iv[m], p, all@.len() as int).len()
                    > 0 implies has_row(rows@, iv[m], p) by {
                if m < j {
                    assert(has_row(was, iv[m], p));
                    let i2 = choose|i2: int|
                        0 <= i2 < was.len() && (#[trigger] was[i2]).image@ == iv[m]
                            && was[i2].boot_path == p;
                    assert(rows@[i2] == was[i2]);
                }
            }
        }
        j = j + 1;
    }
    proof {
        assert forall|i2: int| 0 <= i2 < all@.len() implies has_row(
            rows@,
            (#[trigger] all@[i2]).image@,
            all@[i2].boot_path,
        ) by {
            lemma_in_of_path(all@, i2, all@.len() as int);
            assert(names@[i2]@ == all@[i2].image@);
            assert(views(names@)[i2] == all@[i2].image@);
            assert(views(names@).contains(all@[i2].image@));
            assert(iv.contains(all@[i2].image@));
            let m = choose|m: int| 0 <= m < iv.len() && iv[m] == all@[i2].image@;
            assert(of_path(all@, iv[m], all@[i2].boot_path, all@.len() as int).len() > 0);
        }
    }
    rows
}

/// What a sandbox's boot took, in milliseconds, at least one.
pub open spec fn boot_time(sb: Sandbox) -> int {
    let ms = sb.timings.boot_ms + sb.timings.image_cache_ms;
    if ms < 1 {
        1
    } else {
        ms
    }
}

/// What the boots took can be told in 64 bits.
pub open spec fn boot_times_in_range(sandboxes: Seq<Sandbox>) -> bool {
    forall|i: int| 0 <= i < sandboxes.len() ==> boot_time(#[trigger] sandboxes[i]) <= u64::MAX
}

/// Can what the boots took be told in 64 bits?
pub fn boot_times_fit(sandboxes: &Vec<Sandbox>) -> (r: bool)
    ensures
        r == boot_times_in_range(sandboxes@),
{
    let mut i: usize = 0;
    while i < sandboxes.len()
        invariant
            i <= sandboxes@.len(),
            forall|k: int| 0 <= k < i ==> boot_time(#[trigger] sandboxes@[k]) <= u64::MAX,
        decreases sandboxes@.len() - i,
    {
        let t = &sandboxes[i].timings;
        if t.boot_ms > u64::MAX - t.image_cache_ms {
            assert(boot_time(sandboxes@[i as int]) > u64::MAX);
            return false;
        }
        i = i + 1;
    }
    true
}

/// The boots of live sandboxes as measurements.
pub fn live_samples(sandboxes: &Vec<Sandbox>) -> (r: Vec<BenchmarkSample>)
    requires
        boot_times_in_range(sandboxes@),
    ensures
        r@.len() == sandboxes@.len(),
        forall|i: int|
            0 <= i < r@.len() ==> {
                &&& (#[trigger] r@[i]).id@ == sandboxes@[i].id@
                &&& r@[i].image@ == sandboxes@[i].image@
                &&& r@[i].boot_path == sandboxes@[i].boot_path
                &&& r@[i].ready_ms == boot_time(sandboxes@[i])
                &&& r@[i].create_to_echo_ms == boot_time(sandboxes@[i])
                &&& r@[i].recorded_at == sandboxes@[i].created_at
            },
{
    let mut out: Vec<BenchmarkSample> = Vec::new();
    let mut i: usize = 0;
    while i < sandboxes.len()
        invariant
            i <= sandboxes@.len(),
            boot_times_in_range(sandboxes@),
            out@.len() == i,
            forall|k: int|
                0 <= k < i ==> {
                    &&& (#[trigger] out@[k]).id@ == sandboxes@[k].id@
                    &&& out@[k].image@ == sandboxes@[k].image@
                    &&& out@[k].boot_path == sandboxes@[k].boot_path
                    &&& out@[k].ready_ms == boot_time(sandboxes@[k])
                    &&& out@[k].create_to_echo_ms == boot_time(sandboxes@[k])
                    &&& out@[k].recorded_at == sandboxes@[k].created_at
                },
        decreases sandboxes@.len() - i,
    {
        let sb = &sandboxes[i];
        assert(boot_time(sandboxes@[i as int]) <= u64::MAX);
        let sum: u64 = sb.timings.boot_ms + sb.timings.image_cache_ms;
        let ms: u64 = if sum < 1 {
            1
        } else {
            sum
        };
        out.push(
            BenchmarkSample {
                id: sb.id.clone(),
                image: sb.image.clone(),
                boot_path: sb.boot_path,
                ready_ms: ms,
                create_to_echo_ms: ms,
                recorded_at: sb.created_at,
            },
        );
        i = i + 1;
    }
    out
}

proof fn lemma_in_of_path(s: Seq<BenchmarkSample>, i: int, n: int)
    requires
        0 <= i < n <= s.len(),
    ensures
        of_path(s, s[i].image@, s[i].boot_path, n).len() > 0,
    decreases n,
{
    if i < n - 1 {
        lemma_in_of_path(s, i, n - 1);
    }
}

} // verus!
