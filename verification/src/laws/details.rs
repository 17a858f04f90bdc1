//! Registries, lists, names and texts, reports that are read, and the smaller changes of state.

use crate::api::usage::{intervals_of, millis_of, per_sandbox, SandboxUsage};
use crate::auth::{admin_key_marker, hash_text};
use crate::background::{first_pressure, memory_pressure_avg10, orgs_of};
use crate::bench::{percentile_of, rank, ready_times, series, sorts, tells, BenchmarkSample, Series};
use crate::builder::{advanced, missing_agent_text, BuildEvent, BuildJob, Stage};
use crate::config::{available_memory_kb, meminfo_value, Config};
use crate::create::{lacks_port, ready_request};
use crate::dns::{parse_a_records, parse_question, DnsQuestion};
use crate::egress::{
    arg_views, clear_policy, element_views, finish_dns_query, list_domain_sets, DnsProxy,
    DomainMode, DomainRegistry, ProxyStart,
};
use crate::hotpool::{HotPools, ShapeKey};
use crate::ids::{api_key, build_id, command_id, hex_id, snapshot_id, volume_body, volume_label};
use crate::json::json_part;
use crate::knobs::{show_milli, Resources};
use crate::model::{
    default_depth, default_ready_timeout, default_ref, default_true, Sandbox, StartupRecipe,
    VolumeAttach,
};
use crate::netaddr::Ipv4;
use crate::node::{file_not_found, is_file_not_found, remote_entries, NodeError, RemoteReply};
use crate::nodes::Nanos;
use crate::numeral::{
    decimal, hex_char, hex_text, law_parse_undoes_decimal, lemma_decimal_digits, lemma_hex_text_len,
    parsed, to_decimal_signed,
};
use crate::order::{before, distinct_sorted};
use crate::placement::show_units;
use crate::pricing::PricingConfig;
use crate::registry::Registry;
use crate::runtime::firecracker::{FirecrackerRuntime, Launch};
use crate::runtime::mock::{MockRuntime, VmState};
use crate::runtime::parking::GoldenNeed;
use crate::runtime::plan::{Action, Flow, PlanBuilder};
use crate::runtime::siblings::PoolSpawn;
use crate::runtime::vm::{stage_views, stage_volumes, Settings, VmRecord, VolumeStage};
use crate::runtime::wire::{
    agent_accepted, api_reply_ok, failure_of_text, first_resident, lossy, parse_rss, reply_text_ok,
};
use crate::runtime::VmSpec;
use crate::scheduler::show_gb;
use crate::store::{only_state, Change};
use crate::lifecycle::State;
use crate::text::{has_prefix, line_list, pieces, views, without_prefix, word_list};
use crate::usage::{elapsed_millis, Org, UsageInterval};
use crate::views::{cost_view, CostView};
use vstd::prelude::*;
use vstd::string::*;
use vstd::utf8::*;

verus! {

// ---------------------------------------------------------------------------
// Registries and lists
// ---------------------------------------------------------------------------

/// What is put under a name stands there, and other names keep what they have.
pub proof fn law_entries_are_put<V>(reg: &mut Registry<V>, name: &str, value: V, other: Seq<char>)
    requires
        call_ensures(Registry::<V>::insert, (reg, name, value), ()),
        other != name@,
    ensures
        final(reg)@.contains_key(name@) && final(reg)@[name@] == value,
        final(reg)@.contains_key(other) <==> old(reg)@.contains_key(other),
        old(reg)@.contains_key(other) ==> final(reg)@[other] == old(reg)@[other],
{
}

/// What is taken out is handed over and gone, and other names keep what they have.
pub proof fn law_entries_are_taken<V>(
    reg: &mut Registry<V>,
    name: &str,
    other: Seq<char>,
    r: Option<V>,
)
    requires
        call_ensures(Registry::<V>::remove, (reg, name), r),
        other != name@,
    ensures
        !final(reg)@.contains_key(name@),
        r is Some <==> old(reg)@.contains_key(name@),
        r matches Some(v) ==> v == old(reg)@[name@],
        final(reg)@.contains_key(other) <==> old(reg)@.contains_key(other),
        old(reg)@.contains_key(other) ==> final(reg)@[other] == old(reg)@[other],
{
}

/// What stands under a name is found there.
pub proof fn law_entries_are_found<V>(reg: Registry<V>, name: &str, r: Option<&V>)
    requires
        call_ensures(Registry::<V>::get, (&reg, name), r),
    ensures
        r is Some <==> reg@.contains_key(name@),
        r matches Some(v) ==> *v == reg@[name@],
{
}

/// Each organisation with a sandbox is named once, in order, and no other is.
pub proof fn law_organisations(active: Vec<Sandbox>, r: Vec<String>, i: int, j: int, k: int)
    requires
        call_ensures(orgs_of, (&active,), r),
        0 <= k < active@.len(),
        0 <= i < j < r@.len(),
    ensures
        before(r@[i]@, r@[j]@),
        exists|m: int| 0 <= m < r@.len() && #[trigger] r@[m]@ == active@[k].org_id@,
        exists|m: int| 0 <= m < active@.len() && (#[trigger] active@[m]).org_id@ == r@[i]@,
{
    let v = views(r@);
    let names = crate::background::org_names(active@);
    assert(v[i] == r@[i]@ && v[j] == r@[j]@);
    assert(names[k] == active@[k].org_id@);
    assert(names.contains(names[k]));
    assert(v.contains(names[k]));
    let m = choose|m: int| 0 <= m < v.len() && v[m] == names[k];
    assert(r@[m]@ == active@[k].org_id@);
    assert(v.contains(v[i]));
    assert(names.contains(v[i]));
    let n = choose|n: int| 0 <= n < names.len() && names[n] == v[i];
    assert(active@[n].org_id@ == r@[i]@);
}

/// Names are listed once, in order.
pub proof fn law_distinct_names(names: Vec<String>, r: Vec<String>, i: int, j: int, k: int)
    requires
        call_ensures(distinct_sorted, (&names,), r),
        0 <= k < names@.len(),
        0 <= i < j < r@.len(),
    ensures
        before(r@[i]@, r@[j]@),
        exists|m: int| 0 <= m < r@.len() && #[trigger] r@[m]@ == names@[k]@,
        exists|m: int| 0 <= m < names@.len() && #[trigger] names@[m]@ == r@[i]@,
{
    let (v, w) = (views(r@), views(names@));
    assert(v[i] == r@[i]@ && v[j] == r@[j]@);
    assert(w[k] == names@[k]@);
    assert(w.contains(w[k]));
    assert(v.contains(w[k]));
    let m = choose|m: int| 0 <= m < v.len() && v[m] == w[k];
    assert(r@[m]@ == names@[k]@);
    assert(v.contains(v[i]));
    assert(w.contains(v[i]));
    let n = choose|n: int| 0 <= n < w.len() && w[n] == v[i];
    assert(names@[n]@ == r@[i]@);
}

/// A port is lacking until it is exposed.
pub proof fn law_lacking_ports(sb: Sandbox, port: u16, i: int, r: bool)
    requires
        call_ensures(lacks_port, (&sb, port), r),
    ensures
        0 <= i < sb.ports@.len() && sb.ports@[i] == port ==> !r,
        sb.ports@.len() == 0 ==> r,
{
}

// ---------------------------------------------------------------------------
// What was used
// ---------------------------------------------------------------------------

proof fn lemma_front_counts(a: Seq<UsageInterval>, b: Seq<UsageInterval>, id: Seq<char>, now: Nanos, n: int)
    requires
        0 <= n <= a.len(),
        n <= b.len(),
        a.subrange(0, n) == b.subrange(0, n),
    ensures
        intervals_of(a, id, n) == intervals_of(b, id, n) >= 0,
        millis_of(a, id, now, n) == millis_of(b, id, now, n),
    decreases n,
{
    if n > 0 {
        assert(a[n - 1] == a.subrange(0, n)[n - 1]);
        assert(b[n - 1] == b.subrange(0, n)[n - 1]);
        assert(a.subrange(0, n - 1) =~= a.subrange(0, n).subrange(0, n - 1));
        assert(b.subrange(0, n - 1) =~= b.subrange(0, n).subrange(0, n - 1));
        lemma_front_counts(a, b, id, now, n - 1);
    }
}

/// One more interval adds its time to its sandbox, and to no other.
pub proof fn law_time_per_sandbox(
    a: Vec<UsageInterval>,
    b: Vec<UsageInterval>,
    iv: UsageInterval,
    now: Nanos,
    other: Seq<char>,
    before: Registry<SandboxUsage>,
    after: Registry<SandboxUsage>,
)
    requires
        call_ensures(per_sandbox, (&a, now), before),
        call_ensures(per_sandbox, (&b, now), after),
        b@ == a@.push(iv),
        other != iv.sandbox_id@,
    ensures
        ({
            let id = iv.sandbox_id@;
            &&& after@.contains_key(id)
            &&& before@.contains_key(id) ==> after@[id].millis == before@[id].millis + iv.millis(
                now,
            )
            &&& after@.contains_key(other) <==> before@.contains_key(other)
            &&& before@.contains_key(other) ==> after@[other].millis == before@[other].millis
        }),
{
    let n = a@.len() as int;
    let id = iv.sandbox_id@;
    assert(a@.subrange(0, n) =~= b@.subrange(0, n));
    lemma_front_counts(a@, b@, id, now, n);
    lemma_front_counts(a@, b@, other, now, n);
    assert(b@[n] == iv);
    assert(intervals_of(b@, id, n + 1) > 0);
    assert(after@.contains_key(id));
    assert(before@.contains_key(id) || !before@.contains_key(id));
    assert(after@.contains_key(other) || !after@.contains_key(other));
    assert(before@.contains_key(other) || !before@.contains_key(other));
}

/// Time that passed, in whole milliseconds.
pub proof fn law_elapsed(start: Nanos, end: Nanos, r: u64)
    requires
        call_ensures(elapsed_millis, (start, end), r),
    ensures
        end <= start ==> r == 0,
        end > start ==> r * 1_000_000 <= end - start < (r + 1) * 1_000_000,
{
}

/// A sandbox that holds no resources costs nothing; one that does costs its price for each
/// second that it has been there.
pub proof fn law_cost_so_far(cfg: PricingConfig, sb: Sandbox, now: Nanos, r: CostView)
    requires
        call_ensures(cost_view, (&cfg, &sb, now), r),
    ensures
        sb.state == State::Stopped || sb.state == State::Deleted || sb.state == State::Failed
            ==> r.cost_estimate_micro_usd == 0,
        sb.state == State::Running ==> r.cost_estimate_micro_usd == r.quote.price_micro_usd_second
            * r.uptime_seconds,
        now <= sb.created_at ==> r.uptime_seconds == 0,
        now > sb.created_at ==> r.uptime_seconds * 1_000_000_000 <= now - sb.created_at < (
        r.uptime_seconds + 1) * 1_000_000_000,
{
}

/// No positive quota is no limit.
pub proof fn law_unlimited(org: Org, r: bool)
    requires
        call_ensures(Org::quota_unlimited, (&org,), r),
    ensures
        r <==> !(org.quota_mb > 0),
{
}

// ---------------------------------------------------------------------------
// Names and texts
// ---------------------------------------------------------------------------

proof fn lemma_hex_tells_bytes(a: Seq<u8>, b: Seq<u8>)
    requires
        hex_text(a) == hex_text(b),
    ensures
        a == b,
    decreases a.len(),
{
    lemma_hex_text_len(a);
    lemma_hex_text_len(b);
    if a.len() > 0 {
        let (x, y) = (a.last(), b.last());
        let (p, q) = (hex_text(a.drop_last()), hex_text(b.drop_last()));
        let (s, t) = (hex_text(a), hex_text(b));
        let n = s.len() as int;
        lemma_hex_text_len(a.drop_last());
        lemma_hex_text_len(b.drop_last());
        assert(s[n - 2] == hex_char((x / 16) as nat) && s[n - 1] == hex_char((x % 16) as nat));
        assert(t[n - 2] == hex_char((y / 16) as nat) && t[n - 1] == hex_char((y % 16) as nat));
        assert(x / 16 == y / 16 && x % 16 == y % 16);
        assert(x == y);
        assert(p =~= s.subrange(0, n - 2));
        assert(q =~= t.subrange(0, n - 2));
        lemma_hex_tells_bytes(a.drop_last(), b.drop_last());
        assert(a =~= a.drop_last().push(x));
        assert(b =~= b.drop_last().push(y));
    } else {
        assert(a =~= b);
    }
}

/// An id is its prefix and two digits for each byte, and different bytes give different ids;
/// so it is with hashes.
pub proof fn law_ids_differ(
    prefix: &str,
    a: Vec<u8>,
    b: Vec<u8>,
    x: String,
    y: String,
    hx: String,
    hy: String,
)
    requires
        call_ensures(hex_id, (prefix, &a), x),
        call_ensures(hex_id, (prefix, &b), y),
        call_ensures(hash_text, (&a,), hx),
        call_ensures(hash_text, (&b,), hy),
    ensures
        x@.len() == prefix@.len() + 2 * a@.len(),
        x@.subrange(0, prefix@.len() as int) == prefix@,
        x@ == y@ ==> a@ == b@,
        hx@.len() == 2 * a@.len(),
        hx@ == hy@ ==> a@ == b@,
        x@ == prefix@ + hx@,
{
    lemma_hex_text_len(a@);
    let n = prefix@.len() as int;
    assert(x@.subrange(0, n) =~= prefix@);
    if x@ == y@ {
        assert(hex_text(a@) =~= x@.subrange(n, x@.len() as int));
        assert(hex_text(b@) =~= y@.subrange(n, y@.len() as int));
        lemma_hex_tells_bytes(a@, b@);
    }
    if hx@ == hy@ {
        lemma_hex_tells_bytes(a@, b@);
    }
}

/// Ids say what they are of.
pub proof fn law_id_prefixes(snapshot: String, build: String, command: String, key: String)
    requires
        call_ensures(snapshot_id, (), snapshot),
        call_ensures(build_id, (), build),
        call_ensures(command_id, (), command),
        call_ensures(api_key, (), key),
    ensures
        has_prefix(snapshot@, "snap_"@) && snapshot@.len() == 17,
        has_prefix(build@, "build_"@) && build@.len() == 18,
        has_prefix(command@, "cmd_"@) && command@.len() == 16,
        has_prefix(key@, "sk_live_"@) && key@.len() == 56,
{
    reveal_strlit("snap_");
    reveal_strlit("build_");
    reveal_strlit("cmd_");
    reveal_strlit("sk_live_");
    assert forall|b: Seq<u8>| true implies (#[trigger] hex_text(b)).len() == 2 * b.len() by {
        lemma_hex_text_len(b);
    }
    assert(snapshot@.subrange(0, 5) =~= "snap_"@);
    assert(build@.subrange(0, 6) =~= "build_"@);
    assert(command@.subrange(0, 4) =~= "cmd_"@);
    assert(key@.subrange(0, 8) =~= "sk_live_"@);
}

/// The label of a volume begins alike for all, fits on a file system, and does not depend on
/// the prefix of the id.
pub proof fn law_volume_labels(short: &str, long: &str, a: String, b: String)
    requires
        call_ensures(volume_label, (short,), a),
        call_ensures(volume_label, (long,), b),
        !has_prefix(short@, "vol_"@),
        long@ == "vol_"@ + short@,
    ensures
        a@ == b@,
        has_prefix(a@, "wdv"@),
        encode_utf8(a@).len() <= 16,
{
    reveal_strlit("vol_");
    assert(long@.subrange(0, 4) =~= "vol_"@);
    assert(long@.subrange(4, long@.len() as int) =~= short@);
    assert(volume_body(long@) == short@);
    assert(volume_body(short@) == short@);
}

/// The marker of an organisation is its own.
pub proof fn law_markers_differ(a: &str, b: &str, x: String, y: String)
    requires
        call_ensures(admin_key_marker, (a,), x),
        call_ensures(admin_key_marker, (b,), y),
        x@ == y@,
    ensures
        a@ == b@,
{
    reveal_strlit("admin_key_seeded:");
    let n = "admin_key_seeded:"@.len() as int;
    assert(a@ =~= x@.subrange(n, x@.len() as int));
    assert(b@ =~= y@.subrange(n, y@.len() as int));
}

/// Whole numbers are shown whole, and halves with one digit behind the point.
pub proof fn law_shown_amounts(m: u32, mb: u32, milli: String, gb: String)
    requires
        call_ensures(show_milli, (m,), milli),
        call_ensures(show_gb, (mb,), gb),
    ensures
        m % 1000 == 0 ==> milli@ == decimal((m / 1000) as nat),
        m % 1000 == 500 ==> milli@ == decimal((m / 1000) as nat) + seq!['.', '5'],
        m % 1000 == 250 ==> milli@ == decimal((m / 1000) as nat) + seq!['.', '2', '5'],
        mb % 1024 == 0 ==> gb@ == decimal((mb / 1024) as nat),
        mb % 1024 == 512 ==> gb@ == decimal((mb / 1024) as nat) + seq!['.', '5'],
        mb % 1024 == 256 ==> gb@ == decimal((mb / 1024) as nat) + seq!['.', '2', '5'],
{
    reveal_with_fuel(crate::scheduler::binary_fraction, 4);
    if m % 1000 == 500 {
        assert(milli@ =~= decimal((m / 1000) as nat) + seq!['.', '5']);
    }
    if m % 1000 == 250 {
        assert(milli@ =~= decimal((m / 1000) as nat) + seq!['.', '2', '5']);
    }
    if mb % 1024 == 512 {
        assert(crate::scheduler::binary_fraction(512, 10) =~= seq!['5']);
        assert(gb@ =~= decimal((mb / 1024) as nat) + seq!['.', '5']);
    }
    if mb % 1024 == 256 {
        assert(crate::scheduler::binary_fraction(256, 10) =~= seq!['2', '5']);
        assert(gb@ =~= decimal((mb / 1024) as nat) + seq!['.', '2', '5']);
    }
}

/// Two gibibytes are a unit.
pub proof fn law_shown_units(mb: u64, r: String)
    requires
        call_ensures(show_units, (mb,), r),
        mb % 2048 == 0,
    ensures
        r@ == decimal((mb / 2048) as nat) + "."@ + decimal(0),
{
    let k = (mb / 2048) as nat;
    assert(mb == 2048 * k);
    assert(mb as nat * 10 / 2048 == 10 * k);
    assert(mb as nat * 10 % 2048 == 0);
    assert((10 * k) / 10 == k && (10 * k) % 10 == 0);
}

/// A negative number is its opposite behind a minus.
pub proof fn law_negative_numbers(n: i64, a: String, b: String)
    requires
        0 < n,
        call_ensures(to_decimal_signed, (n,), a),
        call_ensures(to_decimal_signed, ((-n) as i64,), b),
    ensures
        b@ == seq!['-'] + a@,
        a@ == decimal(n as nat),
{
}

/// A missing agent is named with the place where it should be.
pub proof fn law_missing_agents(shown: &str, r: String)
    requires
        call_ensures(missing_agent_text, (shown,), r),
    ensures
        exists|rest: Seq<char>|
            r@ == #[trigger] ("guest agent binary missing at "@ + shown@ + rest),
{
    assert(r@ == "guest agent binary missing at "@ + shown@ + " (the installer stages it)"@);
}

/// What is left out of a request.
pub proof fn law_defaults(branch: String, depth: u32, timeout: u32, yes: bool)
    requires
        call_ensures(default_ref, (), branch),
        call_ensures(default_depth, (), depth),
        call_ensures(default_ready_timeout, (), timeout),
        call_ensures(default_true, (), yes),
    ensures
        branch@ == "main"@ && depth == 1 && timeout == 30 && yes,
{
}

/// A recipe that names an address to watch has it watched, for the time that it gives.
pub proof fn law_watched_addresses(recipe: StartupRecipe, r: Option<(String, u32)>)
    requires
        call_ensures(ready_request, (&recipe,), r),
    ensures
        recipe.ready is None ==> r is None,
        recipe.ready matches Some(c) ==> (r is Some <==> c.http is Some),
        recipe.ready matches Some(c) ==> (r matches Some(p) ==> p.1 == c.timeout_seconds && (
        c.http matches Some(url) && url@ == p.0@)),
{
}

/// A file that is not there is told apart from other failures.
pub proof fn law_missing_files(path: &str, e: NodeError, f: NodeError, of_e: bool, of_f: bool)
    requires
        call_ensures(file_not_found, (path,), e),
        call_ensures(is_file_not_found, (&e,), of_e),
        call_ensures(is_file_not_found, (&f,), of_f),
    ensures
        of_e,
        f !is FileNotFound ==> !of_f,
        e matches NodeError::FileNotFound(p) && p@ == path@,
{
}

/// The entries that a node lists are handed on, and none are an empty list.
pub proof fn law_listed_entries(reply: RemoteReply, part: Seq<char>, r: String)
    requires
        call_ensures(remote_entries, (&reply,), r),
    ensures
        json_part(reply.body@, "entries"@) == Some(part) ==> r@ == part,
        json_part(reply.body@, "entries"@) is None ==> r@ == "[]"@,
{
}

/// A change of the state alone leaves everything else as it is.
pub proof fn law_only_the_state(s: State, r: Change)
    requires
        call_ensures(only_state, (s,), r),
    ensures
        r.state == s,
        r.error is None && r.ready_ms is None && r.updated_at is None && r.last_active_at is None,
{
}

// ---------------------------------------------------------------------------
// Reports
// ---------------------------------------------------------------------------

proof fn lemma_first_value(lines: Seq<Seq<char>>, key: Seq<char>, i: int)
    requires
        0 <= i,
    ensures
        meminfo_value(lines, key, i) matches Some(n) ==> exists|k: int|
            i <= k < lines.len() && has_prefix(#[trigger] lines[k], key) && crate::config::meminfo_line(
                lines[k],
                key,
            ) == Some(n),
    decreases lines.len() - i,
{
    if i < lines.len() && crate::config::meminfo_line(lines[i], key) is None {
        lemma_first_value(lines, key, i + 1);
    } else if i < lines.len() {
        assert(has_prefix(lines[i], key));
    }
}

/// The memory that is available is the first word behind `MemAvailable:`, and nothing else
/// is taken for it.
pub proof fn law_available_memory(meminfo: &str, r: Option<u64>)
    requires
        call_ensures(available_memory_kb, (meminfo,), r),
    ensures
        r matches Some(n) ==> exists|k: int, rest: Seq<char>|
            0 <= k < line_list(meminfo@).len() && #[trigger] line_list(meminfo@)[k]
                == "MemAvailable:"@ + rest && #[trigger] word_list(rest).len() > 0 && parsed(
                word_list(rest)[0],
                u64::MAX as nat,
            ) == Some(n as nat),
{
    let lines = line_list(meminfo@);
    let key = "MemAvailable:"@;
    lemma_first_value(lines, key, 0);
    if let Some(n) = r {
        let k = choose|k: int|
            0 <= k < lines.len() && has_prefix(#[trigger] lines[k], key)
                && crate::config::meminfo_line(lines[k], key) == Some(n as nat);
        let rest = lines[k].subrange(key.len() as int, lines[k].len() as int);
        assert(lines[k] =~= key + rest);
        assert(without_prefix(lines[k], key) == Some(rest));
        assert(word_list(rest).len() > 0);
    }
}

proof fn lemma_first_pressure(lines: Seq<Seq<char>>, i: int)
    requires
        0 <= i,
    ensures
        first_pressure(lines, i) is Some ==> exists|k: int|
            i <= k < lines.len() && first_pressure(lines, i) == crate::background::pressure_line(
                #[trigger] lines[k],
            ) && crate::background::pressure_line(lines[k]) is Some,
        first_pressure(lines, i) is None ==> forall|k: int|
            i <= k < lines.len() ==> crate::background::pressure_line(#[trigger] lines[k]) is None,
    decreases lines.len() - i,
{
    if i < lines.len() && crate::background::pressure_line(lines[i]) is None {
        lemma_first_pressure(lines, i + 1);
    }
}

/// Pressure is read off a line about some tasks, by its average over ten seconds.
pub proof fn law_pressure(report: &str, r: Option<u64>)
    requires
        call_ensures(memory_pressure_avg10, (report,), r),
    ensures
        r matches Some(n) ==> exists|k: int, v: Seq<char>|
            0 <= k < line_list(report@).len() && word_list(#[trigger] line_list(report@)[k]).len()
                >= 2 && word_list(line_list(report@)[k])[0] == "some"@ && word_list(
                line_list(report@)[k],
            )[1] == "avg10="@ + v && #[trigger] crate::background::percent_milli(v) == Some(
                n as int,
            ),
{
    let lines = line_list(report@);
    lemma_first_pressure(lines, 0);
    if let Some(n) = r {
        let k = choose|k: int|
            0 <= k < lines.len() && first_pressure(lines, 0) == crate::background::pressure_line(
                #[trigger] lines[k],
            ) && crate::background::pressure_line(lines[k]) is Some;
        let w = word_list(lines[k]);
        let key = "avg10="@;
        let v = w[1].subrange(key.len() as int, w[1].len() as int);
        assert(without_prefix(w[1], key) == Some(v));
        assert(w[1] =~= key + v);
        assert(crate::background::percent_milli(v) == Some(n as int));
    }
}

proof fn lemma_first_resident(lines: Seq<Seq<char>>, i: int)
    requires
        0 <= i,
    ensures
        first_resident(lines, i) is Some ==> exists|k: int|
            i <= k < lines.len() && has_prefix(#[trigger] lines[k], "VmRSS:"@),
        first_resident(lines, i) matches Some(n) ==> n % 1024 == 0,
    decreases lines.len() - i,
{
    if i < lines.len() && crate::runtime::wire::resident_bytes(lines[i]) is None {
        lemma_first_resident(lines, i + 1);
    } else if i < lines.len() {
        assert(has_prefix(lines[i], "VmRSS:"@));
    }
}

/// Resident memory is told in kibibytes, on a line of its own.
pub proof fn law_resident_memory(status: &str, r: Option<u64>)
    requires
        call_ensures(parse_rss, (status,), r),
    ensures
        r matches Some(n) ==> n % 1024 == 0,
        r is Some ==> exists|k: int|
            0 <= k < line_list(status@).len() && has_prefix(
                #[trigger] line_list(status@)[k],
                "VmRSS:"@,
            ),
{
    lemma_first_resident(line_list(status@), 0);
}

/// A reply is good once its head is there and its status line is good.
pub proof fn law_complete_replies(resp: &[u8], text: &str, i: int, good: bool, r: bool)
    requires
        call_ensures(api_reply_ok, (resp,), r),
        text@ == lossy(resp@),
        call_ensures(reply_text_ok, (text,), good),
    ensures
        r ==> good,
        0 <= i && i + 4 <= resp@.len() && resp@.subrange(i, i + 4) == seq![13u8, 10, 13, 10]
            ==> r == good,
        resp@.len() < 4 ==> !r,
{
    if 0 <= i && i + 4 <= resp@.len() && resp@.subrange(i, i + 4) == seq![13u8, 10, 13, 10] {
        let s = resp@.subrange(i, i + 4);
        assert(s[0] == resp@[i] && s[1] == resp@[i + 1] && s[2] == resp@[i + 2] && s[3] == resp@[i
            + 3]);
        assert(crate::runtime::wire::head_ends_at(resp@, i));
    }
}

/// A failed call is named by its method and its path.
pub proof fn law_failed_calls(method: &str, path: &str, reply: &str, r: String)
    requires
        call_ensures(failure_of_text, (method, path, reply), r),
    ensures
        has_prefix(r@, "firecracker api "@ + method@ + " "@ + path@ + " failed: "@),
{
    let p = "firecracker api "@ + method@ + " "@ + path@ + " failed: "@;
    assert(r@.subrange(0, p.len() as int) =~= p);
}

/// The agent accepts with a reply that begins with `OK`.
pub proof fn law_acceptance(ack: &[u8], r: bool)
    requires
        call_ensures(agent_accepted, (ack,), r),
    ensures
        r <==> lossy(ack@).len() >= 2 && lossy(ack@)[0] == 'O' && lossy(ack@)[1] == 'K',
{
    reveal_strlit("OK");
    let s = lossy(ack@);
    if s.len() >= 2 {
        let t = s.subrange(0, 2);
        assert(t[0] == s[0] && t[1] == s[1]);
        if s[0] == 'O' && s[1] == 'K' {
            assert(t =~= "OK"@);
        }
    }
}

/// The port that the control plane listens on is the one behind the last colon.
pub proof fn law_control_plane_port(cfg: Config, host: Seq<char>, port: u16, r: u16)
    requires
        call_ensures(Config::control_plane_port, (&cfg,), r),
        cfg.server.bind@ == host + ":"@ + decimal(port as nat),
    ensures
        r == port,
{
    reveal_strlit(":");
    let d = decimal(port as nat);
    lemma_decimal_digits(port as nat);
    assert(":"@ =~= seq![':']);
    lemma_last_piece(host, d, ':');
    law_parse_undoes_decimal(port as nat, 65535);
}

proof fn lemma_last_piece(a: Seq<char>, b: Seq<char>, c: char)
    requires
        !b.contains(c),
    ensures
        pieces(a + seq![c] + b, c).last() == b,
    decreases b.len(),
{
    let s = a + seq![c] + b;
    if b.len() == 0 {
        assert(s.last() == c);
        assert(b =~= Seq::<char>::empty());
    } else {
        let t = b.drop_last();
        assert(!t.contains(c)) by {
            if t.contains(c) {
                let k = choose|k: int| 0 <= k < t.len() && t[k] == c;
                assert(b[k] == c);
            }
        }
        assert(b.contains(b.last()));
        assert(s.drop_last() =~= a + seq![c] + t);
        lemma_last_piece(a, t, c);
        crate::text::lemma_pieces_nonempty(a + seq![c] + t, c);
        assert(t.push(b.last()) =~= b);
    }
}

// ---------------------------------------------------------------------------
// The DNS proxy
// ---------------------------------------------------------------------------

/// The proxy is started at most once, and is ready when that is reported.
pub proof fn law_proxy_starts_once(p: &mut DnsProxy, r: ProxyStart)
    requires
        call_ensures(DnsProxy::start_dns_proxy, (p,), r),
    ensures
        old(p).ready ==> r == ProxyStart::Running,
        !old(p).ready && old(p).started ==> r == ProxyStart::Attempted,
        !old(p).ready && !old(p).started ==> r == ProxyStart::Bind,
        final(p).ready == old(p).ready,
        !old(p).ready ==> final(p).started,
{
}

/// What is reported of the proxy is what it says of itself.
pub proof fn law_proxy_readiness(p: &mut DnsProxy, ready: bool)
    requires
        call_ensures(DnsProxy::set_ready, (p, ready), ()),
    ensures
        final(p).ready == ready,
        final(p).started == old(p).started,
{
}

/// An address is behind an allowlist exactly when an allowing rule is registered for it.
pub proof fn law_allowlisted_addresses(regs: DomainRegistry, ip: Ipv4, i: int, r: bool)
    requires
        call_ensures(DomainRegistry::has_allowlist_policy, (&regs, ip), r),
    ensures
        0 <= i < regs@.len() && regs@[i].source_ip == ip && regs@[i].mode == DomainMode::Allow
            ==> r,
        regs@.len() == 0 ==> !r,
        regs@.len() == 1 && (regs@[0].source_ip != ip || regs@[0].mode != DomainMode::Allow)
            ==> !r,
{
}

/// The answer from upstream is passed on, unless the name is denied; where there is none, the
/// query fails, and no address is noted.
pub proof fn law_queries_are_finished(
    packet: &[u8],
    q: DnsQuestion,
    sets: Vec<String>,
    deny: bool,
    upstream: Option<Vec<u8>>,
    r: (Vec<(String, Ipv4)>, Vec<u8>),
)
    requires
        call_ensures(finish_dns_query, (packet, &sets, deny, upstream), r),
        call_ensures(parse_question, (packet,), Some(q)),
        12 <= q.end <= packet@.len(),
    ensures
        upstream is None ==> r.0@.len() == 0 && r.1@.len() == q.end && r.1@[0] == packet@[0]
            && r.1@[1] == packet@[1] && r.1@[3] == 0x82,
        deny && upstream is Some ==> r.1@.len() == q.end && r.1@[0] == packet@[0] && r.1@[1]
            == packet@[1] && r.1@[3] == 0x83,
        upstream matches Some(b) ==> (!deny ==> r.1@ == b@),
{
    assert(element_views(r.0@).len() == r.0@.len());
}

/// Every address of an answer is noted in every set.
pub proof fn law_answers_are_noted(
    packet: &[u8],
    sets: Vec<String>,
    deny: bool,
    answer: Vec<u8>,
    bytes: &[u8],
    addrs: Vec<Ipv4>,
    r: (Vec<(String, Ipv4)>, Vec<u8>),
    i: int,
    j: int,
)
    requires
        call_ensures(finish_dns_query, (packet, &sets, deny, Some(answer)), r),
        bytes@ == answer@,
        call_ensures(parse_a_records, (bytes,), addrs),
        0 <= i < sets@.len(),
        0 <= j < addrs@.len(),
    ensures
        r.0@.len() == sets@.len() * addrs@.len(),
        0 <= i * addrs@.len() + j < r.0@.len(),
        r.0@[i * addrs@.len() + j].0@ == sets@[i]@,
        r.0@[i * addrs@.len() + j].1 == addrs@[j],
{
    let n = addrs@.len() as int;
    let m = sets@.len() as int;
    let k = i * n + j;
    assert(element_views(r.0@).len() == r.0@.len());
    assert(0 <= k < m * n) by (nonlinear_arith)
        requires
            0 <= i < m,
            0 <= j < n,
            k == i * n + j,
    ;
    vstd::arithmetic::div_mod::lemma_fundamental_div_mod_converse(k, n, i, j);
    assert(element_views(r.0@)[k] == (r.0@[k].0@, r.0@[k].1));
    assert(views(sets@)[i] == sets@[i]@);
}

/// What goes when a policy is cleared: the sandbox's chain, then each of its sets.
pub proof fn law_cleared_policies(
    id: &str,
    safe: &str,
    listing: &str,
    sets: Vec<String>,
    r: Vec<Vec<String>>,
    i: int,
)
    requires
        call_ensures(clear_policy, (id, listing), r),
        safe@ == crate::egress::safe_name(id@),
        call_ensures(list_domain_sets, (safe, listing), sets),
        0 <= i < sets@.len(),
    ensures
        r@.len() == sets@.len() + 2,
        r@[0]@.len() == 5 && r@[0]@[0]@ == "flush"@ && r@[0]@[1]@ == "chain"@,
        r@[1]@.len() == 5 && r@[1]@[0]@ == "delete"@ && r@[1]@[1]@ == "chain"@,
        r@[0]@[4]@ == r@[1]@[4]@,
        r@[i + 2]@.len() == 5 && r@[i + 2]@[0]@ == "delete"@ && r@[i + 2]@[1]@ == "set"@,
        r@[i + 2]@[4]@ == sets@[i]@,
{
    let v = arg_views(r@);
    assert(v.len() == r@.len());
    assert(v[0] == views(r@[0]@) && v[1] == views(r@[1]@));
    assert(views(r@[0]@).len() == r@[0]@.len() && views(r@[1]@).len() == r@[1]@.len());
    assert(views(r@[0]@)[0] == r@[0]@[0]@ && views(r@[0]@)[1] == r@[0]@[1]@ && views(r@[0]@)[4]
        == r@[0]@[4]@);
    assert(views(r@[1]@)[0] == r@[1]@[0]@ && views(r@[1]@)[1] == r@[1]@[1]@ && views(r@[1]@)[4]
        == r@[1]@[4]@);
    assert(views(sets@).len() == sets@.len() && views(sets@)[i] == sets@[i]@);
    let w = views(r@[i + 2]@);
    assert(v[i + 2] == w);
    assert(w.len() == r@[i + 2]@.len());
    assert(w[0] == r@[i + 2]@[0]@ && w[1] == r@[i + 2]@[1]@ && w[4] == r@[i + 2]@[4]@);
}

// ---------------------------------------------------------------------------
// The runtimes
// ---------------------------------------------------------------------------

/// What a balloon took is noted with its VM, and with no other.
pub proof fn law_balloons_are_noted(
    rt: &mut FirecrackerRuntime,
    handle: &str,
    mib: u32,
    other: Seq<char>,
)
    requires
        call_ensures(FirecrackerRuntime::note_ballooned, (rt, handle, mib), ()),
        old(rt).vms@.contains_key(handle@),
        old(rt).vms@.contains_key(other),
        other != handle@,
    ensures
        final(rt).vms@[handle@]@.ballooned_mib == mib,
        final(rt).vms@[handle@]@.cid == old(rt).vms@[handle@]@.cid,
        final(rt).vms@[handle@]@.standby == old(rt).vms@[handle@]@.standby,
        final(rt).vms@[handle@]@.tap_idx == old(rt).vms@[handle@]@.tap_idx,
        final(rt).vms@[other] == old(rt).vms@[other],
        final(rt).next_cid == old(rt).next_cid && final(rt).next_tap == old(rt).next_tap,
        final(rt).pool == old(rt).pool,
{
}

/// A restored VM is awake, runs in its new process and keeps its numbers.
pub proof fn law_restores_are_noted(
    rt: &mut FirecrackerRuntime,
    handle: &str,
    sockets: Option<(String, String)>,
    pid: Option<u32>,
    other: Seq<char>,
)
    requires
        call_ensures(FirecrackerRuntime::note_restored, (rt, handle, sockets, pid), ()),
        old(rt).vms@.contains_key(handle@),
        old(rt).vms@.contains_key(other),
        other != handle@,
    ensures
        ({
            let (was, now) = (old(rt).vms@[handle@]@, final(rt).vms@[handle@]@);
            &&& !now.standby && now.pid == pid
            &&& now.cid == was.cid && now.tap_idx == was.tap_idx && now.image_key == was.image_key
            &&& now.has_secrets == was.has_secrets && now.volumes == was.volumes
            &&& sockets is None ==> now.api_sock == was.api_sock && now.vsock_uds == was.vsock_uds
            &&& sockets matches Some(s) ==> now.api_sock == s.0@ && now.vsock_uds == s.1@
        }),
        final(rt).vms@[other] == old(rt).vms@[other],
        final(rt).vms@.contains_key(handle@),
{
}

/// A record on disk is taken up where there is none in memory, and only there.
pub proof fn law_records_are_taken_up(
    rt: &mut FirecrackerRuntime,
    handle: &str,
    disk: Option<VmRecord>,
)
    requires
        call_ensures(FirecrackerRuntime::ensure_record_loaded, (rt, handle, disk), ()),
    ensures
        old(rt).vms@.contains_key(handle@) ==> final(rt).vms@ == old(rt).vms@,
        disk is None ==> final(rt).vms@ == old(rt).vms@,
        !old(rt).vms@.contains_key(handle@) ==> (disk matches Some(rec) ==> final(rt).vms@.contains_key(handle@) && final(rt).vms@[handle@] == rec),
        final(rt).next_cid == old(rt).next_cid && final(rt).next_tap == old(rt).next_tap,
{
}

/// So it is with simulated VMs, of which a warm one is awake and has nobody's variables.
pub proof fn law_simulated_records(
    rt: &mut MockRuntime,
    handle: &str,
    disk: Option<VmState>,
    other: &mut MockRuntime,
    k: Seq<char>,
)
    requires
        call_ensures(MockRuntime::ensure_loaded, (rt, handle, disk), ()),
        call_ensures(MockRuntime::note_warm, (other, handle), ()),
    ensures
        old(rt).state@.contains_key(handle@) ==> final(rt).state@ == old(rt).state@,
        disk is None ==> final(rt).state@ == old(rt).state@,
        !old(rt).state@.contains_key(handle@) ==> (disk matches Some(s) ==> final(rt).state@.contains_key(handle@) && final(rt).state@[handle@] == s),
        final(other).state@.contains_key(handle@),
        !final(other).state@[handle@].paused && !final(other).state@[handle@].standby,
        !final(other).state@[handle@].resident_env@.contains_key(k),
        k != handle@ && old(other).state@.contains_key(k) ==> final(other).state@[k] == old(other).state@[k],
{
}

/// A golden snapshot is made where jails are used and none is there yet.
pub proof fn law_golden_snapshots(rt: FirecrackerRuntime, exists_: bool, there: bool, need: GoldenNeed)
    requires
        call_ensures(FirecrackerRuntime::golden_snapshot_available, (&rt, exists_), there),
        call_ensures(FirecrackerRuntime::ensure_golden_snapshot, (&rt, exists_), need),
    ensures
        there ==> rt.settings.use_jailer && exists_ && need == GoldenNeed::Settled,
        rt.settings.use_jailer && !there ==> need == GoldenNeed::Produce,
        !rt.settings.use_jailer ==> !there && need == GoldenNeed::Settled,
        rt.settings.use_jailer && exists_ ==> there,
{
}

/// There is nothing to snapshot of a VM that is not known.
pub proof fn law_unknown_golden(
    rt: FirecrackerRuntime,
    handle: &str,
    spec: VmSpec,
    r: Result<PlanBuilder, String>,
)
    requires
        call_ensures(FirecrackerRuntime::produce_golden_snapshot, (&rt, handle, &spec), r),
    ensures
        r is Ok <==> rt.vms@.contains_key(handle@),
{
}

/// A boot from the golden snapshot takes the youngest waiting jailer, where there is one, and
/// starts one of its own otherwise.
pub proof fn law_golden_boots(
    rt: &mut FirecrackerRuntime,
    spec: VmSpec,
    tap: u32,
    cid: u32,
    l: Launch,
)
    requires
        call_ensures(FirecrackerRuntime::boot_from_golden, (rt, &spec, tap, cid), Ok(l)),
        old(rt).settings.use_jailer,
    ensures
        l.handle@ == "vm_"@ + spec.sandbox_id@,
        l.record@.cid == cid,
        l.record@.image_key == spec.image_key@,
        old(rt).settings.jailer_pool_size > 0 && old(rt).pool@.len() > 0 ==> l.pid == old(rt).pool@.last().pid && final(rt).pool@ == old(rt).pool@.drop_last() && (
        l.plan@[0].action is Record),
        old(rt).settings.jailer_pool_size == 0 || old(rt).pool@.len() == 0 ==> l.pid is None
            && final(rt).pool@ == old(rt).pool@ && (l.plan@[0].action is Spawn),
        final(rt).vms == old(rt).vms,
{
}

/// A volume is staged from its image, for the place where the tenant wants it.
pub proof fn law_volumes_are_staged(
    s: Settings,
    volumes: Vec<VolumeAttach>,
    r: Vec<VolumeStage>,
    i: int,
    id: &str,
    image: String,
    label: String,
)
    requires
        call_ensures(stage_volumes, (&s, &volumes), r),
        0 <= i < volumes@.len(),
        id@ == volumes@[i].volume_id@,
        call_ensures(Settings::volume_image_of, (&s, id), image),
        call_ensures(volume_label, (id,), label),
    ensures
        r@.len() == volumes@.len(),
        r@[i].mount_path@ == volumes@[i].mount_path@,
        r@[i].host_path@ == image@,
        r@[i].label@ == label@,
        r@[i].file@ == volumes@[i].volume_id@ + ".ext4"@,
{
    assert(stage_views(r@).len() == r@.len());
    assert(stage_views(r@)[i] == r@[i]@);
}

/// A pool that is short is filled up to its target.
pub proof fn law_short_pools(pools: HotPools, r: Vec<(ShapeKey, u32)>, i: int, j: int)
    requires
        call_ensures(HotPools::pending_warm, (&pools,), r),
        0 <= i < j < r@.len(),
    ensures
        r@[i].0@ != r@[j].0@,
        r@[i].1 > 0,
        r@[i].1 + pools.queue_of(r@[i].0@).len() as u32 == pools.target_of(r@[i].0@),
{
    let x = r@[i];
    let y = r@[j];
    assert(x.1 > 0);
}

// ---------------------------------------------------------------------------
// Measurements
// ---------------------------------------------------------------------------

/// Rows of the table are of something, in order, each image and boot path once; and what nine
/// of ten starts stay below is no less than what half of them do.
pub proof fn law_rows(all: Vec<BenchmarkSample>, r: Vec<Series>, i: int, j: int, k: int)
    requires
        call_ensures(series, (&all,), r),
        0 <= i < r@.len(),
        0 <= k < all@.len(),
    ensures
        i < j < r@.len() ==> before(r@[i].image@, r@[j].image@) || (r@[i].image@ == r@[j].image@
            && r@[i].boot_path != r@[j].boot_path),
        exists|m: int|
            0 <= m < r@.len() && (#[trigger] r@[m]).image@ == all@[k].image@ && r@[m].boot_path
                == all@[k].boot_path,
        r@[i].samples > 0,
        r@[i].ready_ms_p50 <= r@[i].ready_ms_p90 <= r@[i].ready_ms_p95,
        r@[i].create_to_echo_ms_p50 <= r@[i].create_to_echo_ms_p95,
{
    let row = r@[i];
    assert(tells(row, all@));
    let other = r@[j];
    let sample = all@[k];
    assert(crate::bench::has_row(r@, sample.image@, sample.boot_path));
    let mine = crate::bench::of_path(all@, row.image@, row.boot_path, all@.len() as int);
    let (ready, echo) = choose|ready: Seq<u64>, echo: Seq<u64>|
        {
            &&& #[trigger] sorts(ready, ready_times(mine))
            &&& #[trigger] sorts(echo, crate::bench::echo_times(mine))
            &&& row.ready_ms_p50 == percentile_of(ready, 50)
            &&& row.ready_ms_p90 == percentile_of(ready, 90)
            &&& row.ready_ms_p95 == percentile_of(ready, 95)
            &&& row.create_to_echo_ms_p50 == percentile_of(echo, 50)
            &&& row.create_to_echo_ms_p95 == percentile_of(echo, 95)
        };
    lemma_percentiles_rise(ready, 50, 90);
    lemma_percentiles_rise(ready, 90, 95);
    lemma_percentiles_rise(echo, 50, 95);
}

proof fn lemma_percentiles_rise(s: Seq<u64>, p: int, q: int)
    requires
        crate::bench::rising(s),
        0 <= p <= q <= 100,
    ensures
        percentile_of(s, p) <= percentile_of(s, q),
{
    let n = s.len() as int;
    if n > 0 {
        assert(p * (n - 1) <= q * (n - 1)) by (nonlinear_arith)
            requires
                p <= q,
                n > 0,
        ;
        assert(0 <= p * (n - 1)) by (nonlinear_arith)
            requires
                0 <= p,
                n > 0,
        ;
        assert(rank(n, p) <= rank(n, q));
        assert(0 <= rank(n, p));
    }
}

// ---------------------------------------------------------------------------
// Where things are
// ---------------------------------------------------------------------------

/// The directories of VMs and snapshots.
pub proof fn law_places(
    s: Settings,
    handle: &str,
    key: &str,
    shape: Resources,
    home: String,
    jail: String,
    chroot: String,
    root: String,
    golden: String,
    image: String,
)
    requires
        call_ensures(Settings::workspace_of, (&s, handle), home),
        call_ensures(Settings::jail_dir, (&s, handle), jail),
        call_ensures(Settings::chroot_dir_of, (&s, handle), chroot),
        call_ensures(Settings::chroot_root_of, (&s, handle), root),
        call_ensures(Settings::golden_dir, (&s, key, &shape), golden),
        call_ensures(Settings::volume_image_of, (&s, handle), image),
        is_inner(handle@),
        is_inner(key@),
        is_dir(s.workspace_dir@),
        is_dir(s.images_dir@),
        is_dir(s.volumes_dir@),
    ensures
        home@ == s.workspace_dir@ + "/"@ + handle@,
        jail@ == s.workspace_dir@ + "/jail/"@ + handle@,
        chroot@ == s.workspace_dir@ + "/jail/firecracker/"@ + handle@,
        root@ == chroot@ + "/root"@,
        golden@ == s.images_dir@ + "/snapshots/"@ + key@ + "/"@ + decimal(shape.memory_mb as nat),
        image@ == s.volumes_dir@ + "/"@ + handle@ + ".ext4"@,
{
    reveal_strlit("/");
    reveal_strlit("jail");
    reveal_strlit("/jail/");
    reveal_strlit("firecracker");
    reveal_strlit("/jail/firecracker/");
    reveal_strlit("root");
    reveal_strlit("/root");
    reveal_strlit("snapshots");
    reveal_strlit("/snapshots/");
    reveal_strlit(".ext4");
    let d = decimal(shape.memory_mb as nat);
    lemma_decimal_digits(shape.memory_mb as nat);
    assert(d.contains(d[0]));
    assert(d[0] != '/');
    assert(home@ =~= s.workspace_dir@ + "/"@ + handle@);
    assert(jail@ =~= s.workspace_dir@ + "/jail/"@ + handle@);
    assert(chroot@ =~= s.workspace_dir@ + "/jail/firecracker/"@ + handle@);
    assert(root@ =~= chroot@ + "/root"@);
    assert(golden@ =~= s.images_dir@ + "/snapshots/"@ + key@ + "/"@ + d);
    assert(image@ =~= s.volumes_dir@ + "/"@ + handle@ + ".ext4"@);
}

/// A directory as it is configured: not the root, and with no slash at its end.
pub open spec fn is_dir(p: Seq<char>) -> bool {
    p.len() > 0 && p.last() != '/'
}

/// A name of something inside a directory.
pub open spec fn is_inner(p: Seq<char>) -> bool {
    p.len() > 0 && p[0] != '/' && p.last() != '/'
}

/// A jailer for the pool is started under its own name and user, in the chroot that bears its
/// name, and its socket is waited for a moment.
pub proof fn law_pooled_jailers_start(a: &mut FirecrackerRuntime, s: PoolSpawn, id: &str, root: String)
    requires
        call_ensures(FirecrackerRuntime::spawn_pooled_jail, (a,), s),
        id@ == s.jail.jail_id@,
        call_ensures(Settings::chroot_root_of, (&old(a).settings, id), root),
    ensures
        s.plan@.len() == 3,
        s.plan@[0].action is CreateDir,
        s.plan@[1].action is Spawn && s.plan@[1].err == Flow::Fail,
        s.plan@[2].action == Action::<Seq<char>, Seq<Seq<char>>>::WaitFor(
            crate::paths::under(root@, "api.sock"@),
            4,
        ),
        s.plan@[1].action matches Action::Spawn(argv, log) ==> argv.contains(id@),
        s.jail.pid is None,
{
    let n = old(a).next_pool;
    if let Action::Spawn(argv, log) = s.plan@[1].action {
        let k = choose|k: int| 0 <= k < argv.len() && argv[k] == id@;
        assert(argv[2] == id@);
    }
}

/// A percentage is read in thousandths of a percent.
pub proof fn law_percentages(w: u16, d: u8)
    requires
        10 <= d < 100,
    ensures
        crate::background::percent_milli(decimal(w as nat) + seq!['.'] + decimal(d as nat))
            == Some(w * 1000 + d * 10),
{
    let (a, b) = (decimal(w as nat), decimal(d as nat));
    lemma_decimal_digits(w as nat);
    lemma_decimal_digits(d as nat);
    law_parse_undoes_decimal(w as nat, 1_000_000);
    law_parse_undoes_decimal(d as nat, 99);
    reveal_with_fuel(crate::numeral::decimal, 3);
    assert(b.len() == 2);
    crate::laws::words::lemma_first(a, b, '.');
    let t = a + seq!['.'] + b;
    assert(t.subrange(0, a.len() as int) =~= a);
    assert(t.subrange(a.len() as int + 1, t.len() as int) =~= b);
}

/// A build that a command ends says which step it was and what the command said last.
pub proof fn law_last_words(job: BuildJob, front: Seq<char>, line: Seq<char>)
    requires
        !line.contains('\n'),
        line.len() > 0,
    ensures
        advanced(
            job,
            Stage::<Seq<char>>::Unpack,
            BuildEvent::Refused(front + seq!['\n'] + line),
        ) == Stage::<Seq<char>>::Failed("unpack build context: "@ + line),
        advanced(job, Stage::<Seq<char>>::Unpack, BuildEvent::Refused(Seq::empty())) == Stage::<
            Seq<char>,
        >::Failed("unpack build context: (no stderr)"@),
{
    reveal_strlit("unpack build context");
    reveal_strlit(": ");
    reveal_strlit("unpack build context: ");
    reveal_strlit("(no stderr)");
    reveal_strlit("unpack build context: (no stderr)");
    lemma_last_piece(front, line, '\n');
    assert("unpack build context"@ + ": "@ + line =~= "unpack build context: "@ + line);
    assert("unpack build context"@ + ": "@ + "(no stderr)"@
        =~= "unpack build context: (no stderr)"@);
    let e = Seq::<char>::empty();
    assert(pieces(e, '\n') =~= seq![e]);
    assert(line_list(e).len() == 0);
}

} // verus!
