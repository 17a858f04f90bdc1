//! Domain model: sandboxes, boot paths, timings, startup recipes, network
//! policies and the other parts of a create request.

use crate::envmap::EnvMap;
use crate::knobs::{Resources, ResourcesRequest};
use crate::lifecycle::State;
use crate::netaddr::{
    cidr, cidr_overlaps, in_range, law_overlap_means_shared_address, parse_ipv4_cidr, ranges_overlap,
    Ipv4,
};
use crate::nodes::Nanos;
use crate::text::{
    ascii_alnum, chars_of, concat2, concat3, contains_char, ends_with, has_prefix, is_alnum, lowered,
    pieces, same, split, starts_with, string_of, strip_prefix, to_lower, trim, trim_back_of,
    trim_end_of, trimmed, views, without_prefix,
};
use vstd::prelude::*;
use vstd::string::*;
use vstd::utf8::*;

verus! {

/// Where a sandbox came from. Reported honestly, so that best-case hot-pool
/// numbers are never published unlabeled.
#[derive(Debug, Clone, Copy, PartialEq, Eq, Structural)]
pub enum BootPath {
    HotPool,
    SnapshotRestore,
    ColdBoot,
    /// Cloned from a sibling's snapshot.
    Fork,
}

impl BootPath {
    /// The wire name.
    pub open spec fn name(self) -> Seq<char> {
        match self {
            BootPath::HotPool => "hot_pool"@,
            BootPath::SnapshotRestore => "snapshot_restore"@,
            BootPath::ColdBoot => "cold_boot"@,
            BootPath::Fork => "fork"@,
        }
    }

    pub fn as_str(&self) -> (r: &'static str)
        ensures
            r@ == self.name(),
    {
        match self {
            BootPath::HotPool => "hot_pool",
            BootPath::SnapshotRestore => "snapshot_restore",
            BootPath::ColdBoot => "cold_boot",
            BootPath::Fork => "fork",
        }
    }
}

/// Timing breakdown of a create, in milliseconds. Optional-feature time is kept
/// apart from boot time so that benchmarks stay honest.
#[derive(Debug, Clone, Copy, PartialEq, Eq, Structural)]
pub struct Timings {
    pub boot_ms: u64,
    pub image_cache_ms: u64,
    pub browser_ready_ms: u64,
    /// Time spent installing the opt-in coding agent.
    pub agent_ms: u64,
    pub git_ms: u64,
    pub install_ms: u64,
    pub ready_ms: u64,
    pub total_ms: u64,
}

impl Timings {
    /// No time measured yet.
    pub open spec fn zero() -> Timings {
        Timings {
            boot_ms: 0,
            image_cache_ms: 0,
            browser_ready_ms: 0,
            agent_ms: 0,
            git_ms: 0,
            install_ms: 0,
            ready_ms: 0,
            total_ms: 0,
        }
    }
}

impl Default for Timings {
    fn default() -> (r: Self)
        ensures
            r == Timings::zero(),
    {
        Timings {
            boot_ms: 0,
            image_cache_ms: 0,
            browser_ready_ms: 0,
            agent_ms: 0,
            git_ms: 0,
            install_ms: 0,
            ready_ms: 0,
            total_ms: 0,
        }
    }
}

// ---------------------------------------------------------------------------
// Startup recipe
// ---------------------------------------------------------------------------

#[derive(Debug)]
pub struct StartupRecipe {
    pub git: Option<GitSpec>,
    pub env: EnvMap,
    /// Secret names only. Values are injected late from the org's secrets and
    /// never end up in a snapshot.
    pub secrets: Vec<String>,
    pub cache: Option<CacheSpec>,
    pub commands: Vec<CommandSpec>,
    pub ports: Vec<u16>,
    pub ready: Option<ReadyCheck>,
    pub network: NetworkPolicy,
}

#[derive(Debug)]
pub struct GitSpec {
    pub url: String,
    /// Branch or tag to check out.
    pub git_ref: String,
    pub depth: u32,
}

/// The branch a recipe without one means.
pub fn default_ref() -> (r: String)
    ensures
        r@ == "main"@,
{
    String::from_str("main")
}

/// The clone depth a recipe without one means.
pub fn default_depth() -> (r: u32)
    ensures
        r == 1,
{
    1
}

#[derive(Debug)]
pub struct CacheSpec {
    pub package_managers: Vec<String>,
}

#[derive(Debug)]
pub struct CommandSpec {
    pub name: String,
    pub run: String,
    pub cache_key: Option<String>,
    pub background: bool,
}

#[derive(Debug)]
pub struct ReadyCheck {
    /// HTTP URL polled until it answers, e.g. "http://127.0.0.1:3000".
    pub http: Option<String>,
    pub timeout_seconds: u32,
}

/// The ready timeout a recipe without one means, in seconds.
pub fn default_ready_timeout() -> (r: u32)
    ensures
        r == 30,
{
    30
}

// ---------------------------------------------------------------------------
// Network policy
// ---------------------------------------------------------------------------

#[derive(Debug, Clone, Copy, PartialEq, Eq, Structural)]
pub enum EgressMode {
    /// The node's own rules.
    Default,
    Allowlist,
    Denylist,
    /// No traffic at all.
    Closed,
}

#[derive(Debug, Clone, Copy, PartialEq, Eq, Structural)]
pub enum NetworkRuleKind {
    Cidr,
    Domain,
}

#[derive(Debug, Clone, Copy, PartialEq, Eq, Structural)]
pub enum NetworkProtocol {
    Tcp,
    Udp,
}

#[derive(Debug)]
pub struct NetworkRule {
    pub kind: NetworkRuleKind,
    pub value: String,
    pub protocol: Option<NetworkProtocol>,
    pub ports: Vec<u16>,
}

/// A network rule by the views of its parts.
pub struct RuleView {
    pub kind: NetworkRuleKind,
    pub value: Seq<char>,
    pub protocol: Option<NetworkProtocol>,
    pub ports: Seq<u16>,
}

impl View for NetworkRule {
    type V = RuleView;

    open spec fn view(&self) -> RuleView {
        RuleView {
            kind: self.kind,
            value: self.value@,
            protocol: self.protocol,
            ports: self.ports@,
        }
    }
}

impl Clone for NetworkRule {
    fn clone(&self) -> (r: Self)
        ensures
            r@ == self@,
    {
        let mut ports: Vec<u16> = Vec::new();
        let mut i: usize = 0;
        while i < self.ports.len()
            invariant
                i <= self.ports@.len(),
                ports@ == self.ports@.subrange(0, i as int),
            decreases self.ports@.len() - i,
        {
            ports.push(self.ports[i]);
            i = i + 1;
            assert(self.ports@.subrange(0, i as int) =~= self.ports@.subrange(0, i - 1).push(
                self.ports@[i - 1],
            ));
        }
        assert(self.ports@.subrange(0, i as int) =~= self.ports@);
        NetworkRule { kind: self.kind, value: self.value.clone(), protocol: self.protocol, ports }
    }
}

#[derive(Debug)]
pub struct NetworkPolicy {
    pub egress: EgressMode,
    pub allow: Vec<NetworkRule>,
    pub deny: Vec<NetworkRule>,
}

/// The views of a list of rules.
pub open spec fn rule_views(v: Seq<NetworkRule>) -> Seq<RuleView> {
    Seq::new(v.len(), |i: int| v[i]@)
}

/// A network policy by the views of its rules.
pub struct PolicyView {
    pub egress: EgressMode,
    pub allow: Seq<RuleView>,
    pub deny: Seq<RuleView>,
}

impl View for NetworkPolicy {
    type V = PolicyView;

    open spec fn view(&self) -> PolicyView {
        PolicyView {
            egress: self.egress,
            allow: rule_views(self.allow@),
            deny: rule_views(self.deny@),
        }
    }
}

fn copy_rules(rules: &Vec<NetworkRule>) -> (r: Vec<NetworkRule>)
    ensures
        rule_views(r@) == rule_views(rules@),
{
    let mut out: Vec<NetworkRule> = Vec::new();
    let mut i: usize = 0;
    while i < rules.len()
        invariant
            i <= rules@.len(),
            out@.len() == i,
            forall|k: int| 0 <= k < i ==> (#[trigger] out@[k])@ == rules@[k]@,
        decreases rules@.len() - i,
    {
        out.push(rules[i].clone());
        i = i + 1;
    }
    assert(rule_views(out@) =~= rule_views(rules@));
    out
}

impl Clone for NetworkPolicy {
    fn clone(&self) -> (r: Self)
        ensures
            r@ == self@,
    {
        NetworkPolicy {
            egress: self.egress,
            allow: copy_rules(&self.allow),
            deny: copy_rules(&self.deny),
        }
    }
}

impl Default for NetworkPolicy {
    fn default() -> (r: Self)
        ensures
            r.egress == EgressMode::Default,
            r.allow@.len() == 0,
            r.deny@.len() == 0,
    {
        NetworkPolicy { egress: EgressMode::Default, allow: Vec::new(), deny: Vec::new() }
    }
}

/// The rule that a bare value stands for: trimmed and in lower case, an address
/// range where it reads as one and a domain otherwise.
pub open spec fn rule_of_value(value: Seq<char>) -> RuleView {
    let v = lowered(trimmed(value));
    RuleView {
        kind: if cidr(v) is Some {
            NetworkRuleKind::Cidr
        } else {
            NetworkRuleKind::Domain
        },
        value: v,
        protocol: None,
        ports: Seq::<u16>::empty(),
    }
}

/// How many times `c` occurs in `s`.
pub open spec fn occurrences(s: Seq<char>, c: char) -> nat
    decreases s.len(),
{
    if s.len() == 0 {
        0
    } else {
        occurrences(s.drop_last(), c) + if s.last() == c {
            1nat
        } else {
            0nat
        }
    }
}

/// A label of a host name: letters, digits and hyphens, at most 63 of them, no
/// hyphen at either end.
pub open spec fn good_label(s: Seq<char>) -> bool {
    &&& 1 <= s.len() <= 63
    &&& s[0] != '-'
    &&& s.last() != '-'
    &&& forall|i: int| 0 <= i < s.len() ==> is_alnum(#[trigger] s[i]) || s[i] == '-'
}

/// The host that a domain pattern is about, without a leading wildcard.
pub open spec fn pattern_host(value: Seq<char>) -> Seq<char> {
    match without_prefix(value, "*."@) {
        Some(rest) => rest,
        None => value,
    }
}

/// The length of a text in bytes.
pub open spec fn byte_len(s: Seq<char>) -> usize {
    encode_utf8(s).len() as usize
}

/// The text about a domain rule, with the offending value in it.
pub open spec fn domain_text(value: Seq<char>, what: Seq<char>) -> Seq<char> {
    "network domain rule '"@ + value + what
}

/// What is wrong with a domain pattern, if anything.
pub open spec fn domain_fault(value: Seq<char>) -> Option<Seq<char>> {
    let wild = has_prefix(value, "*."@);
    let host = pattern_host(value);
    if value.contains('/') || value.contains(':') {
        Some(domain_text(value, "' must be a hostname, not a URL"@))
    } else if value == "*"@ || (wild && occurrences(value, '*') > 1) {
        Some(domain_text(value, "' has an unsafe wildcard"@))
    } else if value.contains('*') && !wild {
        Some(domain_text(value, "' may only use a leading '*.' wildcard"@))
    } else if byte_len(host) > 253 || host.len() == 0 || !host.contains('.') {
        Some(domain_text(value, "' is not a valid domain"@))
    } else if exists|i: int|
        0 <= i < pieces(host, '.').len() && !good_label(#[trigger] pieces(host, '.')[i]) {
        Some(domain_text(value, "' has an invalid label"@))
    } else {
        None
    }
}

/// What is wrong with a rule, if anything.
pub open spec fn rule_fault(rule: RuleView) -> Option<Seq<char>> {
    if trimmed(rule.value).len() == 0 {
        Some("network rule value cannot be empty"@)
    } else if rule.ports.contains(0) {
        Some("network rule '"@ + rule.value + "' has invalid port 0"@)
    } else {
        match rule.kind {
            NetworkRuleKind::Cidr => if cidr(rule.value) is None {
                Some(
                    "network cidr rule '"@ + rule.value + "' must be an IPv4 address or CIDR"@,
                )
            } else {
                None
            },
            NetworkRuleKind::Domain => domain_fault(rule.value),
        }
    }
}

/// The first fault among the rules from `i` on.
pub open spec fn first_rule_fault(rules: Seq<RuleView>, i: int) -> Option<Seq<char>>
    decreases rules.len() - i,
{
    if i >= rules.len() || i < 0 {
        None
    } else if rule_fault(rules[i]) is Some {
        rule_fault(rules[i])
    } else {
        first_rule_fault(rules, i + 1)
    }
}

/// Private, loopback, link-local and metadata ranges, which no sandbox may
/// reach whatever its policy says.
pub open spec fn hard_denied(a: Ipv4, p: u8) -> bool {
    ||| ranges_overlap(a, p, Ipv4(10, 0, 0, 0), 8)
    ||| ranges_overlap(a, p, Ipv4(172, 16, 0, 0), 12)
    ||| ranges_overlap(a, p, Ipv4(192, 168, 0, 0), 16)
    ||| ranges_overlap(a, p, Ipv4(127, 0, 0, 0), 8)
    ||| ranges_overlap(a, p, Ipv4(169, 254, 0, 0), 16)
    ||| ranges_overlap(a, p, Ipv4(100, 100, 100, 200), 32)
}

/// An address, as a number, that no sandbox may reach.
pub open spec fn is_hard_denied(x: int) -> bool {
    ||| in_range(x, Ipv4(10, 0, 0, 0), 8)
    ||| in_range(x, Ipv4(172, 16, 0, 0), 12)
    ||| in_range(x, Ipv4(192, 168, 0, 0), 16)
    ||| in_range(x, Ipv4(127, 0, 0, 0), 8)
    ||| in_range(x, Ipv4(169, 254, 0, 0), 16)
    ||| in_range(x, Ipv4(100, 100, 100, 200), 32)
}

/// The text denotes a range that overlaps a hard-denied one.
pub open spec fn names_hard_denied(value: Seq<char>) -> bool {
    match cidr(value) {
        Some((a, p)) => hard_denied(a, p),
        None => false,
    }
}

/// The first allow rule from `i` on that reaches into a hard-denied range.
pub open spec fn first_hard_denied(rules: Seq<RuleView>, i: int) -> Option<Seq<char>>
    decreases rules.len() - i,
{
    if i >= rules.len() || i < 0 {
        None
    } else if rules[i].kind == NetworkRuleKind::Cidr && names_hard_denied(rules[i].value) {
        Some(
            "network allow rule '"@ + rules[i].value
                + "' overlaps a hard-denied private or metadata range"@,
        )
    } else {
        first_hard_denied(rules, i + 1)
    }
}

/// What is wrong with the lists that a mode comes with.
pub open spec fn shape_fault(p: PolicyView) -> Option<Seq<char>> {
    match p.egress {
        EgressMode::Default => if p.allow.len() > 0 || p.deny.len() > 0 {
            Some("network.egress=default cannot include allow or deny rules"@)
        } else {
            None
        },
        EgressMode::Allowlist => if p.allow.len() == 0 {
            Some("network.egress=allowlist requires at least one allow rule"@)
        } else if p.deny.len() > 0 {
            Some("network.egress=allowlist cannot include deny rules"@)
        } else {
            None
        },
        EgressMode::Denylist => if p.deny.len() == 0 {
            Some("network.egress=denylist requires at least one deny rule"@)
        } else if p.allow.len() > 0 {
            Some("network.egress=denylist cannot include allow rules"@)
        } else {
            None
        },
        EgressMode::Closed => if p.allow.len() > 0 || p.deny.len() > 0 {
            Some("network.egress=none cannot include allow or deny rules"@)
        } else {
            None
        },
    }
}

/// What is wrong with a policy, if anything: first its shape, then its rules in
/// order, then allow rules that reach into hard-denied ranges.
pub open spec fn policy_fault(p: PolicyView) -> Option<Seq<char>> {
    if shape_fault(p) is Some {
        shape_fault(p)
    } else if first_rule_fault(p.allow + p.deny, 0) is Some {
        first_rule_fault(p.allow + p.deny, 0)
    } else if p.egress == EgressMode::Allowlist {
        first_hard_denied(p.allow, 0)
    } else {
        None
    }
}

/// The fault that a validation result reports.
pub open spec fn fault_of(r: Result<(), String>) -> Option<Seq<char>> {
    match r {
        Ok(_) => None,
        Err(m) => Some(m@),
    }
}

fn count_char(v: &Vec<char>, c: char) -> (r: usize)
    ensures
        r == occurrences(v@, c),
{
    let mut n: usize = 0;
    let mut i: usize = 0;
    while i < v.len()
        invariant
            i <= v.len(),
            n <= i,
            n == occurrences(v@.subrange(0, i as int), c),
        decreases v.len() - i,
    {
        assert(v@.subrange(0, i + 1).drop_last() =~= v@.subrange(0, i as int));
        if v[i] == c {
            n = n + 1;
        }
        i = i + 1;
    }
    assert(v@.subrange(0, i as int) =~= v@);
    n
}

fn label_ok(label: &str) -> (r: bool)
    ensures
        r == good_label(label@),
{
    let v = chars_of(label);
    if v.len() == 0 || v.len() > 63 || v[0] == '-' || v[v.len() - 1] == '-' {
        return false;
    }
    let mut i: usize = 0;
    while i < v.len()
        invariant
            i <= v@.len(),
            v@ == label@,
            forall|k: int| 0 <= k < i ==> is_alnum(#[trigger] v@[k]) || v@[k] == '-',
        decreases v@.len() - i,
    {
        if !(ascii_alnum(v[i]) || v[i] == '-') {
            assert(!(is_alnum(label@[i as int]) || label@[i as int] == '-'));
            return false;
        }
        i = i + 1;
    }
    true
}

fn domain_error(value: &str, what: &str) -> (r: Result<(), String>)
    ensures
        fault_of(r) == Some(domain_text(value@, what@)),
{
    Err(concat3("network domain rule '", value, what))
}

/// Check a domain pattern.
pub fn validate_domain_pattern(value: &str) -> (r: Result<(), String>)
    ensures
        fault_of(r) == domain_fault(value@),
{
    if contains_char(value, '/') || contains_char(value, ':') {
        return domain_error(value, "' must be a hostname, not a URL");
    }
    let wild = starts_with(value, "*.");
    if same(value, "*") || (wild && count_char(&chars_of(value), '*') > 1) {
        return domain_error(value, "' has an unsafe wildcard");
    }
    if contains_char(value, '*') && !wild {
        return domain_error(value, "' may only use a leading '*.' wildcard");
    }
    let host: String = match strip_prefix(value, "*.") {
        Some(rest) => rest,
        None => String::from_str(value),
    };
    if host.as_str().len() > 253 || host.as_str().is_empty() || !contains_char(host.as_str(), '.') {
        return domain_error(value, "' is not a valid domain");
    }
    let labels = split(host.as_str(), '.');
    let ghost p = pieces(host@, '.');
    let mut i: usize = 0;
    while i < labels.len()
        invariant
            i <= labels@.len(),
            views(labels@) == p,
            p == pieces(host@, '.'),
            host@ == pattern_host(value@),
            domain_fault(value@) == (if exists|k: int| 0 <= k < p.len() && !good_label(#[trigger] p[k]) {
                Some(domain_text(value@, "' has an invalid label"@))
            } else {
                None
            }),
            forall|k: int| 0 <= k < i ==> good_label(#[trigger] p[k]),
        decreases labels@.len() - i,
    {
        assert(p[i as int] == labels@[i as int]@);
        if !label_ok(labels[i].as_str()) {
            assert(!good_label(p[i as int]));
            return domain_error(value, "' has an invalid label");
        }
        i = i + 1;
    }
    Ok(())
}

/// Does the text denote a range that overlaps a hard-denied one?
pub fn cidr_is_hard_denied(value: &str) -> (r: bool)
    ensures
        r == names_hard_denied(value@),
{
    match parse_ipv4_cidr(value) {
        None => false,
        Some((ip, prefix)) => cidr_overlaps(ip, prefix, Ipv4(10, 0, 0, 0), 8) || cidr_overlaps(
            ip,
            prefix,
            Ipv4(172, 16, 0, 0),
            12,
        ) || cidr_overlaps(ip, prefix, Ipv4(192, 168, 0, 0), 16) || cidr_overlaps(
            ip,
            prefix,
            Ipv4(127, 0, 0, 0),
            8,
        ) || cidr_overlaps(ip, prefix, Ipv4(169, 254, 0, 0), 16) || cidr_overlaps(
            ip,
            prefix,
            Ipv4(100, 100, 100, 200),
            32,
        ),
    }
}

fn has_port_zero(ports: &Vec<u16>) -> (r: bool)
    ensures
        r == ports@.contains(0),
{
    let mut i: usize = 0;
    while i < ports.len()
        invariant
            i <= ports@.len(),
            forall|k: int| 0 <= k < i ==> ports@[k] != 0,
        decreases ports@.len() - i,
    {
        if ports[i] == 0 {
            assert(ports@[i as int] == 0);
            return true;
        }
        i = i + 1;
    }
    false
}

impl NetworkRule {
    /// The rule that a bare value stands for.
    pub fn from_value(value: &str) -> (r: NetworkRule)
        ensures
            r@ == rule_of_value(value@),
    {
        let trimmed_value = trim(value);
        let v = to_lower(trimmed_value.as_str());
        let kind = if parse_ipv4_cidr(v.as_str()).is_some() {
            NetworkRuleKind::Cidr
        } else {
            NetworkRuleKind::Domain
        };
        let r = NetworkRule { kind, value: v, protocol: None, ports: Vec::new() };
        assert(r@.ports =~= Seq::<u16>::empty());
        r
    }

    /// The rule of a structured entry: as for a bare value, but with the kind
    /// that is given, if one is, and with protocol and ports.
    pub fn from_parts(
        kind: Option<NetworkRuleKind>,
        value: &str,
        protocol: Option<NetworkProtocol>,
        ports: Vec<u16>,
    ) -> (r: NetworkRule)
        ensures
            r@ == (RuleView {
                kind: match kind {
                    Some(k) => k,
                    None => rule_of_value(value@).kind,
                },
                protocol,
                ports: ports@,
                ..rule_of_value(value@)
            }),
    {
        let mut rule = NetworkRule::from_value(value);
        if let Some(k) = kind {
            rule.kind = k;
        }
        rule.protocol = protocol;
        rule.ports = ports;
        rule
    }

    pub fn validate(&self) -> (r: Result<(), String>)
        ensures
            fault_of(r) == rule_fault(self@),
    {
        let t = trim(self.value.as_str());
        if t.as_str().is_empty() {
            return Err(String::from_str("network rule value cannot be empty"));
        }
        if has_port_zero(&self.ports) {
            return Err(concat3("network rule '", self.value.as_str(), "' has invalid port 0"));
        }
        match self.kind {
            NetworkRuleKind::Cidr => {
                if parse_ipv4_cidr(self.value.as_str()).is_none() {
                    return Err(
                        concat3(
                            "network cidr rule '",
                            self.value.as_str(),
                            "' must be an IPv4 address or CIDR",
                        ),
                    );
                }
                Ok(())
            },
            NetworkRuleKind::Domain => validate_domain_pattern(self.value.as_str()),
        }
    }

    pub fn is_domain(&self) -> (r: bool)
        ensures
            r == (self.kind == NetworkRuleKind::Domain),
    {
        matches!(self.kind, NetworkRuleKind::Domain)
    }
}

/// A rule about a domain.
pub open spec fn has_domain_rule(rules: Seq<RuleView>) -> bool {
    exists|i: int| 0 <= i < rules.len() && (#[trigger] rules[i]).kind == NetworkRuleKind::Domain
}

fn any_domain_rule(rules: &Vec<NetworkRule>) -> (r: bool)
    ensures
        r == has_domain_rule(rule_views(rules@)),
{
    let ghost v = rule_views(rules@);
    let mut i: usize = 0;
    while i < rules.len()
        invariant
            i <= rules@.len(),
            v == rule_views(rules@),
            forall|k: int| 0 <= k < i ==> (#[trigger] v[k]).kind != NetworkRuleKind::Domain,
        decreases rules@.len() - i,
    {
        if rules[i].is_domain() {
            assert(v[i as int].kind == NetworkRuleKind::Domain);
            return true;
        }
        i = i + 1;
    }
    false
}

fn check_rules(rules: &Vec<NetworkRule>) -> (r: Result<(), String>)
    ensures
        fault_of(r) == first_rule_fault(rule_views(rules@), 0),
{
    let ghost v = rule_views(rules@);
    let mut i: usize = 0;
    while i < rules.len()
        invariant
            i <= rules@.len(),
            v == rule_views(rules@),
            first_rule_fault(v, 0) == first_rule_fault(v, i as int),
        decreases rules@.len() - i,
    {
        let c = rules[i].validate();
        assert(fault_of(c) == rule_fault(v[i as int]));
        if c.is_err() {
            return c;
        }
        i = i + 1;
    }
    Ok(())
}

proof fn lemma_first_fault_shift(a: Seq<RuleView>, b: Seq<RuleView>, i: int)
    requires
        0 <= i <= b.len(),
    ensures
        first_rule_fault(a + b, a.len() + i) == first_rule_fault(b, i),
    decreases b.len() - i,
{
    if i < b.len() {
        assert((a + b)[a.len() + i] == b[i]);
        lemma_first_fault_shift(a, b, i + 1);
    }
}

proof fn lemma_first_fault_concat(a: Seq<RuleView>, b: Seq<RuleView>, i: int)
    requires
        0 <= i <= a.len(),
    ensures
        first_rule_fault(a + b, i) == (if first_rule_fault(a, i) is Some {
            first_rule_fault(a, i)
        } else {
            first_rule_fault(b, 0)
        }),
    decreases a.len() - i,
{
    if i < a.len() {
        assert((a + b)[i] == a[i]);
        lemma_first_fault_concat(a, b, i + 1);
    } else {
        lemma_first_fault_shift(a, b, 0);
    }
}

impl NetworkPolicy {
    pub fn validate(&self) -> (r: Result<(), String>)
        ensures
            fault_of(r) == policy_fault(self@),
    {
        match self.egress {
            EgressMode::Default => {
                if self.allow.len() > 0 || self.deny.len() > 0 {
                    return Err(
                        String::from_str(
                            "network.egress=default cannot include allow or deny rules",
                        ),
                    );
                }
            },
            EgressMode::Allowlist => {
                if self.allow.len() == 0 {
                    return Err(
                        String::from_str(
                            "network.egress=allowlist requires at least one allow rule",
                        ),
                    );
                }
                if self.deny.len() > 0 {
                    return Err(
                        String::from_str("network.egress=allowlist cannot include deny rules"),
                    );
                }
            },
            EgressMode::Denylist => {
                if self.deny.len() == 0 {
                    return Err(
                        String::from_str("network.egress=denylist requires at least one deny rule"),
                    );
                }
                if self.allow.len() > 0 {
                    return Err(
                        String::from_str("network.egress=denylist cannot include allow rules"),
                    );
                }
            },
            EgressMode::Closed => {
                if self.allow.len() > 0 || self.deny.len() > 0 {
                    return Err(
                        String::from_str("network.egress=none cannot include allow or deny rules"),
                    );
                }
            },
        }
        assert(shape_fault(self@) is None);
        proof {
            lemma_first_fault_concat(self@.allow, self@.deny, 0);
        }
        let a = check_rules(&self.allow);
        if a.is_err() {
            return a;
        }
        let d = check_rules(&self.deny);
        if d.is_err() {
            return d;
        }
        if matches!(self.egress, EgressMode::Allowlist) {
            let ghost v = self@.allow;
            let mut i: usize = 0;
            while i < self.allow.len()
                invariant
                    i <= self.allow@.len(),
                    v == rule_views(self.allow@),
                    policy_fault(self@) == first_hard_denied(v, i as int),
                decreases self.allow@.len() - i,
            {
                let rule = &self.allow[i];
                assert(v[i as int] == rule@);
                if rule.kind == NetworkRuleKind::Cidr && cidr_is_hard_denied(rule.value.as_str()) {
                    return Err(
                        concat3(
                            "network allow rule '",
                            rule.value.as_str(),
                            "' overlaps a hard-denied private or metadata range",
                        ),
                    );
                }
                i = i + 1;
            }
        }
        Ok(())
    }

    pub fn uses_domain_rules(&self) -> (r: bool)
        ensures
            r == (has_domain_rule(self@.allow) || has_domain_rule(self@.deny)),
    {
        any_domain_rule(&self.allow) || any_domain_rule(&self.deny)
    }

    /// The rules that the mode consults: the allow rules of an allowlist, the
    /// deny rules of a denylist, and none otherwise.
    pub fn rules_for_mode(&self) -> (r: &[NetworkRule])
        ensures
            rule_views(r@) == mode_rules(self@),
            r@ == (match self.egress {
                EgressMode::Allowlist => self.allow@,
                EgressMode::Denylist => self.deny@,
                _ => Seq::<NetworkRule>::empty(),
            }),
    {
        match self.egress {
            EgressMode::Allowlist => self.allow.as_slice(),
            EgressMode::Denylist => self.deny.as_slice(),
            EgressMode::Default | EgressMode::Closed => &[],
        }
    }
}

/// The rules that a policy's mode consults.
pub open spec fn mode_rules(p: PolicyView) -> Seq<RuleView> {
    match p.egress {
        EgressMode::Allowlist => p.allow,
        EgressMode::Denylist => p.deny,
        _ => Seq::<RuleView>::empty(),
    }
}

/// A name as it is compared: without trailing dots, in lower case.
pub open spec fn canonical(s: Seq<char>) -> Seq<char> {
    lowered(trim_back_of(s, '.'))
}

/// A pattern matches a name: equal, or, behind a leading wildcard, equal up to
/// exactly one label in front.
pub open spec fn name_matches(pattern: Seq<char>, domain: Seq<char>) -> bool {
    match without_prefix(canonical(pattern), "*."@) {
        Some(suffix) => one_label_before(canonical(domain), suffix),
        None => canonical(pattern) == canonical(domain),
    }
}

/// `domain` is `suffix` with one label in front.
pub open spec fn one_label_before(domain: Seq<char>, suffix: Seq<char>) -> bool {
    exists|label: Seq<char>|
        label.len() > 0 && !label.contains('.') && domain == #[trigger] (label + seq!['.'] + suffix)
}

/// Does a domain pattern match a name?
pub fn domain_matches(pattern: &str, domain: &str) -> (r: bool)
    ensures
        r == name_matches(pattern@, domain@),
{
    let p = to_lower(trim_end_of(pattern, '.').as_str());
    let d = to_lower(trim_end_of(domain, '.').as_str());
    match strip_prefix(p.as_str(), "*.") {
        Some(suffix) => {
            let dv = chars_of(d.as_str());
            let sv = chars_of(suffix.as_str());
            let tail = concat2(".", suffix.as_str());
            proof {
                reveal_strlit(".");
                assert("."@ =~= seq!['.']);
            }
            if !ends_with(d.as_str(), tail.as_str()) {
                assert(!one_label_before(d@, suffix@)) by {
                    if one_label_before(d@, suffix@) {
                        let label = choose|label: Seq<char>|
                            label.len() > 0 && !label.contains('.') && d@ == #[trigger] (label
                                + seq!['.'] + suffix@);
                        assert(d@.subrange(d@.len() - tail@.len(), d@.len() as int) =~= tail@);
                    }
                }
                return false;
            }
            let cut: usize = dv.len() - sv.len() - 1;
            let prefix = string_of(&dv, 0, cut);
            let ok = !prefix.as_str().is_empty() && !contains_char(prefix.as_str(), '.');
            proof {
                assert(d@ =~= prefix@ + seq!['.'] + suffix@) by {
                    let t = d@.subrange(d@.len() - tail@.len(), d@.len() as int);
                    assert forall|i: int| 0 <= i < d@.len() implies d@[i] == (prefix@ + seq!['.']
                        + suffix@)[i] by {
                        if i >= cut {
                            assert(t[i - cut] == tail@[i - cut]);
                        }
                    }
                }
                if !ok && one_label_before(d@, suffix@) {
                    let label = choose|label: Seq<char>|
                        label.len() > 0 && !label.contains('.') && d@ == #[trigger] (label
                            + seq!['.'] + suffix@);
                    assert(label.len() == prefix@.len());
                    assert(label =~= prefix@) by {
                        assert forall|i: int| 0 <= i < label.len() implies label[i] == prefix@[i] by {
                            assert((label + seq!['.'] + suffix@)[i] == label[i]);
                            assert((prefix@ + seq!['.'] + suffix@)[i] == prefix@[i]);
                        }
                    }
                }
            }
            ok
        },
        None => same(p.as_str(), d.as_str()),
    }
}

/// A wildcard covers one label only: what it matches, it does not match with a
/// further label in front.
pub proof fn law_wildcard_covers_one_label(suffix: Seq<char>, domain: Seq<char>, more: Seq<char>)
    requires
        one_label_before(domain, suffix),
    ensures
        !one_label_before(more + seq!['.'] + domain, suffix),
        !one_label_before(suffix, suffix),
{
    let deep = more + seq!['.'] + domain;
    if one_label_before(deep, suffix) {
        let a = choose|l: Seq<char>|
            l.len() > 0 && !l.contains('.') && domain == #[trigger] (l + seq!['.'] + suffix);
        let b = choose|l: Seq<char>|
            l.len() > 0 && !l.contains('.') && deep == #[trigger] (l + seq!['.'] + suffix);
        assert(domain == a + seq!['.'] + suffix);
        assert(deep == b + seq!['.'] + suffix);
        assert(domain.len() == a.len() + 1 + suffix.len());
        assert(deep.len() == b.len() + 1 + suffix.len());
        assert(deep.len() == more.len() + 1 + domain.len());
        assert(b.len() == more.len() + 1 + a.len());
        assert((b + seq!['.'] + suffix)[more.len() as int] == b[more.len() as int]);
        assert(deep[more.len() as int] == '.');
        assert(b[more.len() as int] == '.');
        assert(b.contains('.'));
    }
    if one_label_before(suffix, suffix) {
        let b = choose|l: Seq<char>|
            l.len() > 0 && !l.contains('.') && suffix == #[trigger] (l + seq!['.'] + suffix);
        assert((b + seq!['.'] + suffix).len() > suffix.len());
    }
}

/// An allowlist that passes validation opens no private, loopback, link-local
/// or metadata address: no address of an allowed range lies in a hard-denied
/// one.
pub proof fn law_accepted_allowlist_spares_hard_denied(p: PolicyView, i: int)
    requires
        policy_fault(p) is None,
        p.egress == EgressMode::Allowlist,
        0 <= i < p.allow.len(),
        p.allow[i].kind == NetworkRuleKind::Cidr,
    ensures
        cidr(p.allow[i].value) matches Some((a, q)) && forall|x: int| #[trigger]
            in_range(x, a, q) ==> !is_hard_denied(x),
{
    lemma_first_fault_concat(p.allow, p.deny, 0);
    lemma_no_fault_from(p.allow, 0, i);
    lemma_no_hard_denied_from(p.allow, 0, i);
    let (a, q) = cidr(p.allow[i].value)->Some_0;
    law_overlap_means_shared_address(a, q, Ipv4(10, 0, 0, 0), 8);
    law_overlap_means_shared_address(a, q, Ipv4(172, 16, 0, 0), 12);
    law_overlap_means_shared_address(a, q, Ipv4(192, 168, 0, 0), 16);
    law_overlap_means_shared_address(a, q, Ipv4(127, 0, 0, 0), 8);
    law_overlap_means_shared_address(a, q, Ipv4(169, 254, 0, 0), 16);
    law_overlap_means_shared_address(a, q, Ipv4(100, 100, 100, 200), 32);
}

proof fn lemma_no_fault_from(rules: Seq<RuleView>, from: int, i: int)
    requires
        first_rule_fault(rules, from) is None,
        0 <= from <= i < rules.len(),
    ensures
        rule_fault(rules[i]) is None,
    decreases i - from,
{
    if from < i {
        lemma_no_fault_from(rules, from + 1, i);
    }
}

proof fn lemma_no_hard_denied_from(rules: Seq<RuleView>, from: int, i: int)
    requires
        first_hard_denied(rules, from) is None,
        0 <= from <= i < rules.len(),
    ensures
        rules[i].kind == NetworkRuleKind::Cidr ==> !names_hard_denied(rules[i].value),
    decreases i - from,
{
    if from < i {
        lemma_no_hard_denied_from(rules, from + 1, i);
    }
}

// ---------------------------------------------------------------------------
// Optional features
// ---------------------------------------------------------------------------

#[derive(Debug, Clone, Copy, PartialEq, Eq, Structural)]
pub struct BrowserConfig {
    pub enabled: bool,
    pub vnc: bool,
    pub cdp: bool,
}

/// A coding-agent command line tool, installed into the guest only on request.
#[derive(Debug)]
pub struct CodingAgentConfig {
    pub enabled: bool,
    /// Which agent to install; "opencode" when left out.
    pub kind: Option<String>,
    /// Version to pin; the installer's latest when left out.
    pub version: Option<String>,
}

impl Default for CodingAgentConfig {
    /// No agent.
    fn default() -> (r: Self)
        ensures
            r == (CodingAgentConfig { enabled: false, kind: None, version: None }),
    {
        CodingAgentConfig { enabled: false, kind: None, version: None }
    }
}

impl CodingAgentConfig {
    /// The agent to install.
    pub open spec fn kind_text(self) -> Seq<char> {
        match self.kind {
            Some(k) => k@,
            None => "opencode"@,
        }
    }

    /// The agent to install, defaulting to opencode.
    pub fn kind(&self) -> (r: &str)
        ensures
            r@ == self.kind_text(),
    {
        match &self.kind {
            Some(k) => k.as_str(),
            None => "opencode",
        }
    }
}

/// Docker inside the guest. The VM is the isolation boundary; the host's Docker
/// socket is never exposed.
#[derive(Debug, Clone, Copy, PartialEq, Eq, Structural)]
pub struct DockerConfig {
    pub enabled: bool,
}

/// A bucket mounted into the guest. Credentials come from the injected secrets.
#[derive(Debug)]
pub struct MountSpec {
    /// Currently only "s3".
    pub kind: String,
    pub bucket: String,
    pub prefix: Option<String>,
    /// Absolute guest path, e.g. "/mnt/data".
    pub mount_path: String,
    pub read_only: bool,
    pub region: Option<String>,
    /// Custom S3-compatible endpoint.
    pub endpoint: Option<String>,
}

impl Clone for MountSpec {
    fn clone(&self) -> (r: Self)
        ensures
            r == *self,
    {
        MountSpec {
            kind: self.kind.clone(),
            bucket: self.bucket.clone(),
            prefix: self.prefix.clone(),
            mount_path: self.mount_path.clone(),
            read_only: self.read_only,
            region: self.region.clone(),
            endpoint: self.endpoint.clone(),
        }
    }
}

/// A mount is read-only unless it says otherwise.
pub fn default_true() -> (r: bool)
    ensures
        r,
{
    true
}

/// An inline file written into the workspace at boot, for the session only.
#[derive(Debug)]
pub struct EphemeralFile {
    pub path: String,
    pub content: String,
    /// "utf8" (default) or "base64".
    pub encoding: Option<String>,
}

/// Org-scoped block storage that outlives any one sandbox. Attached to at most
/// one sandbox at a time.
#[derive(Debug)]
pub struct Volume {
    pub id: String,
    pub org_id: String,
    pub name: String,
    pub size_gb: u32,
    /// The sandbox it is attached to, if any.
    pub attached_to: Option<String>,
    pub created_at: Nanos,
    pub updated_at: Nanos,
}

#[derive(Debug)]
pub struct CreateVolumeRequest {
    pub name: String,
    pub size_gb: u32,
}

/// One volume attachment requested at create time.
#[derive(Debug)]
pub struct VolumeAttachRequest {
    pub volume_id: String,
    /// Absolute guest path to mount the volume at.
    pub mount_path: String,
}

/// A resolved volume attachment.
#[derive(Debug)]
pub struct VolumeAttach {
    pub volume_id: String,
    pub mount_path: String,
}

impl Clone for VolumeAttach {
    fn clone(&self) -> (r: Self)
        ensures
            r == *self,
    {
        VolumeAttach { volume_id: self.volume_id.clone(), mount_path: self.mount_path.clone() }
    }
}

/// A request for a sandbox.
#[derive(Debug)]
pub struct CreateSandboxRequest {
    pub resources: Option<ResourcesRequest>,
    pub image: Option<String>,
    pub browser: Option<BrowserConfig>,
    /// The startup recipe as it was read: no recipe and the recipe "none" are the
    /// same, and of one that could not be read there is the reader's message.
    pub startup: Result<Option<StartupRecipe>, String>,
    pub auto_stop_seconds: Option<u32>,
    /// Keep the writable disk across stop and resume.
    pub snapshot: Option<bool>,
    /// Pin a specific published custom image version.
    pub image_version: Option<String>,
    pub docker: Option<DockerConfig>,
    pub coding_agent: Option<CodingAgentConfig>,
    pub mounts: Vec<MountSpec>,
    pub files: Vec<EphemeralFile>,
    pub volumes: Vec<VolumeAttachRequest>,
}

impl Default for CreateSandboxRequest {
    /// A request that asks for nothing in particular.
    fn default() -> (r: Self)
        ensures
            r.resources is None && r.image is None && r.browser is None,
            r.startup == Ok::<Option<StartupRecipe>, String>(None),
            r.auto_stop_seconds is None && r.snapshot is None && r.image_version is None,
            r.docker is None && r.coding_agent is None,
            r.mounts@.len() == 0 && r.files@.len() == 0 && r.volumes@.len() == 0,
    {
        CreateSandboxRequest {
            resources: None,
            image: None,
            browser: None,
            startup: Ok(None),
            auto_stop_seconds: None,
            snapshot: None,
            image_version: None,
            docker: None,
            coding_agent: None,
            mounts: Vec::new(),
            files: Vec::new(),
            volumes: Vec::new(),
        }
    }
}

// ---------------------------------------------------------------------------
// Persisted sandbox record
// ---------------------------------------------------------------------------

#[derive(Debug)]
pub struct Sandbox {
    pub id: String,
    pub org_id: String,
    pub state: State,
    pub node_id: Option<String>,
    pub image: String,
    pub resources: Resources,
    pub auto_stop_seconds: u32,
    pub snapshot_enabled: bool,
    pub browser: Option<BrowserConfig>,
    pub startup: Option<StartupRecipe>,
    pub boot_path: BootPath,
    pub timings: Timings,
    /// Names (not values) of the secrets injected into this sandbox.
    pub secret_names: Vec<String>,
    pub docker: bool,
    /// The coding agent installed in the guest, if any.
    pub coding_agent: Option<String>,
    pub mounts: Vec<MountSpec>,
    pub volumes: Vec<VolumeAttach>,
    /// Network policy enforced by the host runtime.
    pub network: NetworkPolicy,
    /// Preview ports exposed through the proxy.
    pub ports: Vec<u16>,
    /// Opaque handle by which the runtime finds this VM.
    pub runtime_handle: Option<String>,
    pub error: Option<String>,
    pub created_at: Nanos,
    pub updated_at: Nanos,
    /// Last observed activity; drives the idle detector.
    pub last_active_at: Nanos,
}

impl Sandbox {
    /// A browser runs in the sandbox.
    pub open spec fn has_browser(self) -> bool {
        match self.browser {
            Some(b) => b.enabled,
            None => false,
        }
    }

    /// Are the VNC and CDP previews applicable?
    pub fn browser_enabled(&self) -> (r: bool)
        ensures
            r == self.has_browser(),
    {
        match &self.browser {
            Some(b) => b.enabled,
            None => false,
        }
    }
}

} // verus!
