//! Host-enforced sandbox egress policy.
//!
//! Guests can run arbitrary code as root, so the enforcement point is the host's
//! tap and bridge. This module renders the nftables script of a policy, keeps
//! the register of domain rules, and decides what the DNS proxy answers. Running
//! `nft` and moving packets is left to the caller.

use crate::dns::{
    answer_addresses, bytes_view, dns_error_response, error_answer, parse_a_records, parse_question,
    question, DnsQuestion, RCODE_FAILED, RCODE_NO_NAME, RCODE_REFUSED,
};
use crate::model::{
    domain_matches, fault_of, has_domain_rule, mode_rules, name_matches, policy_fault, rule_views,
    EgressMode, NetworkPolicy, NetworkProtocol, NetworkRule, NetworkRuleKind, PolicyView, RuleView,
};
use crate::netaddr::{address, cidr, parse_ipv4, parse_ipv4_cidr, Ipv4};
use crate::numeral::{decimal, to_decimal};
use crate::text::{
    ascii_alnum, between, chars_of, concat2, concat3, contains_text, has_prefix, is_alnum, join,
    joined, line_list, lines, position, same, second_piece, starts_with, strings, strip_prefix,
    trim, trimmed, views, word_list, words,
};
use vstd::prelude::*;
use vstd::string::*;

verus! {

/// Where guests reach the DNS proxy.
pub const DNS_PROXY_IP: &'static str = "10.200.0.1";

// ---------------------------------------------------------------------------
// Names
// ---------------------------------------------------------------------------

/// A character that an nftables identifier may hold; an underscore for others.
pub open spec fn safe_char(c: char) -> char {
    if is_alnum(c) || c == '_' {
        c
    } else {
        '_'
    }
}

/// A sandbox id as part of an nftables identifier.
pub open spec fn safe_name(id: Seq<char>) -> Seq<char> {
    Seq::new(id.len(), |i: int| safe_char(id[i]))
}

/// The chain of a sandbox.
pub open spec fn chain_of(safe: Seq<char>) -> Seq<char> {
    "wd_"@ + safe
}

/// The address set of the domain rule at `idx`.
pub open spec fn set_of(safe: Seq<char>, idx: int) -> Seq<char> {
    "wd_"@ + safe + "_d"@ + decimal(idx as nat)
}

/// A chain name without its leading `wd_`, however often it stands there.
pub open spec fn bare(s: Seq<char>) -> Seq<char>
    decreases s.len(),
{
    if has_prefix(s, "wd_"@) && s.len() >= 3 {
        bare(s.subrange(3, s.len() as int))
    } else {
        s
    }
}

fn nft_name(id: &str) -> (r: String)
    ensures
        r@ == safe_name(id@),
{
    let v = chars_of(id);
    let mut out = String::new();
    let mut i: usize = 0;
    while i < v.len()
        invariant
            i <= v@.len(),
            v@ == id@,
            out@ == safe_name(id@).subrange(0, i as int),
        decreases v@.len() - i,
    {
        let c = v[i];
        out.push(if ascii_alnum(c) || c == '_' { c } else { '_' });
        i = i + 1;
        assert(safe_name(id@).subrange(0, i as int) =~= safe_name(id@).subrange(0, i - 1).push(
            safe_name(id@)[i - 1],
        ));
    }
    assert(safe_name(id@).subrange(0, i as int) =~= safe_name(id@));
    out
}

fn chain_name(safe: &str) -> (r: String)
    ensures
        r@ == chain_of(safe@),
{
    concat2("wd_", safe)
}

fn domain_set_name(safe: &str, idx: usize) -> (r: String)
    ensures
        r@ == set_of(safe@, idx as int),
{
    let mut s = concat3("wd_", safe, "_d");
    s.append(to_decimal(idx as u64).as_str());
    s
}

fn trim_wd(s: &str) -> (r: String)
    ensures
        r@ == bare(s@),
{
    let mut cur = String::from_str(s);
    proof {
        reveal_strlit("wd_");
    }
    loop
        invariant
            bare(cur@) == bare(s@),
            "wd_"@.len() == 3,
        ensures
            cur@ == bare(s@),
        decreases cur@.len(),
    {
        match strip_prefix(cur.as_str(), "wd_") {
            Some(rest) => {
                cur = rest;
            },
            None => {
                break;
            },
        }
    }
    cur
}

// ---------------------------------------------------------------------------
// The script
// ---------------------------------------------------------------------------

/// The line that adds a rule to a chain.
pub open spec fn rule_line(chain: Seq<char>, body: Seq<char>) -> Seq<char> {
    "add rule inet sandboxd "@ + chain + " "@ + body
}

/// The name of a transport protocol.
pub open spec fn protocol_text(p: NetworkProtocol) -> Seq<char> {
    match p {
        NetworkProtocol::Tcp => "tcp"@,
        NetworkProtocol::Udp => "udp"@,
    }
}

/// The numerals of the ports.
pub open spec fn port_texts(ports: Seq<u16>) -> Seq<Seq<char>> {
    Seq::new(ports.len(), |i: int| decimal(ports[i] as nat))
}

/// One port as it is, any other number of them as a set.
pub open spec fn ports_text(ports: Seq<u16>) -> Seq<char> {
    if ports.len() == 1 {
        decimal(ports[0] as nat)
    } else {
        "{ "@ + joined(port_texts(ports), ", "@) + " }"@
    }
}

/// What the rule at `idx` matches: the address range itself, or the set of
/// addresses that its domain has resolved to.
pub open spec fn destination(chain: Seq<char>, idx: int, rule: RuleView) -> Seq<char> {
    match rule.kind {
        NetworkRuleKind::Cidr => rule.value,
        NetworkRuleKind::Domain => "@"@ + set_of(bare(chain), idx),
    }
}

/// The bodies of the nftables rules for one policy rule.
pub open spec fn rule_bodies(
    dest: Seq<char>,
    protocol: Option<NetworkProtocol>,
    ports: Seq<u16>,
    verdict: Seq<char>,
) -> Seq<Seq<char>> {
    let to = "ip daddr "@ + dest;
    if ports.len() == 0 {
        match protocol {
            None => seq![to + " "@ + verdict],
            Some(p) => seq![to + " meta l4proto "@ + protocol_text(p) + " "@ + verdict],
        }
    } else {
        match protocol {
            Some(p) => seq![
                to + " "@ + protocol_text(p) + " dport "@ + ports_text(ports) + " "@ + verdict,
            ],
            None => seq![
                to + " tcp dport "@ + ports_text(ports) + " "@ + verdict,
                to + " udp dport "@ + ports_text(ports) + " "@ + verdict,
            ],
        }
    }
}

/// Lines that add the given bodies to a chain.
pub open spec fn rule_lines(chain: Seq<char>, bodies: Seq<Seq<char>>) -> Seq<Seq<char>> {
    Seq::new(bodies.len(), |i: int| rule_line(chain, bodies[i]))
}

/// The lines of the first `n` policy rules.
pub open spec fn policy_lines(
    chain: Seq<char>,
    rules: Seq<RuleView>,
    n: int,
    verdict: Seq<char>,
) -> Seq<Seq<char>>
    decreases n,
{
    if n <= 0 {
        Seq::<Seq<char>>::empty()
    } else {
        let r = rules[n - 1];
        policy_lines(chain, rules, n - 1, verdict) + rule_lines(
            chain,
            rule_bodies(destination(chain, n - 1, r), r.protocol, r.ports, verdict),
        )
    }
}

/// The line that declares a set of addresses with timeouts.
pub open spec fn set_line(name: Seq<char>) -> Seq<char> {
    "add set inet sandboxd "@ + name + " { type ipv4_addr; flags timeout; }"@
}

/// The lines that declare the sets of the domain rules among the first `n`.
pub open spec fn set_lines(safe: Seq<char>, rules: Seq<RuleView>, n: int) -> Seq<Seq<char>>
    decreases n,
{
    if n <= 0 {
        Seq::<Seq<char>>::empty()
    } else if rules[n - 1].kind == NetworkRuleKind::Domain {
        set_lines(safe, rules, n - 1).push(set_line(set_of(safe, n - 1)))
    } else {
        set_lines(safe, rules, n - 1)
    }
}

/// The line that sends a guest's packets through its chain.
pub open spec fn jump_line(id: Seq<char>, ip: Ipv4, chain: Seq<char>) -> Seq<char> {
    "add rule inet sandboxd sandbox_policy ip saddr "@ + ip.text() + " jump "@ + chain
        + " comment \"workdir:"@ + id + "\""@
}

/// A policy with domain rules lets guests ask the proxy, and nobody else, for
/// names.
pub open spec fn dns_bodies(p: PolicyView) -> Seq<Seq<char>> {
    if has_domain_rule(p.allow) || has_domain_rule(p.deny) {
        seq![
            "ip daddr "@ + DNS_PROXY_IP@ + " udp dport 53 accept"@,
            "ip daddr "@ + DNS_PROXY_IP@ + " tcp dport 53 accept"@,
            "udp dport 53 drop"@,
            "tcp dport 53 drop"@,
        ]
    } else {
        Seq::<Seq<char>>::empty()
    }
}

/// What a mode does with the packets that its rules match.
pub open spec fn mode_verdict(mode: EgressMode) -> Seq<char> {
    match mode {
        EgressMode::Denylist => "drop"@,
        _ => "accept"@,
    }
}

/// What the chain itself holds.
pub open spec fn chain_lines(chain: Seq<char>, p: PolicyView) -> Seq<Seq<char>> {
    let rules = mode_rules(p);
    let body = rule_lines(chain, dns_bodies(p)) + policy_lines(
        chain,
        rules,
        rules.len() as int,
        mode_verdict(p.egress),
    );
    match p.egress {
        EgressMode::Default => Seq::<Seq<char>>::empty(),
        EgressMode::Closed => seq![rule_line(chain, "drop"@)],
        EgressMode::Allowlist => body.push(rule_line(chain, "drop"@)),
        EgressMode::Denylist => body.push(rule_line(chain, "accept"@)),
    }
}

/// The lines of the script for a policy.
pub open spec fn script_lines(id: Seq<char>, ip: Ipv4, p: PolicyView) -> Seq<Seq<char>> {
    let safe = safe_name(id);
    let chain = chain_of(safe);
    let rules = mode_rules(p);
    seq!["add chain inet sandboxd "@ + chain] + set_lines(safe, rules, rules.len() as int) + seq![
        jump_line(id, ip, chain),
    ] + chain_lines(chain, p)
}

/// The first address range among the rules from `i` on that cannot be read.
pub open spec fn bad_range(rules: Seq<RuleView>, i: int) -> Option<Seq<char>>
    decreases rules.len() - i,
{
    if i < 0 || i >= rules.len() {
        None
    } else if rules[i].kind == NetworkRuleKind::Cidr && cidr(rules[i].value) is None {
        Some("invalid CIDR "@ + rules[i].value)
    } else {
        bad_range(rules, i + 1)
    }
}

/// The script for a policy, or the fault of the first range that cannot be read.
pub open spec fn script(id: Seq<char>, ip: Ipv4, p: PolicyView) -> Result<Seq<char>, Seq<char>> {
    match bad_range(mode_rules(p), 0) {
        Some(fault) => Err(fault),
        None => Ok(joined(script_lines(id, ip, p), "\n"@) + "\n"@),
    }
}

/// The views of a textual result.
pub open spec fn text_result(r: Result<String, String>) -> Result<Seq<char>, Seq<char>> {
    match r {
        Ok(s) => Ok(s@),
        Err(e) => Err(e@),
    }
}

fn protocol_name(proto: NetworkProtocol) -> (r: &'static str)
    ensures
        r@ == protocol_text(proto),
{
    match proto {
        NetworkProtocol::Tcp => "tcp",
        NetworkProtocol::Udp => "udp",
    }
}

fn ports_expr(ports: &Vec<u16>) -> (r: String)
    ensures
        r@ == ports_text(ports@),
{
    if ports.len() == 1 {
        return to_decimal(ports[0] as u64);
    }
    let mut texts: Vec<String> = Vec::new();
    let mut i: usize = 0;
    while i < ports.len()
        invariant
            i <= ports@.len(),
            views(texts@) == port_texts(ports@).subrange(0, i as int),
        decreases ports@.len() - i,
    {
        let ghost before = texts@;
        let t = to_decimal(ports[i] as u64);
        texts.push(t);
        assert(views(texts@) =~= views(before).push(t@));
        i = i + 1;
        assert(port_texts(ports@).subrange(0, i as int) =~= port_texts(ports@).subrange(
            0,
            i - 1,
        ).push(port_texts(ports@)[i - 1]));
    }
    assert(port_texts(ports@).subrange(0, i as int) =~= port_texts(ports@));
    concat3("{ ", join(&texts, ", ").as_str(), " }")
}

fn push_line(lines: &mut Vec<String>, line: String)
    ensures
        views(final(lines)@) == views(old(lines)@).push(line@),
{
    lines.push(line);
    assert(views(lines@) =~= views(old(lines)@).push(line@));
}

fn push_rule(lines: &mut Vec<String>, chain: &str, body: &str)
    ensures
        views(final(lines)@) == views(old(lines)@).push(rule_line(chain@, body@)),
{
    let mut s = concat3("add rule inet sandboxd ", chain, " ");
    s.append(body);
    push_line(lines, s);
}

fn add_dns_control_rules(lines: &mut Vec<String>, chain: &str, policy: &NetworkPolicy)
    ensures
        views(final(lines)@) == views(old(lines)@) + rule_lines(chain@, dns_bodies(policy@)),
{
    let ghost start = views(lines@);
    if !policy.uses_domain_rules() {
        assert(views(lines@) =~= start + rule_lines(chain@, dns_bodies(policy@)));
        return;
    }
    let to = concat2("ip daddr ", DNS_PROXY_IP);
    push_rule(lines, chain, concat2(to.as_str(), " udp dport 53 accept").as_str());
    push_rule(lines, chain, concat2(to.as_str(), " tcp dport 53 accept").as_str());
    push_rule(lines, chain, "udp dport 53 drop");
    push_rule(lines, chain, "tcp dport 53 drop");
    assert(views(lines@) =~= start + rule_lines(chain@, dns_bodies(policy@)));
}

fn add_rule_lines(
    lines: &mut Vec<String>,
    chain: &str,
    idx: usize,
    rule: &NetworkRule,
    verdict: &str,
) -> (r: Result<(), String>)
    ensures
        fault_of(r) == (if rule@.kind == NetworkRuleKind::Cidr && cidr(rule@.value) is None {
            Some("invalid CIDR "@ + rule@.value)
        } else {
            None
        }),
        r is Ok ==> views(final(lines)@) == views(old(lines)@) + rule_lines(
            chain@,
            rule_bodies(
                destination(chain@, idx as int, rule@),
                rule@.protocol,
                rule@.ports,
                verdict@,
            ),
        ),
        r is Err ==> views(final(lines)@) == views(old(lines)@),
{
    let ghost start = views(lines@);
    let safe = trim_wd(chain);
    let dest: String = match rule.kind {
        NetworkRuleKind::Cidr => {
            if parse_ipv4_cidr(rule.value.as_str()).is_none() {
                return Err(concat2("invalid CIDR ", rule.value.as_str()));
            }
            rule.value.clone()
        },
        NetworkRuleKind::Domain => concat2("@", domain_set_name(safe.as_str(), idx).as_str()),
    };
    let ghost bodies = rule_bodies(dest@, rule@.protocol, rule@.ports, verdict@);
    let to = concat2("ip daddr ", dest.as_str());
    if rule.ports.len() == 0 {
        match rule.protocol {
            None => {
                push_rule(lines, chain, concat3(to.as_str(), " ", verdict).as_str());
            },
            Some(proto) => {
                let mut body = concat3(to.as_str(), " meta l4proto ", protocol_name(proto));
                body.append(" ");
                body.append(verdict);
                push_rule(lines, chain, body.as_str());
            },
        }
    } else {
        let ports = ports_expr(&rule.ports);
        match rule.protocol {
            Some(proto) => {
                let mut body = concat3(to.as_str(), " ", protocol_name(proto));
                body.append(" dport ");
                body.append(ports.as_str());
                body.append(" ");
                body.append(verdict);
                push_rule(lines, chain, body.as_str());
            },
            None => {
                let mut tcp = concat3(to.as_str(), " tcp dport ", ports.as_str());
                tcp.append(" ");
                tcp.append(verdict);
                push_rule(lines, chain, tcp.as_str());
                let mut udp = concat3(to.as_str(), " udp dport ", ports.as_str());
                udp.append(" ");
                udp.append(verdict);
                push_rule(lines, chain, udp.as_str());
            },
        }
    }
    assert(views(lines@) =~= start + rule_lines(chain@, bodies));
    Ok(())
}

fn add_policy_lines(
    lines: &mut Vec<String>,
    chain: &str,
    rules: &[NetworkRule],
    verdict: &str,
) -> (r: Result<(), String>)
    ensures
        fault_of(r) == bad_range(rule_views(rules@), 0),
        r is Ok ==> views(final(lines)@) == views(old(lines)@) + policy_lines(
            chain@,
            rule_views(rules@),
            rules@.len() as int,
            verdict@,
        ),
{
    let ghost start = views(lines@);
    let ghost v = rule_views(rules@);
    let n: usize = rules.len();
    let mut i: usize = 0;
    assert(views(lines@) =~= start + policy_lines(chain@, v, 0, verdict@));
    while i < n
        invariant
            i <= n == rules@.len(),
            v == rule_views(rules@),
            bad_range(v, 0) == bad_range(v, i as int),
            views(lines@) == start + policy_lines(chain@, v, i as int, verdict@),
        decreases n - i,
    {
        let ghost now = views(lines@);
        assert(v[i as int] == rules@[i as int]@);
        let r = add_rule_lines(lines, chain, i, &rules[i], verdict);
        if r.is_err() {
            return r;
        }
        i = i + 1;
        assert(views(lines@) =~= start + policy_lines(chain@, v, i as int, verdict@));
    }
    Ok(())
}

/// The nftables script that puts a policy into force for a guest address.
pub fn render_policy_script(sandbox_id: &str, source_ip: Ipv4, policy: &NetworkPolicy) -> (r: Result<
    String,
    String,
>)
    ensures
        text_result(r) == script(sandbox_id@, source_ip, policy@),
{
    let safe = nft_name(sandbox_id);
    let chain = chain_name(safe.as_str());
    let rules = policy.rules_for_mode();
    let ghost v = mode_rules(policy@);
    let mut out: Vec<String> = Vec::new();
    push_line(&mut out, concat2("add chain inet sandboxd ", chain.as_str()));
    let ghost first = seq!["add chain inet sandboxd "@ + chain@];
    assert(views(out@) =~= first + set_lines(safe@, v, 0));
    let mut i: usize = 0;
    while i < rules.len()
        invariant
            i <= rules@.len(),
            v == rule_views(rules@),
            views(out@) == first + set_lines(safe@, v, i as int),
        decreases rules@.len() - i,
    {
        assert(v[i as int] == rules@[i as int]@);
        if rules[i].is_domain() {
            push_line(
                &mut out,
                concat3(
                    "add set inet sandboxd ",
                    domain_set_name(safe.as_str(), i).as_str(),
                    " { type ipv4_addr; flags timeout; }",
                ),
            );
        }
        i = i + 1;
        assert(views(out@) =~= first + set_lines(safe@, v, i as int));
    }
    let mut jump = concat3(
        "add rule inet sandboxd sandbox_policy ip saddr ",
        source_ip.show().as_str(),
        " jump ",
    );
    jump.append(chain.as_str());
    jump.append(" comment \"workdir:");
    jump.append(sandbox_id);
    jump.append("\"");
    push_line(&mut out, jump);
    let ghost head = views(out@);
    assert(head =~= first + set_lines(safe@, v, v.len() as int) + seq![
        jump_line(sandbox_id@, source_ip, chain@),
    ]);
    match policy.egress {
        EgressMode::Default => {},
        EgressMode::Closed => {
            push_rule(&mut out, chain.as_str(), "drop");
        },
        EgressMode::Allowlist => {
            add_dns_control_rules(&mut out, chain.as_str(), policy);
            let done = add_policy_lines(&mut out, chain.as_str(), rules, "accept");
            if let Err(e) = done {
                return Err(e);
            }
            push_rule(&mut out, chain.as_str(), "drop");
        },
        EgressMode::Denylist => {
            add_dns_control_rules(&mut out, chain.as_str(), policy);
            let done = add_policy_lines(&mut out, chain.as_str(), rules, "drop");
            if let Err(e) = done {
                return Err(e);
            }
            push_rule(&mut out, chain.as_str(), "accept");
        },
    }
    assert(views(out@) =~= script_lines(sandbox_id@, source_ip, policy@));
    Ok(concat2(join(&out, "\n").as_str(), "\n"))
}

// ---------------------------------------------------------------------------
// The register of domain rules
// ---------------------------------------------------------------------------

#[derive(Debug, Clone, Copy, PartialEq, Eq, Structural)]
pub enum DomainMode {
    Allow,
    Deny,
}

/// A domain rule of a running sandbox.
#[derive(Debug)]
pub struct DomainRegistration {
    pub sandbox_id: String,
    pub source_ip: Ipv4,
    pub pattern: String,
    pub set_name: String,
    pub mode: DomainMode,
}

/// A registration by the views of its parts.
pub struct RegistrationView {
    pub sandbox_id: Seq<char>,
    pub source_ip: Ipv4,
    pub pattern: Seq<char>,
    pub set_name: Seq<char>,
    pub mode: DomainMode,
}

impl View for DomainRegistration {
    type V = RegistrationView;

    open spec fn view(&self) -> RegistrationView {
        RegistrationView {
            sandbox_id: self.sandbox_id@,
            source_ip: self.source_ip,
            pattern: self.pattern@,
            set_name: self.set_name@,
            mode: self.mode,
        }
    }
}

/// The domain rules of all running sandboxes, in the order they were registered.
#[derive(Debug)]
pub struct DomainRegistry {
    regs: Vec<DomainRegistration>,
}

/// The views of registrations.
pub open spec fn reg_views(v: Seq<DomainRegistration>) -> Seq<RegistrationView> {
    Seq::new(v.len(), |i: int| v[i]@)
}

impl View for DomainRegistry {
    type V = Seq<RegistrationView>;

    closed spec fn view(&self) -> Seq<RegistrationView> {
        reg_views(self.regs@)
    }
}

/// The registrations of the other sandboxes.
pub open spec fn without_sandbox(regs: Seq<RegistrationView>, id: Seq<char>) -> Seq<RegistrationView>
    decreases regs.len(),
{
    if regs.len() == 0 {
        regs
    } else if regs.last().sandbox_id == id {
        without_sandbox(regs.drop_last(), id)
    } else {
        without_sandbox(regs.drop_last(), id).push(regs.last())
    }
}

/// What a mode's domain rules are registered as.
pub open spec fn domain_mode(mode: EgressMode) -> Option<DomainMode> {
    match mode {
        EgressMode::Allowlist => Some(DomainMode::Allow),
        EgressMode::Denylist => Some(DomainMode::Deny),
        _ => None,
    }
}

/// The registrations of the domain rules among the first `n`.
pub open spec fn new_registrations(
    id: Seq<char>,
    ip: Ipv4,
    mode: DomainMode,
    rules: Seq<RuleView>,
    n: int,
) -> Seq<RegistrationView>
    decreases n,
{
    if n <= 0 {
        Seq::<RegistrationView>::empty()
    } else if rules[n - 1].kind == NetworkRuleKind::Domain {
        new_registrations(id, ip, mode, rules, n - 1).push(
            RegistrationView {
                sandbox_id: id,
                source_ip: ip,
                pattern: rules[n - 1].value,
                set_name: set_of(safe_name(id), n - 1),
                mode,
            },
        )
    } else {
        new_registrations(id, ip, mode, rules, n - 1)
    }
}

/// The register once a sandbox's policy is in force.
pub open spec fn registered(
    regs: Seq<RegistrationView>,
    id: Seq<char>,
    ip: Ipv4,
    p: PolicyView,
) -> Seq<RegistrationView> {
    match domain_mode(p.egress) {
        Some(mode) if has_domain_rule(p.allow) || has_domain_rule(p.deny) => without_sandbox(
            regs,
            id,
        ) + new_registrations(id, ip, mode, mode_rules(p), mode_rules(p).len() as int),
        _ => regs,
    }
}

/// The registration is about this guest and this name.
pub open spec fn concerns(r: RegistrationView, ip: Ipv4, name: Seq<char>) -> bool {
    r.source_ip == ip && name_matches(r.pattern, name)
}

/// The address sets of the registrations about a guest and a name.
pub open spec fn concerned_sets(
    regs: Seq<RegistrationView>,
    ip: Ipv4,
    name: Seq<char>,
) -> Seq<Seq<char>>
    decreases regs.len(),
{
    if regs.len() == 0 {
        Seq::<Seq<char>>::empty()
    } else if concerns(regs.last(), ip, name) {
        concerned_sets(regs.drop_last(), ip, name).push(regs.last().set_name)
    } else {
        concerned_sets(regs.drop_last(), ip, name)
    }
}

/// Some registration denies this name to this guest.
pub open spec fn denied(regs: Seq<RegistrationView>, ip: Ipv4, name: Seq<char>) -> bool {
    exists|i: int|
        0 <= i < regs.len() && concerns(#[trigger] regs[i], ip, name) && regs[i].mode
            == DomainMode::Deny
}

/// The guest has an allowlist with domains in it.
pub open spec fn allowlisted(regs: Seq<RegistrationView>, ip: Ipv4) -> bool {
    exists|i: int|
        0 <= i < regs.len() && (#[trigger] regs[i]).source_ip == ip && regs[i].mode
            == DomainMode::Allow
}

proof fn lemma_reg_views_push(v: Seq<DomainRegistration>, r: DomainRegistration)
    ensures
        reg_views(v.push(r)) == reg_views(v).push(r@),
{
    assert(reg_views(v.push(r)) =~= reg_views(v).push(r@));
}

impl DomainRegistry {
    pub fn new() -> (r: DomainRegistry)
        ensures
            r@ == Seq::<RegistrationView>::empty(),
    {
        let r = DomainRegistry { regs: Vec::new() };
        assert(r@ =~= Seq::<RegistrationView>::empty());
        r
    }

    /// Forget the domain rules of a sandbox.
    pub fn unregister_domain_rules(&mut self, sandbox_id: &str)
        ensures
            final(self)@ == without_sandbox(old(self)@, sandbox_id@),
    {
        let mut old_regs: Vec<DomainRegistration> = Vec::new();
        std::mem::swap(&mut old_regs, &mut self.regs);
        let ghost v = reg_views(old_regs@);
        let mut kept: Vec<DomainRegistration> = Vec::new();
        let mut i: usize = 0;
        let n: usize = old_regs.len();
        assert(v.subrange(0, 0) =~= Seq::<RegistrationView>::empty());
        while i < n
            invariant
                i <= n == old_regs@.len(),
                v == reg_views(old_regs@),
                reg_views(kept@) == without_sandbox(v.subrange(0, i as int), sandbox_id@),
            decreases n - i,
        {
            let r = &old_regs[i];
            assert(v.subrange(0, i + 1).drop_last() =~= v.subrange(0, i as int));
            assert(v.subrange(0, i + 1).last() == r@);
            if !same(r.sandbox_id.as_str(), sandbox_id) {
                let c = DomainRegistration {
                    sandbox_id: r.sandbox_id.clone(),
                    source_ip: r.source_ip,
                    pattern: r.pattern.clone(),
                    set_name: r.set_name.clone(),
                    mode: r.mode,
                };
                proof {
                    lemma_reg_views_push(kept@, c);
                }
                kept.push(c);
            }
            i = i + 1;
        }
        assert(v.subrange(0, i as int) =~= v);
        self.regs = kept;
    }

    /// Record the domain rules of a sandbox's policy in place of those it had.
    pub fn register_domain_rules(
        &mut self,
        sandbox_id: &str,
        source_ip: Ipv4,
        policy: &NetworkPolicy,
    )
        ensures
            final(self)@ == registered(old(self)@, sandbox_id@, source_ip, policy@),
    {
        if !policy.uses_domain_rules() {
            return;
        }
        let mode = match policy.egress {
            EgressMode::Allowlist => DomainMode::Allow,
            EgressMode::Denylist => DomainMode::Deny,
            EgressMode::Default | EgressMode::Closed => {
                return;
            },
        };
        let safe = nft_name(sandbox_id);
        self.unregister_domain_rules(sandbox_id);
        let ghost base = self@;
        let rules = policy.rules_for_mode();
        let ghost v = mode_rules(policy@);
        let mut i: usize = 0;
        assert(self@ =~= base + new_registrations(sandbox_id@, source_ip, mode, v, 0));
        while i < rules.len()
            invariant
                i <= rules@.len(),
                v == rule_views(rules@),
                safe@ == safe_name(sandbox_id@),
                self@ == base + new_registrations(sandbox_id@, source_ip, mode, v, i as int),
            decreases rules@.len() - i,
        {
            let ghost before = self@;
            assert(v[i as int] == rules@[i as int]@);
            if rules[i].is_domain() {
                let r = DomainRegistration {
                    sandbox_id: String::from_str(sandbox_id),
                    source_ip,
                    pattern: rules[i].value.clone(),
                    set_name: domain_set_name(safe.as_str(), i),
                    mode,
                };
                proof {
                    lemma_reg_views_push(self.regs@, r);
                }
                self.regs.push(r);
                assert(self@ == before.push(r@));
            }
            i = i + 1;
            assert(self@ =~= base + new_registrations(sandbox_id@, source_ip, mode, v, i as int));
        }
    }

    /// Has the guest an allowlist with domains in it?
    pub fn has_allowlist_policy(&self, source_ip: Ipv4) -> (r: bool)
        ensures
            r == allowlisted(self@, source_ip),
    {
        let mut i: usize = 0;
        while i < self.regs.len()
            invariant
                i <= self.regs@.len(),
                forall|k: int|
                    0 <= k < i ==> (#[trigger] self@[k]).source_ip != source_ip || self@[k].mode
                        != DomainMode::Allow,
            decreases self.regs@.len() - i,
        {
            let r = &self.regs[i];
            assert(self@[i as int] == r@);
            if r.source_ip == source_ip && r.mode == DomainMode::Allow {
                return true;
            }
            i = i + 1;
        }
        false
    }

    /// The address sets that a name goes to for a guest, and whether a rule
    /// denies it.
    fn concerned(&self, source_ip: Ipv4, name: &str) -> (r: (Vec<String>, bool))
        ensures
            views(r.0@) == concerned_sets(self@, source_ip, name@),
            r.1 == denied(self@, source_ip, name@),
    {
        let ghost v = self@;
        let mut sets: Vec<String> = Vec::new();
        let mut deny = false;
        let mut i: usize = 0;
        assert(v.subrange(0, 0) =~= Seq::<RegistrationView>::empty());
        while i < self.regs.len()
            invariant
                i <= self.regs@.len(),
                v == reg_views(self.regs@),
                views(sets@) == concerned_sets(v.subrange(0, i as int), source_ip, name@),
                deny <==> exists|k: int|
                    0 <= k < i && concerns(#[trigger] v[k], source_ip, name@) && v[k].mode
                        == DomainMode::Deny,
            decreases self.regs@.len() - i,
        {
            let r = &self.regs[i];
            assert(v[i as int] == r@);
            assert(v.subrange(0, i + 1).drop_last() =~= v.subrange(0, i as int));
            if r.source_ip == source_ip && domain_matches(r.pattern.as_str(), name) {
                assert(concerns(v[i as int], source_ip, name@));
                push_line(&mut sets, r.set_name.clone());
                if r.mode == DomainMode::Deny {
                    deny = true;
                }
            }
            i = i + 1;
        }
        assert(v.subrange(0, i as int) =~= v);
        (sets, deny)
    }
}

// ---------------------------------------------------------------------------
// What the proxy does with a query
// ---------------------------------------------------------------------------

/// What is to be done with a query.
#[derive(Debug)]
pub enum DnsStep {
    /// No answer: the query cannot be read.
    Ignore,
    Reply(Vec<u8>),
    /// Ask the upstream server, then record the addresses in the sets and
    /// withhold the answer if the name is denied.
    Forward { sets: Vec<String>, deny: bool },
}

/// A step by the views of its parts.
pub enum StepView {
    Ignore,
    Reply(Seq<u8>),
    Forward(Seq<Seq<char>>, bool),
}

impl View for DnsStep {
    type V = StepView;

    open spec fn view(&self) -> StepView {
        match self {
            DnsStep::Ignore => StepView::Ignore,
            DnsStep::Reply(b) => StepView::Reply(b@),
            DnsStep::Forward { sets, deny } => StepView::Forward(views(sets@), *deny),
        }
    }
}

/// What is done with a query from `source`, which is nothing where the query
/// came over IPv6.
pub open spec fn dns_step(regs: Seq<RegistrationView>, packet: Seq<u8>, source: Option<Ipv4>) -> StepView {
    match question(packet) {
        None => StepView::Ignore,
        Some((name, _)) => match source {
            None => StepView::Reply(error_answer(packet, RCODE_REFUSED)->0),
            Some(ip) => if concerned_sets(regs, ip, name).len() == 0 && allowlisted(regs, ip) {
                StepView::Reply(error_answer(packet, RCODE_NO_NAME)->0)
            } else {
                StepView::Forward(concerned_sets(regs, ip, name), denied(regs, ip, name))
            },
        },
    }
}

fn reply_with(packet: &[u8], rcode: u8) -> (r: DnsStep)
    requires
        question(packet@) is Some,
    ensures
        r@ == StepView::Reply(error_answer(packet@, rcode)->0),
{
    match dns_error_response(packet, rcode) {
        Some(b) => DnsStep::Reply(b),
        None => DnsStep::Ignore,
    }
}

/// Decide what to do with a query.
pub fn handle_dns_query(registry: &DomainRegistry, packet: &[u8], source: Option<Ipv4>) -> (r: DnsStep)
    ensures
        r@ == dns_step(registry@, packet@, source),
{
    let q: DnsQuestion = match parse_question(packet) {
        None => return DnsStep::Ignore,
        Some(q) => q,
    };
    let ip = match source {
        None => return reply_with(packet, RCODE_REFUSED),
        Some(ip) => ip,
    };
    let (sets, deny) = registry.concerned(ip, q.name.as_str());
    assert(views(sets@).len() == sets@.len());
    if sets.len() == 0 && registry.has_allowlist_policy(ip) {
        return reply_with(packet, RCODE_NO_NAME);
    }
    DnsStep::Forward { sets, deny }
}

/// What is sent back once the upstream server has answered, or has not: bytes,
/// and none for no answer.
pub open spec fn dns_reply(packet: Seq<u8>, deny: bool, upstream: Option<Seq<u8>>) -> Seq<u8> {
    let failed = match error_answer(packet, RCODE_FAILED) {
        Some(b) => b,
        None => Seq::<u8>::empty(),
    };
    match upstream {
        None => failed,
        Some(answer) => if deny {
            match error_answer(packet, RCODE_NO_NAME) {
                Some(b) => b,
                None => failed,
            }
        } else {
            answer
        },
    }
}

/// Each of the sets with each of the addresses.
pub open spec fn set_elements(sets: Seq<Seq<char>>, addrs: Seq<Ipv4>) -> Seq<(Seq<char>, Ipv4)> {
    Seq::new(
        sets.len() * addrs.len(),
        |i: int| (sets[i / addrs.len() as int], addrs[i % addrs.len() as int]),
    )
}

/// The views of set elements.
pub open spec fn element_views(v: Seq<(String, Ipv4)>) -> Seq<(Seq<char>, Ipv4)> {
    Seq::new(v.len(), |i: int| (v[i].0@, v[i].1))
}

/// What to record and what to send back once the upstream server has answered.
pub fn finish_dns_query(packet: &[u8], sets: &Vec<String>, deny: bool, upstream: Option<Vec<u8>>) -> (r: (
    Vec<(String, Ipv4)>,
    Vec<u8>,
))
    ensures
        element_views(r.0@) == (match upstream {
            Some(b) => set_elements(views(sets@), answer_addresses(b@)),
            None => Seq::<(Seq<char>, Ipv4)>::empty(),
        }),
        r.1@ == dns_reply(packet@, deny, bytes_view(upstream)),
{
    let failed: Vec<u8> = match dns_error_response(packet, RCODE_FAILED) {
        Some(b) => b,
        None => Vec::new(),
    };
    assert(question(packet@) is None ==> failed@ =~= Seq::<u8>::empty());
    let mut elements: Vec<(String, Ipv4)> = Vec::new();
    assert(element_views(elements@) =~= Seq::<(Seq<char>, Ipv4)>::empty());
    let answer = match upstream {
        None => return (elements, failed),
        Some(b) => b,
    };
    let addrs = parse_a_records(answer.as_slice());
    let ghost all = set_elements(views(sets@), addrs@);
    let m: usize = addrs.len();
    let mut i: usize = 0;
    proof {
        assert(0 * m == 0) by (nonlinear_arith);
        assert(all.subrange(0, 0) =~= Seq::<(Seq<char>, Ipv4)>::empty());
    }
    while i < sets.len()
        invariant
            i <= sets@.len(),
            m == addrs@.len(),
            all == set_elements(views(sets@), addrs@),
            i * m <= all.len(),
            element_views(elements@) == all.subrange(0, i * m),
        decreases sets@.len() - i,
    {
        let mut j: usize = 0;
        let ghost base = i * m;
        proof {
            assert(base + m <= sets@.len() * m && (i + 1) * m == base + m) by (nonlinear_arith)
                requires
                    base == i * m,
                    i < sets@.len(),
            ;
        }
        while j < m
            invariant
                i < sets@.len(),
                j <= m == addrs@.len(),
                all == set_elements(views(sets@), addrs@),
                base == i * m,
                base + m <= all.len(),
                element_views(elements@) == all.subrange(0, base + j),
            decreases m - j,
        {
            let ghost before = elements@;
            let e = (sets[i].clone(), addrs[j]);
            elements.push(e);
            proof {
                assert((base + j) / (m as int) == i && (base + j) % (m as int) == j)
                    by (nonlinear_arith)
                    requires
                        base == i * m,
                        0 <= j < m,
                ;
                assert(element_views(elements@) =~= element_views(before).push((e.0@, e.1)));
                assert(all.subrange(0, base + j + 1) =~= all.subrange(0, base + j).push(
                    all[base + j],
                ));
            }
            j = j + 1;
        }
        i = i + 1;
    }
    assert(all.subrange(0, i * m) =~= all);
    if deny {
        match dns_error_response(packet, RCODE_NO_NAME) {
            Some(b) => (elements, b),
            None => (elements, failed),
        }
    } else {
        (elements, answer)
    }
}

// ---------------------------------------------------------------------------
// Running nft
// ---------------------------------------------------------------------------

/// The views of argument lists.
pub open spec fn arg_views(v: Seq<Vec<String>>) -> Seq<Seq<Seq<char>>> {
    Seq::new(v.len(), |i: int| views(v[i]@))
}

/// How long an address stays in a set: half a minute to an hour.
pub open spec fn kept_seconds(ttl: u32) -> u32 {
    if ttl < 30 {
        30
    } else if ttl > 3600 {
        3600
    } else {
        ttl
    }
}

/// The arguments with which `nft` adds an address to a set.
pub fn add_nft_domain_element(set_name: &str, ip: Ipv4, ttl_seconds: u32) -> (r: Vec<String>)
    ensures
        views(r@) == seq![
            "add"@,
            "element"@,
            "inet"@,
            "sandboxd"@,
            set_name@,
            "{"@,
            ip.text() + " timeout "@ + decimal(kept_seconds(ttl_seconds) as nat) + "s"@,
            "}"@,
        ],
{
    let ttl: u32 = if ttl_seconds < 30 {
        30
    } else if ttl_seconds > 3600 {
        3600
    } else {
        ttl_seconds
    };
    let mut element = concat3(ip.show().as_str(), " timeout ", to_decimal(ttl as u64).as_str());
    element.append("s");
    let r = strings(
        &["add", "element", "inet", "sandboxd", set_name, "{", element.as_str(), "}"],
    );
    assert(views(r@) =~= seq![
        "add"@,
        "element"@,
        "inet"@,
        "sandboxd"@,
        set_name@,
        "{"@,
        ip.text() + " timeout "@ + decimal(kept_seconds(ttl_seconds) as nat) + "s"@,
        "}"@,
    ]);
    r
}

/// The first word of a text.
pub open spec fn first_word(s: Seq<char>) -> Option<Seq<char>> {
    if word_list(s).len() > 0 {
        Some(word_list(s)[0])
    } else {
        None
    }
}

/// The handle of a listed rule that jumps to the chain of `id`.
pub open spec fn jump_handle(line: Seq<char>, id: Seq<char>) -> Option<Seq<char>> {
    if position(line, "comment \"workdir:"@ + id + "\""@) is None {
        None
    } else {
        match second_piece(line, "# handle "@) {
            None => None,
            Some(s) => first_word(s),
        }
    }
}

/// The arguments with which `nft` deletes a rule of the policy chain.
pub open spec fn delete_jump(handle: Seq<char>) -> Seq<Seq<char>> {
    seq!["delete"@, "rule"@, "inet"@, "sandboxd"@, "sandbox_policy"@, "handle"@, handle]
}

/// The deletions for the first `n` lines of a listing.
pub open spec fn jump_deletions_of(lines: Seq<Seq<char>>, n: int, id: Seq<char>) -> Seq<
    Seq<Seq<char>>,
>
    decreases n,
{
    if n <= 0 {
        Seq::<Seq<Seq<char>>>::empty()
    } else {
        let before = jump_deletions_of(lines, n - 1, id);
        match jump_handle(lines[n - 1], id) {
            Some(h) => before.push(delete_jump(h)),
            None => before,
        }
    }
}

fn push_args(list: &mut Vec<Vec<String>>, one: Vec<String>)
    ensures
        arg_views(final(list)@) == arg_views(old(list)@).push(views(one@)),
{
    list.push(one);
    assert(arg_views(list@) =~= arg_views(old(list)@).push(views(one@)));
}

/// The `nft` calls that delete the jumps into a sandbox's chain, read off a
/// listing of the policy chain with handles.
pub fn delete_policy_jumps(sandbox_id: &str, listing: &str) -> (r: Vec<Vec<String>>)
    ensures
        arg_views(r@) == jump_deletions_of(
            line_list(listing@),
            line_list(listing@).len() as int,
            sandbox_id@,
        ),
{
    let needle = concat3("comment \"workdir:", sandbox_id, "\"");
    let ls = lines(listing);
    let ghost v = line_list(listing@);
    let mut out: Vec<Vec<String>> = Vec::new();
    let mut i: usize = 0;
    assert(arg_views(out@) =~= jump_deletions_of(v, 0, sandbox_id@));
    while i < ls.len()
        invariant
            i <= ls@.len(),
            views(ls@) == v,
            needle@ == "comment \"workdir:"@ + sandbox_id@ + "\""@,
            arg_views(out@) == jump_deletions_of(v, i as int, sandbox_id@),
        decreases ls@.len() - i,
    {
        assert(v[i as int] == ls@[i as int]@);
        let line = ls[i].as_str();
        if contains_text(line, needle.as_str()) {
            if let Some(tail) = between(line, "# handle ") {
                let ws = words(tail.as_str());
                assert(views(ws@).len() == ws@.len());
                if ws.len() > 0 {
                    assert(views(ws@)[0] == ws@[0]@);
                    let one = strings(
                        &[
                            "delete",
                            "rule",
                            "inet",
                            "sandboxd",
                            "sandbox_policy",
                            "handle",
                            ws[0].as_str(),
                        ],
                    );
                    assert(views(one@) =~= delete_jump(ws@[0]@));
                    push_args(&mut out, one);
                }
            }
        }
        i = i + 1;
    }
    out
}

/// The set that a line of a table listing declares, if it belongs to the
/// sandbox with this safe name.
pub open spec fn listed_set(line: Seq<char>, safe: Seq<char>) -> Option<Seq<char>> {
    let l = trimmed(line);
    if has_prefix(l, "set wd_"@ + safe + "_d"@) && word_list(l).len() > 1 {
        Some(word_list(l)[1])
    } else {
        None
    }
}

/// The sets of a sandbox among the first `n` lines.
pub open spec fn listed_sets(lines: Seq<Seq<char>>, n: int, safe: Seq<char>) -> Seq<Seq<char>>
    decreases n,
{
    if n <= 0 {
        Seq::<Seq<char>>::empty()
    } else {
        let before = listed_sets(lines, n - 1, safe);
        match listed_set(lines[n - 1], safe) {
            Some(s) => before.push(s),
            None => before,
        }
    }
}

/// The address sets of a sandbox, read off a listing of the table.
pub fn list_domain_sets(safe: &str, listing: &str) -> (r: Vec<String>)
    ensures
        views(r@) == listed_sets(line_list(listing@), line_list(listing@).len() as int, safe@),
{
    let prefix = concat3("set wd_", safe, "_d");
    let ls = lines(listing);
    let ghost v = line_list(listing@);
    let mut out: Vec<String> = Vec::new();
    let mut i: usize = 0;
    assert(views(out@) =~= listed_sets(v, 0, safe@));
    while i < ls.len()
        invariant
            i <= ls@.len(),
            views(ls@) == v,
            prefix@ == "set wd_"@ + safe@ + "_d"@,
            views(out@) == listed_sets(v, i as int, safe@),
        decreases ls@.len() - i,
    {
        assert(v[i as int] == ls@[i as int]@);
        let line = trim(ls[i].as_str());
        if starts_with(line.as_str(), prefix.as_str()) {
            let ws = words(line.as_str());
            assert(views(ws@).len() == ws@.len());
            if ws.len() > 1 {
                assert(views(ws@)[1] == ws@[1]@);
                push_line(&mut out, ws[1].clone());
            }
        }
        i = i + 1;
    }
    out
}

/// The `nft` calls that remove a chain and the given sets.
pub open spec fn removal(chain: Seq<char>, sets: Seq<Seq<char>>) -> Seq<Seq<Seq<char>>> {
    seq![
        seq!["flush"@, "chain"@, "inet"@, "sandboxd"@, chain],
        seq!["delete"@, "chain"@, "inet"@, "sandboxd"@, chain],
    ] + Seq::new(sets.len(), |i: int| seq!["delete"@, "set"@, "inet"@, "sandboxd"@, sets[i]])
}

/// The `nft` calls that remove a sandbox's chain and sets, given a listing of
/// the table; an empty text where there is none.
pub fn clear_policy(sandbox_id: &str, listing: &str) -> (r: Vec<Vec<String>>)
    ensures
        arg_views(r@) == removal(
            chain_of(safe_name(sandbox_id@)),
            listed_sets(
                line_list(listing@),
                line_list(listing@).len() as int,
                safe_name(sandbox_id@),
            ),
        ),
{
    let safe = nft_name(sandbox_id);
    let chain = chain_name(safe.as_str());
    let sets = list_domain_sets(safe.as_str(), listing);
    let ghost sv = views(sets@);
    let mut out: Vec<Vec<String>> = Vec::new();
    let flush = strings(&["flush", "chain", "inet", "sandboxd", chain.as_str()]);
    assert(views(flush@) =~= seq!["flush"@, "chain"@, "inet"@, "sandboxd"@, chain@]);
    push_args(&mut out, flush);
    let delete = strings(&["delete", "chain", "inet", "sandboxd", chain.as_str()]);
    assert(views(delete@) =~= seq!["delete"@, "chain"@, "inet"@, "sandboxd"@, chain@]);
    push_args(&mut out, delete);
    let ghost all = removal(chain@, sv);
    assert(arg_views(out@) =~= all.subrange(0, 2));
    let mut i: usize = 0;
    while i < sets.len()
        invariant
            i <= sets@.len(),
            sv == views(sets@),
            all == removal(chain@, sv),
            arg_views(out@) == all.subrange(0, 2 + i),
        decreases sets@.len() - i,
    {
        let one = strings(&["delete", "set", "inet", "sandboxd", sets[i].as_str()]);
        assert(sv[i as int] == sets@[i as int]@);
        assert(views(one@) =~= all[2 + i]);
        push_args(&mut out, one);
        i = i + 1;
        assert(all.subrange(0, 2 + i) =~= all.subrange(0, 2 + i - 1).push(all[2 + i - 1]));
    }
    assert(all.subrange(0, 2 + i) =~= all);
    out
}

// ---------------------------------------------------------------------------
// Putting a policy into force
// ---------------------------------------------------------------------------

/// What putting a policy into force comes to, once what was in force before is
/// cleared away.
#[derive(Debug)]
pub enum PolicyStep {
    /// The node's own rules apply.
    Done,
    /// Run the script, then register the domain rules under the address.
    Run { source_ip: Ipv4, script: String },
    Fail(String),
}

/// What comes after clearing, by views.
pub enum PolicyStepView {
    Done,
    Run(Ipv4, Seq<char>),
    Fail(Seq<char>),
}

impl View for PolicyStep {
    type V = PolicyStepView;

    open spec fn view(&self) -> PolicyStepView {
        match self {
            PolicyStep::Done => PolicyStepView::Done,
            PolicyStep::Run { source_ip, script } => PolicyStepView::Run(*source_ip, script@),
            PolicyStep::Fail(m) => PolicyStepView::Fail(m@),
        }
    }
}

/// What is done for a valid policy.
pub open spec fn policy_step(id: Seq<char>, guest_ip: Seq<char>, p: PolicyView, ready: bool) -> PolicyStepView {
    if p.egress == EgressMode::Default {
        PolicyStepView::Done
    } else if (has_domain_rule(p.allow) || has_domain_rule(p.deny)) && !ready {
        PolicyStepView::Fail(
            "network policy uses domain rules, but sandbox DNS proxy is not ready"@,
        )
    } else {
        match address(guest_ip) {
            None => PolicyStepView::Fail("parse guest IP "@ + guest_ip),
            Some(ip) => match script(id, ip, p) {
                Ok(text) => PolicyStepView::Run(ip, text),
                Err(e) => PolicyStepView::Fail(e),
            },
        }
    }
}

/// Decide how to put a policy into force. A policy that does not validate is
/// refused before anything is touched.
pub fn apply_policy(sandbox_id: &str, guest_ip: &str, policy: &NetworkPolicy, dns_ready: bool) -> (r: Result<
    PolicyStep,
    String,
>)
    ensures
        (match r {
            Ok(_) => None,
            Err(m) => Some(m@),
        }) == policy_fault(policy@),
        r matches Ok(s) ==> s@ == policy_step(sandbox_id@, guest_ip@, policy@, dns_ready),
{
    if let Err(m) = policy.validate() {
        return Err(m);
    }
    if matches!(policy.egress, EgressMode::Default) {
        return Ok(PolicyStep::Done);
    }
    if policy.uses_domain_rules() && !dns_ready {
        return Ok(
            PolicyStep::Fail(
                String::from_str(
                    "network policy uses domain rules, but sandbox DNS proxy is not ready",
                ),
            ),
        );
    }
    let source_ip = match parse_ipv4(guest_ip) {
        None => return Ok(PolicyStep::Fail(concat2("parse guest IP ", guest_ip))),
        Some(ip) => ip,
    };
    match render_policy_script(sandbox_id, source_ip, policy) {
        Ok(script) => Ok(PolicyStep::Run { source_ip, script }),
        Err(e) => Ok(PolicyStep::Fail(e)),
    }
}

/// Where the start of the DNS proxy stands.
#[derive(Debug, Clone, Copy, PartialEq, Eq, Structural)]
pub struct DnsProxy {
    pub ready: bool,
    pub started: bool,
}

/// What a request to start the proxy comes to.
#[derive(Debug, Clone, Copy, PartialEq, Eq, Structural)]
pub enum ProxyStart {
    Running,
    /// Bind the socket and report back.
    Bind,
    /// An earlier attempt failed; there is no second.
    Attempted,
}

impl DnsProxy {
    /// Does the proxy answer queries?
    pub fn dns_proxy_ready(&self) -> (r: bool)
        ensures
            r == self.ready,
    {
        self.ready
    }

    /// Ask for the proxy: it is started at most once.
    pub fn start_dns_proxy(&mut self) -> (r: ProxyStart)
        ensures
            r == (if old(self).ready {
                ProxyStart::Running
            } else if old(self).started {
                ProxyStart::Attempted
            } else {
                ProxyStart::Bind
            }),
            final(self).ready == old(self).ready,
            final(self).started == (old(self).started || r == ProxyStart::Bind),
    {
        if self.ready {
            return ProxyStart::Running;
        }
        if self.started {
            return ProxyStart::Attempted;
        }
        self.started = true;
        ProxyStart::Bind
    }

    /// The socket was bound, or the proxy has stopped.
    pub fn set_ready(&mut self, ready: bool)
        ensures
            final(self).ready == ready,
            final(self).started == old(self).started,
    {
        self.ready = ready;
    }
}

// ---------------------------------------------------------------------------
// Laws
// ---------------------------------------------------------------------------

/// A closed policy and an allowlist end by dropping what no rule let through; a
/// denylist ends by accepting it.
pub proof fn law_last_rule_decides_the_rest(id: Seq<char>, ip: Ipv4, p: PolicyView)
    requires
        p.egress != EgressMode::Default,
    ensures
        script_lines(id, ip, p).last() == rule_line(
            chain_of(safe_name(id)),
            if p.egress == EgressMode::Denylist {
                "accept"@
            } else {
                "drop"@
            },
        ),
{
}

proof fn lemma_set_is_declared(safe: Seq<char>, rules: Seq<RuleView>, n: int, i: int)
    requires
        0 <= i < n <= rules.len(),
        rules[i].kind == NetworkRuleKind::Domain,
    ensures
        set_lines(safe, rules, n).contains(set_line(set_of(safe, i))),
    decreases n,
{
    let line = set_line(set_of(safe, i));
    if i == n - 1 {
        assert(set_lines(safe, rules, n).last() == line);
    } else {
        lemma_set_is_declared(safe, rules, n - 1, i);
        let before = set_lines(safe, rules, n - 1);
        let k = choose|k: int| 0 <= k < before.len() && before[k] == line;
        assert(set_lines(safe, rules, n)[k] == line);
    }
}

/// The address set that a domain rule matches against is declared by the same
/// script, under the name the rule uses and the register records. Ids that
/// begin with the chain prefix themselves are left out: for those the rule uses
/// a shorter name than the declaration.
pub proof fn law_domain_sets_are_declared(id: Seq<char>, ip: Ipv4, p: PolicyView, i: int)
    requires
        0 <= i < mode_rules(p).len(),
        mode_rules(p)[i].kind == NetworkRuleKind::Domain,
        !has_prefix(safe_name(id), "wd_"@),
    ensures
        destination(chain_of(safe_name(id)), i, mode_rules(p)[i]) == "@"@ + set_of(
            safe_name(id),
            i,
        ),
        script_lines(id, ip, p).contains(set_line(set_of(safe_name(id), i))),
{
    let safe = safe_name(id);
    let rules = mode_rules(p);
    reveal_strlit("wd_");
    let chain = chain_of(safe);
    assert(chain.subrange(0, 3) =~= "wd_"@);
    assert(chain.subrange(3, chain.len() as int) =~= safe);
    assert(bare(chain) == safe) by {
        reveal_with_fuel(bare, 2);
    }
    lemma_set_is_declared(safe, rules, rules.len() as int, i);
    let sets = set_lines(safe, rules, rules.len() as int);
    let line = set_line(set_of(safe, i));
    let k = choose|k: int| 0 <= k < sets.len() && sets[k] == line;
    assert(script_lines(id, ip, p)[1 + k] == line);
}

/// Once a sandbox is unregistered, none of its rules is left, and no other rule
/// is lost.
pub proof fn law_unregister_is_exact(regs: Seq<RegistrationView>, id: Seq<char>, r: RegistrationView)
    ensures
        without_sandbox(regs, id).contains(r) <==> regs.contains(r) && r.sandbox_id != id,
    decreases regs.len(),
{
    if regs.len() > 0 {
        let front = regs.drop_last();
        law_unregister_is_exact(front, id, r);
        let rest = without_sandbox(front, id);
        if regs.contains(r) {
            let k = choose|k: int| 0 <= k < regs.len() && regs[k] == r;
            if k < regs.len() - 1 {
                assert(front[k] == r);
            }
        }
        if front.contains(r) {
            let k = choose|k: int| 0 <= k < front.len() && front[k] == r;
            assert(regs[k] == r);
        }
        assert(regs[regs.len() - 1] == regs.last());
        if regs.last().sandbox_id != id {
            let now = rest.push(regs.last());
            assert(now[now.len() - 1] == regs.last());
            if rest.contains(r) {
                let k = choose|k: int| 0 <= k < rest.len() && rest[k] == r;
                assert(now[k] == r);
            }
            if now.contains(r) {
                let k = choose|k: int| 0 <= k < now.len() && now[k] == r;
                if k < rest.len() {
                    assert(rest[k] == r);
                }
            }
        }
    }
}

/// A guest with an allowlist of domains gets no name resolved that none of its
/// rules matches.
pub proof fn law_allowlist_hides_other_names(
    regs: Seq<RegistrationView>,
    packet: Seq<u8>,
    ip: Ipv4,
)
    requires
        question(packet) is Some,
        allowlisted(regs, ip),
        forall|i: int|
            0 <= i < regs.len() ==> !concerns(#[trigger] regs[i], ip, question(packet)->Some_0.0),
    ensures
        dns_step(regs, packet, Some(ip)) == StepView::Reply(
            error_answer(packet, RCODE_NO_NAME)->0,
        ),
{
    lemma_no_sets(regs, ip, question(packet)->Some_0.0);
}

proof fn lemma_no_sets(regs: Seq<RegistrationView>, ip: Ipv4, name: Seq<char>)
    requires
        forall|i: int| 0 <= i < regs.len() ==> !concerns(#[trigger] regs[i], ip, name),
    ensures
        concerned_sets(regs, ip, name).len() == 0,
    decreases regs.len(),
{
    if regs.len() > 0 {
        assert(!concerns(regs[regs.len() - 1], ip, name));
        assert forall|i: int| 0 <= i < regs.len() - 1 implies !concerns(
            #[trigger] regs.drop_last()[i],
            ip,
            name,
        ) by {
            assert(regs.drop_last()[i] == regs[i]);
        }
        lemma_no_sets(regs.drop_last(), ip, name);
    }
}

/// A denied name is never answered with an address, whatever the upstream server
/// says.
pub proof fn law_denied_name_gets_no_address(packet: Seq<u8>, upstream: Option<Seq<u8>>)
    requires
        question(packet) is Some,
    ensures
        answer_addresses(dns_reply(packet, true, upstream)).len() == 0,
{
    crate::dns::law_error_answer_keeps_the_question(packet, RCODE_NO_NAME);
    crate::dns::law_error_answer_keeps_the_question(packet, RCODE_FAILED);
}

} // verus!
