//! What a sandbox can reach: the rules of its chain, and what the DNS proxy answers.

use crate::dns::{error_answer, question};
use crate::egress::{
    apply_policy, bad_range, bare, chain_lines, chain_of, concerned_sets, concerns, denied,
    destination, dns_bodies, dns_reply, dns_step, handle_dns_query, kept_seconds, new_registrations,
    policy_lines, policy_step, ports_text, registered, removal, render_policy_script, rule_bodies,
    rule_line, rule_lines, safe_name, script, script_lines, set_elements, set_lines, set_of,
    without_sandbox, DnsStep, DomainMode, DomainRegistry, PolicyStep, PolicyStepView,
    RegistrationView, StepView,
};
use crate::model::{
    has_domain_rule, mode_rules, name_matches, EgressMode, NetworkPolicy, NetworkProtocol,
    NetworkRuleKind, PolicyView, RuleView,
};
use crate::netaddr::{address, cidr, Ipv4};
use crate::numeral::decimal;
use crate::text::{has_prefix, joined};
use vstd::prelude::*;
use vstd::string::*;

verus! {

// ---------------------------------------------------------------------------
// The chain
// ---------------------------------------------------------------------------

/// The line that adds a rule to a sandbox's chain.
pub open spec fn chain_rule(id: Seq<char>, body: Seq<char>) -> Seq<char> {
    "add rule inet sandboxd "@ + ("wd_"@ + safe_name(id)) + " "@ + body
}

/// What the rule at `i` is about: its range, or the set of its domain's addresses.
pub open spec fn target(id: Seq<char>, i: int, rule: RuleView) -> Seq<char> {
    match rule.kind {
        NetworkRuleKind::Cidr => rule.value,
        NetworkRuleKind::Domain => "@"@ + ("wd_"@ + safe_name(id) + "_d"@ + decimal(i as nat)),
    }
}

/// One port as it is, several as a set.
pub open spec fn port_set(ports: Seq<u16>) -> Seq<char> {
    if ports.len() == 1 {
        decimal(ports[0] as nat)
    } else {
        "{ "@ + joined(Seq::new(ports.len(), |k: int| decimal(ports[k] as nat)), ", "@) + " }"@
    }
}

/// The rule covers packets of this protocol, by its nftables name.
pub open spec fn covers(rule: RuleView, proto: Seq<char>) -> bool {
    match rule.protocol {
        Some(NetworkProtocol::Tcp) => proto == "tcp"@,
        Some(NetworkProtocol::Udp) => proto == "udp"@,
        None => proto == "tcp"@ || proto == "udp"@,
    }
}

/// The line gives the verdict to just the packets of a protocol that the rule at `i`
/// matches: by destination, and by protocol and port where the rule names them.
pub open spec fn judges(
    line: Seq<char>,
    id: Seq<char>,
    i: int,
    rule: RuleView,
    proto: Seq<char>,
    verdict: Seq<char>,
) -> bool {
    let to = "ip daddr "@ + target(id, i, rule);
    if rule.ports.len() > 0 {
        line == chain_rule(
            id,
            to + " "@ + proto + " dport "@ + port_set(rule.ports) + " "@ + verdict,
        )
    } else if rule.protocol is Some {
        line == chain_rule(id, to + " meta l4proto "@ + proto + " "@ + verdict)
    } else {
        line == chain_rule(id, to + " "@ + verdict)
    }
}

/// The rules that decide in a mode.
pub open spec fn deciding(p: PolicyView) -> Seq<RuleView> {
    if p.egress == EgressMode::Denylist {
        p.deny
    } else {
        p.allow
    }
}

/// What a mode does with packets that its rules match.
pub open spec fn matched(p: PolicyView) -> Seq<char> {
    if p.egress == EgressMode::Denylist {
        "drop"@
    } else {
        "accept"@
    }
}

/// What a mode does with packets that no rule matches.
pub open spec fn unmatched(p: PolicyView) -> Seq<char> {
    if p.egress == EgressMode::Denylist {
        "accept"@
    } else {
        "drop"@
    }
}

/// Does the sandbox's name keep its domain sets under the name of its chain?
pub open spec fn plainly_named(id: Seq<char>) -> bool {
    !has_prefix(safe_name(id), "wd_"@)
}

proof fn lemma_target(id: Seq<char>, i: int, rule: RuleView)
    requires
        rule.kind == NetworkRuleKind::Domain ==> plainly_named(id),
    ensures
        destination(chain_of(safe_name(id)), i, rule) == target(id, i, rule),
{
    if rule.kind == NetworkRuleKind::Domain {
        let safe = safe_name(id);
        reveal_strlit("wd_");
        let chain = chain_of(safe);
        assert(chain.subrange(0, 3) =~= "wd_"@);
        assert(chain.subrange(3, chain.len() as int) =~= safe);
        assert(bare(chain) == safe) by {
            reveal_with_fuel(bare, 2);
        }
    }
}

proof fn lemma_ports(ports: Seq<u16>)
    ensures
        ports_text(ports) == port_set(ports),
{
    assert(crate::egress::port_texts(ports) =~= Seq::new(
        ports.len(),
        |k: int| decimal(ports[k] as nat),
    ));
}

proof fn lemma_dport(to: Seq<char>, ports: Seq<char>, verdict: Seq<char>)
    ensures
        to + " tcp dport "@ + ports + " "@ + verdict == to + " "@ + "tcp"@ + " dport "@ + ports
            + " "@ + verdict,
        to + " udp dport "@ + ports + " "@ + verdict == to + " "@ + "udp"@ + " dport "@ + ports
            + " "@ + verdict,
{
    reveal_strlit(" tcp dport ");
    reveal_strlit(" udp dport ");
    reveal_strlit(" dport ");
    reveal_strlit("tcp");
    reveal_strlit("udp");
    reveal_strlit(" ");
    assert(" tcp dport "@ =~= " "@ + "tcp"@ + " dport "@);
    assert(" udp dport "@ =~= " "@ + "udp"@ + " dport "@);
    assert(to + " "@ + "tcp"@ + " dport "@ =~= to + (" "@ + "tcp"@ + " dport "@));
    assert(to + " "@ + "udp"@ + " dport "@ =~= to + (" "@ + "udp"@ + " dport "@));
}

/// The rule at `i` has its line among those of the first `n`.
proof fn lemma_rule_is_there(
    id: Seq<char>,
    rules: Seq<RuleView>,
    n: int,
    verdict: Seq<char>,
    i: int,
    proto: Seq<char>,
) -> (k: int)
    requires
        0 <= i < n <= rules.len(),
        covers(rules[i], proto),
        rules[i].kind == NetworkRuleKind::Domain ==> plainly_named(id),
    ensures
        0 <= k < policy_lines(chain_of(safe_name(id)), rules, n, verdict).len(),
        judges(
            policy_lines(chain_of(safe_name(id)), rules, n, verdict)[k],
            id,
            i,
            rules[i],
            proto,
            verdict,
        ),
    decreases n,
{
    let chain = chain_of(safe_name(id));
    let before = policy_lines(chain, rules, n - 1, verdict);
    let r = rules[n - 1];
    let bodies = rule_bodies(destination(chain, n - 1, r), r.protocol, r.ports, verdict);
    let here = rule_lines(chain, bodies);
    let all = policy_lines(chain, rules, n, verdict);
    assert(all =~= before + here);
    if i < n - 1 {
        let k = lemma_rule_is_there(id, rules, n - 1, verdict, i, proto);
        assert(all[k] == before[k]);
        k
    } else {
        lemma_target(id, i, r);
        lemma_ports(r.ports);
        lemma_dport("ip daddr "@ + target(id, i, r), port_set(r.ports), verdict);
        let j = if r.ports.len() > 0 && r.protocol is None && proto != "tcp"@ {
            1int
        } else {
            0int
        };
        assert(all[before.len() + j] == here[j]);
        assert(here[j] == rule_line(chain, bodies[j]));
        before.len() + j
    }
}

/// Every line among those of the first `n` rules is some rule's.
proof fn lemma_lines_are_of_rules(
    id: Seq<char>,
    rules: Seq<RuleView>,
    n: int,
    verdict: Seq<char>,
    k: int,
) -> (r: (int, Seq<char>))
    requires
        0 <= n <= rules.len(),
        0 <= k < policy_lines(chain_of(safe_name(id)), rules, n, verdict).len(),
        plainly_named(id),
    ensures
        0 <= r.0 < n,
        covers(rules[r.0], r.1),
        judges(
            policy_lines(chain_of(safe_name(id)), rules, n, verdict)[k],
            id,
            r.0,
            rules[r.0],
            r.1,
            verdict,
        ),
    decreases n,
{
    let chain = chain_of(safe_name(id));
    let before = policy_lines(chain, rules, n - 1, verdict);
    let r = rules[n - 1];
    let bodies = rule_bodies(destination(chain, n - 1, r), r.protocol, r.ports, verdict);
    let here = rule_lines(chain, bodies);
    let all = policy_lines(chain, rules, n, verdict);
    assert(all =~= before + here);
    if k < before.len() {
        assert(all[k] == before[k]);
        lemma_lines_are_of_rules(id, rules, n - 1, verdict, k)
    } else {
        let j = k - before.len();
        assert(all[k] == here[j]);
        assert(here[j] == rule_line(chain, bodies[j]));
        lemma_target(id, n - 1, r);
        lemma_ports(r.ports);
        lemma_dport("ip daddr "@ + target(id, n - 1, r), port_set(r.ports), verdict);
        let proto = match r.protocol {
            Some(NetworkProtocol::Tcp) => "tcp"@,
            Some(NetworkProtocol::Udp) => "udp"@,
            None => if j == 0 {
                "tcp"@
            } else {
                "udp"@
            },
        };
        (n - 1, proto)
    }
}

/// Where the lines of the chain itself begin in the script.
spec fn rules_at(id: Seq<char>, p: PolicyView) -> int {
    set_lines(safe_name(id), mode_rules(p), mode_rules(p).len() as int).len() as int + 2
}

proof fn lemma_script(id: Seq<char>, ip: Ipv4, p: PolicyView)
    ensures
        ({
            let lines = script_lines(id, ip, p);
            let rest = chain_lines(chain_of(safe_name(id)), p);
            &&& lines.len() == rules_at(id, p) + rest.len()
            &&& forall|k: int| 0 <= k < rest.len() ==> lines[rules_at(id, p) + k] == #[trigger] rest[k]
        }),
{
}

/// A denylist drops what its deny rules match, and an allowlist accepts what its
/// allow rules match: for each of them, and each protocol that it covers, the chain
/// has a line with that verdict for just these packets, before the last line, which
/// gives the opposite verdict to all the others.
pub proof fn law_rules_are_enforced(
    id: Seq<char>,
    ip: Ipv4,
    p: PolicyView,
    i: int,
    proto: Seq<char>,
)
    requires
        p.egress == EgressMode::Denylist || p.egress == EgressMode::Allowlist,
        0 <= i < deciding(p).len(),
        covers(deciding(p)[i], proto),
        deciding(p)[i].kind == NetworkRuleKind::Domain ==> plainly_named(id),
    ensures
        exists|k: int|
            0 <= k < script_lines(id, ip, p).len() - 1 && judges(
                #[trigger] script_lines(id, ip, p)[k],
                id,
                i,
                deciding(p)[i],
                proto,
                matched(p),
            ),
        script_lines(id, ip, p).last() == chain_rule(id, unmatched(p)),
{
    lemma_script(id, ip, p);
    let chain = chain_of(safe_name(id));
    let rules = mode_rules(p);
    let k = lemma_rule_is_there(id, rules, rules.len() as int, matched(p), i, proto);
    let lines = policy_lines(chain, rules, rules.len() as int, matched(p));
    let dns = rule_lines(chain, dns_bodies(p));
    let rest = chain_lines(chain, p);
    assert(rest[dns.len() + k] == lines[k]);
    assert(script_lines(id, ip, p)[rules_at(id, p) + (dns.len() + k)] == rest[dns.len() + k]);
}

/// The line is one of those that keep a guest to the proxy's name service.
pub open spec fn keeps_to_the_proxy(line: Seq<char>, id: Seq<char>) -> bool {
    ||| line == chain_rule(id, "ip daddr "@ + "10.200.0.1"@ + " udp dport 53 accept"@)
    ||| line == chain_rule(id, "ip daddr "@ + "10.200.0.1"@ + " tcp dport 53 accept"@)
    ||| line == chain_rule(id, "udp dport 53 drop"@)
    ||| line == chain_rule(id, "tcp dport 53 drop"@)
}

/// Nothing else is let through or dropped: behind the line that sends the guest's
/// packets through the chain, every line but the last is a rule's, with the verdict
/// of the mode, or keeps the guest to the proxy's name service, which only a policy
/// with domains does.
pub proof fn law_nothing_else_is_enforced(id: Seq<char>, ip: Ipv4, p: PolicyView, k: int)
    requires
        p.egress == EgressMode::Denylist || p.egress == EgressMode::Allowlist,
        plainly_named(id),
        set_lines(safe_name(id), mode_rules(p), mode_rules(p).len() as int).len() + 2 <= k
            < script_lines(id, ip, p).len() - 1,
    ensures
        ({
            let line = script_lines(id, ip, p)[k];
            ||| (has_domain_rule(p.allow) || has_domain_rule(p.deny)) && keeps_to_the_proxy(
                line,
                id,
            )
            ||| exists|i: int, proto: Seq<char>|
                0 <= i < deciding(p).len() && #[trigger] covers(deciding(p)[i], proto) && judges(
                    line,
                    id,
                    i,
                    deciding(p)[i],
                    proto,
                    matched(p),
                )
        }),
{
    lemma_script(id, ip, p);
    let chain = chain_of(safe_name(id));
    let rules = mode_rules(p);
    let lines = policy_lines(chain, rules, rules.len() as int, matched(p));
    let bodies = dns_bodies(p);
    let dns = rule_lines(chain, bodies);
    let rest = chain_lines(chain, p);
    let j = k - rules_at(id, p);
    assert(script_lines(id, ip, p)[rules_at(id, p) + j] == rest[j]);
    if j < dns.len() {
        assert(rest[j] == dns[j]);
        assert(dns[j] == rule_line(chain, bodies[j]));
    } else {
        let m = j - dns.len();
        assert(rest[j] == lines[m]);
        let (i, proto) = lemma_lines_are_of_rules(id, rules, rules.len() as int, matched(p), m);
        assert(covers(deciding(p)[i], proto));
    }
}

/// A policy with domains lets the guest ask the proxy for names before anything else
/// is decided, and then nobody else.
pub proof fn law_names_come_from_the_proxy(id: Seq<char>, ip: Ipv4, p: PolicyView)
    requires
        p.egress == EgressMode::Denylist || p.egress == EgressMode::Allowlist,
        has_domain_rule(p.allow) || has_domain_rule(p.deny),
    ensures
        ({
            let lines = script_lines(id, ip, p);
            let n = set_lines(safe_name(id), mode_rules(p), mode_rules(p).len() as int).len() as int
                + 2;
            &&& lines[n] == chain_rule(
                id,
                "ip daddr "@ + "10.200.0.1"@ + " udp dport 53 accept"@,
            )
            &&& lines[n + 1] == chain_rule(
                id,
                "ip daddr "@ + "10.200.0.1"@ + " tcp dport 53 accept"@,
            )
            &&& lines[n + 2] == chain_rule(id, "udp dport 53 drop"@)
            &&& lines[n + 3] == chain_rule(id, "tcp dport 53 drop"@)
        }),
{
    lemma_script(id, ip, p);
    let chain = chain_of(safe_name(id));
    let rest = chain_lines(chain, p);
    let dns = rule_lines(chain, dns_bodies(p));
    assert(forall|k: int| 0 <= k < 4 ==> rest[k] == dns[k]);
    assert(script_lines(id, ip, p)[rules_at(id, p) + 0] == rest[0]);
    assert(script_lines(id, ip, p)[rules_at(id, p) + 1] == rest[1]);
    assert(script_lines(id, ip, p)[rules_at(id, p) + 2] == rest[2]);
    assert(script_lines(id, ip, p)[rules_at(id, p) + 3] == rest[3]);
}

/// A closed policy drops everything and says nothing more, and the default policy
/// adds nothing to the chain.
pub proof fn law_closed_is_closed(id: Seq<char>, ip: Ipv4, p: PolicyView)
    ensures
        p.egress == EgressMode::Closed ==> {
            let lines = script_lines(id, ip, p);
            lines.len() == 3 && lines[2] == chain_rule(id, "drop"@)
        },
        p.egress == EgressMode::Default ==> script_lines(id, ip, p).len() == 2,
{
}

/// The script declares the chain, and sends all packets from the guest's address
/// through it, before any rule is added to it.
pub proof fn law_guest_is_sent_through_its_chain(id: Seq<char>, ip: Ipv4, p: PolicyView)
    ensures
        ({
            let lines = script_lines(id, ip, p);
            let chain = "wd_"@ + safe_name(id);
            let n = set_lines(safe_name(id), mode_rules(p), mode_rules(p).len() as int).len() as int;
            &&& lines[0] == "add chain inet sandboxd "@ + chain
            &&& lines[n + 1] == "add rule inet sandboxd sandbox_policy ip saddr "@ + ip.text()
                + " jump "@ + chain + " comment \"workdir:"@ + id + "\""@
            &&& ip.text() == decimal(ip.0 as nat) + seq!['.'] + decimal(ip.1 as nat) + seq!['.']
                + decimal(ip.2 as nat) + seq!['.'] + decimal(ip.3 as nat)
        }),
{
}

/// Between the chain and the way into it the script declares sets and nothing else:
/// one for each domain rule that decides, of addresses that expire.
pub proof fn law_only_sets_are_declared(id: Seq<char>, ip: Ipv4, p: PolicyView, k: int)
    requires
        1 <= k < set_lines(safe_name(id), mode_rules(p), mode_rules(p).len() as int).len() + 1,
    ensures
        exists|i: int|
            0 <= i < deciding(p).len() && deciding(p)[i].kind == NetworkRuleKind::Domain
                && script_lines(id, ip, p)[k] == "add set inet sandboxd "@ + ("wd_"@ + safe_name(id)
                + "_d"@ + #[trigger] decimal(i as nat)) + " { type ipv4_addr; flags timeout; }"@,
{
    let rules = mode_rules(p);
    let i = lemma_declared(safe_name(id), rules, rules.len() as int, k - 1);
    assert(script_lines(id, ip, p)[k] == set_lines(safe_name(id), rules, rules.len() as int)[k - 1]);
    assert(deciding(p)[i].kind == NetworkRuleKind::Domain);
    assert(script_lines(id, ip, p)[k] == "add set inet sandboxd "@ + ("wd_"@ + safe_name(id)
        + "_d"@ + decimal(i as nat)) + " { type ipv4_addr; flags timeout; }"@);
}

proof fn lemma_declared(safe: Seq<char>, rules: Seq<RuleView>, n: int, k: int) -> (i: int)
    requires
        0 <= n <= rules.len(),
        0 <= k < set_lines(safe, rules, n).len(),
    ensures
        0 <= i < n,
        rules[i].kind == NetworkRuleKind::Domain,
        set_lines(safe, rules, n)[k] == crate::egress::set_line(set_of(safe, i)),
    decreases n,
{
    let before = set_lines(safe, rules, n - 1);
    if k < before.len() {
        let i = lemma_declared(safe, rules, n - 1, k);
        assert(set_lines(safe, rules, n)[k] == before[k]);
        i
    } else {
        n - 1
    }
}

/// The name of a sandbox in nftables is its id, character by character, with an
/// underscore for what nftables does not take.
pub proof fn law_chain_name(id: Seq<char>, i: int)
    requires
        0 <= i < id.len(),
    ensures
        safe_name(id).len() == id.len(),
        ('a' <= id[i] && id[i] <= 'z') || ('A' <= id[i] && id[i] <= 'Z') || ('0' <= id[i] && id[i]
            <= '9') || id[i] == '_' ==> safe_name(id)[i] == id[i],
        !(('a' <= id[i] && id[i] <= 'z') || ('A' <= id[i] && id[i] <= 'Z') || ('0' <= id[i]
            && id[i] <= '9')) ==> safe_name(id)[i] == '_',
{
}

/// The script is its lines, each ended by a newline. There is one unless a range of
/// the deciding rules cannot be read; the first of those is named.
pub proof fn law_script_is_its_lines(id: Seq<char>, ip: Ipv4, p: PolicyView)
    ensures
        script(id, ip, p) matches Ok(t) ==> t == joined(script_lines(id, ip, p), "\n"@) + "\n"@,
        p.egress == EgressMode::Closed || p.egress == EgressMode::Default ==> script(id, ip, p) is Ok,
        p.egress == EgressMode::Denylist || p.egress == EgressMode::Allowlist ==> (script(
            id,
            ip,
            p,
        ) is Ok <==> forall|i: int|
            0 <= i < deciding(p).len() && (#[trigger] deciding(p)[i]).kind == NetworkRuleKind::Cidr
                ==> cidr(deciding(p)[i].value) is Some),
{
    if p.egress == EgressMode::Denylist || p.egress == EgressMode::Allowlist {
        lemma_bad_range(deciding(p), 0);
    }
}

proof fn lemma_bad_range(rules: Seq<RuleView>, from: int)
    requires
        0 <= from <= rules.len(),
    ensures
        bad_range(rules, from) is None <==> forall|i: int|
            from <= i < rules.len() && (#[trigger] rules[i]).kind == NetworkRuleKind::Cidr ==> cidr(
                rules[i].value,
            ) is Some,
    decreases rules.len() - from,
{
    if from < rules.len() {
        lemma_bad_range(rules, from + 1);
        if rules[from].kind == NetworkRuleKind::Cidr && cidr(rules[from].value) is None {
            assert(!(rules[from].kind == NetworkRuleKind::Cidr ==> cidr(rules[from].value) is Some));
        } else {
            assert forall|i: int|
                bad_range(rules, from) is None && from <= i < rules.len() && (#[trigger] rules[i]).kind
                    == NetworkRuleKind::Cidr implies cidr(rules[i].value) is Some by {
                if i > from {
                }
            }
        }
    }
}

/// A policy is put into force by its script, unless it is the default one, the guest
/// has no address, or it has domains and nobody answers for names.
pub proof fn law_policy_is_put_into_force(
    id: Seq<char>,
    guest_ip: Seq<char>,
    p: PolicyView,
    ready: bool,
    ip: Ipv4,
)
    requires
        address(guest_ip) == Some(ip),
        script(id, ip, p) is Ok,
    ensures
        p.egress == EgressMode::Default ==> policy_step(id, guest_ip, p, ready)
            == PolicyStepView::Done,
        p.egress != EgressMode::Default && (ready || !(has_domain_rule(p.allow)
            || has_domain_rule(p.deny))) ==> policy_step(id, guest_ip, p, ready)
            == PolicyStepView::Run(ip, script(id, ip, p)->Ok_0),
        p.egress != EgressMode::Default && !ready && (has_domain_rule(p.allow) || has_domain_rule(
            p.deny,
        )) ==> policy_step(id, guest_ip, p, ready) is Fail,
{
}

// ---------------------------------------------------------------------------
// Names
// ---------------------------------------------------------------------------

/// Each domain rule of a policy in force is registered for the guest's address, under
/// its pattern and its set, as allowed or as denied by the mode; nothing else is
/// registered for the sandbox, and the other sandboxes' rules stay.
pub proof fn law_domains_are_registered(
    regs: Seq<RegistrationView>,
    id: Seq<char>,
    ip: Ipv4,
    p: PolicyView,
    i: int,
)
    requires
        p.egress == EgressMode::Denylist || p.egress == EgressMode::Allowlist,
        0 <= i < deciding(p).len(),
        deciding(p)[i].kind == NetworkRuleKind::Domain,
    ensures
        registered(regs, id, ip, p).contains(
            RegistrationView {
                sandbox_id: id,
                source_ip: ip,
                pattern: deciding(p)[i].value,
                set_name: "wd_"@ + safe_name(id) + "_d"@ + decimal(i as nat),
                mode: if p.egress == EgressMode::Denylist {
                    DomainMode::Deny
                } else {
                    DomainMode::Allow
                },
            },
        ),
        forall|r: RegistrationView|
            r.sandbox_id != id ==> (#[trigger] registered(regs, id, ip, p).contains(r)
                <==> regs.contains(r)),
{
    let rules = deciding(p);
    let n = rules.len() as int;
    let mode = if p.egress == EgressMode::Denylist {
        DomainMode::Deny
    } else {
        DomainMode::Allow
    };
    assert(rules[i].kind == NetworkRuleKind::Domain);
    let fresh = new_registrations(id, ip, mode, rules, n);
    let kept = without_sandbox(regs, id);
    let all = registered(regs, id, ip, p);
    assert(all == kept + fresh);
    let k = lemma_registered(id, ip, mode, rules, n, i);
    assert(all[kept.len() + k] == fresh[k]);
    assert forall|r: RegistrationView| r.sandbox_id != id implies (#[trigger] all.contains(r)
        <==> regs.contains(r)) by {
        crate::egress::law_unregister_is_exact(regs, id, r);
        if all.contains(r) {
            let j = choose|j: int| 0 <= j < all.len() && all[j] == r;
            if j < kept.len() {
                assert(kept[j] == r);
            } else {
                assert(fresh[j - kept.len()] == r);
                lemma_fresh_are_own(id, ip, mode, rules, n, j - kept.len());
            }
        }
        if kept.contains(r) {
            let j = choose|j: int| 0 <= j < kept.len() && kept[j] == r;
            assert(all[j] == r);
        }
    }
}

proof fn lemma_registered(
    id: Seq<char>,
    ip: Ipv4,
    mode: DomainMode,
    rules: Seq<RuleView>,
    n: int,
    i: int,
) -> (k: int)
    requires
        0 <= i < n <= rules.len(),
        rules[i].kind == NetworkRuleKind::Domain,
    ensures
        0 <= k < new_registrations(id, ip, mode, rules, n).len(),
        new_registrations(id, ip, mode, rules, n)[k] == (RegistrationView {
            sandbox_id: id,
            source_ip: ip,
            pattern: rules[i].value,
            set_name: "wd_"@ + safe_name(id) + "_d"@ + decimal(i as nat),
            mode,
        }),
    decreases n,
{
    let all = new_registrations(id, ip, mode, rules, n);
    if i == n - 1 {
        all.len() - 1
    } else {
        let k = lemma_registered(id, ip, mode, rules, n - 1, i);
        assert(all[k] == new_registrations(id, ip, mode, rules, n - 1)[k]);
        k
    }
}

proof fn lemma_fresh_are_own(
    id: Seq<char>,
    ip: Ipv4,
    mode: DomainMode,
    rules: Seq<RuleView>,
    n: int,
    k: int,
)
    requires
        0 <= n <= rules.len(),
        0 <= k < new_registrations(id, ip, mode, rules, n).len(),
    ensures
        new_registrations(id, ip, mode, rules, n)[k].sandbox_id == id,
        new_registrations(id, ip, mode, rules, n)[k].source_ip == ip,
    decreases n,
{
    if n > 0 {
        let before = new_registrations(id, ip, mode, rules, n - 1);
        if k < before.len() {
            lemma_fresh_are_own(id, ip, mode, rules, n - 1, k);
            assert(new_registrations(id, ip, mode, rules, n)[k] == before[k]);
        }
    }
}

/// A registration decides about the packets of its own guest only, and only about
/// names that its pattern matches. A query for such a name is forwarded, its addresses
/// go into the registration's set, and it is denied if the registration denies.
pub proof fn law_registered_names_are_resolved(
    regs: Seq<RegistrationView>,
    packet: Seq<u8>,
    ip: Ipv4,
    i: int,
)
    requires
        question(packet) is Some,
        0 <= i < regs.len(),
        regs[i].source_ip == ip,
        name_matches(regs[i].pattern, question(packet)->Some_0.0),
    ensures
        dns_step(regs, packet, Some(ip)) matches StepView::Forward(sets, deny) && sets.contains(
            regs[i].set_name,
        ) && (regs[i].mode == DomainMode::Deny ==> deny),
{
    let name = question(packet)->Some_0.0;
    assert(concerns(regs[i], ip, name));
    lemma_sets_hold(regs, ip, name, i);
}

proof fn lemma_sets_hold(regs: Seq<RegistrationView>, ip: Ipv4, name: Seq<char>, i: int)
    requires
        0 <= i < regs.len(),
        concerns(regs[i], ip, name),
    ensures
        concerned_sets(regs, ip, name).contains(regs[i].set_name),
        concerned_sets(regs, ip, name).len() > 0,
    decreases regs.len(),
{
    let all = concerned_sets(regs, ip, name);
    let front = regs.drop_last();
    let before = concerned_sets(front, ip, name);
    if i == regs.len() - 1 {
        assert(all[all.len() - 1] == regs[i].set_name);
    } else {
        assert(front[i] == regs[i]);
        lemma_sets_hold(front, ip, name, i);
        let k = choose|k: int| 0 <= k < before.len() && before[k] == regs[i].set_name;
        assert(all[k] == regs[i].set_name);
    }
}

/// A query is denied, and its addresses go into a set, only for a registration of the
/// guest's own whose pattern matches the name.
pub proof fn law_resolution_is_by_own_rules(
    regs: Seq<RegistrationView>,
    packet: Seq<u8>,
    ip: Ipv4,
    set: Seq<char>,
)
    requires
        question(packet) is Some,
    ensures
        dns_step(regs, packet, Some(ip)) matches StepView::Forward(sets, deny) ==> {
            &&& sets.contains(set) ==> exists|i: int|
                0 <= i < regs.len() && (#[trigger] regs[i]).source_ip == ip && name_matches(
                    regs[i].pattern,
                    question(packet)->Some_0.0,
                ) && regs[i].set_name == set
            &&& deny ==> exists|i: int|
                0 <= i < regs.len() && (#[trigger] regs[i]).source_ip == ip && name_matches(
                    regs[i].pattern,
                    question(packet)->Some_0.0,
                ) && regs[i].mode == DomainMode::Deny
        },
        dns_step(regs, packet, None) is Reply,
        (forall|i: int| 0 <= i < regs.len() ==> (#[trigger] regs[i]).source_ip != ip) ==> dns_step(
            regs,
            packet,
            Some(ip),
        ) is Forward,
{
    let name = question(packet)->Some_0.0;
    if concerned_sets(regs, ip, name).contains(set) {
        lemma_set_has_owner(regs, ip, name, set);
    }
    if denied(regs, ip, name) {
        let i = choose|i: int|
            0 <= i < regs.len() && concerns(#[trigger] regs[i], ip, name) && regs[i].mode
                == DomainMode::Deny;
        assert(regs[i].source_ip == ip);
    }
}

proof fn lemma_set_has_owner(
    regs: Seq<RegistrationView>,
    ip: Ipv4,
    name: Seq<char>,
    set: Seq<char>,
) -> (i: int)
    requires
        concerned_sets(regs, ip, name).contains(set),
    ensures
        0 <= i < regs.len(),
        concerns(regs[i], ip, name),
        regs[i].set_name == set,
    decreases regs.len(),
{
    let all = concerned_sets(regs, ip, name);
    let front = regs.drop_last();
    let before = concerned_sets(front, ip, name);
    let k = choose|k: int| 0 <= k < all.len() && all[k] == set;
    if k < before.len() {
        assert(before[k] == set);
        let i = lemma_set_has_owner(front, ip, name, set);
        assert(front[i] == regs[i]);
        i
    } else {
        regs.len() - 1
    }
}

/// What the upstream server answers is handed on as it is, unless the name is denied;
/// where it does not answer, the guest is told that it failed.
pub proof fn law_answers_are_handed_on(packet: Seq<u8>, answer: Seq<u8>)
    requires
        question(packet) is Some,
    ensures
        dns_reply(packet, false, Some(answer)) == answer,
        dns_reply(packet, true, Some(answer)) == error_answer(packet, 3)->0,
        dns_reply(packet, false, None) == error_answer(packet, 2)->0,
        error_answer(packet, 3) is Some,
{
}

/// Every address of an answer goes into every set that the name belongs to, and
/// nothing else does. It is kept for as long as the answer says, half a minute at
/// least and an hour at most.
pub proof fn law_addresses_go_into_the_sets(
    sets: Seq<Seq<char>>,
    addrs: Seq<Ipv4>,
    set: Seq<char>,
    ip: Ipv4,
    ttl: u32,
)
    ensures
        set_elements(sets, addrs).contains((set, ip)) <==> sets.contains(set) && addrs.contains(ip),
        30 <= kept_seconds(ttl) <= 3600,
        30 <= ttl <= 3600 ==> kept_seconds(ttl) == ttl,
        ttl < 30 ==> kept_seconds(ttl) == 30,
{
    let all = set_elements(sets, addrs);
    let m = addrs.len() as int;
    if all.contains((set, ip)) {
        let k = choose|k: int| 0 <= k < all.len() && all[k] == (set, ip);
        assert(0 < m && 0 <= k / m < sets.len() && 0 <= k % m < m) by (nonlinear_arith)
            requires
                0 <= k < sets.len() * m,
                0 <= m,
        ;
        assert(sets[k / m] == set);
        assert(addrs[k % m] == ip);
    }
    if sets.contains(set) && addrs.contains(ip) {
        let i = choose|i: int| 0 <= i < sets.len() && sets[i] == set;
        let j = choose|j: int| 0 <= j < addrs.len() && addrs[j] == ip;
        let k = i * m + j;
        assert(k / m == i && k % m == j && 0 <= k < sets.len() * m) by (nonlinear_arith)
            requires
                k == i * m + j,
                0 <= i < sets.len(),
                0 <= j < m,
        ;
        assert(all[k] == (set, ip));
    }
}

// ---------------------------------------------------------------------------
// Clearing
// ---------------------------------------------------------------------------

/// Clearing a policy empties the sandbox's own chain, deletes it, and deletes each of
/// its sets.
pub proof fn law_clearing_removes_the_chain(id: Seq<char>, sets: Seq<Seq<char>>)
    ensures
        ({
            let calls = removal(chain_of(safe_name(id)), sets);
            let chain = "wd_"@ + safe_name(id);
            &&& calls.len() == 2 + sets.len()
            &&& calls[0] == seq!["flush"@, "chain"@, "inet"@, "sandboxd"@, chain]
            &&& calls[1] == seq!["delete"@, "chain"@, "inet"@, "sandboxd"@, chain]
            &&& forall|i: int|
                0 <= i < sets.len() ==> #[trigger] calls[2 + i] == seq![
                    "delete"@,
                    "set"@,
                    "inet"@,
                    "sandboxd"@,
                    sets[i],
                ]
        }),
{
}

// ---------------------------------------------------------------------------
// What the functions hand out
// ---------------------------------------------------------------------------

/// The script that is rendered is the one that these laws speak of: its lines, each
/// ended by a newline. Only a range that cannot be read keeps it from being rendered.
pub proof fn law_rendered_script(
    id: &str,
    ip: Ipv4,
    policy: NetworkPolicy,
    r: Result<String, String>,
)
    requires
        call_ensures(render_policy_script, (id, ip, &policy), r),
    ensures
        r matches Ok(t) ==> t@ == joined(script_lines(id@, ip, policy@), "\n"@) + "\n"@,
        r is Err <==> bad_range(mode_rules(policy@), 0) is Some,
{
}

/// What is done with a query, and with its answer, is what these laws speak of.
pub proof fn law_queries_are_handled(
    registry: DomainRegistry,
    packet: &[u8],
    source: Option<Ipv4>,
    step: DnsStep,
)
    requires
        call_ensures(handle_dns_query, (&registry, packet, source), step),
    ensures
        step@ == dns_step(registry@, packet@, source),
{
}

/// Applying a policy refuses one that is not valid, and otherwise does what these laws
/// speak of.
pub proof fn law_policies_are_applied(
    id: &str,
    guest_ip: &str,
    policy: NetworkPolicy,
    ready: bool,
    r: Result<PolicyStep, String>,
)
    requires
        call_ensures(apply_policy, (id, guest_ip, &policy, ready), r),
    ensures
        r is Ok <==> crate::model::policy_fault(policy@) is None,
        r matches Ok(s) ==> s@ == policy_step(id@, guest_ip@, policy@, ready),
{
}

} // verus!
