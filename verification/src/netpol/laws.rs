//! Laws of the firewall plan.

use vstd::prelude::*;

use crate::common::ipfamily::IpFamily;
use crate::net::IpNet;
use crate::netpol::ipset::SetType;
use crate::netpol::model::{NetworkPolicy, Pod};
use crate::netpol::naming::{MARK_MATCHED, NWPLCY_TAIL, ROUTER_FORWARD, ROUTER_INPUT, ROUTER_OUTPUT};
use crate::netpol::synth::{Scene, SetView};

verus! {

/// Whether a text ends with another.
pub open spec fn ends_with(s: Seq<char>, p: Seq<char>) -> bool {
    p.len() <= s.len() && s.skip(s.len() - p.len()) == p
}

/// A pod that no policy selects for traffic to it gets no chain, no rule and no place in the set
/// of local pods.
pub proof fn lemma_unselected_pod_is_left_alone(sc: Scene, pod: Pod)
    requires
        forall|i: int|
            0 <= i < sc.policies.len() ==> !((#[trigger] sc.policies[i]).policy_types.ingress
                && sc.policies[i].applies_to(pod)),
    ensures
        !sc.programmed(pod),
        sc.pod_rules(pod).len() == 0,
        sc.pod_decls(pod).len() == 0,
        sc.programmed_ips(pod).len() == 0,
{
    let f = |p: NetworkPolicy| sc.chain_for(pod, p);
    crate::seqs::lemma_flat_empty(sc.policies, f);
}

/// A local pod with an address of its own in the family gets a chain exactly where some policy
/// selects it for traffic to it.
pub proof fn lemma_programmed_iff_selected(sc: Scene, pod: Pod)
    requires
        pod.node_name@ == sc.node,
        !pod.host_network,
        sc.ips_of(pod).len() > 0,
    ensures
        sc.programmed(pod) <==> exists|i: int|
            0 <= i < sc.policies.len() && (#[trigger] sc.policies[i]).policy_types.ingress
                && sc.policies[i].applies_to(pod),
{
    let f = |p: NetworkPolicy| sc.chain_for(pod, p);
    if exists|i: int|
        0 <= i < sc.policies.len() && (#[trigger] sc.policies[i]).policy_types.ingress
            && sc.policies[i].applies_to(pod) {
        let i = choose|i: int|
            0 <= i < sc.policies.len() && (#[trigger] sc.policies[i]).policy_types.ingress
                && sc.policies[i].applies_to(pod);
        let c = sc.chain_of(sc.policies[i]);
        assert(f(sc.policies[i])[0] == c);
        crate::seqs::lemma_flat_has(sc.policies, f, i, c);
        assert(sc.chains_for(pod).contains(c));
    } else {
        crate::seqs::lemma_flat_empty(sc.policies, f);
    }
}

/// What a pod contributes to the rules is in the rules.
proof fn lemma_pod_rule_in_plan(sc: Scene, j: int, rule: Seq<char>)
    requires
        0 <= j < sc.pods.len(),
        sc.pod_rules(sc.pods[j]).contains(rule),
    ensures
        sc.rules().contains(rule),
{
    let f = |p: Pod| sc.pod_rules(p);
    let g = |p: NetworkPolicy| sc.policy_rules(p);
    crate::seqs::lemma_flat_has(sc.pods, f, j, rule);
    let a = crate::netpol::synth::common_rules(sc.family);
    let b = crate::seqs::flat(sc.policies, g);
    let c = crate::seqs::flat(sc.pods, f);
    crate::seqs::lemma_in_sum(a + b, c, rule);
    crate::seqs::lemma_in_sum(a + b + c, sc.tail_rules(), rule);
    crate::seqs::lemma_in_sum(a + b + c + sc.tail_rules(), sc.final_rules(), rule);
}

/// Every address of a pod that has a chain is led to the chain from each of the three ways in:
/// routed, from the node's own sockets, and bridged.
pub proof fn lemma_three_ways_in(sc: Scene, j: int, k: int, way: int)
    requires
        0 <= j < sc.pods.len(),
        sc.programmed(sc.pods[j]),
        0 <= k < sc.ips_of(sc.pods[j]).len(),
        0 <= way < 3,
    ensures
        sc.rules().contains(sc.dispatch_rules(sc.pods[j], sc.ips_of(sc.pods[j])[k])[way]),
{
    let pod = sc.pods[j];
    let ips = sc.ips_of(pod);
    let rule = sc.dispatch_rules(pod, ips[k])[way];
    let fd = |ip: Seq<char>| sc.dispatch_rules(pod, ip);
    let fj = |ip: Seq<char>| sc.jump_rules(pod, ip);
    assert(fd(ips[k])[way] == rule);
    crate::seqs::lemma_flat_has(ips, fd, k, rule);
    let front = seq![sc.first_rule(pod)] + ips.map_values(|ip: Seq<char>| sc.local_rule(pod, ip))
        + crate::seqs::flat(ips, fj) + sc.end_rules(pod);
    crate::seqs::lemma_in_sum(front, crate::seqs::flat(ips, fd), rule);
    assert(sc.chain_rules(pod).contains(rule));
    lemma_pod_rule_in_plan(sc, j, rule);
}

/// In the chain of a pod the jump to the common rules comes first, hence before the reject of
/// what is not marked: the reply of an admitted connection is admitted before it could be
/// rejected.
pub proof fn lemma_common_before_reject(sc: Scene, pod: Pod)
    ensures
        sc.chain_rules(pod)[0] == sc.first_rule(pod),
        ({
            let ips = sc.ips_of(pod);
            let at = 1 + ips.len() + crate::seqs::flat(
                ips,
                |ip: Seq<char>| sc.jump_rules(pod, ip),
            ).len() + 1;
            &&& 0 < at < sc.chain_rules(pod).len()
            &&& sc.chain_rules(pod)[at as int] == sc.end_rules(pod)[1]
        }),
{
}

/// The last three rules of every plan are the jumps of the top-level chains to the tail chain.
pub proof fn lemma_top_chains_end_in_tail(sc: Scene)
    ensures
        ({
            let n = sc.rules().len();
            &&& n >= 3
            &&& sc.rules()[n - 3] == "-A "@ + ROUTER_INPUT@ + " -j "@ + NWPLCY_TAIL@
            &&& sc.rules()[n - 2] == "-A "@ + ROUTER_FORWARD@ + " -j "@ + NWPLCY_TAIL@
            &&& sc.rules()[n - 1] == "-A "@ + ROUTER_OUTPUT@ + " -j "@ + NWPLCY_TAIL@
        }),
{
}

/// What marks or returns does not accept.
proof fn lemma_no_accept(head: Seq<char>)
    ensures
        !ends_with(head + " -j MARK --set-xmark "@ + MARK_MATCHED@, " -j ACCEPT"@),
        !ends_with(
            head + " -m mark --mark "@ + MARK_MATCHED@ + " -j RETURN"@,
            " -j ACCEPT"@,
        ),
{
    reveal_strlit(" -j ACCEPT");
    reveal_strlit(" -j RETURN");
    reveal_strlit("0x10000/0x10000");
    let a = head + " -j MARK --set-xmark "@ + MARK_MATCHED@;
    let b = head + " -m mark --mark "@ + MARK_MATCHED@ + " -j RETURN"@;
    let p = " -j ACCEPT"@;
    assert(MARK_MATCHED@.last() == '0');
    assert(a.last() == '0');
    assert(b.last() == 'N');
    assert(p.last() == 'T');
    if ends_with(a, p) {
        assert(a.skip(a.len() - p.len()).last() == a.last());
    }
    if ends_with(b, p) {
        assert(b.skip(b.len() - p.len()).last() == b.last());
    }
}

/// No rule in the chain of a policy accepts: what a policy permits is marked and returned, so
/// that the chains of the other pods it concerns are asked too.
pub proof fn lemma_policies_never_accept(sc: Scene, pol: NetworkPolicy, rule: Seq<char>)
    requires
        sc.policy_rules(pol).contains(rule),
    ensures
        !ends_with(rule, " -j ACCEPT"@),
{
    let fi = |i: int| sc.rule_rules(pol, i);
    let i = crate::seqs::lemma_flat_from(
        crate::netpol::synth::indices(pol.ingress@.len()),
        fi,
        rule,
    );
    let idx = crate::netpol::synth::indices(pol.ingress@.len())[i];
    let chain = sc.chain_of(pol);
    let target = crate::netpol::synth::set_match(sc.target_set(pol), " dst"@);
    let ports = crate::netpol::synth::port_matches(pol.ingress@[idx].ports@);
    let fs = |s: Seq<char>|
        crate::seqs::flat(ports, |p: Seq<char>| crate::netpol::synth::verdict(chain, s, target, p));
    let a = crate::seqs::lemma_flat_from(sc.rule_sources(pol, idx), fs, rule);
    let s = sc.rule_sources(pol, idx)[a];
    let fp = |p: Seq<char>| crate::netpol::synth::verdict(chain, s, target, p);
    let b = crate::seqs::lemma_flat_from(ports, fp, rule);
    let head = "-A "@ + chain + s + target + ports[b];
    lemma_no_accept(head);
    let v = crate::netpol::synth::verdict(chain, s, target, ports[b]);
    let k = choose|k: int| 0 <= k < v.len() && v[k] == rule;
}

/// A policy for traffic to its pods without rules permits nothing: its chain is there and empty.
pub proof fn lemma_no_rules_permit_nothing(sc: Scene, pol: NetworkPolicy)
    requires
        pol.policy_types.ingress,
        pol.ingress@.len() == 0,
    ensures
        sc.policy_rules(pol).len() == 0,
        sc.policy_decls(pol) == seq![crate::netpol::synth::decl(sc.chain_of(pol))],
{
}

/// The set of a policy is not that of the local pods.
proof fn lemma_policy_set_name(prefix: Seq<char>, key: Seq<char>, family: IpFamily)
    requires
        prefix == crate::common::naming::SRC_PREFIX@ || prefix
            == crate::common::naming::DST_PREFIX@,
    ensures
        crate::netpol::naming::set_name(prefix, key) != crate::netpol::naming::local_pods_name(
            family,
        ),
{
    reveal_strlit("KUBE-SRC-");
    reveal_strlit("KUBE-DST-");
    reveal_strlit("kube-router-local-pods");
    assert(crate::netpol::naming::set_name(prefix, key)[0] == 'K');
    assert(crate::netpol::naming::local_pods_name(family)[0] == 'k');
}

/// Without the default reject there is no set of local pods, of either family, and the tail chain
/// only accepts what is marked.
pub proof fn lemma_no_default_deny(sc: Scene)
    requires
        !sc.default_deny,
    ensures
        forall|s: SetView, family: IpFamily| #[trigger]
            sc.sets().contains(s) ==> s.name != #[trigger] crate::netpol::naming::local_pods_name(
                family,
            ),
        sc.sets() == crate::seqs::flat(sc.policies, |p: NetworkPolicy| sc.policy_sets(p)),
        sc.tail_rules() == seq![
            "-A KUBE-NWPLCY-TAIL -m mark --mark "@ + crate::netpol::naming::MARK_ACCEPTED@
                + " -j ACCEPT"@,
        ],
{
    let f = |p: NetworkPolicy| sc.policy_sets(p);
    assert(sc.sets() =~= crate::seqs::flat(sc.policies, f));
    assert forall|s: SetView, family: IpFamily| #[trigger] sc.sets().contains(s) implies s.name
        != #[trigger] crate::netpol::naming::local_pods_name(family) by {
        let i = crate::seqs::lemma_flat_from(sc.policies, f, s);
        lemma_policy_set(sc, sc.policies[i], s, family);
    }
}

/// No set of a policy is that of the local pods.
proof fn lemma_policy_set(sc: Scene, pol: NetworkPolicy, s: SetView, family: IpFamily)
    requires
        sc.policy_sets(pol).contains(s),
    ensures
        s.name != crate::netpol::naming::local_pods_name(family),
{
    let g = |i: int| sc.rule_sets(pol, i);
    let n = crate::netpol::synth::indices(pol.ingress@.len());
    let t = target_view(sc, pol);
    assert(sc.policy_sets(pol) =~= seq![t] + crate::seqs::flat(n, g));
    crate::seqs::lemma_in_sum(seq![t], crate::seqs::flat(n, g), s);
    if s == t {
        lemma_policy_set_name(
            crate::common::naming::DST_PREFIX@,
            pol.namespace@ + pol.name@ + crate::common::naming::tag_of(sc.family),
            family,
        );
    } else {
        assert(!seq![t].contains(s));
        let x = crate::seqs::lemma_flat_from(n, g, s);
        let rs = sc.rule_sets(pol, n[x]);
        let k = choose|k: int| 0 <= k < rs.len() && rs[k] == s;
        let head = pol.namespace@ + pol.name@ + "ingressrule"@ + crate::text::dec(n[x] as nat)
            + crate::common::naming::tag_of(sc.family);
        lemma_policy_set_name(crate::common::naming::SRC_PREFIX@, head + "pod"@, family);
        lemma_policy_set_name(crate::common::naming::SRC_PREFIX@, head + "ipblock"@, family);
    }
}

/// The set of the pods that a policy protects, as it is made.
pub open spec fn target_view(sc: Scene, pol: NetworkPolicy) -> SetView {
    SetView {
        name: sc.target_set(pol),
        set_type: SetType::HashIp,
        family: sc.family,
        entries: sc.target_ips(pol),
    }
}

/// Every set that a rule of a policy matches on is made by the plan: that of the pods which the
/// policy protects, and those of the peers of the rule.
pub proof fn lemma_matched_sets_are_made(sc: Scene, p: int, i: int, k: int)
    requires
        0 <= p < sc.policies.len(),
        sc.policies[p].policy_types.ingress,
        0 <= i < sc.policies[p].ingress@.len(),
        0 <= k < sc.rule_sets(sc.policies[p], i).len(),
    ensures
        sc.sets().contains(target_view(sc, sc.policies[p])),
        sc.sets().contains(sc.rule_sets(sc.policies[p], i)[k]),
        sc.rule_sources(sc.policies[p], i)[k] == crate::netpol::synth::set_match(
            sc.rule_sets(sc.policies[p], i)[k].name,
            " src"@,
        ),
{
    let pol = sc.policies[p];
    let f = |p: NetworkPolicy| sc.policy_sets(p);
    let g = |i: int| sc.rule_sets(pol, i);
    let n = crate::netpol::synth::indices(pol.ingress@.len());
    let t = target_view(sc, pol);
    let s = sc.rule_sets(pol, i)[k];
    assert(sc.policy_sets(pol) =~= seq![t] + crate::seqs::flat(n, g));
    assert(seq![t][0] == t);
    assert(n[i] == i);
    assert(g(n[i])[k] == s);
    crate::seqs::lemma_flat_has(n, g, i, s);
    crate::seqs::lemma_in_sum(seq![t], crate::seqs::flat(n, g), t);
    crate::seqs::lemma_in_sum(seq![t], crate::seqs::flat(n, g), s);
    crate::seqs::lemma_flat_has(sc.policies, f, p, t);
    crate::seqs::lemma_flat_has(sc.policies, f, p, s);
    crate::seqs::lemma_in_sum(crate::seqs::flat(sc.policies, f), sc.local_sets(), t);
    crate::seqs::lemma_in_sum(crate::seqs::flat(sc.policies, f), sc.local_sets(), s);
}

/// With the default reject every pod network of the family is rejected both ways in the tail
/// chain, once for pods that are not in the set of local pods and once for all that was not
/// accepted.
pub proof fn lemma_default_deny_rejects(sc: Scene, c: int, way: int)
    requires
        sc.default_deny,
        0 <= c < sc.pod_cidrs.len(),
        crate::common::ipfamily::family_of(sc.pod_cidrs[c].addr) == sc.family,
        0 <= way < 2,
    ensures
        sc.tail_rules().contains(sc.gate_rules(sc.pod_cidrs[c])[way]),
        sc.tail_rules().contains(sc.wall_rules(sc.pod_cidrs[c])[way]),
{
    let fg = |c: IpNet| sc.gate_rules(c);
    let fw = |c: IpNet| sc.wall_rules(c);
    let cidr = sc.pod_cidrs[c];
    let g = sc.gate_rules(cidr)[way];
    let w = sc.wall_rules(cidr)[way];
    assert(fg(cidr)[way] == g);
    assert(fw(cidr)[way] == w);
    crate::seqs::lemma_flat_has(sc.pod_cidrs, fg, c, g);
    crate::seqs::lemma_flat_has(sc.pod_cidrs, fw, c, w);
    let accept = seq![
        "-A KUBE-NWPLCY-TAIL -m mark --mark "@ + crate::netpol::naming::MARK_ACCEPTED@
            + " -j ACCEPT"@,
    ];
    let a = crate::seqs::flat(sc.pod_cidrs, fg);
    let b = crate::seqs::flat(sc.pod_cidrs, fw);
    crate::seqs::lemma_in_sum(a, accept, g);
    crate::seqs::lemma_in_sum(a + accept, b, g);
    crate::seqs::lemma_in_sum(a + accept, b, w);
}

/// Every chain that is jumped to is declared: that of each pod which has one, and those of the
/// policies it jumps to.
pub proof fn lemma_jump_targets_are_declared(sc: Scene, j: int, chain: Seq<char>)
    requires
        0 <= j < sc.pods.len(),
        sc.programmed(sc.pods[j]),
        chain == sc.chain_of_pod(sc.pods[j]) || sc.chains_for(sc.pods[j]).contains(chain),
    ensures
        sc.decls().contains(crate::netpol::synth::decl(chain)),
{
    let pod = sc.pods[j];
    let d = crate::netpol::synth::decl(chain);
    let fp = |p: Pod| sc.pod_decls(p);
    let fn_ = |p: NetworkPolicy| sc.policy_decls(p);
    let a = crate::netpol::synth::base_decls();
    let b = crate::seqs::flat(sc.policies, fn_);
    let c = crate::seqs::flat(sc.pods, fp);
    if chain == sc.chain_of_pod(pod) {
        assert(fp(pod)[0] == d);
        crate::seqs::lemma_flat_has(sc.pods, fp, j, d);
    } else {
        let fc = |p: NetworkPolicy| sc.chain_for(pod, p);
        let i = crate::seqs::lemma_flat_from(sc.policies, fc, chain);
        let pol = sc.policies[i];
        assert(fc(pol)[0] == chain);
        assert(fn_(pol)[0] == d);
        crate::seqs::lemma_flat_has(sc.policies, fn_, i, d);
        crate::seqs::lemma_in_sum(a, b, d);
    }
    crate::seqs::lemma_in_sum(a + b, c, d);
}

/// Every set of a plan is of the plan's family.
pub proof fn lemma_sets_are_of_one_family(sc: Scene, s: SetView)
    requires
        sc.sets().contains(s),
    ensures
        s.family == sc.family,
{
    let f = |p: NetworkPolicy| sc.policy_sets(p);
    let a = crate::seqs::flat(sc.policies, f);
    crate::seqs::lemma_in_sum(a, sc.local_sets(), s);
    if a.contains(s) {
        let i = crate::seqs::lemma_flat_from(sc.policies, f, s);
        let pol = sc.policies[i];
        let g = |i: int| sc.rule_sets(pol, i);
        let n = crate::netpol::synth::indices(pol.ingress@.len());
        let t = seq![
            SetView {
                name: sc.target_set(pol),
                set_type: crate::netpol::ipset::SetType::HashIp,
                family: sc.family,
                entries: sc.target_ips(pol),
            },
        ];
        crate::seqs::lemma_in_sum(t, crate::seqs::flat(n, g), s);
        if t.contains(s) {
            let k = choose|k: int| 0 <= k < t.len() && t[k] == s;
        } else {
            let x = crate::seqs::lemma_flat_from(n, g, s);
            let rs = sc.rule_sets(pol, n[x]);
            let k = choose|k: int| 0 <= k < rs.len() && rs[k] == s;
        }
    } else {
        let ls = sc.local_sets();
        let k = choose|k: int| 0 <= k < ls.len() && ls[k] == s;
    }
}

} // verus!
