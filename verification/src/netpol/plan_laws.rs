//! Laws of the firewall plan on the texts of its rules: which rule stands where, written out.

use vstd::prelude::*;

use crate::common::ipfamily::IpFamily;
use crate::common::naming::hash_of;
use crate::net::IpNet;
use crate::netpol::ipset::SetType;
use crate::netpol::model::{NetworkPolicy, Pod, PortSpec};
use crate::netpol::peer_laws::meets;
use crate::netpol::synth::{Scene, SetView};

verus! {

/// The word for the family in the keys of names.
pub open spec fn family_word(family: IpFamily) -> Seq<char> {
    if family == IpFamily::V4 {
        "IPv4"@
    } else {
        "IPv6"@
    }
}

/// The target that refuses a packet of the family.
pub open spec fn refusal(family: IpFamily) -> Seq<char> {
    if family == IpFamily::V4 {
        "REJECT --reject-with icmp-port-unreachable"@
    } else {
        "REJECT --reject-with icmp6-port-unreachable"@
    }
}

/// The names of the chains and sets: a prefix and the hash of what they stand for. The chain of a
/// policy and the sets are of one family; chains carry the sync version, sets do not; the sets of
/// the peers of a rule carry its index and their kind.
pub proof fn lemma_names(sc: Scene, pol: NetworkPolicy, pod: Pod, i: nat)
    ensures
        sc.chain_of(pol) == "KUBE-NWPLCY-"@ + hash_of(
            pol.namespace@ + pol.name@ + sc.sync_version + family_word(sc.family),
        ),
        sc.chain_of_pod(pod) == "KUBE-POD-FW-"@ + hash_of(
            pod.namespace@ + pod.name@ + sc.sync_version,
        ),
        sc.target_set(pol) == "KUBE-DST-"@ + hash_of(
            pol.namespace@ + pol.name@ + family_word(sc.family),
        ),
        crate::netpol::naming::indexed_src_pod_set_name(
            pol.namespace@,
            pol.name@,
            i as int,
            sc.family,
        ) == "KUBE-SRC-"@ + hash_of(
            pol.namespace@ + pol.name@ + "ingressrule"@ + crate::text::dec(i) + family_word(
                sc.family,
            ) + "pod"@,
        ),
        crate::netpol::naming::indexed_src_ipblock_set_name(
            pol.namespace@,
            pol.name@,
            i as int,
            sc.family,
        ) == "KUBE-SRC-"@ + hash_of(
            pol.namespace@ + pol.name@ + "ingressrule"@ + crate::text::dec(i) + family_word(
                sc.family,
            ) + "ipblock"@,
        ),
        sc.family == IpFamily::V4 ==> crate::netpol::naming::local_pods_name(sc.family)
            == "kube-router-local-pods"@,
        sc.family == IpFamily::V6 ==> crate::netpol::naming::local_pods_name(sc.family)
            == "kube-router-local-pods"@ + "-inet6"@,
{
}

/// A policy of the list that restricts traffic to a pod: it is for traffic to its pods, is of
/// the pod's namespace, and the labels of the pod meet its selector.
pub open spec fn guards(pol: NetworkPolicy, pod: Pod) -> bool {
    pol.policy_types.ingress && pod.namespace@ == pol.namespace@ && meets(
        pol.pod_selector,
        pod.labels@,
    )
}

proof fn lemma_chain_for(sc: Scene, pod: Pod, pol: NetworkPolicy)
    ensures
        guards(pol, pod) ==> sc.chain_for(pod, pol) == seq![sc.chain_of(pol)],
        !guards(pol, pod) ==> sc.chain_for(pod, pol).len() == 0,
{
    crate::netpol::peer_laws::lemma_applies_by_labels(pol, pod);
}

/// The scene with other policies.
pub open spec fn with_policies(sc: Scene, policies: Seq<NetworkPolicy>) -> Scene {
    Scene { policies, ..sc }
}

/// The chains that a pod is led through are those of the policies that restrict traffic to it,
/// in their order: none without policies, its chain or nothing for a single policy, and for two
/// lists one after the other those of each, one after the other.
pub proof fn lemma_chains_add_up(
    sc: Scene,
    pod: Pod,
    a: Seq<NetworkPolicy>,
    b: Seq<NetworkPolicy>,
    pol: NetworkPolicy,
)
    ensures
        with_policies(sc, Seq::empty()).chains_for(pod).len() == 0,
        guards(pol, pod) ==> with_policies(sc, seq![pol]).chains_for(pod) == seq![
            sc.chain_of(pol),
        ],
        !guards(pol, pod) ==> with_policies(sc, seq![pol]).chains_for(pod).len() == 0,
        with_policies(sc, a + b).chains_for(pod) == with_policies(sc, a).chains_for(pod)
            + with_policies(sc, b).chains_for(pod),
{
    lemma_chain_for(sc, pod, pol);
    let f = |p: NetworkPolicy| sc.chain_for(pod, p);
    crate::seqs::lemma_flat_parts(a, b, pol, f);
    lemma_same_chains(sc, pod, Seq::empty());
    lemma_same_chains(sc, pod, seq![pol]);
    lemma_same_chains(sc, pod, a);
    lemma_same_chains(sc, pod, b);
    lemma_same_chains(sc, pod, a + b);
}

proof fn lemma_same_chains(sc: Scene, pod: Pod, policies: Seq<NetworkPolicy>)
    ensures
        with_policies(sc, policies).chains_for(pod) == crate::seqs::flat(
            policies,
            |p: NetworkPolicy| sc.chain_for(pod, p),
        ),
{
    let other = with_policies(sc, policies);
    let f = |p: NetworkPolicy| sc.chain_for(pod, p);
    let g = |p: NetworkPolicy| other.chain_for(pod, p);
    crate::seqs::lemma_flat_same(policies, f, g);
}

/// A chain is one that a pod is led through exactly where it is that of a policy that restricts
/// traffic to the pod.
pub proof fn lemma_chains_of_guards(sc: Scene, pod: Pod, c: Seq<char>)
    ensures
        sc.chains_for(pod).contains(c) <==> exists|p: int|
            0 <= p < sc.policies.len() && guards(#[trigger] sc.policies[p], pod) && c
                == sc.chain_of(sc.policies[p]),
{
    let f = |p: NetworkPolicy| sc.chain_for(pod, p);
    if sc.chains_for(pod).contains(c) {
        let p = crate::seqs::lemma_flat_from(sc.policies, f, c);
        lemma_chain_for(sc, pod, sc.policies[p]);
        assert(guards(sc.policies[p], pod) && c == sc.chain_of(sc.policies[p]));
    }
    if exists|p: int|
        0 <= p < sc.policies.len() && guards(#[trigger] sc.policies[p], pod) && c == sc.chain_of(
            sc.policies[p],
        ) {
        let p = choose|p: int|
            0 <= p < sc.policies.len() && guards(#[trigger] sc.policies[p], pod) && c
                == sc.chain_of(sc.policies[p]);
        lemma_chain_for(sc, pod, sc.policies[p]);
        assert(f(sc.policies[p])[0] == c);
        crate::seqs::lemma_flat_has(sc.policies, f, p, c);
    }
}

/// Whether a pod is to have a chain: it runs on the node, not on its network, has an address of
/// the family, and some policy restricts traffic to it.
pub open spec fn fenced(sc: Scene, pod: Pod) -> bool {
    &&& pod.node_name@ == sc.node
    &&& !pod.host_network
    &&& exists|k: int|
        0 <= k < pod.ips@.len() && (#[trigger] pod.ips@[k]) is V4 == (sc.family == IpFamily::V4)
    &&& exists|p: int| 0 <= p < sc.policies.len() && guards(#[trigger] sc.policies[p], pod)
}

/// A pod has rules, a declared chain and a place in the set of local pods exactly where it is to
/// have a chain.
pub proof fn lemma_rules_for_fenced_pods_only(sc: Scene, pod: Pod)
    ensures
        sc.programmed(pod) <==> fenced(sc, pod),
        sc.pod_rules(pod).len() > 0 <==> fenced(sc, pod),
        fenced(sc, pod) ==> sc.pod_decls(pod) == seq![":"@ + sc.chain_of_pod(pod) + " - [0:0]"@],
        !fenced(sc, pod) ==> sc.pod_decls(pod).len() == 0,
        fenced(sc, pod) ==> sc.programmed_ips(pod) == crate::netpol::translate::family_texts(
            pod.ips@,
            sc.family,
        ),
        !fenced(sc, pod) ==> sc.programmed_ips(pod).len() == 0,
{
    let ips = sc.ips_of(pod);
    let chains = sc.chains_for(pod);
    if ips.len() > 0 {
        crate::netpol::peer_laws::lemma_family_texts_has(pod.ips@, sc.family, ips[0]);
        assert(ips.contains(ips[0]));
    }
    if chains.len() > 0 {
        lemma_chains_of_guards(sc, pod, chains[0]);
        assert(chains.contains(chains[0]));
    }
    if exists|p: int| 0 <= p < sc.policies.len() && guards(#[trigger] sc.policies[p], pod) {
        let p = choose|p: int|
            0 <= p < sc.policies.len() && guards(#[trigger] sc.policies[p], pod);
        lemma_chains_of_guards(sc, pod, sc.chain_of(sc.policies[p]));
        assert(chains.contains(sc.chain_of(sc.policies[p])));
    }
    if exists|k: int|
        0 <= k < pod.ips@.len() && (#[trigger] pod.ips@[k]) is V4 == (sc.family
            == IpFamily::V4) {
        let k = choose|k: int|
            0 <= k < pod.ips@.len() && (#[trigger] pod.ips@[k]) is V4 == (sc.family
                == IpFamily::V4);
        crate::netpol::peer_laws::lemma_family_texts_has(
            pod.ips@,
            sc.family,
            pod.ips@[k].text(),
        );
        assert(ips.contains(pod.ips@[k].text()));
    }
}

/// The rules of a pod that has a chain, one by one. The common rules come first; then, for each
/// address, what the node itself sends to it is accepted; then, for each address, every policy
/// that restricts traffic to the pod is asked about what is sent to the address, and what is sent
/// from it is marked; then what is not marked is logged and refused, and what is marked loses the
/// mark and is marked accepted. Last, routed, local and bridged packets to each address are led
/// to the chain. There is no other rule.
pub proof fn lemma_pod_rules_written_out(sc: Scene, pod: Pod)
    requires
        fenced(sc, pod),
    ensures
        ({
            let rules = sc.pod_rules(pod);
            let ips = crate::netpol::translate::family_texts(pod.ips@, sc.family);
            let chains = sc.chains_for(pod);
            let chain = sc.chain_of_pod(pod);
            let n = ips.len() as int;
            let m = chains.len() as int;
            let end = 1 + n + n * (m + 1);
            &&& rules.len() == end + 4 + 3 * n
            &&& rules[0] == "-A "@ + chain + " -j "@ + "KUBE-NWPLCY-COMMON"@
            &&& forall|k: int|
                0 <= k < n ==> #[trigger] rules[1 + k] == "-A "@ + chain
                    + " -m addrtype --src-type LOCAL -d "@ + ips[k] + " -j ACCEPT"@
            &&& forall|k: int, c: int|
                0 <= k < n && 0 <= c < m ==> #[trigger] rules[1 + n + k * (m + 1) + c] == "-A "@
                    + chain + " -d "@ + ips[k] + " -j "@ + chains[c]
            &&& forall|k: int|
                0 <= k < n ==> #[trigger] rules[1 + n + k * (m + 1) + m] == "-A "@ + chain
                    + " -s "@ + ips[k] + " -j "@ + "KUBE-NWPLCY-DEFAULT"@
            &&& rules[end] == "-A "@ + chain + " -m mark ! --mark "@ + "0x10000/0x10000"@
                + " -j NFLOG --nflog-group 100 -m limit --limit 10/minute --limit-burst 10"@
            &&& rules[end + 1] == "-A "@ + chain + " -m mark ! --mark "@ + "0x10000/0x10000"@
                + " -j "@ + refusal(sc.family)
            &&& rules[end + 2] == "-A "@ + chain + " -j MARK --set-mark 0/0x10000"@
            &&& rules[end + 3] == "-A "@ + chain + " -j MARK --set-mark "@ + "0x20000/0x20000"@
            &&& forall|k: int|
                0 <= k < n ==> #[trigger] rules[end + 4 + k * 3] == "-A KUBE-ROUTER-FORWARD -d "@
                    + ips[k] + " -j "@ + chain
            &&& forall|k: int|
                0 <= k < n ==> #[trigger] rules[end + 4 + k * 3 + 1]
                    == "-A KUBE-ROUTER-OUTPUT -d "@ + ips[k] + " -j "@ + chain
            &&& forall|k: int|
                0 <= k < n ==> #[trigger] rules[end + 4 + k * 3 + 2]
                    == "-A KUBE-ROUTER-FORWARD -m physdev --physdev-is-bridged -d "@ + ips[k]
                    + " -j "@ + chain
        }),
{
    lemma_rules_for_fenced_pods_only(sc, pod);
    let rules = sc.pod_rules(pod);
    let ips = sc.ips_of(pod);
    let chains = sc.chains_for(pod);
    let n = ips.len() as int;
    let m = chains.len() as int;
    let fj = |ip: Seq<char>| sc.jump_rules(pod, ip);
    let fd = |ip: Seq<char>| sc.dispatch_rules(pod, ip);
    let first = seq![sc.first_rule(pod)];
    let locals = ips.map_values(|ip: Seq<char>| sc.local_rule(pod, ip));
    let jumps = crate::seqs::flat(ips, fj);
    let ends = sc.end_rules(pod);
    let ways = crate::seqs::flat(ips, fd);
    assert(rules == first + locals + jumps + ends + ways);
    crate::seqs::lemma_flat_width(ips, fj, m + 1);
    crate::seqs::lemma_flat_width(ips, fd, 3);
    let end = 1 + n + n * (m + 1);
    assert(jumps.len() == n * (m + 1));
    assert(0 <= n * (m + 1)) by (nonlinear_arith)
        requires
            0 <= n,
            0 <= m,
    ;
    assert forall|k: int| 0 <= k < n implies #[trigger] rules[1 + k] == locals[k] by {}
    assert forall|k: int, c: int| 0 <= k < n && 0 <= c < m + 1 implies #[trigger] rules[1 + n + k
        * (m + 1) + c] == fj(ips[k])[c] by {
        crate::seqs::lemma_flat_at(ips, fj, m + 1, k, c);
        assert(rules[1 + n + (k * (m + 1) + c)] == jumps[k * (m + 1) + c]);
    }
    assert forall|k: int| 0 <= k < n implies #[trigger] rules[1 + n + k * (m + 1) + m] == fj(
        ips[k],
    )[m] by {
        crate::seqs::lemma_flat_at(ips, fj, m + 1, k, m);
        assert(rules[1 + n + (k * (m + 1) + m)] == jumps[k * (m + 1) + m]);
    }
    assert forall|e: int| 0 <= e < 4 implies #[trigger] rules[end + e] == ends[e] by {}
    assert(rules[end] == rules[end + 0]);
    assert forall|k: int| 0 <= k < n implies #[trigger] rules[end + 4 + k * 3] == fd(
        ips[k],
    )[0] by {
        crate::seqs::lemma_flat_at(ips, fd, 3, k, 0);
        assert(rules[end + 4 + k * 3] == ways[k * 3 + 0]);
    }
    assert forall|k: int| 0 <= k < n implies #[trigger] rules[end + 4 + k * 3 + 1] == fd(
        ips[k],
    )[1] by {
        crate::seqs::lemma_flat_at(ips, fd, 3, k, 1);
        assert(rules[end + 4 + k * 3 + 1] == ways[k * 3 + 1]);
    }
    assert forall|k: int| 0 <= k < n implies #[trigger] rules[end + 4 + k * 3 + 2] == fd(
        ips[k],
    )[2] by {
        crate::seqs::lemma_flat_at(ips, fd, 3, k, 2);
        assert(rules[end + 4 + k * 3 + 2] == ways[k * 3 + 2]);
    }
}

/// The conditions on the source of a packet under which a rule of a policy speaks: none where it
/// has no peers; otherwise membership in the set of pods, then in the set of networks, each only
/// where the set has entries.
pub proof fn lemma_sources_written_out(sc: Scene, pol: NetworkPolicy, i: nat)
    requires
        i < pol.ingress@.len(),
    ensures
        ({
            let peers = pol.ingress@[i as int].peers@;
            let ips = sc.rule_ips(pol, pol.ingress@[i as int]);
            let nets = crate::netpol::translate::peers_nets(peers, sc.family);
            let pods = " -m set --match-set "@ + crate::netpol::naming::indexed_src_pod_set_name(
                pol.namespace@,
                pol.name@,
                i as int,
                sc.family,
            ) + " src"@;
            let blocks = " -m set --match-set "@
                + crate::netpol::naming::indexed_src_ipblock_set_name(
                pol.namespace@,
                pol.name@,
                i as int,
                sc.family,
            ) + " src"@;
            let got = sc.rule_sources(pol, i as int);
            &&& peers.len() == 0 ==> got == seq![Seq::<char>::empty()]
            &&& peers.len() > 0 && ips.len() > 0 && nets.len() > 0 ==> got == seq![pods, blocks]
            &&& peers.len() > 0 && ips.len() > 0 && nets.len() == 0 ==> got == seq![pods]
            &&& peers.len() > 0 && ips.len() == 0 && nets.len() > 0 ==> got == seq![blocks]
            &&& peers.len() > 0 && ips.len() == 0 && nets.len() == 0 ==> got.len() == 0
        }),
{
}

/// The sets of a rule of a policy: one of single addresses for pods and one of networks, each
/// only where the rule has peers and the set has entries, both of the family of the plan.
pub proof fn lemma_rule_sets_written_out(sc: Scene, pol: NetworkPolicy, i: nat, s: SetView)
    requires
        i < pol.ingress@.len(),
    ensures
        ({
            let peers = pol.ingress@[i as int].peers@;
            let ips = sc.rule_ips(pol, pol.ingress@[i as int]);
            let nets = crate::netpol::translate::peers_nets(peers, sc.family);
            let pods = SetView {
                name: crate::netpol::naming::indexed_src_pod_set_name(
                    pol.namespace@,
                    pol.name@,
                    i as int,
                    sc.family,
                ),
                set_type: SetType::HashIp,
                family: sc.family,
                entries: ips,
            };
            let blocks = SetView {
                name: crate::netpol::naming::indexed_src_ipblock_set_name(
                    pol.namespace@,
                    pol.name@,
                    i as int,
                    sc.family,
                ),
                set_type: SetType::HashNet,
                family: sc.family,
                entries: nets,
            };
            sc.rule_sets(pol, i as int).contains(s) <==> peers.len() > 0 && ((s == pods
                && ips.len() > 0) || (s == blocks && nets.len() > 0))
        }),
{
    let sets = sc.rule_sets(pol, i as int);
    if sets.len() > 0 {
        assert(sets.contains(sets[0]));
    }
    if sets.len() > 1 {
        assert(sets.contains(sets[1]));
    }
}

/// The conditions on the port: none where a rule has no ports; otherwise one for each port, in
/// order, with the protocol, and with the number where the port has one.
pub proof fn lemma_port_conditions_written_out(ports: Seq<PortSpec>, q: int)
    requires
        0 <= q < ports.len(),
    ensures
        crate::netpol::synth::port_matches(Seq::empty()) == seq![Seq::<char>::empty()],
        crate::netpol::synth::port_matches(ports).len() == ports.len(),
        ports[q].port is None ==> crate::netpol::synth::port_matches(ports)[q] == " -p "@
            + ports[q].protocol@,
        ports[q].port matches Some(n) ==> crate::netpol::synth::port_matches(ports)[q] == " -p "@
            + ports[q].protocol@ + " --dport "@ + crate::text::dec(n as nat),
{
}

/// The rules of one rule of a policy, one by one: for each condition on the source and each on
/// the port, in this order, one that marks what meets both and goes to a protected pod, and one
/// that returns it.
pub proof fn lemma_rule_rules_written_out(sc: Scene, pol: NetworkPolicy, i: int)
    requires
        0 <= i < pol.ingress@.len(),
    ensures
        ({
            let rules = sc.rule_rules(pol, i);
            let sources = sc.rule_sources(pol, i);
            let ports = crate::netpol::synth::port_matches(pol.ingress@[i].ports@);
            let m = ports.len() as int;
            let to = " -m set --match-set "@ + sc.target_set(pol) + " dst"@;
            &&& rules.len() == sources.len() * (m * 2)
            &&& forall|s: int, q: int|
                0 <= s < sources.len() && 0 <= q < m ==> #[trigger] rules[s * (m * 2) + q * 2]
                    == "-A "@ + sc.chain_of(pol) + sources[s] + to + ports[q]
                    + " -j MARK --set-xmark "@ + "0x10000/0x10000"@
            &&& forall|s: int, q: int|
                0 <= s < sources.len() && 0 <= q < m ==> #[trigger] rules[s * (m * 2) + q * 2
                    + 1] == "-A "@ + sc.chain_of(pol) + sources[s] + to + ports[q]
                    + " -m mark --mark "@ + "0x10000/0x10000"@ + " -j RETURN"@
        }),
{
    let rules = sc.rule_rules(pol, i);
    let sources = sc.rule_sources(pol, i);
    let chain = sc.chain_of(pol);
    let ports = crate::netpol::synth::port_matches(pol.ingress@[i].ports@);
    let m = ports.len() as int;
    let target = crate::netpol::synth::set_match(sc.target_set(pol), " dst"@);
    let fs = |s: Seq<char>|
        crate::seqs::flat(ports, |p: Seq<char>| crate::netpol::synth::verdict(chain, s, target, p));
    assert forall|s: int| 0 <= s < sources.len() implies fs(#[trigger] sources[s]).len() == m
        * 2 by {
        let x = sources[s];
        let fp = |p: Seq<char>| crate::netpol::synth::verdict(chain, x, target, p);
        crate::seqs::lemma_flat_width(ports, fp, 2);
    }
    crate::seqs::lemma_flat_width(sources, fs, m * 2);
    assert forall|s: int, q: int| 0 <= s < sources.len() && 0 <= q < m implies #[trigger] rules[s
        * (m * 2) + q * 2] == crate::netpol::synth::verdict(
        chain,
        sources[s],
        target,
        ports[q],
    )[0] by {
        let x = sources[s];
        let fp = |p: Seq<char>| crate::netpol::synth::verdict(chain, x, target, p);
        crate::seqs::lemma_flat_at(ports, fp, 2, q, 0);
        crate::seqs::lemma_flat_at(sources, fs, m * 2, s, q * 2);
    }
    assert forall|s: int, q: int| 0 <= s < sources.len() && 0 <= q < m implies #[trigger] rules[s
        * (m * 2) + q * 2 + 1] == crate::netpol::synth::verdict(
        chain,
        sources[s],
        target,
        ports[q],
    )[1] by {
        let x = sources[s];
        let fp = |p: Seq<char>| crate::netpol::synth::verdict(chain, x, target, p);
        crate::seqs::lemma_flat_at(ports, fp, 2, q, 1);
        crate::seqs::lemma_flat_at(sources, fs, m * 2, s, q * 2 + 1);
    }
}

/// What holds of the rules of a policy holds rule by rule: a policy that is not for traffic to
/// its pods, or has no rules, has none; one rule more adds the rules of that rule at the end, and
/// its sets.
pub proof fn lemma_policy_rules_add_up(
    sc: Scene,
    less: NetworkPolicy,
    more: NetworkPolicy,
    n: int,
)
    requires
        more.namespace@ == less.namespace@,
        more.name@ == less.name@,
        more.pod_selector == less.pod_selector,
        more.policy_types == less.policy_types,
        more.ingress@.len() == n + 1,
        less.ingress@ == more.ingress@.take(n),
        n >= 0,
    ensures
        !less.policy_types.ingress ==> sc.policy_rules(less).len() == 0 && sc.policy_sets(
            less,
        ).len() == 0 && sc.policy_decls(less).len() == 0,
        less.policy_types.ingress && n == 0 ==> sc.policy_rules(less).len() == 0,
        less.policy_types.ingress ==> sc.policy_decls(less) == seq![
            ":"@ + sc.chain_of(less) + " - [0:0]"@,
        ],
        less.policy_types.ingress ==> sc.policy_rules(more) == sc.policy_rules(less)
            + sc.rule_rules(more, n),
        less.policy_types.ingress && n == 0 ==> sc.policy_sets(less) == seq![
            (SetView {
                name: sc.target_set(less),
                set_type: SetType::HashIp,
                family: sc.family,
                entries: sc.target_ips(less),
            }),
        ],
        less.policy_types.ingress ==> sc.policy_sets(more) == sc.policy_sets(less)
            + sc.rule_sets(more, n),
{
    if less.policy_types.ingress {
        let small = crate::netpol::synth::indices(less.ingress@.len());
        let big = crate::netpol::synth::indices(more.ingress@.len());
        assert(big.drop_last() =~= small);
        assert(big.last() == n);
        let f = |i: int| sc.rule_rules(more, i);
        let g = |i: int| sc.rule_rules(less, i);
        let fs = |i: int| sc.rule_sets(more, i);
        let gs = |i: int| sc.rule_sets(less, i);
        assert forall|j: int| 0 <= j < small.len() implies f(#[trigger] small[j]) == g(
            small[j],
        ) && fs(small[j]) == gs(small[j]) by {
            assert(more.ingress@[j] == less.ingress@[j]);
            assert(sc.rule_sets(more, j) == sc.rule_sets(less, j));
        }
        crate::seqs::lemma_flat_same(small, f, g);
        crate::seqs::lemma_flat_same(small, fs, gs);
        let ft = |p: Pod|
            if less.applies_to(p) {
                crate::netpol::translate::family_texts(p.ips@, sc.family)
            } else {
                Seq::empty()
            };
        let gt = |p: Pod|
            if more.applies_to(p) {
                crate::netpol::translate::family_texts(p.ips@, sc.family)
            } else {
                Seq::empty()
            };
        crate::seqs::lemma_flat_same(sc.pods, ft, gt);
        assert(sc.policy_rules(more) =~= sc.policy_rules(less) + sc.rule_rules(more, n));
        assert(sc.policy_sets(more) =~= sc.policy_sets(less) + sc.rule_sets(more, n));
        if n == 0 {
            assert(sc.policy_sets(less) =~= seq![
                SetView {
                    name: sc.target_set(less),
                    set_type: SetType::HashIp,
                    family: sc.family,
                    entries: sc.target_ips(less),
                },
            ]);
        }
    }
}

/// The set of the pods that a policy protects holds exactly the addresses of the family of the
/// pods of its namespace whose labels meet its selector.
pub proof fn lemma_protected_addresses(sc: Scene, pol: NetworkPolicy, t: Seq<char>)
    ensures
        sc.target_ips(pol).contains(t) <==> exists|j: int, k: int|
            0 <= j < sc.pods.len() && 0 <= k < sc.pods[j].ips@.len() && sc.pods[j].namespace@
                == pol.namespace@ && meets(pol.pod_selector, sc.pods[j].labels@)
                && sc.pods[j].ips@[k] is V4 == (sc.family == IpFamily::V4)
                && #[trigger] sc.pods[j].ips@[k].text() == t,
{
    let f = |p: Pod|
        if pol.applies_to(p) {
            crate::netpol::translate::family_texts(p.ips@, sc.family)
        } else {
            Seq::empty()
        };
    if sc.target_ips(pol).contains(t) {
        let j = crate::seqs::lemma_flat_from(sc.pods, f, t);
        let pod = sc.pods[j];
        crate::netpol::peer_laws::lemma_applies_by_labels(pol, pod);
        crate::netpol::peer_laws::lemma_family_texts_has(pod.ips@, sc.family, t);
        let k = choose|k: int|
            0 <= k < pod.ips@.len() && (#[trigger] pod.ips@[k]) is V4 == (sc.family
                == IpFamily::V4) && pod.ips@[k].text() == t;
        assert(sc.pods[j].ips@[k].text() == t);
    }
    if exists|j: int, k: int|
        0 <= j < sc.pods.len() && 0 <= k < sc.pods[j].ips@.len() && sc.pods[j].namespace@
            == pol.namespace@ && meets(pol.pod_selector, sc.pods[j].labels@)
            && sc.pods[j].ips@[k] is V4 == (sc.family == IpFamily::V4)
            && #[trigger] sc.pods[j].ips@[k].text() == t {
        let (j, k) = choose|j: int, k: int|
            0 <= j < sc.pods.len() && 0 <= k < sc.pods[j].ips@.len() && sc.pods[j].namespace@
                == pol.namespace@ && meets(pol.pod_selector, sc.pods[j].labels@)
                && sc.pods[j].ips@[k] is V4 == (sc.family == IpFamily::V4)
                && #[trigger] sc.pods[j].ips@[k].text() == t;
        let pod = sc.pods[j];
        crate::netpol::peer_laws::lemma_applies_by_labels(pol, pod);
        assert(pod.ips@[k] is V4 == (sc.family == IpFamily::V4) && pod.ips@[k].text() == t);
        crate::netpol::peer_laws::lemma_family_texts_has(pod.ips@, sc.family, t);
        crate::seqs::lemma_flat_has(sc.pods, f, j, t);
    }
}

/// The rules of a plan stand in this order: the common ones, those of each policy, those of each
/// pod, those of the tail chain, and the jumps to it.
pub proof fn lemma_plan_order(sc: Scene)
    ensures
        sc.rules() == crate::netpol::synth::common_rules(sc.family) + crate::seqs::flat(
            sc.policies,
            |p: NetworkPolicy| sc.policy_rules(p),
        ) + crate::seqs::flat(sc.pods, |p: Pod| sc.pod_rules(p)) + sc.tail_rules() + seq![
            "-A "@ + "KUBE-ROUTER-INPUT"@ + " -j "@ + "KUBE-NWPLCY-TAIL"@,
            "-A "@ + "KUBE-ROUTER-FORWARD"@ + " -j "@ + "KUBE-NWPLCY-TAIL"@,
            "-A "@ + "KUBE-ROUTER-OUTPUT"@ + " -j "@ + "KUBE-NWPLCY-TAIL"@,
        ],
        sc.decls() == seq![
            ":"@ + "KUBE-ROUTER-INPUT"@ + " - [0:0]"@,
            ":"@ + "KUBE-ROUTER-FORWARD"@ + " - [0:0]"@,
            ":"@ + "KUBE-ROUTER-OUTPUT"@ + " - [0:0]"@,
            ":"@ + "KUBE-NWPLCY-COMMON"@ + " - [0:0]"@,
            ":"@ + "KUBE-NWPLCY-DEFAULT"@ + " - [0:0]"@,
            ":"@ + "KUBE-NWPLCY-TAIL"@ + " - [0:0]"@,
        ] + crate::seqs::flat(sc.policies, |p: NetworkPolicy| sc.policy_decls(p))
            + crate::seqs::flat(sc.pods, |p: Pod| sc.pod_decls(p)),
        !sc.default_deny ==> sc.sets() == crate::seqs::flat(
            sc.policies,
            |p: NetworkPolicy| sc.policy_sets(p),
        ),
        sc.default_deny ==> sc.sets() == crate::seqs::flat(
            sc.policies,
            |p: NetworkPolicy| sc.policy_sets(p),
        ).push(
            (SetView {
                name: crate::netpol::naming::local_pods_name(sc.family),
                set_type: SetType::HashIp,
                family: sc.family,
                entries: crate::seqs::flat(sc.pods, |p: Pod| sc.programmed_ips(p)),
            }),
        ),
{
}

/// The common rules: what belongs to no connection is dropped, what belongs to one is accepted,
/// then each kind of control message that is let in; last, the mark of unrestricted traffic.
pub proof fn lemma_common_rules_written_out()
    ensures
        crate::netpol::synth::common_rules(IpFamily::V4) == seq![
            "-A KUBE-NWPLCY-COMMON -m conntrack --ctstate INVALID -j DROP"@,
            "-A KUBE-NWPLCY-COMMON -m conntrack --ctstate RELATED,ESTABLISHED -j ACCEPT"@,
            admitted("icmp"@, "--icmp-type"@, "echo-request"@),
            admitted("icmp"@, "--icmp-type"@, "destination-unreachable"@),
            admitted("icmp"@, "--icmp-type"@, "time-exceeded"@),
            "-A KUBE-NWPLCY-DEFAULT -j MARK --set-xmark "@ + "0x10000/0x10000"@,
        ],
        crate::netpol::synth::common_rules(IpFamily::V6) == seq![
            "-A KUBE-NWPLCY-COMMON -m conntrack --ctstate INVALID -j DROP"@,
            "-A KUBE-NWPLCY-COMMON -m conntrack --ctstate RELATED,ESTABLISHED -j ACCEPT"@,
            admitted("icmpv6"@, "--icmpv6-type"@, "echo-request"@),
            admitted("icmpv6"@, "--icmpv6-type"@, "destination-unreachable"@),
            admitted("icmpv6"@, "--icmpv6-type"@, "time-exceeded"@),
            admitted("icmpv6"@, "--icmpv6-type"@, "neighbor-solicitation"@),
            admitted("icmpv6"@, "--icmpv6-type"@, "neighbor-advertisement"@),
            admitted("icmpv6"@, "--icmpv6-type"@, "echo-reply"@),
            "-A KUBE-NWPLCY-DEFAULT -j MARK --set-xmark "@ + "0x10000/0x10000"@,
        ],
{
}

/// The text of the rule that accepts one kind of control message.
pub open spec fn admitted(protocol: Seq<char>, option: Seq<char>, kind: Seq<char>) -> Seq<char> {
    "-A KUBE-NWPLCY-COMMON -p "@ + protocol + " "@ + option + " "@ + kind + " -j ACCEPT"@
}

/// The tail chain: accepts what is marked accepted. With the default reject it first refuses what
/// comes from or goes to a pod network of the family by way of an address that no chain protects
/// yet, and in the end refuses all else that comes from or goes to such a network. Networks of
/// the other family play no part.
pub proof fn lemma_tail_written_out(sc: Scene, n: IpNet)
    ensures
        ({
            let set = crate::netpol::naming::local_pods_name(sc.family);
            let accept = "-A KUBE-NWPLCY-TAIL -m mark --mark "@ + "0x20000/0x20000"@
                + " -j ACCEPT"@;
            let gates = seq![
                "-A KUBE-NWPLCY-TAIL -s "@ + n.text() + " -m set ! --match-set "@ + set
                    + " src -j "@ + refusal(sc.family),
                "-A KUBE-NWPLCY-TAIL -d "@ + n.text() + " -m set ! --match-set "@ + set
                    + " dst -j "@ + refusal(sc.family),
            ];
            let walls = seq![
                "-A KUBE-NWPLCY-TAIL -s "@ + n.text() + " -j "@ + refusal(sc.family),
                "-A KUBE-NWPLCY-TAIL -d "@ + n.text() + " -j "@ + refusal(sc.family),
            ];
            &&& !sc.default_deny ==> sc.tail_rules() == seq![accept]
            &&& sc.default_deny ==> sc.tail_rules() == crate::seqs::flat(
                sc.pod_cidrs,
                |c: IpNet| sc.gate_rules(c),
            ) + seq![accept] + crate::seqs::flat(sc.pod_cidrs, |c: IpNet| sc.wall_rules(c))
            &&& n.addr is V4 == (sc.family == IpFamily::V4) ==> sc.gate_rules(n) == gates
                && sc.wall_rules(n) == walls
            &&& n.addr is V4 != (sc.family == IpFamily::V4) ==> sc.gate_rules(n).len() == 0
                && sc.wall_rules(n).len() == 0
        }),
{
}

/// The rules of the pod at `j` stand together in the plan, in their order.
pub proof fn lemma_pod_rules_stand_together(sc: Scene, j: int) -> (o: int)
    requires
        0 <= j < sc.pods.len(),
    ensures
        0 <= o,
        o + sc.pod_rules(sc.pods[j]).len() < sc.rules().len() - 3,
        forall|i: int|
            0 <= i < sc.pod_rules(sc.pods[j]).len() ==> #[trigger] sc.pod_rules(sc.pods[j])[i]
                == sc.rules()[o + i],
{
    let f = |p: Pod| sc.pod_rules(p);
    let g = |p: NetworkPolicy| sc.policy_rules(p);
    let before = sc.pods.take(j);
    let after = sc.pods.skip(j + 1);
    let pod = sc.pods[j];
    assert(sc.pods =~= (before + seq![pod]) + after);
    crate::seqs::lemma_flat_parts(before + seq![pod], after, pod, f);
    crate::seqs::lemma_flat_parts(before, seq![pod], pod, f);
    let head = crate::netpol::synth::common_rules(sc.family) + crate::seqs::flat(
        sc.policies,
        g,
    );
    let o = head.len() + crate::seqs::flat(before, f).len();
    let all = crate::seqs::flat(sc.pods, f);
    assert forall|i: int| 0 <= i < sc.pod_rules(pod).len() implies #[trigger] sc.pod_rules(pod)[i]
        == sc.rules()[o + i] by {
        assert(all[crate::seqs::flat(before, f).len() + i] == sc.pod_rules(pod)[i]);
        assert(sc.rules()[head.len() + (crate::seqs::flat(before, f).len() + i)]
            == all[crate::seqs::flat(before, f).len() + i]);
    }
    o as int
}

/// The rules of the policy at `p` stand together in the plan, in their order.
pub proof fn lemma_policy_rules_stand_together(sc: Scene, p: int) -> (o: int)
    requires
        0 <= p < sc.policies.len(),
    ensures
        0 <= o,
        o + sc.policy_rules(sc.policies[p]).len() <= sc.rules().len(),
        forall|i: int|
            0 <= i < sc.policy_rules(sc.policies[p]).len()
                ==> #[trigger] sc.policy_rules(sc.policies[p])[i] == sc.rules()[o + i],
{
    let g = |p: NetworkPolicy| sc.policy_rules(p);
    let before = sc.policies.take(p);
    let after = sc.policies.skip(p + 1);
    let pol = sc.policies[p];
    assert(sc.policies =~= (before + seq![pol]) + after);
    crate::seqs::lemma_flat_parts(before + seq![pol], after, pol, g);
    crate::seqs::lemma_flat_parts(before, seq![pol], pol, g);
    let head = crate::netpol::synth::common_rules(sc.family);
    let o = head.len() + crate::seqs::flat(before, g).len();
    let all = crate::seqs::flat(sc.policies, g);
    assert forall|i: int| 0 <= i < sc.policy_rules(pol).len() implies #[trigger] sc.policy_rules(
        pol,
    )[i] == sc.rules()[o + i] by {
        assert(all[crate::seqs::flat(before, g).len() + i] == sc.policy_rules(pol)[i]);
        assert(sc.rules()[head.len() + (crate::seqs::flat(before, g).len() + i)]
            == all[crate::seqs::flat(before, g).len() + i]);
    }
    o as int
}

/// For every address of a pod that is to have a chain, and every policy that restricts traffic
/// to the pod, the plan holds the rule that asks the policy's chain about packets to that
/// address, in the pod's chain, after the jump to the common rules and before the rule that
/// refuses what is not marked.
pub proof fn lemma_policies_are_asked_before_refusal(sc: Scene, j: int, k: int, p: int)
    requires
        0 <= j < sc.pods.len(),
        sc.pods[j].node_name@ == sc.node,
        !sc.pods[j].host_network,
        0 <= k < sc.pods[j].ips@.len(),
        sc.pods[j].ips@[k] is V4 == (sc.family == IpFamily::V4),
        0 <= p < sc.policies.len(),
        guards(sc.policies[p], sc.pods[j]),
    ensures
        exists|x: int, y: int, z: int|
            #![trigger sc.rules()[x], sc.rules()[y], sc.rules()[z]]
            {
                let chain = "KUBE-POD-FW-"@ + hash_of(
                    sc.pods[j].namespace@ + sc.pods[j].name@ + sc.sync_version,
                );
                &&& 0 <= x < y < z < sc.rules().len()
                &&& sc.rules()[x] == "-A "@ + chain + " -j "@ + "KUBE-NWPLCY-COMMON"@
                &&& sc.rules()[y] == "-A "@ + chain + " -d "@ + sc.pods[j].ips@[k].text()
                    + " -j "@ + ("KUBE-NWPLCY-"@ + hash_of(
                    sc.policies[p].namespace@ + sc.policies[p].name@ + sc.sync_version
                        + family_word(sc.family),
                ))
                &&& sc.rules()[z] == "-A "@ + chain + " -m mark ! --mark "@ + "0x10000/0x10000"@
                    + " -j "@ + refusal(sc.family)
            },
{
    let pod = sc.pods[j];
    assert(fenced(sc, pod));
    lemma_pod_rules_written_out(sc, pod);
    let o = lemma_pod_rules_stand_together(sc, j);
    let rules = sc.pod_rules(pod);
    let ips = crate::netpol::translate::family_texts(pod.ips@, sc.family);
    let chains = sc.chains_for(pod);
    let n = ips.len() as int;
    let m = chains.len() as int;
    let end = 1 + n + n * (m + 1);
    crate::netpol::peer_laws::lemma_family_texts_has(pod.ips@, sc.family, pod.ips@[k].text());
    let a = choose|a: int| 0 <= a < ips.len() && ips[a] == pod.ips@[k].text();
    lemma_chains_of_guards(sc, pod, sc.chain_of(sc.policies[p]));
    let c = choose|c: int| 0 <= c < chains.len() && chains[c] == sc.chain_of(sc.policies[p]);
    let y = 1 + n + a * (m + 1) + c;
    assert(0 <= a * (m + 1) && a * (m + 1) + c < n * (m + 1)) by (nonlinear_arith)
        requires
            0 <= a < n,
            0 <= c < m,
    ;
    assert(rules[0] == sc.rules()[o + 0]);
    assert(rules[y] == sc.rules()[o + y]);
    assert(rules[end + 1] == sc.rules()[o + (end + 1)]);
    lemma_names(sc, sc.policies[p], pod, 0);
}

/// The names of all sets that can stand for a policy: a prefix for the side of the packet, and
/// the hash of the namespace, the name, the direction, the indices, the family and the kind.
pub proof fn lemma_set_names_written_out(
    ns: Seq<char>,
    name: Seq<char>,
    i: nat,
    e: nat,
    family: IpFamily,
)
    ensures
        crate::netpol::naming::src_set_name(ns, name, family) == "KUBE-SRC-"@ + hash_of(
            ns + name + family_word(family),
        ),
        crate::netpol::naming::dst_set_name(ns, name, family) == "KUBE-DST-"@ + hash_of(
            ns + name + family_word(family),
        ),
        crate::netpol::naming::indexed_src_set_name(ns, name, i as int, family) == "KUBE-SRC-"@
            + hash_of(ns + name + "ingress"@ + crate::text::dec(i) + family_word(family)),
        crate::netpol::naming::indexed_dst_set_name(ns, name, i as int, family) == "KUBE-DST-"@
            + hash_of(ns + name + "egress"@ + crate::text::dec(i) + family_word(family)),
        crate::netpol::naming::indexed_dst_pod_set_name(ns, name, i as int, family)
            == "KUBE-DST-"@ + hash_of(
            ns + name + "egressrule"@ + crate::text::dec(i) + family_word(family) + "pod"@,
        ),
        crate::netpol::naming::indexed_dst_ipblock_set_name(ns, name, i as int, family)
            == "KUBE-DST-"@ + hash_of(
            ns + name + "egressrule"@ + crate::text::dec(i) + family_word(family) + "ipblock"@,
        ),
        crate::netpol::naming::indexed_ingress_named_port_set_name(
            ns,
            name,
            i as int,
            e as int,
            family,
        ) == "KUBE-DST-"@ + hash_of(
            ns + name + "ingressrule"@ + crate::text::dec(i) + crate::text::dec(e) + family_word(
                family,
            ) + "namedport"@,
        ),
        crate::netpol::naming::indexed_egress_named_port_set_name(
            ns,
            name,
            i as int,
            e as int,
            family,
        ) == "KUBE-DST-"@ + hash_of(
            ns + name + "egressrule"@ + crate::text::dec(i) + crate::text::dec(e) + family_word(
                family,
            ) + "namedport"@,
        ),
{
}

/// A hash is the first sixteen characters of the base32 text of the SHA-256 digest of the bytes
/// of the text.
pub proof fn lemma_hash_written_out(s: Seq<char>)
    ensures
        hash_of(s) == crate::common::naming::base32_of(
            crate::common::naming::sha256_of(vstd::utf8::encode_utf8(s)),
        ).take(16),
{
}

/// The pods on a node that a policy acts on are those of its namespace whose labels meet its
/// selector, which run on the node, not on its network, and have an address.
pub proof fn lemma_acts_by_fields(pol: NetworkPolicy, pod: Pod, node: Seq<char>)
    ensures
        pol.acts_on(pod, node) <==> pod.namespace@ == pol.namespace@ && meets(
            pol.pod_selector,
            pod.labels@,
        ) && pod.node_name@ == node && !pod.host_network && pod.ips@.len() > 0,
{
    crate::netpol::peer_laws::lemma_applies_by_labels(pol, pod);
}

/// The scene of a plan's arguments holds each of them in its place.
pub proof fn lemma_scene_holds_arguments(
    policies: Seq<NetworkPolicy>,
    pods: Seq<Pod>,
    namespaces: Seq<crate::netpol::model::Namespace>,
    node: Seq<char>,
    family: IpFamily,
    sync_version: Seq<char>,
    default_deny: bool,
    pod_cidrs: Seq<IpNet>,
)
    ensures
        ({
            let sc = crate::netpol::synth::scene_of(
                policies,
                pods,
                namespaces,
                node,
                family,
                sync_version,
                default_deny,
                pod_cidrs,
            );
            &&& sc.policies == policies
            &&& sc.pods == pods
            &&& sc.namespaces == namespaces
            &&& sc.node == node
            &&& sc.family == family
            &&& sc.sync_version == sync_version
            &&& sc.default_deny == default_deny
            &&& sc.pod_cidrs == pod_cidrs
        }),
{
}

/// The sets of a plan are shown one by one.
pub proof fn lemma_sets_are_shown(v: Seq<crate::netpol::synth::IpsetPlan>, i: int)
    requires
        0 <= i < v.len(),
    ensures
        crate::netpol::synth::set_views(v).len() == v.len(),
        crate::netpol::synth::set_views(v)[i].name == v[i].name@,
        crate::netpol::synth::set_views(v)[i].set_type == v[i].set_type,
        crate::netpol::synth::set_views(v)[i].family == v[i].family,
        crate::netpol::synth::set_views(v)[i].entries == crate::text::texts(v[i].entries@),
{
}

/// The addresses that a rule of a policy admits are exactly those that its peers resolve to among
/// all pods, each once, in the order of strings; its networks are those of its peers, in order.
pub proof fn lemma_rule_entries(sc: Scene, pol: NetworkPolicy, i: int, t: Seq<char>)
    requires
        0 <= i < pol.ingress@.len(),
    ensures
        ({
            let rule = pol.ingress@[i];
            let ips = sc.rule_ips(pol, rule);
            &&& ips.contains(t) <==> crate::netpol::translate::peers_ips(
                rule.peers@,
                sc.pods,
                sc.namespaces,
                pol.namespace@,
                sc.family,
            ).contains(t)
            &&& forall|x: int, y: int|
                0 <= x < y < ips.len() ==> crate::order::before(
                    #[trigger] ips[x],
                    #[trigger] ips[y],
                )
            &&& sc.rule_nets(rule) == crate::netpol::translate::peers_nets(rule.peers@, sc.family)
        }),
{
    crate::netpol::peer_laws::lemma_sorted_entries(
        crate::netpol::translate::peers_ips(
            pol.ingress@[i].peers@,
            sc.pods,
            sc.namespaces,
            pol.namespace@,
            sc.family,
        ),
        t,
    );
}

/// The addresses that a policy protects come pod by pod: without pods there are none, those of a
/// single pod are its addresses of the family where the policy applies to it, and those of two
/// lists of pods come one after the other.
pub proof fn lemma_protected_addresses_add_up(
    sc: Scene,
    pol: NetworkPolicy,
    a: Seq<Pod>,
    b: Seq<Pod>,
    pod: Pod,
)
    ensures
        (Scene { pods: Seq::empty(), ..sc }).target_ips(pol).len() == 0,
        pod.namespace@ == pol.namespace@ && meets(pol.pod_selector, pod.labels@) ==> (Scene {
            pods: seq![pod],
            ..sc
        }).target_ips(pol) == crate::netpol::translate::family_texts(pod.ips@, sc.family),
        !(pod.namespace@ == pol.namespace@ && meets(pol.pod_selector, pod.labels@)) ==> (Scene {
            pods: seq![pod],
            ..sc
        }).target_ips(pol).len() == 0,
        (Scene { pods: a + b, ..sc }).target_ips(pol) == (Scene { pods: a, ..sc }).target_ips(pol)
            + (Scene { pods: b, ..sc }).target_ips(pol),
{
    crate::netpol::peer_laws::lemma_applies_by_labels(pol, pod);
    let f = |p: Pod|
        if pol.applies_to(p) {
            crate::netpol::translate::family_texts(p.ips@, sc.family)
        } else {
            Seq::empty()
        };
    crate::seqs::lemma_flat_parts(a, b, pod, f);
}

/// For every address of a pod that is to have a chain the plan leads packets to that chain from
/// each way in, written out: routed ones, those of the node's own sockets, and bridged ones, each
/// before the jump with which its top-level chain ends.
pub proof fn lemma_packets_are_led_in(sc: Scene, j: int, k: int)
    requires
        0 <= j < sc.pods.len(),
        fenced(sc, sc.pods[j]),
        0 <= k < sc.pods[j].ips@.len(),
        sc.pods[j].ips@[k] is V4 == (sc.family == IpFamily::V4),
    ensures
        ({
            let n = sc.rules().len() as int;
            let ip = sc.pods[j].ips@[k].text();
            let chain = "KUBE-POD-FW-"@ + hash_of(
                sc.pods[j].namespace@ + sc.pods[j].name@ + sc.sync_version,
            );
            &&& n >= 3
            &&& sc.rules()[n - 3] == "-A "@ + "KUBE-ROUTER-INPUT"@ + " -j "@ + "KUBE-NWPLCY-TAIL"@
            &&& sc.rules()[n - 2] == "-A "@ + "KUBE-ROUTER-FORWARD"@ + " -j "@
                + "KUBE-NWPLCY-TAIL"@
            &&& sc.rules()[n - 1] == "-A "@ + "KUBE-ROUTER-OUTPUT"@ + " -j "@
                + "KUBE-NWPLCY-TAIL"@
            &&& exists|x: int|
                0 <= x < n - 3 && #[trigger] sc.rules()[x] == "-A KUBE-ROUTER-FORWARD -d "@ + ip
                    + " -j "@ + chain
            &&& exists|x: int|
                0 <= x < n - 3 && #[trigger] sc.rules()[x] == "-A KUBE-ROUTER-OUTPUT -d "@ + ip
                    + " -j "@ + chain
            &&& exists|x: int|
                0 <= x < n - 3 && #[trigger] sc.rules()[x]
                    == "-A KUBE-ROUTER-FORWARD -m physdev --physdev-is-bridged -d "@ + ip
                    + " -j "@ + chain
        }),
{
    let pod = sc.pods[j];
    lemma_pod_rules_written_out(sc, pod);
    let rules = sc.pod_rules(pod);
    let ips = crate::netpol::translate::family_texts(pod.ips@, sc.family);
    let m = sc.chains_for(pod).len() as int;
    let n = ips.len() as int;
    let end = 1 + n + n * (m + 1);
    crate::netpol::peer_laws::lemma_family_texts_has(pod.ips@, sc.family, pod.ips@[k].text());
    let a = choose|a: int| 0 <= a < ips.len() && ips[a] == pod.ips@[k].text();
    assert(0 <= n * (m + 1)) by (nonlinear_arith)
        requires
            0 <= n,
            0 <= m,
    ;
    let pol: NetworkPolicy = arbitrary();
    lemma_names(sc, pol, pod, 0);
    crate::netpol::laws::lemma_top_chains_end_in_tail(sc);
    let o = lemma_pod_rules_stand_together(sc, j);
    let base = end + 4 + a * 3;
    assert(rules[base] == "-A KUBE-ROUTER-FORWARD -d "@ + ips[a] + " -j "@ + sc.chain_of_pod(pod));
    assert(rules[base + 1] == "-A KUBE-ROUTER-OUTPUT -d "@ + ips[a] + " -j "@ + sc.chain_of_pod(
        pod,
    ));
    assert(rules[base + 2] == "-A KUBE-ROUTER-FORWARD -m physdev --physdev-is-bridged -d "@
        + ips[a] + " -j "@ + sc.chain_of_pod(pod));
    assert(rules[base] == sc.rules()[o + base]);
    assert(rules[base + 1] == sc.rules()[o + (base + 1)]);
    assert(rules[base + 2] == sc.rules()[o + (base + 2)]);
}

} // verus!
