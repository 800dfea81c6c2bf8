//! The firewall of a node in one family: policies, pods and namespaces in, address sets and a
//! filter table out.
//!
//! A pod that no policy selects is left alone. A selected pod gets a chain of its own, which
//! first admits what belongs to a connection, then asks the chains of its policies, and rejects
//! what none of them marked. A policy's chain marks and returns; it never accepts, so that every
//! chain that applies to a packet is run. The tail chain decides.

use vstd::prelude::*;

use crate::common::ipfamily::IpFamily;
use crate::common::naming::{network_policy_chain, pod_firewall_chain};
use crate::net::IpNet;
use crate::netpol::ipset::SetType;
use crate::netpol::model::{Namespace, NetworkPolicy, Pod, PortSpec, Rule};
use crate::netpol::naming::{
    dst_set, indexed_src_ipblock_set, indexed_src_pod_set, local_pods_set, MARK_ACCEPTED,
    MARK_MATCHED, NWPLCY_COMMON, NWPLCY_DEFAULT, NWPLCY_TAIL, ROUTER_FORWARD, ROUTER_INPUT,
    ROUTER_OUTPUT,
};
use crate::netpol::translate::{family_ips, resolve_peers};
use crate::text::{cat2, cat3, cat4, cat5, cat6, cat7, dec_text, same};

verus! {

/// An address set to fill.
#[derive(Debug)]
pub struct IpsetPlan {
    /// Name of the set.
    pub name: String,
    /// How it stores its entries.
    pub set_type: SetType,
    /// Address family.
    pub family: IpFamily,
    /// Entries.
    pub entries: Vec<String>,
}

/// The firewall of one family.
#[derive(Debug)]
pub struct FirewallPlan {
    /// Sets to fill, in order.
    pub ipsets: Vec<IpsetPlan>,
    /// Declarations of the chains.
    pub chain_decls: Vec<String>,
    /// Rules, in order.
    pub rules: Vec<String>,
}

impl Default for FirewallPlan {
    fn default() -> (r: FirewallPlan)
        ensures
            r.ipsets@.len() == 0,
            r.chain_decls@.len() == 0,
            r.rules@.len() == 0,
    {
        FirewallPlan { ipsets: Vec::new(), chain_decls: Vec::new(), rules: Vec::new() }
    }
}

/// An address set as a value.
pub struct SetView {
    pub name: Seq<char>,
    pub set_type: SetType,
    pub family: IpFamily,
    pub entries: Seq<Seq<char>>,
}

impl View for IpsetPlan {
    type V = SetView;

    open spec fn view(&self) -> SetView {
        SetView {
            name: self.name@,
            set_type: self.set_type,
            family: self.family,
            entries: crate::text::texts(self.entries@),
        }
    }
}

/// The values of the sets of a plan.
pub open spec fn set_views(v: Seq<IpsetPlan>) -> Seq<SetView> {
    v.map_values(|p: IpsetPlan| p@)
}

/// The state of the cluster that a plan is made from, seen from one node and family.
pub struct Scene {
    pub policies: Seq<NetworkPolicy>,
    pub pods: Seq<Pod>,
    pub namespaces: Seq<Namespace>,
    pub node: Seq<char>,
    pub family: IpFamily,
    pub sync_version: Seq<char>,
    pub default_deny: bool,
    pub pod_cidrs: Seq<IpNet>,
}

// ---------------------------------------------------------------------------------------------
// What a plan holds
// ---------------------------------------------------------------------------------------------

/// The target that refuses a packet.
pub open spec fn reject_words(family: IpFamily) -> Seq<char> {
    match family {
        IpFamily::V4 => "REJECT --reject-with icmp-port-unreachable"@,
        IpFamily::V6 => "REJECT --reject-with icmp6-port-unreachable"@,
    }
}

/// The declaration of a chain.
pub open spec fn decl(chain: Seq<char>) -> Seq<char> {
    ":"@ + chain + " - [0:0]"@
}

/// The declarations that every plan starts with.
pub open spec fn base_decls() -> Seq<Seq<char>> {
    seq![
        decl(ROUTER_INPUT@),
        decl(ROUTER_FORWARD@),
        decl(ROUTER_OUTPUT@),
        decl(NWPLCY_COMMON@),
        decl(NWPLCY_DEFAULT@),
        decl(NWPLCY_TAIL@),
    ]
}

/// The control messages that are always admitted: protocol, option, kind.
pub open spec fn control_kinds(family: IpFamily) -> Seq<(Seq<char>, Seq<char>, Seq<char>)> {
    match family {
        IpFamily::V4 => seq![
            ("icmp"@, "--icmp-type"@, "echo-request"@),
            ("icmp"@, "--icmp-type"@, "destination-unreachable"@),
            ("icmp"@, "--icmp-type"@, "time-exceeded"@),
        ],
        IpFamily::V6 => seq![
            ("icmpv6"@, "--icmpv6-type"@, "echo-request"@),
            ("icmpv6"@, "--icmpv6-type"@, "destination-unreachable"@),
            ("icmpv6"@, "--icmpv6-type"@, "time-exceeded"@),
            ("icmpv6"@, "--icmpv6-type"@, "neighbor-solicitation"@),
            ("icmpv6"@, "--icmpv6-type"@, "neighbor-advertisement"@),
            ("icmpv6"@, "--icmpv6-type"@, "echo-reply"@),
        ],
    }
}

/// The rule that admits one kind of control message.
pub open spec fn control_rule(k: (Seq<char>, Seq<char>, Seq<char>)) -> Seq<char> {
    "-A KUBE-NWPLCY-COMMON -p "@ + k.0 + " "@ + k.1 + " "@ + k.2 + " -j ACCEPT"@
}

/// The rules for all traffic, and the rule that marks unrestricted traffic.
pub open spec fn common_rules(family: IpFamily) -> Seq<Seq<char>> {
    seq![
        "-A KUBE-NWPLCY-COMMON -m conntrack --ctstate INVALID -j DROP"@,
        "-A KUBE-NWPLCY-COMMON -m conntrack --ctstate RELATED,ESTABLISHED -j ACCEPT"@,
    ] + control_kinds(family).map_values(|k: (Seq<char>, Seq<char>, Seq<char>)| control_rule(k)) + seq![
        "-A KUBE-NWPLCY-DEFAULT -j MARK --set-xmark "@ + MARK_MATCHED@,
    ]
}

/// A match on a set, on the side `side` of the packet.
pub open spec fn set_match(set: Seq<char>, side: Seq<char>) -> Seq<char> {
    " -m set --match-set "@ + set + side
}

/// The pair of rules that marks what matches and returns it.
pub open spec fn verdict(
    chain: Seq<char>,
    source: Seq<char>,
    target: Seq<char>,
    port: Seq<char>,
) -> Seq<Seq<char>> {
    let head = "-A "@ + chain + source + target + port;
    seq![
        head + " -j MARK --set-xmark "@ + MARK_MATCHED@,
        head + " -m mark --mark "@ + MARK_MATCHED@ + " -j RETURN"@,
    ]
}

/// The match on one port.
pub open spec fn port_match(p: PortSpec) -> Seq<char> {
    match p.port {
        Some(n) => " -p "@ + p.protocol@ + " --dport "@ + crate::text::dec(n as nat),
        None => " -p "@ + p.protocol@,
    }
}

/// The matches on the ports of a rule; a rule without ports matches once, on any.
pub open spec fn port_matches(ports: Seq<PortSpec>) -> Seq<Seq<char>> {
    if ports.len() == 0 {
        seq![Seq::empty()]
    } else {
        ports.map_values(|p: PortSpec| port_match(p))
    }
}

/// Zero up to `n`, in order.
pub open spec fn indices(n: nat) -> Seq<int> {
    Seq::new(n, |i: int| i)
}

impl Scene {
    /// The chain of a policy.
    pub open spec fn chain_of(self, pol: NetworkPolicy) -> Seq<char> {
        crate::common::naming::policy_chain(
            pol.namespace@,
            pol.name@,
            self.sync_version,
            self.family,
        )
    }

    /// The chain of a pod.
    pub open spec fn chain_of_pod(self, pod: Pod) -> Seq<char> {
        crate::common::naming::pod_chain(pod.namespace@, pod.name@, self.sync_version)
    }

    /// The set of the pods that a policy protects.
    pub open spec fn target_set(self, pol: NetworkPolicy) -> Seq<char> {
        crate::netpol::naming::dst_set_name(pol.namespace@, pol.name@, self.family)
    }

    /// The pod addresses that a rule admits, ascending.
    pub open spec fn rule_ips(self, pol: NetworkPolicy, rule: Rule) -> Seq<Seq<char>> {
        crate::netpol::translate::sorted(
            crate::netpol::translate::peers_ips(
                rule.peers@,
                self.pods,
                self.namespaces,
                pol.namespace@,
                self.family,
            ).to_set(),
        )
    }

    /// The networks that a rule admits, with their exceptions.
    pub open spec fn rule_nets(self, rule: Rule) -> Seq<Seq<char>> {
        crate::netpol::translate::peers_nets(rule.peers@, self.family)
    }

    /// The sets that the rule at index `i` needs: one for pods, one for networks, each only
    /// where it has entries.
    pub open spec fn rule_sets(self, pol: NetworkPolicy, i: int) -> Seq<SetView> {
        let rule = pol.ingress@[i];
        let ips = self.rule_ips(pol, rule);
        let nets = self.rule_nets(rule);
        if rule.peers@.len() == 0 {
            Seq::empty()
        } else {
            (if ips.len() > 0 {
                seq![
                    SetView {
                        name: crate::netpol::naming::indexed_src_pod_set_name(
                            pol.namespace@,
                            pol.name@,
                            i,
                            self.family,
                        ),
                        set_type: SetType::HashIp,
                        family: self.family,
                        entries: ips,
                    },
                ]
            } else {
                Seq::empty()
            }) + (if nets.len() > 0 {
                seq![
                    SetView {
                        name: crate::netpol::naming::indexed_src_ipblock_set_name(
                            pol.namespace@,
                            pol.name@,
                            i,
                            self.family,
                        ),
                        set_type: SetType::HashNet,
                        family: self.family,
                        entries: nets,
                    },
                ]
            } else {
                Seq::empty()
            })
        }
    }

    /// The matches on the source of a packet for the rule at index `i`: one without condition
    /// where the rule has no peers, otherwise one for each of its sets.
    pub open spec fn rule_sources(self, pol: NetworkPolicy, i: int) -> Seq<Seq<char>> {
        if pol.ingress@[i].peers@.len() == 0 {
            seq![Seq::empty()]
        } else {
            self.rule_sets(pol, i).map_values(|s: SetView| set_match(s.name, " src"@))
        }
    }

    /// The rules of the rule at index `i`: for each source and port a verdict.
    pub open spec fn rule_rules(self, pol: NetworkPolicy, i: int) -> Seq<Seq<char>> {
        let chain = self.chain_of(pol);
        let target = set_match(self.target_set(pol), " dst"@);
        let ports = port_matches(pol.ingress@[i].ports@);
        crate::seqs::flat(
            self.rule_sources(pol, i),
            |s: Seq<char>| crate::seqs::flat(ports, |p: Seq<char>| verdict(chain, s, target, p)),
        )
    }

    /// The addresses of the pods that a policy protects.
    pub open spec fn target_ips(self, pol: NetworkPolicy) -> Seq<Seq<char>> {
        crate::seqs::flat(
            self.pods,
            |p: Pod|
                if pol.applies_to(p) {
                    crate::netpol::translate::family_texts(p.ips@, self.family)
                } else {
                    Seq::empty()
                },
        )
    }

    /// The sets of a policy: its target set, then those of its rules.
    pub open spec fn policy_sets(self, pol: NetworkPolicy) -> Seq<SetView> {
        if pol.policy_types.ingress {
            seq![
                SetView {
                    name: self.target_set(pol),
                    set_type: SetType::HashIp,
                    family: self.family,
                    entries: self.target_ips(pol),
                },
            ] + crate::seqs::flat(indices(pol.ingress@.len()), |i: int| self.rule_sets(pol, i))
        } else {
            Seq::empty()
        }
    }

    /// The rules of the chain of a policy.
    pub open spec fn policy_rules(self, pol: NetworkPolicy) -> Seq<Seq<char>> {
        if pol.policy_types.ingress {
            crate::seqs::flat(indices(pol.ingress@.len()), |i: int| self.rule_rules(pol, i))
        } else {
            Seq::empty()
        }
    }

    /// The declaration of the chain of a policy.
    pub open spec fn policy_decls(self, pol: NetworkPolicy) -> Seq<Seq<char>> {
        if pol.policy_types.ingress {
            seq![decl(self.chain_of(pol))]
        } else {
            Seq::empty()
        }
    }

    /// The chain of the policy, where it restricts traffic to the pod.
    pub open spec fn chain_for(self, pod: Pod, pol: NetworkPolicy) -> Seq<Seq<char>> {
        if pol.policy_types.ingress && pol.applies_to(pod) {
            seq![self.chain_of(pol)]
        } else {
            Seq::empty()
        }
    }

    /// The chains of the policies that restrict traffic to the pod.
    pub open spec fn chains_for(self, pod: Pod) -> Seq<Seq<char>> {
        crate::seqs::flat(self.policies, |p: NetworkPolicy| self.chain_for(pod, p))
    }

    /// The addresses of the pod in the family.
    pub open spec fn ips_of(self, pod: Pod) -> Seq<Seq<char>> {
        crate::netpol::translate::family_texts(pod.ips@, self.family)
    }

    /// Whether the pod gets a chain: it is local, has an address of its own in the family, and a
    /// policy restricts traffic to it.
    pub open spec fn programmed(self, pod: Pod) -> bool {
        pod.node_name@ == self.node && !pod.host_network && self.ips_of(pod).len() > 0
            && self.chains_for(pod).len() > 0
    }

    /// The jumps for one address of a pod: to each of its policies for traffic to it, and past
    /// all policies for traffic from it.
    pub open spec fn jump_rules(self, pod: Pod, ip: Seq<char>) -> Seq<Seq<char>> {
        self.chains_for(pod).map_values(
            |c: Seq<char>| "-A "@ + self.chain_of_pod(pod) + " -d "@ + ip + " -j "@ + c,
        ).push("-A "@ + self.chain_of_pod(pod) + " -s "@ + ip + " -j "@ + NWPLCY_DEFAULT@)
    }

    /// The rule that admits traffic from the node itself to one address of a pod.
    pub open spec fn local_rule(self, pod: Pod, ip: Seq<char>) -> Seq<char> {
        "-A "@ + self.chain_of_pod(pod) + " -m addrtype --src-type LOCAL -d "@ + ip
            + " -j ACCEPT"@
    }

    /// The end of the chain of a pod: log and reject what is not marked, clear the mark of what
    /// is, mark it accepted.
    pub open spec fn end_rules(self, pod: Pod) -> Seq<Seq<char>> {
        let chain = self.chain_of_pod(pod);
        seq![
            "-A "@ + chain + " -m mark ! --mark "@ + MARK_MATCHED@
                + " -j NFLOG --nflog-group 100 -m limit --limit 10/minute --limit-burst 10"@,
            "-A "@ + chain + " -m mark ! --mark "@ + MARK_MATCHED@ + " -j "@ + reject_words(
                self.family,
            ),
            "-A "@ + chain + " -j MARK --set-mark 0/0x10000"@,
            "-A "@ + chain + " -j MARK --set-mark "@ + MARK_ACCEPTED@,
        ]
    }

    /// The jumps to the chain of a pod for one of its addresses: routed traffic, traffic from
    /// the node's own sockets, bridged traffic.
    pub open spec fn dispatch_rules(self, pod: Pod, ip: Seq<char>) -> Seq<Seq<char>> {
        let chain = self.chain_of_pod(pod);
        seq![
            "-A KUBE-ROUTER-FORWARD -d "@ + ip + " -j "@ + chain,
            "-A KUBE-ROUTER-OUTPUT -d "@ + ip + " -j "@ + chain,
            "-A KUBE-ROUTER-FORWARD -m physdev --physdev-is-bridged -d "@ + ip + " -j "@ + chain,
        ]
    }

    /// The rule with which the chain of a pod starts.
    pub open spec fn first_rule(self, pod: Pod) -> Seq<char> {
        "-A "@ + self.chain_of_pod(pod) + " -j "@ + NWPLCY_COMMON@
    }

    /// The rules of a pod that gets a chain.
    pub open spec fn chain_rules(self, pod: Pod) -> Seq<Seq<char>> {
        let ips = self.ips_of(pod);
        seq![self.first_rule(pod)] + ips.map_values(|ip: Seq<char>| self.local_rule(pod, ip))
            + crate::seqs::flat(ips, |ip: Seq<char>| self.jump_rules(pod, ip)) + self.end_rules(pod)
            + crate::seqs::flat(ips, |ip: Seq<char>| self.dispatch_rules(pod, ip))
    }

    /// The rules of a pod.
    pub open spec fn pod_rules(self, pod: Pod) -> Seq<Seq<char>> {
        if self.programmed(pod) {
            self.chain_rules(pod)
        } else {
            Seq::empty()
        }
    }

    /// The declaration of the chain of a pod.
    pub open spec fn pod_decls(self, pod: Pod) -> Seq<Seq<char>> {
        if self.programmed(pod) {
            seq![decl(self.chain_of_pod(pod))]
        } else {
            Seq::empty()
        }
    }

    /// The addresses of a pod that gets a chain.
    pub open spec fn programmed_ips(self, pod: Pod) -> Seq<Seq<char>> {
        if self.programmed(pod) {
            self.ips_of(pod)
        } else {
            Seq::empty()
        }
    }

    /// The rejects for a network of pods whose chains are not there yet.
    pub open spec fn gate_rules(self, cidr: IpNet) -> Seq<Seq<char>> {
        let set = crate::netpol::naming::local_pods_name(self.family);
        if crate::common::ipfamily::family_of(cidr.addr) == self.family {
            seq![
                "-A KUBE-NWPLCY-TAIL -s "@ + cidr.text() + " -m set ! --match-set "@ + set
                    + " src -j "@ + reject_words(self.family),
                "-A KUBE-NWPLCY-TAIL -d "@ + cidr.text() + " -m set ! --match-set "@ + set
                    + " dst -j "@ + reject_words(self.family),
            ]
        } else {
            Seq::empty()
        }
    }

    /// The rejects for a network of pods of what was not accepted.
    pub open spec fn wall_rules(self, cidr: IpNet) -> Seq<Seq<char>> {
        if crate::common::ipfamily::family_of(cidr.addr) == self.family {
            seq![
                "-A KUBE-NWPLCY-TAIL -s "@ + cidr.text() + " -j "@ + reject_words(self.family),
                "-A KUBE-NWPLCY-TAIL -d "@ + cidr.text() + " -j "@ + reject_words(self.family),
            ]
        } else {
            Seq::empty()
        }
    }

    /// The rules of the tail chain.
    pub open spec fn tail_rules(self) -> Seq<Seq<char>> {
        let accept = seq!["-A KUBE-NWPLCY-TAIL -m mark --mark "@ + MARK_ACCEPTED@ + " -j ACCEPT"@];
        if self.default_deny {
            crate::seqs::flat(self.pod_cidrs, |c: IpNet| self.gate_rules(c)) + accept
                + crate::seqs::flat(self.pod_cidrs, |c: IpNet| self.wall_rules(c))
        } else {
            accept
        }
    }

    /// The jumps to the tail chain with which the top-level chains end.
    pub open spec fn final_rules(self) -> Seq<Seq<char>> {
        seq![
            "-A "@ + ROUTER_INPUT@ + " -j "@ + NWPLCY_TAIL@,
            "-A "@ + ROUTER_FORWARD@ + " -j "@ + NWPLCY_TAIL@,
            "-A "@ + ROUTER_OUTPUT@ + " -j "@ + NWPLCY_TAIL@,
        ]
    }

    /// All rules, in order.
    pub open spec fn rules(self) -> Seq<Seq<char>> {
        common_rules(self.family) + crate::seqs::flat(
            self.policies,
            |p: NetworkPolicy| self.policy_rules(p),
        ) + crate::seqs::flat(self.pods, |p: Pod| self.pod_rules(p)) + self.tail_rules()
            + self.final_rules()
    }

    /// All declarations, in order.
    pub open spec fn decls(self) -> Seq<Seq<char>> {
        base_decls() + crate::seqs::flat(self.policies, |p: NetworkPolicy| self.policy_decls(p))
            + crate::seqs::flat(self.pods, |p: Pod| self.pod_decls(p))
    }

    /// The set of the local pods whose chains are there, where the default is to reject.
    pub open spec fn local_sets(self) -> Seq<SetView> {
        if self.default_deny {
            seq![
                SetView {
                    name: crate::netpol::naming::local_pods_name(self.family),
                    set_type: SetType::HashIp,
                    family: self.family,
                    entries: crate::seqs::flat(self.pods, |p: Pod| self.programmed_ips(p)),
                },
            ]
        } else {
            Seq::empty()
        }
    }

    /// All sets, in order.
    pub open spec fn sets(self) -> Seq<SetView> {
        crate::seqs::flat(self.policies, |p: NetworkPolicy| self.policy_sets(p))
            + self.local_sets()
    }
}

// ---------------------------------------------------------------------------------------------
// Making a plan
// ---------------------------------------------------------------------------------------------

fn reject_target(family: IpFamily) -> (r: &'static str)
    ensures
        r@ == reject_words(family),
{
    match family {
        IpFamily::V4 => "REJECT --reject-with icmp-port-unreachable",
        IpFamily::V6 => "REJECT --reject-with icmp6-port-unreachable",
    }
}

/// Adds a line.
fn add(v: &mut Vec<String>, s: String)
    ensures
        crate::text::texts(final(v)@) == crate::text::texts(old(v)@).push(s@),
{
    let ghost before = v@;
    v.push(s);
    proof {
        crate::text::lemma_texts_push(before, s);
    }
}

/// Adds the declaration of a chain.
fn add_decl(v: &mut Vec<String>, chain: &str)
    ensures
        crate::text::texts(final(v)@) == crate::text::texts(old(v)@).push(decl(chain@)),
{
    self::add(v, cat3(":", chain, " - [0:0]"));
}

/// The kinds of control messages as values.
pub open spec fn kind_views(
    v: Seq<(&'static str, &'static str, &'static str)>,
) -> Seq<(Seq<char>, Seq<char>, Seq<char>)> {
    v.map_values(|k: (&'static str, &'static str, &'static str)| (k.0@, k.1@, k.2@))
}

fn control_message_rules(family: IpFamily) -> (r: Vec<(&'static str, &'static str, &'static str)>)
    ensures
        kind_views(r@) == control_kinds(family),
{
    let r: Vec<(&'static str, &'static str, &'static str)> = match family {
        IpFamily::V4 => vec![
            ("icmp", "--icmp-type", "echo-request"),
            ("icmp", "--icmp-type", "destination-unreachable"),
            ("icmp", "--icmp-type", "time-exceeded"),
        ],
        IpFamily::V6 => vec![
            ("icmpv6", "--icmpv6-type", "echo-request"),
            ("icmpv6", "--icmpv6-type", "destination-unreachable"),
            ("icmpv6", "--icmpv6-type", "time-exceeded"),
            ("icmpv6", "--icmpv6-type", "neighbor-solicitation"),
            ("icmpv6", "--icmpv6-type", "neighbor-advertisement"),
            ("icmpv6", "--icmpv6-type", "echo-reply"),
        ],
    };
    assert(kind_views(r@) =~= control_kinds(family));
    r
}

fn add_common_rules(rules: &mut Vec<String>, family: IpFamily)
    ensures
        crate::text::texts(final(rules)@) == crate::text::texts(old(rules)@) + common_rules(family),
{
    let ghost start = crate::text::texts(rules@);
    let ghost first = seq![
        "-A KUBE-NWPLCY-COMMON -m conntrack --ctstate INVALID -j DROP"@,
        "-A KUBE-NWPLCY-COMMON -m conntrack --ctstate RELATED,ESTABLISHED -j ACCEPT"@,
    ];
    self::add(
        rules,
        String::from_str("-A KUBE-NWPLCY-COMMON -m conntrack --ctstate INVALID -j DROP"),
    );
    self::add(
        rules,
        String::from_str(
            "-A KUBE-NWPLCY-COMMON -m conntrack --ctstate RELATED,ESTABLISHED -j ACCEPT",
        ),
    );
    let kinds = control_message_rules(family);
    let ghost lines = control_kinds(family).map_values(
        |k: (Seq<char>, Seq<char>, Seq<char>)| control_rule(k),
    );
    let mut i: usize = 0;
    assert(crate::text::texts(rules@) =~= start + first + lines.take(0));
    while i < kinds.len()
        invariant
            i <= kinds.len(),
            kind_views(kinds@) == control_kinds(family),
            lines == control_kinds(family).map_values(
                |k: (Seq<char>, Seq<char>, Seq<char>)| control_rule(k),
            ),
            crate::text::texts(rules@) == start + first + lines.take(i as int),
        decreases kinds.len() - i,
    {
        let (proto, option, kind) = kinds[i];
        assert(kind_views(kinds@)[i as int] == (proto@, option@, kind@));
        self::add(
            rules,
            cat7("-A KUBE-NWPLCY-COMMON -p ", proto, " ", option, " ", kind, " -j ACCEPT"),
        );
        assert(lines.take(i + 1) =~= lines.take(i as int).push(lines[i as int]));
        assert(crate::text::texts(rules@) =~= start + first + lines.take(i + 1));
        i = i + 1;
    }
    assert(kind_views(kinds@).len() == kinds@.len());
    assert(lines.take(i as int) =~= lines);
    self::add(rules, cat2("-A KUBE-NWPLCY-DEFAULT -j MARK --set-xmark ", MARK_MATCHED));
    assert(crate::text::texts(rules@) =~= start + common_rules(family));
}

fn push_policy_verdict(
    rules: &mut Vec<String>,
    pchain: &str,
    src_match: &str,
    target_match: &str,
    port: &str,
)
    ensures
        crate::text::texts(final(rules)@) == crate::text::texts(old(rules)@) + verdict(
            pchain@,
            src_match@,
            target_match@,
            port@,
        ),
{
    let ghost start = crate::text::texts(rules@);
    let head = cat5("-A ", pchain, src_match, target_match, port);
    self::add(rules, cat3(head.as_str(), " -j MARK --set-xmark ", MARK_MATCHED));
    self::add(rules, cat4(head.as_str(), " -m mark --mark ", MARK_MATCHED, " -j RETURN"));
    assert(crate::text::texts(rules@) =~= start + verdict(
        pchain@,
        src_match@,
        target_match@,
        port@,
    ));
}

fn port_words(ports: &[PortSpec]) -> (r: Vec<String>)
    ensures
        crate::text::texts(r@) == port_matches(ports@),
{
    let mut out: Vec<String> = Vec::new();
    if ports.len() == 0 {
        self::add(&mut out, String::new());
        assert(crate::text::texts(out@) =~= port_matches(ports@));
        return out;
    }
    let ghost all = port_matches(ports@);
    let mut i: usize = 0;
    assert(crate::text::texts(out@) =~= all.take(0));
    while i < ports.len()
        invariant
            i <= ports.len(),
            ports@.len() > 0,
            all == port_matches(ports@),
            crate::text::texts(out@) == all.take(i as int),
        decreases ports.len() - i,
    {
        let p = &ports[i];
        let line = match p.port {
            Some(n) => cat4(
                " -p ",
                p.protocol.as_str(),
                " --dport ",
                dec_text(n as u64).as_str(),
            ),
            None => cat2(" -p ", p.protocol.as_str()),
        };
        self::add(&mut out, line);
        assert(all.take(i + 1) =~= all.take(i as int).push(all[i as int]));
        i = i + 1;
    }
    assert(all.take(i as int) =~= all);
    out
}

/// Adds a verdict for each source and port.
fn add_verdicts(
    rules: &mut Vec<String>,
    chain: &str,
    sources: &[String],
    target: &str,
    ports: &[String],
)
    ensures
        crate::text::texts(final(rules)@) == crate::text::texts(old(rules)@) + crate::seqs::flat(
            crate::text::texts(sources@),
            |s: Seq<char>|
                crate::seqs::flat(
                    crate::text::texts(ports@),
                    |p: Seq<char>| verdict(chain@, s, target@, p),
                ),
        ),
{
    let ghost start = crate::text::texts(rules@);
    let ghost ss = crate::text::texts(sources@);
    let ghost ps = crate::text::texts(ports@);
    let ghost f = |s: Seq<char>|
        crate::seqs::flat(ps, |p: Seq<char>| verdict(chain@, s, target@, p));
    let mut i: usize = 0;
    assert(crate::text::texts(rules@) =~= start + crate::seqs::flat(ss.take(0), f));
    while i < sources.len()
        invariant
            i <= sources.len(),
            ss == crate::text::texts(sources@),
            ps == crate::text::texts(ports@),
            f == (|s: Seq<char>|
                crate::seqs::flat(ps, |p: Seq<char>| verdict(chain@, s, target@, p))),
            crate::text::texts(rules@) == start + crate::seqs::flat(ss.take(i as int), f),
        decreases sources.len() - i,
    {
        let ghost mid = crate::text::texts(rules@);
        let ghost s = sources@[i as int]@;
        let ghost g = |p: Seq<char>| verdict(chain@, s, target@, p);
        let mut j: usize = 0;
        assert(crate::text::texts(rules@) =~= mid + crate::seqs::flat(ps.take(0), g));
        while j < ports.len()
            invariant
                i < sources.len(),
                j <= ports.len(),
                ps == crate::text::texts(ports@),
                s == sources@[i as int]@,
                g == (|p: Seq<char>| verdict(chain@, s, target@, p)),
                crate::text::texts(rules@) == mid + crate::seqs::flat(ps.take(j as int), g),
            decreases ports.len() - j,
        {
            proof {
                crate::seqs::lemma_flat_step(ps, g, j as int);
            }
            push_policy_verdict(rules, chain, sources[i].as_str(), target, ports[j].as_str());
            assert(crate::text::texts(rules@) =~= mid + crate::seqs::flat(ps.take(j + 1), g));
            j = j + 1;
        }
        proof {
            assert(ps.take(j as int) =~= ps);
            crate::seqs::lemma_flat_step(ss, f, i as int);
            assert(f(s) == crate::seqs::flat(ps, g));
            assert(crate::text::texts(rules@) =~= start + crate::seqs::flat(ss.take(i + 1), f));
        }
        i = i + 1;
    }
    assert(ss.take(i as int) =~= ss);
}

/// Adds a set.
fn add_set(v: &mut Vec<IpsetPlan>, set: IpsetPlan)
    ensures
        set_views(final(v)@) == set_views(old(v)@).push(set@),
{
    let ghost before = v@;
    v.push(set);
    assert(set_views(v@) =~= set_views(before).push(set@));
}

/// The inputs of a plan.
struct Inputs<'a> {
    policies: &'a [NetworkPolicy],
    pods: &'a [Pod],
    namespaces: &'a [Namespace],
    node: &'a str,
    family: IpFamily,
    sync_version: &'a str,
    default_deny: bool,
    pod_cidrs: &'a [IpNet],
}

impl<'a> Inputs<'a> {
    spec fn scene(self) -> Scene {
        Scene {
            policies: self.policies@,
            pods: self.pods@,
            namespaces: self.namespaces@,
            node: self.node@,
            family: self.family,
            sync_version: self.sync_version@,
            default_deny: self.default_deny,
            pod_cidrs: self.pod_cidrs@,
        }
    }

    fn target_entries(&self, pol: &NetworkPolicy) -> (r: Vec<String>)
        ensures
            crate::text::texts(r@) == self.scene().target_ips(*pol),
    {
        let ghost f = |p: Pod|
            if pol.applies_to(p) {
                crate::netpol::translate::family_texts(p.ips@, self.family)
            } else {
                Seq::empty()
            };
        let mut out: Vec<String> = Vec::new();
        let mut i: usize = 0;
        assert(crate::text::texts(out@) =~= crate::seqs::flat(self.pods@.take(0), f));
        while i < self.pods.len()
            invariant
                i <= self.pods@.len(),
                crate::text::texts(out@) == crate::seqs::flat(self.pods@.take(i as int), f),
                f == (|p: Pod|
                    if pol.applies_to(p) {
                        crate::netpol::translate::family_texts(p.ips@, self.family)
                    } else {
                        Seq::empty()
                    }),
            decreases self.pods@.len() - i,
        {
            proof {
                crate::seqs::lemma_flat_step(self.pods@, f, i as int);
            }
            let ghost before = crate::text::texts(out@);
            if pol.selects_pod(&self.pods[i]) {
                add_all(&mut out, family_ips(&self.pods[i].ips, self.family));
            }
            assert(crate::text::texts(out@) =~= before + f(self.pods@[i as int]));
            i = i + 1;
        }
        assert(self.pods@.take(i as int) =~= self.pods@);
        out
    }

    /// Adds the sets and rules of the rule at index `idx`.
    fn add_rule(
        &self,
        sets: &mut Vec<IpsetPlan>,
        rules: &mut Vec<String>,
        pol: &NetworkPolicy,
        idx: usize,
        chain: &str,
        target_match: &str,
    )
        requires
            idx < pol.ingress@.len(),
            chain@ == self.scene().chain_of(*pol),
            target_match@ == set_match(self.scene().target_set(*pol), " dst"@),
        ensures
            set_views(final(sets)@) == set_views(old(sets)@) + self.scene().rule_sets(
                *pol,
                idx as int,
            ),
            crate::text::texts(final(rules)@) == crate::text::texts(old(rules)@)
                + self.scene().rule_rules(*pol, idx as int),
    {
        let ghost start = set_views(sets@);
        let ghost sc = self.scene();
        let rule = &pol.ingress[idx];
        let resolved = resolve_peers(
            &rule.peers,
            self.pods,
            self.namespaces,
            pol.namespace.as_str(),
            self.family,
        );
        let ghost ips = sc.rule_ips(*pol, *rule);
        let ghost nets = sc.rule_nets(*rule);
        assert(crate::text::texts(resolved.ip_entries@).len() == resolved.ip_entries@.len());
        assert(crate::text::texts(resolved.net_entries@).len() == resolved.net_entries@.len());
        let mut sources: Vec<String> = Vec::new();
        if resolved.match_all {
            self::add(&mut sources, String::new());
            assert(crate::text::texts(sources@) =~= sc.rule_sources(*pol, idx as int));
            assert(set_views(sets@) =~= start + sc.rule_sets(*pol, idx as int));
        } else {
            let ghost want = sc.rule_sets(*pol, idx as int);
            let ghost matches = sc.rule_sources(*pol, idx as int);
            if resolved.ip_entries.len() > 0 {
                let set = indexed_src_pod_set(
                    pol.namespace.as_str(),
                    pol.name.as_str(),
                    idx,
                    self.family,
                );
                self::add(
                    &mut sources,
                    cat3(" -m set --match-set ", set.as_str(), " src"),
                );
                add_set(
                    sets,
                    IpsetPlan {
                        name: set,
                        set_type: SetType::HashIp,
                        family: self.family,
                        entries: resolved.ip_entries,
                    },
                );
            }
            let ghost k: int = if ips.len() > 0 {
                1
            } else {
                0
            };
            assert(set_views(sets@) =~= start + want.take(k));
            assert(crate::text::texts(sources@) =~= matches.take(k));
            if resolved.net_entries.len() > 0 {
                let set = indexed_src_ipblock_set(
                    pol.namespace.as_str(),
                    pol.name.as_str(),
                    idx,
                    self.family,
                );
                self::add(
                    &mut sources,
                    cat3(" -m set --match-set ", set.as_str(), " src"),
                );
                add_set(
                    sets,
                    IpsetPlan {
                        name: set,
                        set_type: SetType::HashNet,
                        family: self.family,
                        entries: resolved.net_entries,
                    },
                );
            }
            assert(set_views(sets@) =~= start + want);
            assert(crate::text::texts(sources@) =~= matches);
        }
        let ports = port_words(&rule.ports);
        add_verdicts(rules, chain, &sources, target_match, &ports);
    }

    /// Adds the declaration, the sets and the rules of a policy.
    fn add_policy(&self, plan: &mut FirewallPlan, pol: &NetworkPolicy)
        requires
            pol.policy_types.ingress,
        ensures
            set_views(final(plan).ipsets@) == set_views(old(plan).ipsets@)
                + self.scene().policy_sets(*pol),
            crate::text::texts(final(plan).rules@) == crate::text::texts(old(plan).rules@)
                + self.scene().policy_rules(*pol),
            crate::text::texts(final(plan).chain_decls@) == crate::text::texts(
                old(plan).chain_decls@,
            ) + self.scene().policy_decls(*pol),
    {
        let ghost sc = self.scene();
        let ghost sets0 = set_views(plan.ipsets@);
        let ghost rules0 = crate::text::texts(plan.rules@);
        let ghost decls0 = crate::text::texts(plan.chain_decls@);
        let chain = network_policy_chain(
            pol.namespace.as_str(),
            pol.name.as_str(),
            self.sync_version,
            self.family,
        );
        add_decl(&mut plan.chain_decls, chain.as_str());
        assert(crate::text::texts(plan.chain_decls@) =~= decls0 + sc.policy_decls(*pol));
        let target = dst_set(pol.namespace.as_str(), pol.name.as_str(), self.family);
        let target_match = cat3(" -m set --match-set ", target.as_str(), " dst");
        let entries = self.target_entries(pol);
        let set = IpsetPlan { name: target, set_type: SetType::HashIp, family: self.family, entries };
        let ghost first = set@;
        add_set(&mut plan.ipsets, set);
        let ghost n = indices(pol.ingress@.len());
        let ghost fs = |i: int| sc.rule_sets(*pol, i);
        let ghost fr = |i: int| sc.rule_rules(*pol, i);
        let mut i: usize = 0;
        proof {
            assert(set_views(plan.ipsets@) =~= sets0 + (seq![first] + crate::seqs::flat(
                n.take(0),
                fs,
            )));
            assert(crate::text::texts(plan.rules@) =~= rules0 + crate::seqs::flat(n.take(0), fr));
        }
        while i < pol.ingress.len()
            invariant
                i <= pol.ingress@.len(),
                sc == self.scene(),
                n == indices(pol.ingress@.len()),
                fs == (|i: int| sc.rule_sets(*pol, i)),
                fr == (|i: int| sc.rule_rules(*pol, i)),
                chain@ == sc.chain_of(*pol),
                target_match@ == set_match(sc.target_set(*pol), " dst"@),
                set_views(plan.ipsets@) == sets0 + (seq![first] + crate::seqs::flat(
                    n.take(i as int),
                    fs,
                )),
                crate::text::texts(plan.rules@) == rules0 + crate::seqs::flat(
                    n.take(i as int),
                    fr,
                ),
                crate::text::texts(plan.chain_decls@) == decls0 + sc.policy_decls(*pol),
            decreases pol.ingress@.len() - i,
        {
            proof {
                crate::seqs::lemma_flat_step(n, fs, i as int);
                crate::seqs::lemma_flat_step(n, fr, i as int);
            }
            self.add_rule(
                &mut plan.ipsets,
                &mut plan.rules,
                pol,
                i,
                chain.as_str(),
                target_match.as_str(),
            );
            assert(set_views(plan.ipsets@) =~= sets0 + (seq![first] + crate::seqs::flat(
                n.take(i + 1),
                fs,
            )));
            assert(crate::text::texts(plan.rules@) =~= rules0 + crate::seqs::flat(
                n.take(i + 1),
                fr,
            ));
            i = i + 1;
        }
        assert(n.take(i as int) =~= n);
    }

    fn policy_chains(&self, pod: &Pod) -> (r: Vec<String>)
        ensures
            crate::text::texts(r@) == self.scene().chains_for(*pod),
    {
        let ghost sc = self.scene();
        let ghost f = |p: NetworkPolicy| sc.chain_for(*pod, p);
        let mut out: Vec<String> = Vec::new();
        let mut i: usize = 0;
        assert(crate::text::texts(out@) =~= crate::seqs::flat(self.policies@.take(0), f));
        while i < self.policies.len()
            invariant
                i <= self.policies@.len(),
                sc == self.scene(),
                f == (|p: NetworkPolicy| sc.chain_for(*pod, p)),
                crate::text::texts(out@) == crate::seqs::flat(self.policies@.take(i as int), f),
            decreases self.policies@.len() - i,
        {
            let pol = &self.policies[i];
            proof {
                crate::seqs::lemma_flat_step(self.policies@, f, i as int);
            }
            let ghost before = crate::text::texts(out@);
            if pol.policy_types.ingress && pol.selects_pod(pod) {
                self::add(
                    &mut out,
                    network_policy_chain(
                        pol.namespace.as_str(),
                        pol.name.as_str(),
                        self.sync_version,
                        self.family,
                    ),
                );
            }
            assert(crate::text::texts(out@) =~= before + f(self.policies@[i as int]));
            i = i + 1;
        }
        assert(self.policies@.take(i as int) =~= self.policies@);
        out
    }
}

/// Adds all the lines.
fn add_all(v: &mut Vec<String>, more: Vec<String>)
    ensures
        crate::text::texts(final(v)@) == crate::text::texts(old(v)@) + crate::text::texts(more@),
{
    let ghost start = v@;
    let mut more = more;
    let ghost added = more@;
    v.append(&mut more);
    assert(crate::text::texts(v@) =~= crate::text::texts(start) + crate::text::texts(added));
}

impl<'a> Inputs<'a> {
    /// Adds the first part of the chain of a pod: the common rules, then what the node itself
    /// sends.
    fn add_head(&self, rules: &mut Vec<String>, pod: &Pod, chain: &str, ips: &[String])
        requires
            chain@ == self.scene().chain_of_pod(*pod),
            crate::text::texts(ips@) == self.scene().ips_of(*pod),
        ensures
            crate::text::texts(final(rules)@) == crate::text::texts(old(rules)@) + (seq![
                self.scene().first_rule(*pod),
            ] + self.scene().ips_of(*pod).map_values(
                |ip: Seq<char>| self.scene().local_rule(*pod, ip),
            )),
    {
        let ghost sc = self.scene();
        let ghost start = crate::text::texts(rules@);
        let ghost lines = sc.ips_of(*pod).map_values(|ip: Seq<char>| sc.local_rule(*pod, ip));
        self::add(rules, cat4("-A ", chain, " -j ", NWPLCY_COMMON));
        let mut i: usize = 0;
        assert(crate::text::texts(rules@) =~= start + (seq![sc.first_rule(*pod)] + lines.take(0)));
        while i < ips.len()
            invariant
                i <= ips@.len(),
                chain@ == sc.chain_of_pod(*pod),
                crate::text::texts(ips@) == sc.ips_of(*pod),
                lines == sc.ips_of(*pod).map_values(|ip: Seq<char>| sc.local_rule(*pod, ip)),
                crate::text::texts(rules@) == start + (seq![sc.first_rule(*pod)] + lines.take(
                    i as int,
                )),
            decreases ips@.len() - i,
        {
            assert(sc.ips_of(*pod)[i as int] == ips@[i as int]@);
            self::add(
                rules,
                cat5(
                    "-A ",
                    chain,
                    " -m addrtype --src-type LOCAL -d ",
                    ips[i].as_str(),
                    " -j ACCEPT",
                ),
            );
            assert(lines.take(i + 1) =~= lines.take(i as int).push(lines[i as int]));
            assert(crate::text::texts(rules@) =~= start + (seq![sc.first_rule(*pod)] + lines.take(
                i + 1,
            )));
            i = i + 1;
        }
        assert(lines.take(i as int) =~= lines);
    }

    /// Adds the jumps to the policies of a pod for one of its addresses.
    fn add_jumps(
        &self,
        rules: &mut Vec<String>,
        pod: &Pod,
        chain: &str,
        chains: &[String],
        ip: &str,
    )
        requires
            chain@ == self.scene().chain_of_pod(*pod),
            crate::text::texts(chains@) == self.scene().chains_for(*pod),
        ensures
            crate::text::texts(final(rules)@) == crate::text::texts(old(rules)@)
                + self.scene().jump_rules(*pod, ip@),
    {
        let ghost sc = self.scene();
        let ghost start = crate::text::texts(rules@);
        let ghost all = sc.jump_rules(*pod, ip@);
        let mut j: usize = 0;
        assert(crate::text::texts(rules@) =~= start + all.take(0));
        while j < chains.len()
            invariant
                j <= chains@.len(),
                chain@ == sc.chain_of_pod(*pod),
                crate::text::texts(chains@) == sc.chains_for(*pod),
                all == sc.jump_rules(*pod, ip@),
                crate::text::texts(rules@) == start + all.take(j as int),
            decreases chains@.len() - j,
        {
            assert(sc.chains_for(*pod)[j as int] == chains@[j as int]@);
            self::add(rules, cat6("-A ", chain, " -d ", ip, " -j ", chains[j].as_str()));
            assert(all.take(j + 1) =~= all.take(j as int).push(all[j as int]));
            assert(crate::text::texts(rules@) =~= start + all.take(j + 1));
            j = j + 1;
        }
        self::add(rules, cat6("-A ", chain, " -s ", ip, " -j ", NWPLCY_DEFAULT));
        assert(sc.chains_for(*pod).len() == chains@.len());
        assert(crate::text::texts(rules@) =~= start + all);
    }

    /// Adds the end of the chain of a pod.
    fn add_end(&self, rules: &mut Vec<String>, pod: &Pod, chain: &str)
        requires
            chain@ == self.scene().chain_of_pod(*pod),
        ensures
            crate::text::texts(final(rules)@) == crate::text::texts(old(rules)@)
                + self.scene().end_rules(*pod),
    {
        let ghost start = crate::text::texts(rules@);
        self::add(
            rules,
            cat5(
                "-A ",
                chain,
                " -m mark ! --mark ",
                MARK_MATCHED,
                " -j NFLOG --nflog-group 100 -m limit --limit 10/minute --limit-burst 10",
            ),
        );
        self::add(
            rules,
            cat6(
                "-A ",
                chain,
                " -m mark ! --mark ",
                MARK_MATCHED,
                " -j ",
                reject_target(self.family),
            ),
        );
        self::add(rules, cat3("-A ", chain, " -j MARK --set-mark 0/0x10000"));
        self::add(rules, cat4("-A ", chain, " -j MARK --set-mark ", MARK_ACCEPTED));
        assert(crate::text::texts(rules@) =~= start + self.scene().end_rules(*pod));
    }

    /// Adds the jumps to the chain of a pod for one of its addresses.
    fn add_dispatch(&self, rules: &mut Vec<String>, pod: &Pod, chain: &str, ip: &str)
        requires
            chain@ == self.scene().chain_of_pod(*pod),
        ensures
            crate::text::texts(final(rules)@) == crate::text::texts(old(rules)@)
                + self.scene().dispatch_rules(*pod, ip@),
    {
        let ghost start = crate::text::texts(rules@);
        self::add(rules, cat4("-A KUBE-ROUTER-FORWARD -d ", ip, " -j ", chain));
        self::add(rules, cat4("-A KUBE-ROUTER-OUTPUT -d ", ip, " -j ", chain));
        self::add(
            rules,
            cat4(
                "-A KUBE-ROUTER-FORWARD -m physdev --physdev-is-bridged -d ",
                ip,
                " -j ",
                chain,
            ),
        );
        assert(crate::text::texts(rules@) =~= start + self.scene().dispatch_rules(*pod, ip@));
    }

    /// Adds the rules of a pod that gets a chain.
    fn add_chain(
        &self,
        rules: &mut Vec<String>,
        pod: &Pod,
        chain: &str,
        chains: &[String],
        ips: &[String],
    )
        requires
            chain@ == self.scene().chain_of_pod(*pod),
            crate::text::texts(chains@) == self.scene().chains_for(*pod),
            crate::text::texts(ips@) == self.scene().ips_of(*pod),
        ensures
            crate::text::texts(final(rules)@) == crate::text::texts(old(rules)@)
                + self.scene().chain_rules(*pod),
    {
        let ghost sc = self.scene();
        let ghost start = crate::text::texts(rules@);
        let ghost all = sc.ips_of(*pod);
        let ghost fj = |ip: Seq<char>| sc.jump_rules(*pod, ip);
        let ghost fd = |ip: Seq<char>| sc.dispatch_rules(*pod, ip);
        self.add_head(rules, pod, chain, ips);
        let ghost s1 = crate::text::texts(rules@);
        let mut i: usize = 0;
        assert(crate::text::texts(rules@) =~= s1 + crate::seqs::flat(all.take(0), fj));
        while i < ips.len()
            invariant
                i <= ips@.len(),
                sc == self.scene(),
                all == sc.ips_of(*pod),
                chain@ == sc.chain_of_pod(*pod),
                crate::text::texts(chains@) == sc.chains_for(*pod),
                crate::text::texts(ips@) == all,
                fj == (|ip: Seq<char>| sc.jump_rules(*pod, ip)),
                crate::text::texts(rules@) == s1 + crate::seqs::flat(all.take(i as int), fj),
            decreases ips@.len() - i,
        {
            proof {
                crate::seqs::lemma_flat_step(all, fj, i as int);
                assert(all[i as int] == ips@[i as int]@);
            }
            self.add_jumps(rules, pod, chain, chains, ips[i].as_str());
            assert(crate::text::texts(rules@) =~= s1 + crate::seqs::flat(all.take(i + 1), fj));
            i = i + 1;
        }
        assert(all.take(i as int) =~= all);
        self.add_end(rules, pod, chain);
        let ghost s2 = crate::text::texts(rules@);
        i = 0;
        assert(crate::text::texts(rules@) =~= s2 + crate::seqs::flat(all.take(0), fd));
        while i < ips.len()
            invariant
                i <= ips@.len(),
                sc == self.scene(),
                all == sc.ips_of(*pod),
                chain@ == sc.chain_of_pod(*pod),
                crate::text::texts(ips@) == all,
                fd == (|ip: Seq<char>| sc.dispatch_rules(*pod, ip)),
                crate::text::texts(rules@) == s2 + crate::seqs::flat(all.take(i as int), fd),
            decreases ips@.len() - i,
        {
            proof {
                crate::seqs::lemma_flat_step(all, fd, i as int);
                assert(all[i as int] == ips@[i as int]@);
            }
            self.add_dispatch(rules, pod, chain, ips[i].as_str());
            assert(crate::text::texts(rules@) =~= s2 + crate::seqs::flat(all.take(i + 1), fd));
            i = i + 1;
        }
        assert(all.take(i as int) =~= all);
        assert(crate::text::texts(rules@) =~= start + sc.chain_rules(*pod));
    }

    /// Adds the declaration, the rules and the addresses of a pod, where it gets a chain.
    fn add_pod(
        &self,
        decls: &mut Vec<String>,
        rules: &mut Vec<String>,
        programmed: &mut Vec<String>,
        pod: &Pod,
    )
        ensures
            crate::text::texts(final(decls)@) == crate::text::texts(old(decls)@)
                + self.scene().pod_decls(*pod),
            crate::text::texts(final(rules)@) == crate::text::texts(old(rules)@)
                + self.scene().pod_rules(*pod),
            crate::text::texts(final(programmed)@) == crate::text::texts(old(programmed)@)
                + self.scene().programmed_ips(*pod),
    {
        let ghost sc = self.scene();
        let ghost d0 = crate::text::texts(decls@);
        let ghost r0 = crate::text::texts(rules@);
        let ghost p0 = crate::text::texts(programmed@);
        let ips = family_ips(&pod.ips, self.family);
        let chains = self.policy_chains(pod);
        assert(sc.ips_of(*pod).len() == ips@.len());
        assert(sc.chains_for(*pod).len() == chains@.len());
        if !same(pod.node_name.as_str(), self.node) || pod.host_network || ips.len() == 0
            || chains.len() == 0 {
            assert(!sc.programmed(*pod));
            assert(crate::text::texts(decls@) =~= d0 + sc.pod_decls(*pod));
            assert(crate::text::texts(rules@) =~= r0 + sc.pod_rules(*pod));
            assert(crate::text::texts(programmed@) =~= p0 + sc.programmed_ips(*pod));
            return;
        }
        let chain = pod_firewall_chain(
            pod.namespace.as_str(),
            pod.name.as_str(),
            self.sync_version,
        );
        add_decl(decls, chain.as_str());
        assert(crate::text::texts(decls@) =~= d0 + sc.pod_decls(*pod));
        self.add_chain(rules, pod, chain.as_str(), &chains, &ips);
        add_all(programmed, ips);
    }

    /// Adds the rules of the tail chain.
    fn add_tail(&self, rules: &mut Vec<String>)
        ensures
            crate::text::texts(final(rules)@) == crate::text::texts(old(rules)@)
                + self.scene().tail_rules(),
    {
        let ghost sc = self.scene();
        let ghost start = crate::text::texts(rules@);
        let ghost fg = |c: IpNet| sc.gate_rules(c);
        let ghost fw = |c: IpNet| sc.wall_rules(c);
        let ghost all = self.pod_cidrs@;
        let reject = reject_target(self.family);
        if self.default_deny {
            let set = local_pods_set(self.family);
            let mut i: usize = 0;
            assert(crate::text::texts(rules@) =~= start + crate::seqs::flat(all.take(0), fg));
            while i < self.pod_cidrs.len()
                invariant
                    i <= self.pod_cidrs@.len(),
                    sc == self.scene(),
                    all == self.pod_cidrs@,
                    set@ == crate::netpol::naming::local_pods_name(self.family),
                    reject@ == reject_words(self.family),
                    fg == (|c: IpNet| sc.gate_rules(c)),
                    crate::text::texts(rules@) == start + crate::seqs::flat(
                        all.take(i as int),
                        fg,
                    ),
                decreases self.pod_cidrs@.len() - i,
            {
                proof {
                    crate::seqs::lemma_flat_step(all, fg, i as int);
                }
                let ghost before = crate::text::texts(rules@);
                if IpFamily::of_net(&self.pod_cidrs[i]) == self.family {
                    let cidr = self.pod_cidrs[i].to_text();
                    self::add(
                        rules,
                        cat6(
                            "-A KUBE-NWPLCY-TAIL -s ",
                            cidr.as_str(),
                            " -m set ! --match-set ",
                            set.as_str(),
                            " src -j ",
                            reject,
                        ),
                    );
                    self::add(
                        rules,
                        cat6(
                            "-A KUBE-NWPLCY-TAIL -d ",
                            cidr.as_str(),
                            " -m set ! --match-set ",
                            set.as_str(),
                            " dst -j ",
                            reject,
                        ),
                    );
                }
                assert(crate::text::texts(rules@) =~= before + fg(all[i as int]));
                i = i + 1;
            }
            assert(all.take(i as int) =~= all);
        }
        self::add(
            rules,
            cat3("-A KUBE-NWPLCY-TAIL -m mark --mark ", MARK_ACCEPTED, " -j ACCEPT"),
        );
        if self.default_deny {
            let ghost mid = crate::text::texts(rules@);
            let mut i: usize = 0;
            assert(crate::text::texts(rules@) =~= mid + crate::seqs::flat(all.take(0), fw));
            while i < self.pod_cidrs.len()
                invariant
                    i <= self.pod_cidrs@.len(),
                    sc == self.scene(),
                    all == self.pod_cidrs@,
                    reject@ == reject_words(self.family),
                    fw == (|c: IpNet| sc.wall_rules(c)),
                    crate::text::texts(rules@) == mid + crate::seqs::flat(all.take(i as int), fw),
                decreases self.pod_cidrs@.len() - i,
            {
                proof {
                    crate::seqs::lemma_flat_step(all, fw, i as int);
                }
                let ghost before = crate::text::texts(rules@);
                if IpFamily::of_net(&self.pod_cidrs[i]) == self.family {
                    let cidr = self.pod_cidrs[i].to_text();
                    self::add(
                        rules,
                        cat4("-A KUBE-NWPLCY-TAIL -s ", cidr.as_str(), " -j ", reject),
                    );
                    self::add(
                        rules,
                        cat4("-A KUBE-NWPLCY-TAIL -d ", cidr.as_str(), " -j ", reject),
                    );
                }
                assert(crate::text::texts(rules@) =~= before + fw(all[i as int]));
                i = i + 1;
            }
            assert(all.take(i as int) =~= all);
        }
        assert(crate::text::texts(rules@) =~= start + sc.tail_rules());
    }
}

/// The scene of the arguments of `build_plan`.
pub open spec fn scene_of(
    policies: Seq<NetworkPolicy>,
    pods: Seq<Pod>,
    namespaces: Seq<Namespace>,
    node: Seq<char>,
    family: IpFamily,
    sync_version: Seq<char>,
    default_deny: bool,
    pod_cidrs: Seq<IpNet>,
) -> Scene {
    Scene { policies, pods, namespaces, node, family, sync_version, default_deny, pod_cidrs }
}

/// The firewall of the node in one family.
///
/// With `default_deny`, traffic of the pod networks `pod_cidrs` is rejected unless the pod's
/// chain is in place, which closes the gap before a new pod's chain is there.
pub fn build_plan(
    policies: &[NetworkPolicy],
    pods: &[Pod],
    namespaces: &[Namespace],
    node: &str,
    family: IpFamily,
    sync_version: &str,
    default_deny: bool,
    pod_cidrs: &[IpNet],
) -> (r: FirewallPlan)
    ensures
        ({
            let sc = scene_of(
                policies@,
                pods@,
                namespaces@,
                node@,
                family,
                sync_version@,
                default_deny,
                pod_cidrs@,
            );
            &&& set_views(r.ipsets@) == sc.sets()
            &&& crate::text::texts(r.chain_decls@) == sc.decls()
            &&& crate::text::texts(r.rules@) == sc.rules()
        }),
{
    let inputs = Inputs {
        policies,
        pods,
        namespaces,
        node,
        family,
        sync_version,
        default_deny,
        pod_cidrs,
    };
    let ghost sc = inputs.scene();
    let ghost fs = |p: NetworkPolicy| sc.policy_sets(p);
    let ghost fr = |p: NetworkPolicy| sc.policy_rules(p);
    let ghost fd = |p: NetworkPolicy| sc.policy_decls(p);
    let mut plan = FirewallPlan::default();
    add_decl(&mut plan.chain_decls, ROUTER_INPUT);
    add_decl(&mut plan.chain_decls, ROUTER_FORWARD);
    add_decl(&mut plan.chain_decls, ROUTER_OUTPUT);
    add_decl(&mut plan.chain_decls, NWPLCY_COMMON);
    add_decl(&mut plan.chain_decls, NWPLCY_DEFAULT);
    add_decl(&mut plan.chain_decls, NWPLCY_TAIL);
    add_common_rules(&mut plan.rules, family);
    let mut i: usize = 0;
    proof {
        assert(set_views(plan.ipsets@) =~= crate::seqs::flat(policies@.take(0), fs));
        assert(crate::text::texts(plan.rules@) =~= common_rules(family) + crate::seqs::flat(
            policies@.take(0),
            fr,
        ));
        assert(crate::text::texts(plan.chain_decls@) =~= base_decls() + crate::seqs::flat(
            policies@.take(0),
            fd,
        ));
    }
    while i < policies.len()
        invariant
            i <= policies@.len(),
            sc == inputs.scene(),
            fs == (|p: NetworkPolicy| sc.policy_sets(p)),
            fr == (|p: NetworkPolicy| sc.policy_rules(p)),
            fd == (|p: NetworkPolicy| sc.policy_decls(p)),
            set_views(plan.ipsets@) == crate::seqs::flat(policies@.take(i as int), fs),
            crate::text::texts(plan.rules@) == common_rules(family) + crate::seqs::flat(
                policies@.take(i as int),
                fr,
            ),
            crate::text::texts(plan.chain_decls@) == base_decls() + crate::seqs::flat(
                policies@.take(i as int),
                fd,
            ),
        decreases policies@.len() - i,
    {
        proof {
            crate::seqs::lemma_flat_step(policies@, fs, i as int);
            crate::seqs::lemma_flat_step(policies@, fr, i as int);
            crate::seqs::lemma_flat_step(policies@, fd, i as int);
        }
        let ghost s0 = set_views(plan.ipsets@);
        let ghost r0 = crate::text::texts(plan.rules@);
        let ghost d0 = crate::text::texts(plan.chain_decls@);
        if policies[i].policy_types.ingress {
            inputs.add_policy(&mut plan, &policies[i]);
        }
        proof {
            assert(set_views(plan.ipsets@) =~= s0 + fs(policies@[i as int]));
            assert(crate::text::texts(plan.rules@) =~= r0 + fr(policies@[i as int]));
            assert(crate::text::texts(plan.chain_decls@) =~= d0 + fd(policies@[i as int]));
            assert(crate::text::texts(plan.rules@) =~= common_rules(family) + crate::seqs::flat(
                policies@.take(i + 1),
                fr,
            ));
            assert(crate::text::texts(plan.chain_decls@) =~= base_decls() + crate::seqs::flat(
                policies@.take(i + 1),
                fd,
            ));
        }
        i = i + 1;
    }
    assert(policies@.take(i as int) =~= policies@);

    let ghost pr = |p: Pod| sc.pod_rules(p);
    let ghost pd = |p: Pod| sc.pod_decls(p);
    let ghost pi = |p: Pod| sc.programmed_ips(p);
    let ghost rules1 = crate::text::texts(plan.rules@);
    let ghost decls1 = crate::text::texts(plan.chain_decls@);
    let ghost sets1 = set_views(plan.ipsets@);
    let mut programmed: Vec<String> = Vec::new();
    let mut j: usize = 0;
    proof {
        assert(crate::text::texts(plan.rules@) =~= rules1 + crate::seqs::flat(pods@.take(0), pr));
        assert(crate::text::texts(plan.chain_decls@) =~= decls1 + crate::seqs::flat(
            pods@.take(0),
            pd,
        ));
        assert(crate::text::texts(programmed@) =~= crate::seqs::flat(pods@.take(0), pi));
    }
    while j < pods.len()
        invariant
            j <= pods@.len(),
            sc == inputs.scene(),
            pr == (|p: Pod| sc.pod_rules(p)),
            pd == (|p: Pod| sc.pod_decls(p)),
            pi == (|p: Pod| sc.programmed_ips(p)),
            set_views(plan.ipsets@) == sets1,
            crate::text::texts(plan.rules@) == rules1 + crate::seqs::flat(
                pods@.take(j as int),
                pr,
            ),
            crate::text::texts(plan.chain_decls@) == decls1 + crate::seqs::flat(
                pods@.take(j as int),
                pd,
            ),
            crate::text::texts(programmed@) == crate::seqs::flat(pods@.take(j as int), pi),
        decreases pods@.len() - j,
    {
        proof {
            crate::seqs::lemma_flat_step(pods@, pr, j as int);
            crate::seqs::lemma_flat_step(pods@, pd, j as int);
            crate::seqs::lemma_flat_step(pods@, pi, j as int);
        }
        inputs.add_pod(&mut plan.chain_decls, &mut plan.rules, &mut programmed, &pods[j]);
        proof {
            assert(crate::text::texts(plan.rules@) =~= rules1 + crate::seqs::flat(
                pods@.take(j + 1),
                pr,
            ));
            assert(crate::text::texts(plan.chain_decls@) =~= decls1 + crate::seqs::flat(
                pods@.take(j + 1),
                pd,
            ));
        }
        j = j + 1;
    }
    assert(pods@.take(j as int) =~= pods@);
    if default_deny {
        add_set(
            &mut plan.ipsets,
            IpsetPlan {
                name: local_pods_set(family),
                set_type: SetType::HashIp,
                family,
                entries: programmed,
            },
        );
    }
    assert(set_views(plan.ipsets@) =~= sets1 + sc.local_sets());
    inputs.add_tail(&mut plan.rules);
    let ghost rules2 = crate::text::texts(plan.rules@);
    self::add(&mut plan.rules, cat4("-A ", ROUTER_INPUT, " -j ", NWPLCY_TAIL));
    self::add(&mut plan.rules, cat4("-A ", ROUTER_FORWARD, " -j ", NWPLCY_TAIL));
    self::add(&mut plan.rules, cat4("-A ", ROUTER_OUTPUT, " -j ", NWPLCY_TAIL));
    proof {
        assert(crate::text::texts(plan.rules@) =~= rules2 + sc.final_rules());
        assert(crate::text::texts(plan.rules@) =~= sc.rules());
        assert(crate::text::texts(plan.chain_decls@) =~= sc.decls());
    }
    plan
}

} // verus!
