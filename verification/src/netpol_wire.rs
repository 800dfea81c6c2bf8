//! From network policies, pods and namespaces of the cluster to what the firewall reads.

use vstd::prelude::*;

use crate::ip::IpAddr;
use crate::net::{parse_net, IpNet};
use crate::netpol::model::{
    holds_text, LabelSelector, Namespace, NetworkPolicy, Peer, Pod, PolicyTypes, PortSpec, Rule,
    SelectorOp, SelectorRequirement,
};
use crate::objects::{
    labels_or_empty, own_or_empty, parse_ips, parse_nets, to_port, ExpressionObject, IntOrString,
    NamespaceObject, PeerObject, PodObject, PolicyObject, PolicySpec, PortObject, RuleObject,
    SelectorObject,
};
use crate::text::{lowercase, same};

verus! {

/// A set-based requirement as a value.
#[verifier::ext_equal]
pub struct RequirementView {
    pub key: Seq<char>,
    pub operator: Option<SelectorOp>,
    pub values: Seq<Seq<char>>,
}

/// A selector as a value.
#[verifier::ext_equal]
pub struct SelectorView {
    pub labels: Map<Seq<char>, Seq<char>>,
    pub requirements: Seq<RequirementView>,
}

/// A peer as a value.
#[verifier::ext_equal]
pub enum PeerView {
    Selector { namespaces: Option<SelectorView>, pods: Option<SelectorView> },
    IpBlock { cidr: IpNet, except: Seq<IpNet> },
}

/// A port as a value.
#[verifier::ext_equal]
pub struct PortView {
    pub protocol: Seq<char>,
    pub port: Option<u16>,
}

/// A rule as a value.
#[verifier::ext_equal]
pub struct RuleView {
    pub peers: Seq<PeerView>,
    pub ports: Seq<PortView>,
}

/// A policy as a value.
#[verifier::ext_equal]
pub struct PolicyView {
    pub namespace: Seq<char>,
    pub name: Seq<char>,
    pub pods: SelectorView,
    pub types: PolicyTypes,
    pub ingress: Seq<RuleView>,
    pub egress: Seq<RuleView>,
}

impl View for SelectorRequirement {
    type V = RequirementView;

    open spec fn view(&self) -> RequirementView {
        RequirementView {
            key: self.key@,
            operator: self.operator,
            values: crate::text::texts(self.values@),
        }
    }
}

impl View for LabelSelector {
    type V = SelectorView;

    open spec fn view(&self) -> SelectorView {
        SelectorView {
            labels: self.match_labels@,
            requirements: self.match_expressions@.map_values(|e: SelectorRequirement| e@),
        }
    }
}

/// An optional selector as a value.
pub open spec fn opt_view(s: Option<LabelSelector>) -> Option<SelectorView> {
    match s {
        Some(x) => Some(x@),
        None => None,
    }
}

impl View for Peer {
    type V = PeerView;

    open spec fn view(&self) -> PeerView {
        match *self {
            Peer::Selector { namespace_selector, pod_selector } => PeerView::Selector {
                namespaces: opt_view(namespace_selector),
                pods: opt_view(pod_selector),
            },
            Peer::IpBlock { cidr, except } => PeerView::IpBlock { cidr, except: except@ },
        }
    }
}

impl View for PortSpec {
    type V = PortView;

    open spec fn view(&self) -> PortView {
        PortView { protocol: self.protocol@, port: self.port }
    }
}

/// Peers as values.
pub open spec fn peer_views(v: Seq<Peer>) -> Seq<PeerView> {
    v.map_values(|p: Peer| p@)
}

/// Ports as values.
pub open spec fn port_views(v: Seq<PortSpec>) -> Seq<PortView> {
    v.map_values(|p: PortSpec| p@)
}

impl View for Rule {
    type V = RuleView;

    open spec fn view(&self) -> RuleView {
        RuleView { peers: peer_views(self.peers@), ports: port_views(self.ports@) }
    }
}

/// Rules as values.
pub open spec fn rule_views(v: Seq<Rule>) -> Seq<RuleView> {
    v.map_values(|r: Rule| r@)
}

impl View for NetworkPolicy {
    type V = PolicyView;

    open spec fn view(&self) -> PolicyView {
        PolicyView {
            namespace: self.namespace@,
            name: self.name@,
            pods: self.pod_selector@,
            types: self.policy_types,
            ingress: rule_views(self.ingress@),
            egress: rule_views(self.egress@),
        }
    }
}

/// The operator of that name.
pub open spec fn operator_of(name: Seq<char>) -> Option<SelectorOp> {
    if name == "In"@ {
        Some(SelectorOp::In)
    } else if name == "NotIn"@ {
        Some(SelectorOp::NotIn)
    } else if name == "Exists"@ {
        Some(SelectorOp::Exists)
    } else if name == "DoesNotExist"@ {
        Some(SelectorOp::DoesNotExist)
    } else {
        None
    }
}

/// What a set-based requirement of the cluster becomes.
pub open spec fn requirement_of(e: ExpressionObject) -> RequirementView {
    RequirementView {
        key: e.key@,
        operator: operator_of(e.operator@),
        values: crate::text::texts(crate::objects::list_or_empty(e.values)),
    }
}

/// What a selector of the cluster becomes.
pub open spec fn selector_of(s: SelectorObject) -> SelectorView {
    SelectorView {
        labels: crate::objects::map_or_empty(s.match_labels),
        requirements: crate::objects::list_or_empty(s.match_expressions).map_values(
            |e: ExpressionObject| requirement_of(e),
        ),
    }
}

/// What an optional selector of the cluster becomes.
pub open spec fn opt_selector_of(s: Option<SelectorObject>) -> Option<SelectorView> {
    match s {
        Some(x) => Some(selector_of(x)),
        None => None,
    }
}

/// What a peer of the cluster becomes; nothing where its network cannot be read. A network
/// outweighs selectors.
pub open spec fn peer_of(p: PeerObject) -> Option<PeerView> {
    match p.ip_block {
        Some(block) => match crate::net::net_of(block.cidr@) {
            Some(cidr) => Some(
                PeerView::IpBlock {
                    cidr,
                    except: crate::objects::nets_of(
                        crate::text::texts(crate::objects::list_or_empty(block.except)),
                    ),
                },
            ),
            None => None,
        },
        None => Some(
            PeerView::Selector {
                namespaces: opt_selector_of(p.namespace_selector),
                pods: opt_selector_of(p.pod_selector),
            },
        ),
    }
}

/// What the peers of a rule become; those that become nothing are left out.
pub open spec fn peers_of(v: Seq<PeerObject>) -> Seq<PeerView> {
    crate::seqs::flat(
        v,
        |p: PeerObject|
            match peer_of(p) {
                Some(x) => seq![x],
                None => Seq::empty(),
            },
    )
}

/// The protocol of a port: TCP where it does not say.
pub open spec fn protocol_text(p: PortObject) -> Seq<char> {
    match p.protocol {
        Some(t) => t@,
        None => "TCP"@,
    }
}

/// The number of a port, where it is given by a number.
pub open spec fn port_number(p: PortObject) -> Option<u16> {
    match p.port {
        Some(IntOrString::Int(n)) => crate::objects::as_port(n),
        _ => None,
    }
}

/// What a port of the cluster becomes.
pub open spec fn port_of(p: PortObject) -> PortView {
    PortView {
        protocol: crate::text::lowercase_of(protocol_text(p)),
        port: port_number(p),
    }
}

/// What a rule of the cluster becomes.
pub open spec fn rule_of(r: RuleObject) -> RuleView {
    RuleView {
        peers: peers_of(crate::objects::list_or_empty(r.peers)),
        ports: crate::objects::list_or_empty(r.ports).map_values(|p: PortObject| port_of(p)),
    }
}

/// What rules of the cluster become.
pub open spec fn rules_of(v: Seq<RuleObject>) -> Seq<RuleView> {
    v.map_values(|r: RuleObject| rule_of(r))
}

/// The directions of a policy: those that it names. One that names none has the direction to the
/// pods, and the other one where it has rules for it.
pub open spec fn types_of(spec: PolicySpec) -> PolicyTypes {
    let names = crate::text::texts(crate::objects::list_or_empty(spec.policy_types));
    PolicyTypes {
        ingress: names.contains("Ingress"@) || names.len() == 0,
        egress: names.contains("Egress"@) || (names.len() == 0 && crate::objects::list_or_empty(
            spec.egress,
        ).len() > 0),
    }
}

/// What a policy of the cluster becomes; nothing where it lacks a name or what it asks for. One
/// without a selector applies to all pods of its namespace.
pub open spec fn policy_of(np: PolicyObject) -> Option<PolicyView> {
    match (np.metadata.namespace, np.metadata.name, np.spec) {
        (Some(namespace), Some(name), Some(spec)) => Some(
            PolicyView {
                namespace: namespace@,
                name: name@,
                pods: match spec.pod_selector {
                    Some(s) => selector_of(s),
                    None => SelectorView { labels: Map::empty(), requirements: Seq::empty() },
                },
                types: types_of(spec),
                ingress: rules_of(crate::objects::list_or_empty(spec.ingress)),
                egress: rules_of(crate::objects::list_or_empty(spec.egress)),
            },
        ),
        _ => None,
    }
}

fn copy_texts(v: &Option<Vec<String>>) -> (r: Vec<String>)
    ensures
        crate::text::texts(r@) == crate::text::texts(crate::objects::list_or_empty(*v)),
{
    let mut out: Vec<String> = Vec::new();
    match v {
        Some(l) => {
            let ghost all = crate::text::texts(l@);
            let mut i: usize = 0;
            assert(crate::text::texts(out@) =~= all.take(0));
            while i < l.len()
                invariant
                    i <= l@.len(),
                    all == crate::text::texts(l@),
                    crate::text::texts(out@) == all.take(i as int),
                decreases l@.len() - i,
            {
                let ghost before = out@;
                out.push(l[i].clone());
                proof {
                    assert(out@ =~= before.push(out@.last()));
                    crate::text::lemma_texts_push(before, out@.last());
                    assert(all.take(i + 1) =~= all.take(i as int).push(all[i as int]));
                }
                i = i + 1;
            }
            assert(all.take(i as int) =~= all);
        },
        None => {
            assert(crate::text::texts(out@) =~= crate::text::texts(Seq::<String>::empty()));
        },
    }
    out
}

fn map_operator(name: &str) -> (r: Option<SelectorOp>)
    ensures
        r == operator_of(name@),
{
    if same(name, "In") {
        Some(SelectorOp::In)
    } else if same(name, "NotIn") {
        Some(SelectorOp::NotIn)
    } else if same(name, "Exists") {
        Some(SelectorOp::Exists)
    } else if same(name, "DoesNotExist") {
        Some(SelectorOp::DoesNotExist)
    } else {
        None
    }
}

/// What a selector of the cluster becomes.
pub fn match_labels(sel: &SelectorObject) -> (r: LabelSelector)
    ensures
        r@ == selector_of(*sel),
{
    let ghost all = selector_of(*sel).requirements;
    let mut out: Vec<SelectorRequirement> = Vec::new();
    match &sel.match_expressions {
        Some(l) => {
            let mut i: usize = 0;
            assert(out@.map_values(|e: SelectorRequirement| e@) =~= all.take(0));
            while i < l.len()
                invariant
                    i <= l@.len(),
                    all == l@.map_values(|e: ExpressionObject| requirement_of(e)),
                    out@.map_values(|e: SelectorRequirement| e@) == all.take(i as int),
                decreases l@.len() - i,
            {
                let ghost before = out@;
                out.push(
                    SelectorRequirement {
                        key: l[i].key.clone(),
                        operator: map_operator(l[i].operator.as_str()),
                        values: copy_texts(&l[i].values),
                    },
                );
                proof {
                    assert(out@.last()@ == all[i as int]);
                    assert(out@.map_values(|e: SelectorRequirement| e@) =~= before.map_values(
                        |e: SelectorRequirement| e@,
                    ).push(out@.last()@));
                    assert(all.take(i + 1) =~= all.take(i as int).push(all[i as int]));
                }
                i = i + 1;
            }
            assert(all.take(i as int) =~= all);
        },
        None => {
            assert(out@.map_values(|e: SelectorRequirement| e@) =~= all);
        },
    }
    LabelSelector { match_labels: labels_or_empty(&sel.match_labels), match_expressions: out }
}

fn map_opt_selector(s: &Option<SelectorObject>) -> (r: Option<LabelSelector>)
    ensures
        opt_view(r) == opt_selector_of(*s),
{
    match s {
        Some(x) => Some(match_labels(x)),
        None => None,
    }
}

/// What a peer of the cluster becomes.
pub fn map_peer(p: &PeerObject) -> (r: Option<Peer>)
    ensures
        match r {
            Some(x) => peer_of(*p) == Some(x@),
            None => peer_of(*p) is None,
        },
{
    match &p.ip_block {
        Some(block) => match parse_net(block.cidr.as_str()) {
            Some(cidr) => {
                let texts = copy_texts(&block.except);
                Some(Peer::IpBlock { cidr, except: parse_nets(&texts) })
            },
            None => None,
        },
        None => Some(
            Peer::Selector {
                namespace_selector: map_opt_selector(&p.namespace_selector),
                pod_selector: map_opt_selector(&p.pod_selector),
            },
        ),
    }
}

fn map_peers(peers: &Option<Vec<PeerObject>>) -> (r: Vec<Peer>)
    ensures
        peer_views(r@) == peers_of(crate::objects::list_or_empty(*peers)),
{
    let ghost f = |p: PeerObject|
        match peer_of(p) {
            Some(x) => seq![x],
            None => Seq::empty(),
        };
    let mut out: Vec<Peer> = Vec::new();
    match peers {
        Some(l) => {
            let mut i: usize = 0;
            assert(peer_views(out@) =~= crate::seqs::flat(l@.take(0), f));
            while i < l.len()
                invariant
                    i <= l@.len(),
                    f == (|p: PeerObject|
                        match peer_of(p) {
                            Some(x) => seq![x],
                            None => Seq::empty(),
                        }),
                    peer_views(out@) == crate::seqs::flat(l@.take(i as int), f),
                decreases l@.len() - i,
            {
                let ghost before = out@;
                proof {
                    crate::seqs::lemma_flat_step(l@, f, i as int);
                }
                match map_peer(&l[i]) {
                    Some(x) => {
                        out.push(x);
                        assert(peer_views(out@) =~= peer_views(before).push(x@));
                    },
                    None => {},
                }
                assert(peer_views(out@) =~= crate::seqs::flat(l@.take(i + 1), f));
                i = i + 1;
            }
            assert(l@.take(i as int) =~= l@);
        },
        None => {
            assert(peer_views(out@) =~= peers_of(Seq::<PeerObject>::empty()));
        },
    }
    out
}

/// What a port of the cluster becomes, once its protocol is in lower case.
pub fn port_spec(p: &PortObject, protocol: String) -> (r: PortSpec)
    ensures
        r@ == (PortView { protocol: protocol@, port: port_number(*p) }),
{
    let port: Option<u16> = match &p.port {
        Some(IntOrString::Int(n)) => to_port(*n),
        _ => None,
    };
    PortSpec { protocol, port }
}

/// What the ports of a rule become.
pub fn map_ports(ports: &Option<Vec<PortObject>>) -> (r: Vec<PortSpec>)
    ensures
        port_views(r@) == crate::objects::list_or_empty(*ports).map_values(
            |p: PortObject| port_of(p),
        ),
{
    let mut out: Vec<PortSpec> = Vec::new();
    match ports {
        Some(l) => {
            let ghost all = l@.map_values(|p: PortObject| port_of(p));
            let mut i: usize = 0;
            assert(port_views(out@) =~= all.take(0));
            while i < l.len()
                invariant
                    i <= l@.len(),
                    all == l@.map_values(|p: PortObject| port_of(p)),
                    port_views(out@) == all.take(i as int),
                decreases l@.len() - i,
            {
                let ghost before = out@;
                let protocol = match &l[i].protocol {
                    Some(t) => lowercase(t.as_str()),
                    None => lowercase("TCP"),
                };
                out.push(port_spec(&l[i], protocol));
                proof {
                    assert(out@.last()@ == all[i as int]);
                    assert(port_views(out@) =~= port_views(before).push(out@.last()@));
                    assert(all.take(i + 1) =~= all.take(i as int).push(all[i as int]));
                }
                i = i + 1;
            }
            assert(all.take(i as int) =~= all);
        },
        None => {
            assert(port_views(out@) =~= Seq::<PortObject>::empty().map_values(
                |p: PortObject| port_of(p),
            ));
        },
    }
    out
}

fn map_rules(rules: &Option<Vec<RuleObject>>) -> (r: Vec<Rule>)
    ensures
        rule_views(r@) == rules_of(crate::objects::list_or_empty(*rules)),
{
    let mut out: Vec<Rule> = Vec::new();
    match rules {
        Some(l) => {
            let ghost all = rules_of(l@);
            let mut i: usize = 0;
            assert(rule_views(out@) =~= all.take(0));
            while i < l.len()
                invariant
                    i <= l@.len(),
                    all == rules_of(l@),
                    rule_views(out@) == all.take(i as int),
                decreases l@.len() - i,
            {
                let ghost before = out@;
                out.push(Rule { peers: map_peers(&l[i].peers), ports: map_ports(&l[i].ports) });
                proof {
                    assert(out@.last()@ == all[i as int]);
                    assert(rule_views(out@) =~= rule_views(before).push(out@.last()@));
                    assert(all.take(i + 1) =~= all.take(i as int).push(all[i as int]));
                }
                i = i + 1;
            }
            assert(all.take(i as int) =~= all);
        },
        None => {
            assert(rule_views(out@) =~= rules_of(Seq::<RuleObject>::empty()));
        },
    }
    out
}

fn map_types(spec: &PolicySpec) -> (r: PolicyTypes)
    ensures
        r == types_of(*spec),
{
    let names = copy_texts(&spec.policy_types);
    let has_egress_rules = match &spec.egress {
        Some(l) => l.len() > 0,
        None => false,
    };
    PolicyTypes {
        ingress: holds_text(&names, "Ingress") || names.len() == 0,
        egress: holds_text(&names, "Egress") || (names.len() == 0 && has_egress_rules),
    }
}

/// What a policy of the cluster becomes.
pub fn map_policy(np: &PolicyObject) -> (r: Option<NetworkPolicy>)
    ensures
        match r {
            Some(p) => policy_of(*np) == Some(p@),
            None => policy_of(*np) is None,
        },
{
    match (&np.metadata.namespace, &np.metadata.name, &np.spec) {
        (Some(namespace), Some(name), Some(spec)) => {
            let pod_selector = match &spec.pod_selector {
                Some(s) => match_labels(s),
                None => LabelSelector::default(),
            };
            assert(spec.pod_selector is None ==> pod_selector@ =~= (SelectorView {
                labels: Map::empty(),
                requirements: Seq::empty(),
            }));
            Some(
                NetworkPolicy {
                    namespace: namespace.clone(),
                    name: name.clone(),
                    pod_selector,
                    policy_types: map_types(spec),
                    ingress: map_rules(&spec.ingress),
                    egress: map_rules(&spec.egress),
                },
            )
        },
        _ => None,
    }
}

/// The addresses of a pod: those of the list, or the single one where there is no list.
pub open spec fn pod_addresses(p: PodObject) -> Seq<IpAddr> {
    match p.pod_ips {
        Some(l) => crate::objects::ips_of(crate::text::texts(l@)),
        None => match p.pod_ip {
            Some(t) => match crate::ip::ip_of(t@) {
                Some(a) => seq![a],
                None => Seq::empty(),
            },
            None => Seq::empty(),
        },
    }
}

/// What a pod of the cluster becomes; nothing where it lacks a name or an address.
pub fn map_pod(pod: &PodObject) -> (r: Option<Pod>)
    ensures
        r is Some <==> pod.metadata.namespace is Some && pod.metadata.name is Some
            && pod_addresses(*pod).len() > 0,
        r matches Some(p) ==> {
            &&& Some(p.namespace@) == crate::objects::text_of(pod.metadata.namespace)
            &&& Some(p.name@) == crate::objects::text_of(pod.metadata.name)
            &&& p.labels@ == crate::objects::map_or_empty(pod.metadata.labels)
            &&& p.ips@ == pod_addresses(*pod)
            &&& p.node_name@ == crate::objects::text_or_empty(pod.node_name)
            &&& p.host_network == (pod.host_network == Some(true))
        },
{
    match (&pod.metadata.namespace, &pod.metadata.name) {
        (Some(namespace), Some(name)) => {
            let ips: Vec<IpAddr> = match &pod.pod_ips {
                Some(l) => parse_ips(l),
                None => {
                    let mut v: Vec<IpAddr> = Vec::new();
                    match &pod.pod_ip {
                        Some(t) => match IpAddr::parse(t.as_str()) {
                            Some(a) => {
                                v.push(a);
                            },
                            None => {},
                        },
                        None => {},
                    }
                    v
                },
            };
            assert(ips@ =~= pod_addresses(*pod));
            if ips.len() == 0 {
                return None;
            }
            let host_network = match pod.host_network {
                Some(b) => b,
                None => false,
            };
            Some(
                Pod {
                    namespace: namespace.clone(),
                    name: name.clone(),
                    labels: labels_or_empty(&pod.metadata.labels),
                    ips,
                    node_name: own_or_empty(&pod.node_name),
                    host_network,
                },
            )
        },
        _ => None,
    }
}

/// What a namespace of the cluster becomes; nothing where it lacks a name.
pub fn map_namespace(ns: &NamespaceObject) -> (r: Option<Namespace>)
    ensures
        match r {
            Some(n) => crate::objects::text_of(ns.metadata.name) == Some(n.name@) && n.labels@
                == crate::objects::map_or_empty(ns.metadata.labels),
            None => ns.metadata.name is None,
        },
{
    match &ns.metadata.name {
        Some(name) => Some(
            Namespace { name: name.clone(), labels: labels_or_empty(&ns.metadata.labels) },
        ),
        None => None,
    }
}

/// A selector of the cluster keeps its meaning: what it becomes selects exactly the labels that
/// meet all its requirements, set-based ones among them.
pub proof fn lemma_selector_keeps_meaning(
    o: SelectorObject,
    sel: LabelSelector,
    labels: Map<Seq<char>, Seq<char>>,
)
    requires
        sel@ == selector_of(o),
    ensures
        sel.selects(labels) <==> o.met_by(labels),
{
    let es = crate::objects::list_or_empty(o.match_expressions);
    let rs = sel.match_expressions@;
    assert(rs.len() == sel@.requirements.len());
    assert(es.len() == rs.len());
    assert forall|i: int| 0 <= i < rs.len() implies (#[trigger] rs[i]).holds(labels)
        == es[i].met_by(labels) by {
        assert(sel@.requirements[i] == rs[i]@);
        assert(rs[i]@ == requirement_of(es[i]));
        lemma_operator_names();
    }
    if sel.selects(labels) {
        assert forall|i: int| 0 <= i < es.len() implies (#[trigger] es[i]).met_by(labels) by {
            assert(rs[i].holds(labels));
        }
    }
    if o.met_by(labels) {
        assert forall|i: int| 0 <= i < rs.len() implies (#[trigger] rs[i]).holds(labels) by {
            assert(es[i].met_by(labels));
        }
    }
}

/// The names of operators differ.
proof fn lemma_operator_names()
    ensures
        "In"@ != "NotIn"@,
        "In"@ != "Exists"@,
        "In"@ != "DoesNotExist"@,
        "NotIn"@ != "Exists"@,
        "NotIn"@ != "DoesNotExist"@,
        "Exists"@ != "DoesNotExist"@,
{
    reveal_strlit("In");
    reveal_strlit("NotIn");
    reveal_strlit("Exists");
    reveal_strlit("DoesNotExist");
    assert("In"@.len() == 2);
    assert("NotIn"@.len() == 5);
    assert("Exists"@.len() == 6);
    assert("DoesNotExist"@.len() == 12);
}

/// A policy that names no direction restricts traffic to its pods, and traffic from them exactly
/// where it has rules for it.
pub proof fn lemma_unnamed_types_restrict_ingress(spec: PolicySpec)
    requires
        crate::objects::list_or_empty(spec.policy_types).len() == 0,
    ensures
        types_of(spec).ingress,
        types_of(spec).egress <==> crate::objects::list_or_empty(spec.egress).len() > 0,
{
}

} // verus!
