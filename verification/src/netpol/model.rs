//! Network policies, pods and namespaces, as far as the firewall reads them. Selectors have the
//! full semantics: equality requirements and set-based requirements, all of which must hold.

use vstd::prelude::*;

use crate::ip::IpAddr;
use crate::labels::Labels;
use crate::net::IpNet;
use crate::text::same;

verus! {

/// The operator of a set-based requirement.
#[derive(Debug, Clone, Copy, PartialEq, Eq, Structural)]
pub enum SelectorOp {
    /// The key is present and its value is one of the values.
    In,
    /// The key is absent, or its value is none of the values.
    NotIn,
    /// The key is present, whatever its value.
    Exists,
    /// The key is absent.
    DoesNotExist,
}

/// One set-based requirement.
#[derive(Debug, Clone)]
pub struct SelectorRequirement {
    /// Label key.
    pub key: String,
    /// Operator; one that was not recognised makes the selector match nothing.
    pub operator: Option<SelectorOp>,
    /// Values, used by `In` and `NotIn`.
    pub values: Vec<String>,
}

/// A label selector. One without requirements matches everything.
#[derive(Debug, Clone)]
pub struct LabelSelector {
    /// Equality requirements.
    pub match_labels: Labels,
    /// Set-based requirements.
    pub match_expressions: Vec<SelectorRequirement>,
}

impl SelectorRequirement {
    /// Whether labels meet the requirement.
    pub open spec fn holds(self, labels: Map<Seq<char>, Seq<char>>) -> bool {
        let values = crate::text::texts(self.values@);
        let present = labels.contains_key(self.key@);
        match self.operator {
            Some(SelectorOp::In) => present && values.contains(labels[self.key@]),
            Some(SelectorOp::NotIn) => !(present && values.contains(labels[self.key@])),
            Some(SelectorOp::Exists) => present,
            Some(SelectorOp::DoesNotExist) => !present,
            None => false,
        }
    }
}

impl LabelSelector {
    /// Whether labels satisfy the selector: every equality and every set-based requirement.
    pub open spec fn selects(self, labels: Map<Seq<char>, Seq<char>>) -> bool {
        &&& self.match_labels@.submap_of(labels)
        &&& forall|i: int|
            0 <= i < self.match_expressions@.len() ==> (
            #[trigger] self.match_expressions@[i]).holds(labels)
    }

    /// A selector of equality requirements alone.
    pub fn from_labels(labels: Labels) -> (r: LabelSelector)
        ensures
            r.match_labels@ == labels@,
            r.match_expressions@.len() == 0,
    {
        LabelSelector { match_labels: labels, match_expressions: Vec::new() }
    }
}

impl Default for LabelSelector {
    fn default() -> (r: LabelSelector)
        ensures
            r.match_labels@ == Map::<Seq<char>, Seq<char>>::empty(),
            r.match_expressions@.len() == 0,
    {
        LabelSelector { match_labels: Labels::new(), match_expressions: Vec::new() }
    }
}

/// Whether a list holds a string.
pub fn holds_text(v: &[String], s: &str) -> (r: bool)
    ensures
        r == crate::text::texts(v@).contains(s@),
{
    let ghost all = crate::text::texts(v@);
    let mut i: usize = 0;
    while i < v.len()
        invariant
            i <= v.len(),
            all == crate::text::texts(v@),
            forall|j: int| 0 <= j < i ==> #[trigger] all[j] != s@,
        decreases v.len() - i,
    {
        if same(v[i].as_str(), s) {
            assert(all[i as int] == s@);
            return true;
        }
        i = i + 1;
    }
    false
}

fn requirement_holds(req: &SelectorRequirement, labels: &Labels) -> (r: bool)
    ensures
        r == req.holds(labels@),
{
    let value = labels.get(req.key.as_str());
    match req.operator {
        Some(SelectorOp::In) => match value {
            Some(v) => holds_text(&req.values, v.as_str()),
            None => false,
        },
        Some(SelectorOp::NotIn) => match value {
            Some(v) => !holds_text(&req.values, v.as_str()),
            None => true,
        },
        Some(SelectorOp::Exists) => value.is_some(),
        Some(SelectorOp::DoesNotExist) => value.is_none(),
        None => false,
    }
}

/// Whether labels satisfy a selector.
pub fn selector_matches(selector: &LabelSelector, labels: &Labels) -> (r: bool)
    ensures
        r == selector.selects(labels@),
{
    if !selector.match_labels.is_subset_of(labels) {
        return false;
    }
    let mut i: usize = 0;
    while i < selector.match_expressions.len()
        invariant
            i <= selector.match_expressions.len(),
            forall|j: int|
                0 <= j < i ==> (#[trigger] selector.match_expressions@[j]).holds(labels@),
        decreases selector.match_expressions.len() - i,
    {
        if !requirement_holds(&selector.match_expressions[i], labels) {
            return false;
        }
        i = i + 1;
    }
    true
}

/// A selector without requirements matches everything.
pub proof fn lemma_empty_selector_matches_all(
    selector: LabelSelector,
    labels: Map<Seq<char>, Seq<char>>,
)
    requires
        selector.match_labels@ == Map::<Seq<char>, Seq<char>>::empty(),
        selector.match_expressions@.len() == 0,
    ensures
        selector.selects(labels),
{
}

/// A requirement whose operator was not recognised keeps the selector from matching anything.
pub proof fn lemma_unknown_operator_matches_nothing(
    selector: LabelSelector,
    i: int,
    labels: Map<Seq<char>, Seq<char>>,
)
    requires
        0 <= i < selector.match_expressions@.len(),
        selector.match_expressions@[i].operator is None,
    ensures
        !selector.selects(labels),
{
    assert(!selector.match_expressions@[i].holds(labels));
}

/// Equality and set-based requirements must both hold: the selector matches exactly where the
/// one with its equalities alone and the one with its set-based requirements alone both match.
pub proof fn lemma_requirements_are_anded(
    both: LabelSelector,
    equalities: LabelSelector,
    sets: LabelSelector,
    labels: Map<Seq<char>, Seq<char>>,
)
    requires
        equalities.match_labels@ == both.match_labels@,
        equalities.match_expressions@.len() == 0,
        sets.match_labels@ == Map::<Seq<char>, Seq<char>>::empty(),
        sets.match_expressions@ == both.match_expressions@,
    ensures
        both.selects(labels) <==> equalities.selects(labels) && sets.selects(labels),
{
}

/// `NotIn` is the opposite of `In`, `DoesNotExist` that of `Exists`, on the same key and values.
pub proof fn lemma_operators_are_opposites(
    a: SelectorRequirement,
    b: SelectorRequirement,
    labels: Map<Seq<char>, Seq<char>>,
)
    requires
        a.key@ == b.key@,
        a.values@ == b.values@,
        (a.operator == Some(SelectorOp::In) && b.operator == Some(SelectorOp::NotIn)) || (
        a.operator == Some(SelectorOp::Exists) && b.operator == Some(SelectorOp::DoesNotExist)),
    ensures
        a.holds(labels) <==> !b.holds(labels),
{
}

/// A pod.
#[derive(Debug, Clone)]
pub struct Pod {
    /// Namespace.
    pub namespace: String,
    /// Name.
    pub name: String,
    /// Labels.
    pub labels: Labels,
    /// Addresses.
    pub ips: Vec<IpAddr>,
    /// Name of the node that hosts the pod.
    pub node_name: String,
    /// Pods on the host network are out of reach of policies.
    pub host_network: bool,
}

/// A namespace, with the labels that namespace selectors read.
#[derive(Debug, Clone)]
pub struct Namespace {
    /// Name.
    pub name: String,
    /// Labels.
    pub labels: Labels,
}

/// A peer of a policy rule.
#[derive(Debug, Clone)]
pub enum Peer {
    /// Pods chosen by selectors.
    Selector {
        /// Which namespaces; without it, the policy's own.
        namespace_selector: Option<LabelSelector>,
        /// Which pods in them; without it, all.
        pod_selector: Option<LabelSelector>,
    },
    /// A network with exceptions.
    IpBlock {
        /// The network.
        cidr: IpNet,
        /// Networks left out of it.
        except: Vec<IpNet>,
    },
}

/// A port that a rule admits.
#[derive(Debug, Clone)]
pub struct PortSpec {
    /// Protocol in lower case.
    pub protocol: String,
    /// Port number; without it, all ports.
    pub port: Option<u16>,
}

/// A rule. Without peers it admits all; without ports, all ports.
#[derive(Debug, Clone)]
pub struct Rule {
    /// Peers.
    pub peers: Vec<Peer>,
    /// Ports.
    pub ports: Vec<PortSpec>,
}

impl Default for Rule {
    fn default() -> (r: Rule)
        ensures
            r.peers@.len() == 0,
            r.ports@.len() == 0,
    {
        Rule { peers: Vec::new(), ports: Vec::new() }
    }
}

/// The directions a policy applies to.
#[derive(Debug, Clone, Copy, PartialEq, Eq, Structural)]
pub struct PolicyTypes {
    /// Applies to traffic to the pods.
    pub ingress: bool,
    /// Applies to traffic from the pods.
    pub egress: bool,
}

/// A network policy.
#[derive(Debug, Clone)]
pub struct NetworkPolicy {
    /// Namespace.
    pub namespace: String,
    /// Name.
    pub name: String,
    /// The pods of the namespace that it applies to.
    pub pod_selector: LabelSelector,
    /// Directions.
    pub policy_types: PolicyTypes,
    /// Rules for traffic to the pods.
    pub ingress: Vec<Rule>,
    /// Rules for traffic from the pods.
    pub egress: Vec<Rule>,
}

impl NetworkPolicy {
    /// Whether the policy applies to the pod: same namespace, selected labels.
    pub open spec fn applies_to(self, pod: Pod) -> bool {
        pod.namespace@ == self.namespace@ && self.pod_selector.selects(pod.labels@)
    }

    /// Whether the policy applies to the pod, which runs on the node with an address of its own.
    pub open spec fn acts_on(self, pod: Pod, node: Seq<char>) -> bool {
        self.applies_to(pod) && pod.node_name@ == node && !pod.host_network && pod.ips@.len() > 0
    }

    /// Whether the policy applies to the pod.
    pub fn selects_pod(&self, pod: &Pod) -> (r: bool)
        ensures
            r == self.applies_to(*pod),
    {
        same(pod.namespace.as_str(), self.namespace.as_str()) && selector_matches(
            &self.pod_selector,
            &pod.labels,
        )
    }

    /// The pods on the node that the policy acts on, in order.
    pub fn selected_local_pods<'a>(&self, pods: &'a [Pod], node_name: &str) -> (r: Vec<&'a Pod>)
        ensures
            r@ == crate::seqs::flat(
                pods@,
                |p: Pod|
                    if self.acts_on(p, node_name@) {
                        seq![&p]
                    } else {
                        Seq::empty()
                    },
            ),
    {
        let ghost f = |p: Pod|
            if self.acts_on(p, node_name@) {
                seq![&p]
            } else {
                Seq::empty()
            };
        let mut out: Vec<&'a Pod> = Vec::new();
        let mut i: usize = 0;
        while i < pods.len()
            invariant
                i <= pods.len(),
                out@ == crate::seqs::flat(pods@.take(i as int), f),
                forall|p: Pod| #[trigger]
                    f(p) == (if self.acts_on(p, node_name@) {
                        seq![&p]
                    } else {
                        Seq::empty()
                    }),
            decreases pods.len() - i,
        {
            let p = &pods[i];
            proof {
                crate::seqs::lemma_flat_step(pods@, f, i as int);
            }
            if self.selects_pod(p) && same(p.node_name.as_str(), node_name) && !p.host_network
                && p.ips.len() > 0 {
                out.push(p);
            }
            assert(out@ =~= crate::seqs::flat(pods@.take(i + 1), f));
            i = i + 1;
        }
        assert(pods@.take(pods@.len() as int) =~= pods@);
        out
    }
}

} // verus!
