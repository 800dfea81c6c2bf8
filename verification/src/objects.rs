//! Objects of the cluster, as far as the agent reads them.

use vstd::prelude::*;

use crate::ip::IpAddr;
use crate::labels::Labels;
use crate::net::{parse_net, IpNet};
use crate::text::same;

verus! {

/// What every object has.
#[derive(Debug, Clone)]
pub struct ObjectMeta {
    /// Namespace.
    pub namespace: Option<String>,
    /// Name.
    pub name: Option<String>,
    /// Labels.
    pub labels: Option<Labels>,
    /// Annotations.
    pub annotations: Option<Labels>,
}

impl Default for ObjectMeta {
    fn default() -> (r: ObjectMeta)
        ensures
            r.namespace is None,
            r.name is None,
            r.labels is None,
            r.annotations is None,
    {
        ObjectMeta { namespace: None, name: None, labels: None, annotations: None }
    }
}

/// A port of a service.
#[derive(Debug, Clone)]
pub struct ServicePort {
    /// Name.
    pub name: Option<String>,
    /// Number.
    pub port: i32,
    /// Protocol.
    pub protocol: Option<String>,
    /// Port on the nodes.
    pub node_port: Option<i32>,
}

/// What a service asks for.
#[derive(Debug, Clone)]
pub struct ServiceSpec {
    /// Type.
    pub type_: Option<String>,
    /// Addresses in the cluster.
    pub cluster_ips: Option<Vec<String>>,
    /// Address in the cluster, where there is no list of them.
    pub cluster_ip: Option<String>,
    /// External addresses.
    pub external_ips: Option<Vec<String>>,
    /// Ports.
    pub ports: Option<Vec<ServicePort>>,
    /// Whether a client stays with its backend.
    pub session_affinity: Option<String>,
    /// How long it does, in seconds.
    pub affinity_timeout_seconds: Option<i32>,
    /// Where traffic from the cluster goes.
    pub internal_traffic_policy: Option<String>,
    /// Where traffic from outside goes.
    pub external_traffic_policy: Option<String>,
    /// Port of the health check.
    pub health_check_node_port: Option<i32>,
    /// Address families.
    pub ip_families: Option<Vec<String>>,
    /// Whether both families are needed.
    pub ip_family_policy: Option<String>,
    /// Class of load balancer.
    pub load_balancer_class: Option<String>,
}

impl Default for ServiceSpec {
    fn default() -> (r: ServiceSpec)
        ensures
            r.type_ is None,
            r.cluster_ips is None,
            r.cluster_ip is None,
            r.external_ips is None,
            r.ports is None,
            r.session_affinity is None,
            r.affinity_timeout_seconds is None,
            r.internal_traffic_policy is None,
            r.external_traffic_policy is None,
            r.health_check_node_port is None,
            r.ip_families is None,
            r.ip_family_policy is None,
            r.load_balancer_class is None,
    {
        ServiceSpec {
            type_: None,
            cluster_ips: None,
            cluster_ip: None,
            external_ips: None,
            ports: None,
            session_affinity: None,
            affinity_timeout_seconds: None,
            internal_traffic_policy: None,
            external_traffic_policy: None,
            health_check_node_port: None,
            ip_families: None,
            ip_family_policy: None,
            load_balancer_class: None,
        }
    }
}

/// A service.
#[derive(Debug, Clone)]
pub struct Service {
    /// What every object has.
    pub metadata: ObjectMeta,
    /// What it asks for.
    pub spec: Option<ServiceSpec>,
    /// Addresses of load balancers assigned to it; an entry may have a name in place of an address.
    pub ingress: Option<Vec<Option<String>>>,
}

/// A port of an endpoint slice.
#[derive(Debug, Clone)]
pub struct EndpointPort {
    /// Name.
    pub name: Option<String>,
    /// Number.
    pub port: Option<i32>,
}

/// An endpoint.
#[derive(Debug, Clone)]
pub struct Endpoint {
    /// Addresses.
    pub addresses: Vec<String>,
    /// Whether it is ready; unknown counts as ready.
    pub ready: Option<bool>,
    /// The node that hosts it.
    pub node_name: Option<String>,
}

/// Some of the endpoints of a service.
#[derive(Debug, Clone)]
pub struct EndpointSlice {
    /// What every object has.
    pub metadata: ObjectMeta,
    /// Ports.
    pub ports: Option<Vec<EndpointPort>>,
    /// Endpoints.
    pub endpoints: Option<Vec<Endpoint>>,
}

/// A set-based requirement of a label selector.
#[derive(Debug, Clone)]
pub struct ExpressionObject {
    /// Label key.
    pub key: String,
    /// Operator: `In`, `NotIn`, `Exists` or `DoesNotExist`.
    pub operator: String,
    /// Values.
    pub values: Option<Vec<String>>,
}

impl ExpressionObject {
    /// Whether labels meet the requirement. With an operator of another name none do.
    pub open spec fn met_by(self, labels: Map<Seq<char>, Seq<char>>) -> bool {
        let values = crate::text::texts(list_or_empty(self.values));
        let listed = labels.contains_key(self.key@) && values.contains(labels[self.key@]);
        if self.operator@ == "In"@ {
            listed
        } else if self.operator@ == "NotIn"@ {
            !listed
        } else if self.operator@ == "Exists"@ {
            labels.contains_key(self.key@)
        } else {
            self.operator@ == "DoesNotExist"@ && !labels.contains_key(self.key@)
        }
    }
}

/// A label selector.
#[derive(Debug, Clone)]
pub struct SelectorObject {
    /// Equality requirements.
    pub match_labels: Option<Labels>,
    /// Set-based requirements.
    pub match_expressions: Option<Vec<ExpressionObject>>,
}

impl SelectorObject {
    /// Whether labels meet all requirements.
    pub open spec fn met_by(self, labels: Map<Seq<char>, Seq<char>>) -> bool {
        &&& map_or_empty(self.match_labels).submap_of(labels)
        &&& forall|i: int|
            0 <= i < list_or_empty(self.match_expressions).len() ==> (
            #[trigger] list_or_empty(self.match_expressions)[i]).met_by(labels)
    }
}

/// A network with exceptions.
#[derive(Debug, Clone)]
pub struct IpBlockObject {
    /// The network.
    pub cidr: String,
    /// Networks left out of it.
    pub except: Option<Vec<String>>,
}

/// A peer of a rule.
#[derive(Debug, Clone)]
pub struct PeerObject {
    /// A network.
    pub ip_block: Option<IpBlockObject>,
    /// Which namespaces.
    pub namespace_selector: Option<SelectorObject>,
    /// Which pods.
    pub pod_selector: Option<SelectorObject>,
}

/// A port by number or by name.
#[derive(Debug, Clone)]
pub enum IntOrString {
    /// A number.
    Int(i32),
    /// A name.
    Name(String),
}

/// A port that a rule admits.
#[derive(Debug, Clone)]
pub struct PortObject {
    /// Protocol.
    pub protocol: Option<String>,
    /// Port.
    pub port: Option<IntOrString>,
}

/// A rule.
#[derive(Debug, Clone)]
pub struct RuleObject {
    /// The peers: those that traffic comes from, or those that it goes to.
    pub peers: Option<Vec<PeerObject>>,
    /// Ports.
    pub ports: Option<Vec<PortObject>>,
}

/// What a network policy asks for.
#[derive(Debug, Clone)]
pub struct PolicySpec {
    /// The pods that it applies to.
    pub pod_selector: Option<SelectorObject>,
    /// Directions.
    pub policy_types: Option<Vec<String>>,
    /// Rules for traffic to the pods.
    pub ingress: Option<Vec<RuleObject>>,
    /// Rules for traffic from the pods.
    pub egress: Option<Vec<RuleObject>>,
}

/// A network policy.
#[derive(Debug, Clone)]
pub struct PolicyObject {
    /// What every object has.
    pub metadata: ObjectMeta,
    /// What it asks for.
    pub spec: Option<PolicySpec>,
}

/// A pod.
#[derive(Debug, Clone)]
pub struct PodObject {
    /// What every object has.
    pub metadata: ObjectMeta,
    /// Addresses.
    pub pod_ips: Option<Vec<String>>,
    /// Address, where there is no list of them.
    pub pod_ip: Option<String>,
    /// The node that hosts it.
    pub node_name: Option<String>,
    /// Whether it is on the host network.
    pub host_network: Option<bool>,
}

/// A namespace.
#[derive(Debug, Clone)]
pub struct NamespaceObject {
    /// What every object has.
    pub metadata: ObjectMeta,
}

/// An address of a node.
#[derive(Debug, Clone)]
pub struct NodeAddressObject {
    /// Its kind.
    pub type_: String,
    /// The address as text.
    pub address: String,
}

/// A node.
#[derive(Debug, Clone)]
pub struct NodeObject {
    /// What every object has.
    pub metadata: ObjectMeta,
    /// Addresses.
    pub addresses: Option<Vec<NodeAddressObject>>,
    /// Networks of its pods.
    pub pod_cidrs: Option<Vec<String>>,
    /// Network of its pods, where there is no list of them.
    pub pod_cidr: Option<String>,
}

/// The label that names the service of an endpoint slice.
pub const SERVICE_NAME_LABEL: &'static str = "kubernetes.io/service-name";

/// The characters, if there are any.
pub open spec fn text_of(s: Option<String>) -> Option<Seq<char>> {
    match s {
        Some(t) => Some(t@),
        None => None,
    }
}

/// The characters, or none.
pub open spec fn text_or_empty(s: Option<String>) -> Seq<char> {
    match s {
        Some(t) => t@,
        None => Seq::empty(),
    }
}

/// The map, or an empty one.
pub open spec fn map_or_empty(m: Option<Labels>) -> Map<Seq<char>, Seq<char>> {
    match m {
        Some(l) => l@,
        None => Map::empty(),
    }
}

/// The elements, or none.
pub open spec fn list_or_empty<A>(v: Option<Vec<A>>) -> Seq<A> {
    match v {
        Some(l) => l@,
        None => Seq::empty(),
    }
}

/// Whether there is a text and it is `s`.
pub fn is_text(o: &Option<String>, s: &str) -> (r: bool)
    ensures
        r == (text_of(*o) == Some(s@)),
{
    match o {
        Some(t) => same(t.as_str(), s),
        None => false,
    }
}

/// The text, or an empty one.
pub fn own_or_empty(o: &Option<String>) -> (r: String)
    ensures
        r@ == text_or_empty(*o),
{
    match o {
        Some(t) => t.clone(),
        None => String::new(),
    }
}

/// The value of a key, where there is a map and it has the key.
pub fn find_value<'a>(m: &'a Option<Labels>, key: &str) -> (r: Option<&'a String>)
    ensures
        match r {
            Some(v) => crate::labels::lookup(map_or_empty(*m), key@) == Some(v@),
            None => crate::labels::lookup(map_or_empty(*m), key@) is None,
        },
{
    match m {
        Some(l) => l.get(key),
        None => None,
    }
}

/// Whether the value of a key is `s`.
pub fn value_is(m: &Option<Labels>, key: &str, s: &str) -> (r: bool)
    ensures
        r == (crate::labels::lookup(map_or_empty(*m), key@) == Some(s@)),
{
    match find_value(m, key) {
        Some(v) => same(v.as_str(), s),
        None => false,
    }
}

/// A number as one of 16 bits, where it is one.
pub open spec fn as_port(n: i32) -> Option<u16> {
    if 0 <= n <= 65535 {
        Some(n as u16)
    } else {
        None
    }
}

/// A number as one of 16 bits, where it is one.
pub fn to_port(n: i32) -> (r: Option<u16>)
    ensures
        r == as_port(n),
{
    if 0 <= n && n <= 65535 {
        Some(n as u16)
    } else {
        None
    }
}

/// A number, where there is one and it has 16 bits.
pub open spec fn as_port_opt(n: Option<i32>) -> Option<u16> {
    match n {
        Some(x) => as_port(x),
        None => None,
    }
}

/// A number, where there is one and it has 16 bits.
pub fn to_port_opt(n: Option<i32>) -> (r: Option<u16>)
    ensures
        r == as_port_opt(n),
{
    match n {
        Some(x) => to_port(x),
        None => None,
    }
}

/// The addresses that texts spell; those that spell none are left out.
pub open spec fn ips_of(texts: Seq<Seq<char>>) -> Seq<IpAddr> {
    crate::seqs::flat(
        texts,
        |t: Seq<char>|
            match crate::ip::ip_of(t) {
                Some(a) => seq![a],
                None => Seq::empty(),
            },
    )
}

/// The addresses that texts spell; those that spell none are left out.
pub fn parse_ips(v: &[String]) -> (r: Vec<IpAddr>)
    ensures
        r@ == ips_of(crate::text::texts(v@)),
{
    let ghost all = crate::text::texts(v@);
    let ghost f = |t: Seq<char>|
        match crate::ip::ip_of(t) {
            Some(a) => seq![a],
            None => Seq::empty(),
        };
    let mut out: Vec<IpAddr> = Vec::new();
    let mut i: usize = 0;
    assert(out@ =~= crate::seqs::flat(all.take(0), f));
    while i < v.len()
        invariant
            i <= v@.len(),
            all == crate::text::texts(v@),
            f == (|t: Seq<char>|
                match crate::ip::ip_of(t) {
                    Some(a) => seq![a],
                    None => Seq::empty(),
                }),
            out@ == crate::seqs::flat(all.take(i as int), f),
        decreases v@.len() - i,
    {
        proof {
            crate::seqs::lemma_flat_step(all, f, i as int);
            assert(all[i as int] == v@[i as int]@);
        }
        match IpAddr::parse(v[i].as_str()) {
            Some(a) => {
                out.push(a);
            },
            None => {},
        }
        assert(out@ =~= crate::seqs::flat(all.take(i + 1), f));
        i = i + 1;
    }
    assert(all.take(i as int) =~= all);
    out
}

/// The networks that texts spell; those that spell none are left out.
pub open spec fn nets_of(texts: Seq<Seq<char>>) -> Seq<IpNet> {
    crate::seqs::flat(
        texts,
        |t: Seq<char>|
            match crate::net::net_of(t) {
                Some(n) => seq![n],
                None => Seq::empty(),
            },
    )
}

/// The networks that texts spell; those that spell none are left out.
pub fn parse_nets(v: &[String]) -> (r: Vec<IpNet>)
    ensures
        r@ == nets_of(crate::text::texts(v@)),
        forall|i: int| 0 <= i < r@.len() ==> (#[trigger] r@[i]).wf(),
{
    let ghost all = crate::text::texts(v@);
    let ghost f = |t: Seq<char>|
        match crate::net::net_of(t) {
            Some(n) => seq![n],
            None => Seq::empty(),
        };
    let mut out: Vec<IpNet> = Vec::new();
    let mut i: usize = 0;
    assert(out@ =~= crate::seqs::flat(all.take(0), f));
    while i < v.len()
        invariant
            i <= v@.len(),
            all == crate::text::texts(v@),
            f == (|t: Seq<char>|
                match crate::net::net_of(t) {
                    Some(n) => seq![n],
                    None => Seq::empty(),
                }),
            out@ == crate::seqs::flat(all.take(i as int), f),
            forall|k: int| 0 <= k < out@.len() ==> (#[trigger] out@[k]).wf(),
        decreases v@.len() - i,
    {
        proof {
            crate::seqs::lemma_flat_step(all, f, i as int);
            assert(all[i as int] == v@[i as int]@);
        }
        match parse_net(v[i].as_str()) {
            Some(n) => {
                out.push(n);
            },
            None => {},
        }
        assert(out@ =~= crate::seqs::flat(all.take(i + 1), f));
        i = i + 1;
    }
    assert(all.take(i as int) =~= all);
    out
}

/// The map, or an empty one.
pub fn labels_or_empty(m: &Option<Labels>) -> (r: Labels)
    ensures
        r@ == map_or_empty(*m),
{
    match m {
        Some(l) => l.copy(),
        None => Labels::new(),
    }
}

/// The addresses of an optional list of texts.
pub fn parse_ips_opt(v: &Option<Vec<String>>) -> (r: Vec<IpAddr>)
    ensures
        r@ == ips_of(crate::text::texts(list_or_empty(*v))),
{
    match v {
        Some(l) => parse_ips(l),
        None => {
            let out: Vec<IpAddr> = Vec::new();
            assert(out@ =~= ips_of(crate::text::texts(Seq::<String>::empty())));
            out
        },
    }
}

/// The addresses of load balancers.
pub open spec fn ingress_ips(v: Seq<Option<String>>) -> Seq<IpAddr> {
    crate::seqs::flat(
        v,
        |o: Option<String>|
            match o {
                Some(t) => ips_of(seq![t@]),
                None => Seq::empty(),
            },
    )
}

/// One text spells one address or none.
proof fn lemma_one_ip(t: Seq<char>)
    ensures
        ips_of(seq![t]) == match crate::ip::ip_of(t) {
            Some(a) => seq![a],
            None => Seq::empty(),
        },
{
    let f = |t: Seq<char>|
        match crate::ip::ip_of(t) {
            Some(a) => seq![a],
            None => Seq::empty(),
        };
    assert(seq![t].drop_last() =~= Seq::<Seq<char>>::empty());
    assert(crate::seqs::flat(Seq::<Seq<char>>::empty(), f) =~= Seq::<IpAddr>::empty());
    assert(ips_of(seq![t]) =~= f(t));
}

/// The addresses of load balancers.
pub fn parse_ingress(v: &Option<Vec<Option<String>>>) -> (r: Vec<IpAddr>)
    ensures
        r@ == ingress_ips(list_or_empty(*v)),
{
    let ghost f = |o: Option<String>|
        match o {
            Some(t) => ips_of(seq![t@]),
            None => Seq::empty(),
        };
    let mut out: Vec<IpAddr> = Vec::new();
    match v {
        None => {
            assert(out@ =~= ingress_ips(Seq::<Option<String>>::empty()));
        },
        Some(l) => {
            let mut i: usize = 0;
            assert(out@ =~= crate::seqs::flat(l@.take(0), f));
            while i < l.len()
                invariant
                    i <= l@.len(),
                    f == (|o: Option<String>|
                        match o {
                            Some(t) => ips_of(seq![t@]),
                            None => Seq::empty(),
                        }),
                    out@ == crate::seqs::flat(l@.take(i as int), f),
                decreases l@.len() - i,
            {
                proof {
                    crate::seqs::lemma_flat_step(l@, f, i as int);
                }
                match &l[i] {
                    Some(t) => {
                        proof {
                            lemma_one_ip(t@);
                        }
                        match IpAddr::parse(t.as_str()) {
                            Some(a) => {
                                out.push(a);
                            },
                            None => {},
                        }
                    },
                    None => {},
                }
                assert(out@ =~= crate::seqs::flat(l@.take(i + 1), f));
                i = i + 1;
            }
            assert(l@.take(i as int) =~= l@);
        },
    }
    out
}

impl ServiceSpec {
    /// The texts of the addresses in the cluster: the list, or the single one where there is no
    /// list.
    pub open spec fn cluster_texts(self) -> Seq<Seq<char>> {
        match self.cluster_ips {
            Some(l) => crate::text::texts(l@),
            None => match self.cluster_ip {
                Some(t) => seq![t@],
                None => Seq::empty(),
            },
        }
    }

    /// The addresses in the cluster: those of the texts that are neither empty nor `None`.
    pub open spec fn cluster_addresses(self) -> Seq<IpAddr> {
        ips_of(
            crate::seqs::flat(
                self.cluster_texts(),
                |t: Seq<char>|
                    if t != "None"@ && t.len() > 0 {
                        seq![t]
                    } else {
                        Seq::empty()
                    },
            ),
        )
    }

    /// The addresses in the cluster.
    pub fn parse_cluster_ips(&self) -> (r: Vec<IpAddr>)
        ensures
            r@ == self.cluster_addresses(),
    {
        let mut texts: Vec<String> = Vec::new();
        let ghost f = |t: Seq<char>|
            if t != "None"@ && t.len() > 0 {
                seq![t]
            } else {
                Seq::empty()
            };
        let ghost all = self.cluster_texts();
        match &self.cluster_ips {
            Some(l) => {
                let mut i: usize = 0;
                assert(crate::text::texts(texts@) =~= crate::seqs::flat(all.take(0), f));
                while i < l.len()
                    invariant
                        i <= l@.len(),
                        all == crate::text::texts(l@),
                        f == (|t: Seq<char>|
                            if t != "None"@ && t.len() > 0 {
                                seq![t]
                            } else {
                                Seq::empty()
                            }),
                        crate::text::texts(texts@) == crate::seqs::flat(all.take(i as int), f),
                    decreases l@.len() - i,
                {
                    proof {
                        crate::seqs::lemma_flat_step(all, f, i as int);
                        assert(all[i as int] == l@[i as int]@);
                    }
                    keep_address(&mut texts, l[i].as_str());
                    assert(crate::text::texts(texts@) =~= crate::seqs::flat(all.take(i + 1), f));
                    i = i + 1;
                }
                assert(all.take(i as int) =~= all);
            },
            None => {
                match &self.cluster_ip {
                    Some(t) => {
                        keep_address(&mut texts, t.as_str());
                        proof {
                            assert(all.drop_last() =~= Seq::<Seq<char>>::empty());
                            assert(crate::seqs::flat(all.drop_last(), f) =~= Seq::<
                                Seq<char>,
                            >::empty());
                            assert(all.last() == t@);
                            assert(crate::text::texts(texts@) =~= crate::seqs::flat(all, f));
                        }
                    },
                    None => {
                        assert(crate::text::texts(texts@) =~= crate::seqs::flat(all, f));
                    },
                }
            },
        }
        parse_ips(&texts)
    }
}

fn keep_address(v: &mut Vec<String>, t: &str)
    ensures
        crate::text::texts(final(v)@) == crate::text::texts(old(v)@) + (if t@ != "None"@
            && t@.len() > 0 {
            seq![t@]
        } else {
            Seq::empty()
        }),
{
    let ghost before = v@;
    if !same(t, "None") && !t.is_empty() {
        v.push(t.to_owned());
        proof {
            crate::text::lemma_texts_push(before, v@.last());
            assert(v@ =~= before.push(v@.last()));
        }
    }
    assert(crate::text::texts(v@) =~= crate::text::texts(before) + (if t@ != "None"@ && t@.len()
        > 0 {
        seq![t@]
    } else {
        Seq::empty()
    }));
}

impl EndpointSlice {
    /// Whether the slice belongs to the service.
    pub open spec fn belongs_to(self, namespace: Seq<char>, name: Seq<char>) -> bool {
        text_of(self.metadata.namespace) == Some(namespace) && crate::labels::lookup(
            map_or_empty(self.metadata.labels),
            SERVICE_NAME_LABEL@,
        ) == Some(name)
    }

    /// Whether the slice belongs to the service.
    pub fn is_of(&self, namespace: &str, name: &str) -> (r: bool)
        ensures
            r == self.belongs_to(namespace@, name@),
    {
        is_text(&self.metadata.namespace, namespace) && value_is(
            &self.metadata.labels,
            SERVICE_NAME_LABEL,
            name,
        )
    }
}

impl Endpoint {
    /// Whether the endpoint is ready.
    pub open spec fn is_ready(self) -> bool {
        match self.ready {
            Some(b) => b,
            None => true,
        }
    }

    /// Whether the node hosts the endpoint.
    pub open spec fn is_on(self, node: Seq<char>) -> bool {
        text_of(self.node_name) == Some(node)
    }
}

} // verus!
