//! From nodes of the cluster to what the routing controllers need, and the choice of BGP speaker.

use vstd::prelude::*;

use crate::bgp::engine::{GlobalConfig, GracefulRestart, PeerConfig};
use crate::common::ipfamily::IpFamily;
use crate::config::KubeRouterConfig;
use crate::ip::IpAddr;
use crate::kube_client::{select_node_ips, NodeAddress, NodeAddressType};
use crate::net::IpNet;
use crate::netlink::routes::Route;
use crate::netlink::system::MAIN_TABLE;
use crate::objects::{find_value, is_text, parse_nets, NodeObject};
use crate::text::{cat3, dec_text, parse_unsigned, same};
use crate::time::Duration;

verus! {

/// Where plugins are bundled.
pub const BUNDLED_CNI_DIR: &'static str = "/opt/cni-bundled";

/// Where the BGP speaker is.
pub const GOBGPD_PATH: &'static str = "/usr/local/bin/gobgpd";

/// Gives a node an AS number of its own.
pub const NODE_ASN_ANNOTATION: &'static str = "kube-router.io/node.asn";

/// Makes a node a route reflector, with a cluster id.
pub const RR_SERVER_ANNOTATION: &'static str = "kube-router.io/rr.server";

/// Makes a node a client of a route reflector, with a cluster id. The routes controller that reads
/// it too is not part of this crate: the name is laid down here.
pub const RR_CLIENT_ANNOTATION: &'static str = "kube-router.io/rr.client";

/// What BGP needs of a node.
#[derive(Debug, Clone)]
pub struct NodeBgp {
    /// Name.
    pub name: String,
    /// Address.
    pub ip: IpAddr,
    /// AS number.
    pub asn: u32,
    /// Cluster id, of a route reflector.
    pub rr_server: Option<u32>,
    /// Cluster id, of a client of a route reflector.
    pub rr_client: Option<u32>,
}

/// The same as a value.
#[verifier::ext_equal]
pub struct NodeBgpView {
    pub name: Seq<char>,
    pub ip: IpAddr,
    pub asn: u32,
    pub rr_server: Option<u32>,
    pub rr_client: Option<u32>,
}

impl View for NodeBgp {
    type V = NodeBgpView;

    open spec fn view(&self) -> NodeBgpView {
        NodeBgpView {
            name: self.name@,
            ip: self.ip,
            asn: self.asn,
            rr_server: self.rr_server,
            rr_client: self.rr_client,
        }
    }
}

/// What routes need of a node.
#[derive(Debug, Clone)]
pub struct NodeRoute {
    /// Name.
    pub name: String,
    /// Address.
    pub ip: IpAddr,
    /// Networks of its pods.
    pub pod_cidrs: Vec<IpNet>,
}

/// The same as a value.
#[verifier::ext_equal]
pub struct NodeRouteView {
    pub name: Seq<char>,
    pub ip: IpAddr,
    pub pod_cidrs: Seq<IpNet>,
}

impl View for NodeRoute {
    type V = NodeRouteView;

    open spec fn view(&self) -> NodeRouteView {
        NodeRouteView { name: self.name@, ip: self.ip, pod_cidrs: self.pod_cidrs@ }
    }
}

/// The kind of address of that name.
pub open spec fn kind_of(type_: Seq<char>) -> NodeAddressType {
    if type_ == "InternalIP"@ {
        NodeAddressType::Internal
    } else if type_ == "ExternalIP"@ {
        NodeAddressType::External
    } else {
        NodeAddressType::Other
    }
}

/// The kind of address of that name.
pub fn address_kind(type_: &str) -> (r: NodeAddressType)
    ensures
        r == kind_of(type_@),
{
    if same(type_, "InternalIP") {
        NodeAddressType::Internal
    } else if same(type_, "ExternalIP") {
        NodeAddressType::External
    } else {
        NodeAddressType::Other
    }
}

/// Whether addresses are those of the node, kind by kind and text by text.
pub open spec fn are_addresses_of(v: Seq<NodeAddress>, node: NodeObject) -> bool {
    let all = crate::objects::list_or_empty(node.addresses);
    &&& v.len() == all.len()
    &&& forall|i: int|
        0 <= i < v.len() ==> (#[trigger] v[i]).kind == kind_of(all[i].type_@) && v[i].address@
            == all[i].address@
}

/// The addresses of a node.
pub fn node_addresses(node: &NodeObject) -> (r: Vec<NodeAddress>)
    ensures
        are_addresses_of(r@, *node),
{
    let mut out: Vec<NodeAddress> = Vec::new();
    match &node.addresses {
        Some(l) => {
            let mut i: usize = 0;
            while i < l.len()
                invariant
                    i <= l@.len(),
                    out@.len() == i,
                    forall|k: int|
                        0 <= k < i ==> (#[trigger] out@[k]).kind == kind_of(l@[k].type_@)
                            && out@[k].address@ == l@[k].address@,
                decreases l@.len() - i,
            {
                out.push(
                    NodeAddress {
                        kind: address_kind(l[i].type_.as_str()),
                        address: l[i].address.clone(),
                    },
                );
                i = i + 1;
            }
        },
        None => {},
    }
    out
}

/// The address of an entry, where it is of the kind and family.
pub open spec fn entry_usable(
    a: crate::objects::NodeAddressObject,
    kind: NodeAddressType,
    family: crate::common::ipfamily::IpFamily,
) -> Option<IpAddr> {
    match crate::ip::ip_of(crate::text::trimmed(a.address@)) {
        Some(ip) => if kind_of(a.type_@) == kind && crate::common::ipfamily::family_of(ip)
            == family {
            Some(ip)
        } else {
            None
        },
        None => None,
    }
}

/// The first address of the kind and family.
pub open spec fn first_entry(
    v: Seq<crate::objects::NodeAddressObject>,
    kind: NodeAddressType,
    family: crate::common::ipfamily::IpFamily,
) -> Option<IpAddr>
    decreases v.len(),
{
    if v.len() == 0 {
        None
    } else {
        match first_entry(v.drop_last(), kind, family) {
            Some(ip) => Some(ip),
            None => entry_usable(v.last(), kind, family),
        }
    }
}

/// The address of a family that is used of a node: the first internal one, or else the first
/// external one.
pub open spec fn address_in(
    node: NodeObject,
    family: crate::common::ipfamily::IpFamily,
) -> Option<IpAddr> {
    let v = crate::objects::list_or_empty(node.addresses);
    match first_entry(v, NodeAddressType::Internal, family) {
        Some(ip) => Some(ip),
        None => first_entry(v, NodeAddressType::External, family),
    }
}

/// The address that is used of a node: of IPv4, or else of IPv6.
pub open spec fn address_of(node: NodeObject) -> Option<IpAddr> {
    match address_in(node, crate::common::ipfamily::IpFamily::V4) {
        Some(ip) => Some(ip),
        None => address_in(node, crate::common::ipfamily::IpFamily::V6),
    }
}

proof fn lemma_first_entry(
    v: Seq<NodeAddress>,
    all: Seq<crate::objects::NodeAddressObject>,
    kind: NodeAddressType,
    family: crate::common::ipfamily::IpFamily,
)
    requires
        v.len() == all.len(),
        forall|i: int|
            0 <= i < v.len() ==> (#[trigger] v[i]).kind == kind_of(all[i].type_@) && v[i].address@
                == all[i].address@,
    ensures
        crate::kube_client::first_usable(v, kind, family) == first_entry(all, kind, family),
    decreases v.len(),
{
    if v.len() > 0 {
        let a = v.drop_last();
        let b = all.drop_last();
        assert forall|i: int| 0 <= i < a.len() implies (#[trigger] a[i]).kind == kind_of(
            b[i].type_@,
        ) && a[i].address@ == b[i].address@ by {
            assert(a[i] == v[i]);
        }
        lemma_first_entry(a, b, kind, family);
        assert(v.last() == v[v.len() - 1]);
    }
}

fn node_ip(node: &NodeObject) -> (r: Option<IpAddr>)
    ensures
        r == address_of(*node),
{
    let addresses = node_addresses(node);
    let ips = select_node_ips(&addresses);
    proof {
        let all = crate::objects::list_or_empty(node.addresses);
        lemma_first_entry(
            addresses@,
            all,
            NodeAddressType::Internal,
            crate::common::ipfamily::IpFamily::V4,
        );
        lemma_first_entry(
            addresses@,
            all,
            NodeAddressType::External,
            crate::common::ipfamily::IpFamily::V4,
        );
        lemma_first_entry(
            addresses@,
            all,
            NodeAddressType::Internal,
            crate::common::ipfamily::IpFamily::V6,
        );
        lemma_first_entry(
            addresses@,
            all,
            NodeAddressType::External,
            crate::common::ipfamily::IpFamily::V6,
        );
    }
    match ips.v4 {
        Some(ip) => Some(ip),
        None => ips.v6,
    }
}

/// The number of 32 bits that an annotation of a node spells, if any.
pub open spec fn number_in(node: NodeObject, key: Seq<char>) -> Option<u32> {
    match crate::labels::lookup(crate::objects::map_or_empty(node.metadata.annotations), key) {
        Some(s) => match crate::text::unsigned_of(s, u32::MAX as nat) {
            Some(n) => Some(n as u32),
            None => None,
        },
        None => None,
    }
}

fn annotated_number(node: &NodeObject, key: &str) -> (r: Option<u32>)
    ensures
        r == number_in(*node, key@),
{
    match find_value(&node.metadata.annotations, key) {
        Some(s) => match parse_unsigned(s.as_str(), u32::MAX as u64) {
            Some(n) => {
                assert(n <= u32::MAX) by {
                    assert(crate::text::unsigned_of(s@, u32::MAX as nat) == Some(n as nat));
                }
                Some(n as u32)
            },
            None => None,
        },
        None => None,
    }
}

/// What BGP needs of a node; nothing where it lacks a name or an address. A node without an AS
/// number of its own has that of the cluster.
pub open spec fn bgp_of(node: NodeObject, cluster_asn: u32) -> Option<NodeBgpView> {
    match (node.metadata.name, address_of(node)) {
        (Some(name), Some(ip)) => Some(
            NodeBgpView {
                name: name@,
                ip,
                asn: match number_in(node, NODE_ASN_ANNOTATION@) {
                    Some(n) => n,
                    None => cluster_asn,
                },
                rr_server: number_in(node, RR_SERVER_ANNOTATION@),
                rr_client: number_in(node, RR_CLIENT_ANNOTATION@),
            },
        ),
        _ => None,
    }
}

/// What BGP needs of a node.
pub fn node_to_bgp(node: &NodeObject, cluster_asn: u32) -> (r: Option<NodeBgp>)
    ensures
        match r {
            Some(b) => bgp_of(*node, cluster_asn) == Some(b@),
            None => bgp_of(*node, cluster_asn) is None,
        },
{
    match (&node.metadata.name, node_ip(node)) {
        (Some(name), Some(ip)) => {
            let asn: u32 = match annotated_number(node, NODE_ASN_ANNOTATION) {
                Some(n) => n,
                None => cluster_asn,
            };
            Some(
                NodeBgp {
                    name: name.clone(),
                    ip,
                    asn,
                    rr_server: annotated_number(node, RR_SERVER_ANNOTATION),
                    rr_client: annotated_number(node, RR_CLIENT_ANNOTATION),
                },
            )
        },
        _ => None,
    }
}

/// The networks of a node's pods: those of the list, or the single one where the list is missing
/// or empty.
pub open spec fn pod_nets(node: NodeObject) -> Seq<IpNet> {
    if crate::objects::list_or_empty(node.pod_cidrs).len() > 0 {
        crate::objects::nets_of(crate::text::texts(crate::objects::list_or_empty(node.pod_cidrs)))
    } else {
        match node.pod_cidr {
            Some(t) => match crate::net::net_of(t@) {
                Some(n) => seq![n],
                None => Seq::empty(),
            },
            None => Seq::empty(),
        }
    }
}

/// The networks of a node's pods.
pub fn node_pod_cidrs(node: &NodeObject) -> (r: Vec<IpNet>)
    ensures
        r@ == pod_nets(*node),
        forall|i: int| 0 <= i < r@.len() ==> (#[trigger] r@[i]).wf(),
{
    match &node.pod_cidrs {
        Some(l) => if l.len() > 0 {
            return parse_nets(l);
        },
        None => {},
    }
    let mut v: Vec<IpNet> = Vec::new();
    match &node.pod_cidr {
        Some(t) => match crate::net::parse_net(t.as_str()) {
            Some(n) => {
                v.push(n);
            },
            None => {},
        },
        None => {},
    }
    assert(v@ =~= pod_nets(*node));
    v
}

/// What routes need of a node; nothing where it lacks a name or an address.
pub open spec fn route_of(node: NodeObject) -> Option<NodeRouteView> {
    match (node.metadata.name, address_of(node)) {
        (Some(name), Some(ip)) => Some(
            NodeRouteView { name: name@, ip, pod_cidrs: pod_nets(node) },
        ),
        _ => None,
    }
}

/// What routes need of a node.
pub fn node_to_route(node: &NodeObject) -> (r: Option<NodeRoute>)
    ensures
        match r {
            Some(x) => route_of(*node) == Some(x@),
            None => route_of(*node) is None,
        },
{
    match (&node.metadata.name, node_ip(node)) {
        (Some(name), Some(ip)) => Some(
            NodeRoute { name: name.clone(), ip, pod_cidrs: node_pod_cidrs(node) },
        ),
        _ => None,
    }
}

/// The first node of that name.
pub open spec fn named(nodes: Seq<NodeObject>, name: Seq<char>) -> Option<NodeObject>
    decreases nodes.len(),
{
    if nodes.len() == 0 {
        None
    } else {
        match named(nodes.drop_last(), name) {
            Some(n) => Some(n),
            None => if crate::objects::text_of(nodes.last().metadata.name) == Some(name) {
                Some(nodes.last())
            } else {
                None
            },
        }
    }
}

fn find_node<'a>(nodes: &'a [NodeObject], name: &str) -> (r: Option<&'a NodeObject>)
    ensures
        match r {
            Some(n) => named(nodes@, name@) == Some(*n),
            None => named(nodes@, name@) is None,
        },
{
    let mut i: usize = 0;
    let mut found: Option<&'a NodeObject> = None;
    while i < nodes.len()
        invariant
            i <= nodes@.len(),
            match found {
                Some(n) => named(nodes@.take(i as int), name@) == Some(*n),
                None => named(nodes@.take(i as int), name@) is None,
            },
        decreases nodes@.len() - i,
    {
        assert(nodes@.take(i + 1).drop_last() =~= nodes@.take(i as int));
        assert(nodes@.take(i + 1).last() == nodes@[i as int]);
        if found.is_none() && is_text(&nodes[i].metadata.name, name) {
            found = Some(&nodes[i]);
        }
        i = i + 1;
    }
    assert(nodes@.take(i as int) =~= nodes@);
    found
}

/// What BGP needs of the node of that name.
pub fn local_node(nodes: &[NodeObject], name: &str, cluster_asn: u32) -> (r: Option<NodeBgp>)
    ensures
        match r {
            Some(b) => named(nodes@, name@) matches Some(n) && bgp_of(n, cluster_asn) == Some(b@),
            None => named(nodes@, name@) matches Some(n) ==> bgp_of(n, cluster_asn) is None,
        },
{
    match find_node(nodes, name) {
        Some(n) => node_to_bgp(n, cluster_asn),
        None => None,
    }
}

/// The networks of the pods of the node of that name; none where there is no such node.
pub fn local_pod_cidrs(nodes: &[NodeObject], name: &str) -> (r: Vec<IpNet>)
    ensures
        match named(nodes@, name@) {
            Some(n) => r@ == pod_nets(n),
            None => r@.len() == 0,
        },
        forall|i: int| 0 <= i < r@.len() ==> (#[trigger] r@[i]).wf(),
{
    match find_node(nodes, name) {
        Some(n) => node_pod_cidrs(n),
        None => Vec::new(),
    }
}

/// What BGP needs of all nodes, in order; those that it can do nothing with are left out.
pub open spec fn all_bgp(nodes: Seq<NodeObject>, cluster_asn: u32) -> Seq<NodeBgpView> {
    crate::seqs::flat(
        nodes,
        |n: NodeObject|
            match bgp_of(n, cluster_asn) {
                Some(b) => seq![b],
                None => Seq::empty(),
            },
    )
}

/// Entries as values.
pub open spec fn bgp_views(v: Seq<NodeBgp>) -> Seq<NodeBgpView> {
    v.map_values(|b: NodeBgp| b@)
}

/// What BGP needs of all nodes.
pub fn bgp_nodes(nodes: &[NodeObject], cluster_asn: u32) -> (r: Vec<NodeBgp>)
    ensures
        bgp_views(r@) == all_bgp(nodes@, cluster_asn),
{
    let ghost f = |n: NodeObject|
        match bgp_of(n, cluster_asn) {
            Some(b) => seq![b],
            None => Seq::empty(),
        };
    let mut out: Vec<NodeBgp> = Vec::new();
    let mut i: usize = 0;
    assert(bgp_views(out@) =~= crate::seqs::flat(nodes@.take(0), f));
    while i < nodes.len()
        invariant
            i <= nodes@.len(),
            f == (|n: NodeObject|
                match bgp_of(n, cluster_asn) {
                    Some(b) => seq![b],
                    None => Seq::empty(),
                }),
            bgp_views(out@) == crate::seqs::flat(nodes@.take(i as int), f),
        decreases nodes@.len() - i,
    {
        let ghost before = out@;
        proof {
            crate::seqs::lemma_flat_step(nodes@, f, i as int);
        }
        match node_to_bgp(&nodes[i], cluster_asn) {
            Some(b) => {
                out.push(b);
                assert(bgp_views(out@) =~= bgp_views(before).push(b@));
            },
            None => {},
        }
        assert(bgp_views(out@) =~= crate::seqs::flat(nodes@.take(i + 1), f));
        i = i + 1;
    }
    assert(nodes@.take(i as int) =~= nodes@);
    out
}

/// What routes need of all nodes, in order; those that have no route are left out.
pub open spec fn all_routes(nodes: Seq<NodeObject>) -> Seq<NodeRouteView> {
    crate::seqs::flat(
        nodes,
        |n: NodeObject|
            match route_of(n) {
                Some(x) => seq![x],
                None => Seq::empty(),
            },
    )
}

/// Entries as values.
pub open spec fn route_views(v: Seq<NodeRoute>) -> Seq<NodeRouteView> {
    v.map_values(|x: NodeRoute| x@)
}

/// What routes need of all nodes.
pub fn node_routes(nodes: &[NodeObject]) -> (r: Vec<NodeRoute>)
    ensures
        route_views(r@) == all_routes(nodes@),
{
    let ghost f = |n: NodeObject|
        match route_of(n) {
            Some(x) => seq![x],
            None => Seq::empty(),
        };
    let mut out: Vec<NodeRoute> = Vec::new();
    let mut i: usize = 0;
    assert(route_views(out@) =~= crate::seqs::flat(nodes@.take(0), f));
    while i < nodes.len()
        invariant
            i <= nodes@.len(),
            f == (|n: NodeObject|
                match route_of(n) {
                    Some(x) => seq![x],
                    None => Seq::empty(),
                }),
            route_views(out@) == crate::seqs::flat(nodes@.take(i as int), f),
        decreases nodes@.len() - i,
    {
        let ghost before = out@;
        proof {
            crate::seqs::lemma_flat_step(nodes@, f, i as int);
        }
        match node_to_route(&nodes[i]) {
            Some(x) => {
                out.push(x);
                assert(route_views(out@) =~= route_views(before).push(x@));
            },
            None => {},
        }
        assert(route_views(out@) =~= crate::seqs::flat(nodes@.take(i + 1), f));
        i = i + 1;
    }
    assert(nodes@.take(i as int) =~= nodes@);
    out
}

/// The routes to the pods of a node through its address, in order: one for each of its networks
/// that is of the address's family.
pub open spec fn routes_to(node: NodeRouteView) -> Seq<Route> {
    crate::seqs::flat(
        node.pod_cidrs,
        |c: IpNet|
            if crate::common::ipfamily::family_of(c.addr) == crate::common::ipfamily::family_of(
                node.ip,
            ) {
                seq![Route { dst: c, gateway: Some(node.ip), table: MAIN_TABLE }]
            } else {
                Seq::empty()
            },
    )
}

/// The routes to the pods of a node that is not the local one.
pub open spec fn routes_from(node: NodeObject, local: Seq<char>) -> Seq<Route> {
    match route_of(node) {
        Some(x) => if x.name == local {
            Seq::empty()
        } else {
            routes_to(x)
        },
        None => Seq::empty(),
    }
}

fn add_routes_to(out: &mut Vec<Route>, node: &NodeRoute)
    ensures
        final(out)@ == old(out)@ + routes_to(node@),
{
    let ghost start = out@;
    let ghost f = |c: IpNet|
        if crate::common::ipfamily::family_of(c.addr) == crate::common::ipfamily::family_of(
            node.ip,
        ) {
            seq![Route { dst: c, gateway: Some(node.ip), table: MAIN_TABLE }]
        } else {
            Seq::empty()
        };
    let family = IpFamily::of_addr(&node.ip);
    let mut i: usize = 0;
    assert(out@ =~= start + crate::seqs::flat(node.pod_cidrs@.take(0), f));
    while i < node.pod_cidrs.len()
        invariant
            i <= node.pod_cidrs@.len(),
            family == crate::common::ipfamily::family_of(node.ip),
            f == (|c: IpNet|
                if crate::common::ipfamily::family_of(c.addr)
                    == crate::common::ipfamily::family_of(node.ip) {
                    seq![Route { dst: c, gateway: Some(node.ip), table: MAIN_TABLE }]
                } else {
                    Seq::empty()
                }),
            out@ == start + crate::seqs::flat(node.pod_cidrs@.take(i as int), f),
        decreases node.pod_cidrs@.len() - i,
    {
        proof {
            crate::seqs::lemma_flat_step(node.pod_cidrs@, f, i as int);
        }
        let dst = node.pod_cidrs[i];
        if IpFamily::of_net(&dst) == family {
            out.push(Route { dst, gateway: Some(node.ip), table: MAIN_TABLE });
        }
        assert(out@ =~= start + crate::seqs::flat(node.pod_cidrs@.take(i + 1), f));
        i = i + 1;
    }
    assert(node.pod_cidrs@.take(i as int) =~= node.pod_cidrs@);
}

/// The routes to the pods of all nodes but the local one, in order.
pub fn direct_routes(nodes: &[NodeObject], local: &str) -> (r: Vec<Route>)
    ensures
        r@ == crate::seqs::flat(nodes@, |n: NodeObject| routes_from(n, local@)),
{
    let ghost f = |n: NodeObject| routes_from(n, local@);
    let mut out: Vec<Route> = Vec::new();
    let mut i: usize = 0;
    assert(out@ =~= crate::seqs::flat(nodes@.take(0), f));
    while i < nodes.len()
        invariant
            i <= nodes@.len(),
            f == (|n: NodeObject| routes_from(n, local@)),
            out@ == crate::seqs::flat(nodes@.take(i as int), f),
        decreases nodes@.len() - i,
    {
        proof {
            crate::seqs::lemma_flat_step(nodes@, f, i as int);
        }
        if let Some(x) = node_to_route(&nodes[i]) {
            if !same(x.name.as_str(), local) {
                add_routes_to(&mut out, &x);
            }
        }
        assert(out@ =~= crate::seqs::flat(nodes@.take(i + 1), f));
        i = i + 1;
    }
    assert(nodes@.take(i as int) =~= nodes@);
    out
}

/// No direct route leads to the local node, and each leads to a network of a node through an
/// address of that node in the network's family, in the main table.
pub proof fn lemma_direct_routes(nodes: Seq<NodeObject>, local: Seq<char>, r: Route)
    requires
        crate::seqs::flat(nodes, |n: NodeObject| routes_from(n, local)).contains(r),
    ensures
        r.table == MAIN_TABLE,
        exists|i: int|
            0 <= i < nodes.len() && (route_of(#[trigger] nodes[i]) matches Some(x) && x.name
                != local && r.gateway == Some(x.ip) && x.pod_cidrs.contains(r.dst)
                && crate::common::ipfamily::family_of(r.dst.addr)
                == crate::common::ipfamily::family_of(x.ip)),
{
    let i = crate::seqs::lemma_flat_from(nodes, |n: NodeObject| routes_from(n, local), r);
    let x = route_of(nodes[i])->0;
    let f = |c: IpNet|
        if crate::common::ipfamily::family_of(c.addr) == crate::common::ipfamily::family_of(x.ip) {
            seq![Route { dst: c, gateway: Some(x.ip), table: MAIN_TABLE }]
        } else {
            Seq::empty()
        };
    let k = crate::seqs::lemma_flat_from(x.pod_cidrs, f, r);
    let own = f(x.pod_cidrs[k]);
    let j = choose|j: int| 0 <= j < own.len() && own[j] == r;
    assert(r.dst == x.pod_cidrs[k]);
}

/// A node has a BGP entry exactly when it has a route entry, with the same name and address.
pub proof fn lemma_bgp_and_route_agree(node: NodeObject, cluster_asn: u32)
    ensures
        bgp_of(node, cluster_asn) is Some <==> route_of(node) is Some,
        bgp_of(node, cluster_asn) matches Some(b) ==> {
            &&& b.name == route_of(node)->0.name
            &&& b.ip == route_of(node)->0.ip
        },
{
}

/// What the routes controller is set up with.
#[derive(Debug, Clone)]
pub struct RoutesControllerConfig {
    /// This node.
    pub local: NodeBgp,
    /// Whether all nodes peer with each other.
    pub full_mesh: bool,
    /// Whether nodes of the same AS peer.
    pub enable_ibgp: bool,
    /// Time between syncs.
    pub sync_period: Duration,
    /// Graceful restart, for all peers.
    pub graceful_restart: Option<GracefulRestart>,
    /// What external peers are made from.
    pub external: ExternalPeerSettings,
}

/// What external peers are made from: lists that belong together by index, and what all peers
/// have in common.
#[derive(Debug, Clone)]
pub struct ExternalPeerSettings {
    /// Addresses.
    pub ips: Vec<IpAddr>,
    /// AS numbers.
    pub asns: Vec<u32>,
    /// Ports.
    pub ports: Vec<u16>,
    /// Passwords.
    pub passwords: Vec<String>,
    /// Hops that they may be away.
    pub multihop_ttl: Option<u8>,
    /// Own address of the sessions.
    pub local_address: Option<IpAddr>,
    /// Graceful restart.
    pub graceful_restart: Option<GracefulRestart>,
}

/// The external peers that are kept, given what the settings come to: where the settings are not
/// valid, there are none.
pub fn external_peers(made: Result<Vec<PeerConfig>, String>) -> (r: Vec<PeerConfig>)
    ensures
        match made {
            Ok(peers) => r@ == peers@,
            Err(_) => r@.len() == 0,
        },
{
    match made {
        Ok(peers) => peers,
        Err(_) => Vec::new(),
    }
}

/// Seconds as a number of 32 bits; what does not fit is cut off.
pub open spec fn low_seconds(d: Duration) -> u32 {
    (d.secs % 0x1_0000_0000) as u32
}

fn cut_seconds(d: Duration) -> (r: u32)
    ensures
        r == low_seconds(d),
{
    let s: u64 = d.secs;
    #[verifier::truncate]
    let r: u32 = s as u32;
    assert(s as u32 == s % 0x1_0000_0000) by (bit_vector);
    r
}

/// The graceful restart that a configuration asks for.
pub open spec fn restart_of(config: KubeRouterConfig) -> Option<GracefulRestart> {
    if config.bgp_graceful_restart {
        Some(
            GracefulRestart {
                restart_time_secs: low_seconds(config.bgp_graceful_restart_time),
                deferral_time_secs: low_seconds(config.bgp_graceful_restart_deferral_time),
            },
        )
    } else {
        None
    }
}

/// The ports that are ports.
pub open spec fn valid_ports(v: Seq<u32>) -> Seq<u16> {
    crate::seqs::flat(
        v,
        |p: u32|
            if p <= 65535 {
                seq![p as u16]
            } else {
                Seq::empty()
            },
    )
}

fn keep_ports(v: &[u32]) -> (r: Vec<u16>)
    ensures
        r@ == valid_ports(v@),
{
    let ghost f = |p: u32|
        if p <= 65535 {
            seq![p as u16]
        } else {
            Seq::empty()
        };
    let mut out: Vec<u16> = Vec::new();
    let mut i: usize = 0;
    assert(out@ =~= crate::seqs::flat(v@.take(0), f));
    while i < v.len()
        invariant
            i <= v@.len(),
            f == (|p: u32|
                if p <= 65535 {
                    seq![p as u16]
                } else {
                    Seq::empty()
                }),
            out@ == crate::seqs::flat(v@.take(i as int), f),
        decreases v@.len() - i,
    {
        proof {
            crate::seqs::lemma_flat_step(v@, f, i as int);
        }
        if v[i] <= 65535 {
            out.push(v[i] as u16);
        }
        assert(out@ =~= crate::seqs::flat(v@.take(i + 1), f));
        i = i + 1;
    }
    assert(v@.take(i as int) =~= v@);
    out
}

/// What the routes controller is set up with; nothing while this node is unknown.
pub fn build_controller(
    config: &KubeRouterConfig,
    nodes: &[NodeObject],
    local_name: &str,
) -> (r: Option<RoutesControllerConfig>)
    ensures
        match r {
            Some(c) => {
                &&& named(nodes@, local_name@) matches Some(n) && bgp_of(n, config.cluster_asn)
                    == Some(c.local@)
                &&& c.full_mesh == config.nodes_full_mesh
                &&& c.enable_ibgp == config.enable_ibgp
                &&& c.sync_period == config.routes_sync_period
                &&& c.graceful_restart == restart_of(*config)
                &&& c.external.ips@ == config.peer_router_ips@
                &&& c.external.asns@ == config.peer_router_asns@
                &&& c.external.ports@ == valid_ports(config.peer_router_ports@)
                &&& crate::text::texts(c.external.passwords@) == crate::text::texts(
                    config.peer_router_passwords@,
                )
                &&& c.external.multihop_ttl == if config.peer_router_multihop_ttl > 0 {
                    Some(config.peer_router_multihop_ttl)
                } else {
                    None
                }
                &&& c.external.local_address == Some(c.local@.ip)
                &&& c.external.graceful_restart == restart_of(*config)
            },
            None => named(nodes@, local_name@) matches Some(n) ==> bgp_of(n, config.cluster_asn)
                is None,
        },
{
    match local_node(nodes, local_name, config.cluster_asn) {
        Some(local) => {
            let graceful_restart = if config.bgp_graceful_restart {
                Some(
                    GracefulRestart {
                        restart_time_secs: cut_seconds(config.bgp_graceful_restart_time),
                        deferral_time_secs: cut_seconds(config.bgp_graceful_restart_deferral_time),
                    },
                )
            } else {
                None
            };
            let multihop_ttl: Option<u8> = if config.peer_router_multihop_ttl > 0 {
                Some(config.peer_router_multihop_ttl)
            } else {
                None
            };
            let external = ExternalPeerSettings {
                ips: config.peer_router_ips.clone(),
                asns: config.peer_router_asns.clone(),
                ports: keep_ports(&config.peer_router_ports),
                passwords: config.peer_router_passwords.clone(),
                multihop_ttl,
                local_address: Some(local.ip),
                graceful_restart,
            };
            assert(external.ips@ =~= config.peer_router_ips@);
            assert(external.asns@ =~= config.peer_router_asns@);
            assert(crate::text::texts(external.passwords@) =~= crate::text::texts(
                config.peer_router_passwords@,
            ));
            Some(
                RoutesControllerConfig {
                    local,
                    full_mesh: config.nodes_full_mesh,
                    enable_ibgp: config.enable_ibgp,
                    sync_period: config.routes_sync_period,
                    graceful_restart,
                    external,
                },
            )
        },
        None => None,
    }
}

/// Where the BGP speaker is administered: its address and its endpoint.
#[derive(Debug, Clone)]
pub struct EnginePlan {
    /// Address.
    pub admin_addr: String,
    /// Port.
    pub admin_port: u16,
    /// Address and port.
    pub endpoint: String,
}

/// The address at which the speaker is administered: that of the configuration, or the loopback.
pub open spec fn admin_address(config: KubeRouterConfig) -> Seq<char> {
    if config.gobgp_admin_address@.len() == 0 {
        "127.0.0.1"@
    } else {
        config.gobgp_admin_address@
    }
}

/// Whether a real BGP speaker is started, and where it is administered: it must be installed and
/// its administration must be on. Without a plan nothing is spoken, only logged.
pub fn engine_plan(config: &KubeRouterConfig, installed: bool) -> (r: Option<EnginePlan>)
    ensures
        r is Some <==> config.gobgp_admin_port != 0 && installed,
        r matches Some(p) ==> {
            &&& p.admin_addr@ == admin_address(*config)
            &&& p.admin_port == config.gobgp_admin_port
            &&& p.endpoint@ == admin_address(*config) + ":"@ + crate::text::dec(
                config.gobgp_admin_port as nat,
            )
        },
{
    if config.gobgp_admin_port == 0 || !installed {
        None
    } else {
        let admin_addr = if config.gobgp_admin_address.as_str().is_empty() {
            "127.0.0.1".to_owned()
        } else {
            config.gobgp_admin_address.clone()
        };
        let endpoint = cat3(
            admin_addr.as_str(),
            ":",
            dec_text(config.gobgp_admin_port as u64).as_str(),
        );
        Some(EnginePlan { admin_addr, admin_port: config.gobgp_admin_port, endpoint })
    }
}

/// The speaker's own configuration. Only an address of IPv4 can be a router id.
pub fn global_config(config: &KubeRouterConfig, local_ip: Option<IpAddr>) -> (r: GlobalConfig)
    ensures
        r.asn == config.cluster_asn,
        r.listen_port == config.bgp_port,
        r.listen_addresses@ == match local_ip {
            Some(ip) => seq![ip],
            None => Seq::empty(),
        },
        match r.router_id {
            Some(t) => local_ip matches Some(ip) && ip is V4 && t@ == ip.text(),
            None => local_ip matches Some(ip) ==> ip is V6,
        },
{
    let mut listen_addresses: Vec<IpAddr> = Vec::new();
    let mut router_id: Option<String> = None;
    match local_ip {
        Some(ip) => {
            listen_addresses.push(ip);
            match ip {
                IpAddr::V4(_) => {
                    router_id = Some(ip.to_text());
                },
                IpAddr::V6(_) => {},
            }
        },
        None => {},
    }
    assert(listen_addresses@ =~= match local_ip {
        Some(ip) => seq![ip],
        None => Seq::empty(),
    });
    GlobalConfig {
        asn: config.cluster_asn,
        router_id,
        listen_port: config.bgp_port,
        listen_addresses,
    }
}

/// The kernel settings that forwarding needs, as keys and values.
pub fn forwarding_settings(enable_ipv6: bool) -> (r: Vec<(&'static str, &'static str)>)
    ensures
        r@ == if enable_ipv6 {
            seq![("net.ipv4.ip_forward", "1"), ("net.ipv6.conf.all.forwarding", "1")]
        } else {
            seq![("net.ipv4.ip_forward", "1")]
        },
{
    let mut v: Vec<(&'static str, &'static str)> = Vec::new();
    v.push(("net.ipv4.ip_forward", "1"));
    if enable_ipv6 {
        v.push(("net.ipv6.conf.all.forwarding", "1"));
    }
    assert(v@ =~= if enable_ipv6 {
        seq![("net.ipv4.ip_forward", "1"), ("net.ipv6.conf.all.forwarding", "1")]
    } else {
        seq![("net.ipv4.ip_forward", "1")]
    });
    v
}

/// The name of this node: the override, or what the first variable of the environment holds, or
/// the second.
pub fn resolve_node_name(
    hostname_override: &str,
    node_name: Option<String>,
    hostname: Option<String>,
) -> (r: Option<String>)
    ensures
        crate::objects::text_of(r) == if hostname_override@.len() > 0 {
            Some(hostname_override@)
        } else if node_name is Some {
            crate::objects::text_of(node_name)
        } else {
            crate::objects::text_of(hostname)
        },
{
    if !hostname_override.is_empty() {
        Some(hostname_override.to_owned())
    } else {
        match node_name {
            Some(n) => Some(n),
            None => hostname,
        }
    }
}

} // verus!
