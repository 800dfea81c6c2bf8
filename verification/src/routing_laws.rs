//! Laws of what routing is told of nodes, stated on the fields of the objects.

use vstd::prelude::*;

use crate::common::ipfamily::IpFamily;
use crate::ip::IpAddr;
use crate::kube_client::{chosen, first_usable, usable, NodeAddress, NodeAddressType};
use crate::net::IpNet;
use crate::netlink::routes::Route;
use crate::object_laws::{elements, gives};
use crate::objects::{NodeAddressObject, NodeObject};
use crate::routing_wire::{
    address_in, address_of, all_bgp, all_routes, bgp_of, entry_usable, first_entry, named,
    number_in, pod_nets, restart_of, route_of, routes_from, routes_to, valid_ports, NodeBgp,
    NodeRoute,
};

verus! {

/// Whether an address of a node is of the kind and spells the address of the family; blanks
/// around it do not count.
pub open spec fn stands_for(
    a: NodeAddress,
    kind: NodeAddressType,
    family: IpFamily,
    ip: IpAddr,
) -> bool {
    a.kind == kind && crate::ip::ip_of(crate::text::trimmed(a.address@)) == Some(ip) && ip is V4
        == (family == IpFamily::V4)
}

/// Whether an address is the first of the kind and family in the list.
pub open spec fn is_first(
    v: Seq<NodeAddress>,
    kind: NodeAddressType,
    family: IpFamily,
    ip: IpAddr,
) -> bool {
    exists|i: int|
        0 <= i < v.len() && stands_for(#[trigger] v[i], kind, family, ip) && forall|
            j: int,
            other: IpAddr,
        |
            0 <= j < i ==> !(#[trigger] stands_for(v[j], kind, family, other))
}

/// Whether the list has an address of the kind and family.
pub open spec fn any_listed(v: Seq<NodeAddress>, kind: NodeAddressType, family: IpFamily) -> bool {
    exists|i: int, ip: IpAddr|
        0 <= i < v.len() && #[trigger] stands_for(v[i], kind, family, ip)
}

proof fn lemma_first_usable(v: Seq<NodeAddress>, kind: NodeAddressType, family: IpFamily)
    ensures
        first_usable(v, kind, family) matches Some(ip) ==> is_first(v, kind, family, ip),
        first_usable(v, kind, family) is None ==> !any_listed(v, kind, family),
    decreases v.len(),
{
    if v.len() > 0 {
        let front = v.drop_last();
        let n = v.len() - 1;
        lemma_first_usable(front, kind, family);
        assert forall|k: int| 0 <= k < front.len() implies #[trigger] front[k] == v[k] by {}
        if first_usable(front, kind, family) is Some {
            let ip = first_usable(front, kind, family)->0;
            let i = choose|i: int|
                0 <= i < front.len() && stands_for(#[trigger] front[i], kind, family, ip)
                    && forall|j: int, other: IpAddr|
                    0 <= j < i ==> !(#[trigger] stands_for(front[j], kind, family, other));
            assert forall|j: int, other: IpAddr| 0 <= j < i implies !(
            #[trigger] stands_for(v[j], kind, family, other)) by {
                assert(front[j] == v[j]);
            }
            assert(stands_for(v[i], kind, family, ip));
        } else {
            assert forall|j: int, other: IpAddr| 0 <= j < n implies !(
            #[trigger] stands_for(v[j], kind, family, other)) by {
                assert(front[j] == v[j]);
                assert(!stands_for(front[j], kind, family, other));
            }
            assert(v.last() == v[n]);
            if usable(v.last(), kind, family) is Some {
                assert(stands_for(v[n], kind, family, usable(v.last(), kind, family)->0));
            } else {
                assert forall|i: int, ip: IpAddr| 0 <= i < v.len() implies !(
                #[trigger] stands_for(v[i], kind, family, ip)) by {
                    if i < n {
                        assert(front[i] == v[i]);
                    }
                }
            }
        }
    }
}

/// Of each family the address that is used of a node is the first internal one; where there is
/// no internal one, the first external one; no other kind is used, and where there is neither
/// there is none.
pub proof fn lemma_address_choice(v: Seq<NodeAddress>, family: IpFamily)
    ensures
        chosen(v, family) matches Some(ip) ==> is_first(
            v,
            NodeAddressType::Internal,
            family,
            ip,
        ) || (!any_listed(v, NodeAddressType::Internal, family) && is_first(
            v,
            NodeAddressType::External,
            family,
            ip,
        )),
        chosen(v, family) is None <==> !any_listed(v, NodeAddressType::Internal, family)
            && !any_listed(v, NodeAddressType::External, family),
{
    lemma_first_usable(v, NodeAddressType::Internal, family);
    lemma_first_usable(v, NodeAddressType::External, family);
    if first_usable(v, NodeAddressType::Internal, family) is Some {
        lemma_first_is_listed(
            v,
            NodeAddressType::Internal,
            family,
            first_usable(v, NodeAddressType::Internal, family)->0,
        );
    }
    if first_usable(v, NodeAddressType::External, family) is Some {
        lemma_first_is_listed(
            v,
            NodeAddressType::External,
            family,
            first_usable(v, NodeAddressType::External, family)->0,
        );
    }
}

proof fn lemma_first_is_listed(
    v: Seq<NodeAddress>,
    kind: NodeAddressType,
    family: IpFamily,
    ip: IpAddr,
)
    requires
        is_first(v, kind, family, ip),
    ensures
        any_listed(v, kind, family),
{
    let i = choose|i: int|
        0 <= i < v.len() && stands_for(#[trigger] v[i], kind, family, ip) && forall|
            j: int,
            other: IpAddr,
        |
            0 <= j < i ==> !(#[trigger] stands_for(v[j], kind, family, other));
    assert(stands_for(v[i], kind, family, ip));
}

/// Whether an address that a node reports is of the type of that name and spells the address of
/// the family.
pub open spec fn reports(
    a: NodeAddressObject,
    type_: Seq<char>,
    family: IpFamily,
    ip: IpAddr,
) -> bool {
    a.type_@ == type_ && crate::ip::ip_of(crate::text::trimmed(a.address@)) == Some(ip) && ip is V4
        == (family == IpFamily::V4)
}

/// Whether an address is the first of that type and family that the node reports.
pub open spec fn reports_first(
    node: NodeObject,
    type_: Seq<char>,
    family: IpFamily,
    ip: IpAddr,
) -> bool {
    exists|i: int|
        0 <= i < elements(node.addresses).len() && reports(
            #[trigger] elements(node.addresses)[i],
            type_,
            family,
            ip,
        ) && forall|j: int, other: IpAddr|
            0 <= j < i ==> !(#[trigger] reports(elements(node.addresses)[j], type_, family, other))
}

/// Whether the node reports an address of that type and family.
pub open spec fn reports_any(node: NodeObject, type_: Seq<char>, family: IpFamily) -> bool {
    exists|i: int, ip: IpAddr|
        0 <= i < elements(node.addresses).len() && #[trigger] reports(
            elements(node.addresses)[i],
            type_,
            family,
            ip,
        )
}

proof fn lemma_first_reported(
    all: Seq<NodeAddressObject>,
    type_: Seq<char>,
    kind: NodeAddressType,
    family: IpFamily,
)
    requires
        (type_ == "InternalIP"@ && kind == NodeAddressType::Internal) || (type_ == "ExternalIP"@
            && kind == NodeAddressType::External),
    ensures
        first_entry(all, kind, family) matches Some(ip) ==> exists|i: int|
            0 <= i < all.len() && reports(#[trigger] all[i], type_, family, ip) && forall|
                j: int,
                other: IpAddr,
            |
                0 <= j < i ==> !(#[trigger] reports(all[j], type_, family, other)),
        first_entry(all, kind, family) is None ==> forall|i: int, ip: IpAddr|
            0 <= i < all.len() ==> !(#[trigger] reports(all[i], type_, family, ip)),
    decreases all.len(),
{
    reveal_strlit("InternalIP");
    reveal_strlit("ExternalIP");
    assert("InternalIP"@[0] != "ExternalIP"@[0]);
    if all.len() > 0 {
        let front = all.drop_last();
        let n = all.len() - 1;
        lemma_first_reported(front, type_, kind, family);
        assert forall|k: int| 0 <= k < front.len() implies #[trigger] front[k] == all[k] by {}
        if first_entry(front, kind, family) is Some {
            let ip = first_entry(front, kind, family)->0;
            let i = choose|i: int|
                0 <= i < front.len() && reports(#[trigger] front[i], type_, family, ip)
                    && forall|j: int, other: IpAddr|
                    0 <= j < i ==> !(#[trigger] reports(front[j], type_, family, other));
            assert forall|j: int, other: IpAddr| 0 <= j < i implies !(
            #[trigger] reports(all[j], type_, family, other)) by {
                assert(front[j] == all[j]);
            }
            assert(reports(all[i], type_, family, ip));
        } else {
            assert forall|j: int, other: IpAddr| 0 <= j < n implies !(
            #[trigger] reports(all[j], type_, family, other)) by {
                assert(front[j] == all[j]);
                assert(!reports(front[j], type_, family, other));
            }
            assert(all.last() == all[n]);
            if entry_usable(all.last(), kind, family) is Some {
                assert(reports(
                    all[n],
                    type_,
                    family,
                    entry_usable(all.last(), kind, family)->0,
                ));
            } else {
                assert forall|i: int, ip: IpAddr| 0 <= i < all.len() implies !(
                #[trigger] reports(all[i], type_, family, ip)) by {
                    if i < n {
                        assert(front[i] == all[i]);
                    }
                }
            }
        }
    }
}

/// Whether an address is the one used of a node in the family: the first internal one it
/// reports, or, where it reports none, the first external one.
pub open spec fn is_used(node: NodeObject, family: IpFamily, ip: IpAddr) -> bool {
    reports_first(node, "InternalIP"@, family, ip) || (!reports_any(
        node,
        "InternalIP"@,
        family,
    ) && reports_first(node, "ExternalIP"@, family, ip))
}

/// Whether a node reports an address of the family that can be used.
pub open spec fn has_usable(node: NodeObject, family: IpFamily) -> bool {
    reports_any(node, "InternalIP"@, family) || reports_any(node, "ExternalIP"@, family)
}

proof fn lemma_address_in(node: NodeObject, family: IpFamily)
    ensures
        address_in(node, family) matches Some(ip) ==> is_used(node, family, ip),
        address_in(node, family) is Some <==> has_usable(node, family),
{
    let all = elements(node.addresses);
    assert(crate::objects::list_or_empty(node.addresses) == all);
    lemma_first_reported(all, "InternalIP"@, NodeAddressType::Internal, family);
    lemma_first_reported(all, "ExternalIP"@, NodeAddressType::External, family);
    if first_entry(all, NodeAddressType::Internal, family) is Some {
        let ip = first_entry(all, NodeAddressType::Internal, family)->0;
        let i = choose|i: int|
            0 <= i < all.len() && reports(#[trigger] all[i], "InternalIP"@, family, ip) && forall|
                j: int,
                other: IpAddr,
            |
                0 <= j < i ==> !(#[trigger] reports(all[j], "InternalIP"@, family, other));
        assert(reports(elements(node.addresses)[i], "InternalIP"@, family, ip));
        assert(reports_any(node, "InternalIP"@, family));
    } else {
        assert(!reports_any(node, "InternalIP"@, family));
        if first_entry(all, NodeAddressType::External, family) is Some {
            let ip = first_entry(all, NodeAddressType::External, family)->0;
            let i = choose|i: int|
                0 <= i < all.len() && reports(#[trigger] all[i], "ExternalIP"@, family, ip)
                    && forall|j: int, other: IpAddr|
                    0 <= j < i ==> !(#[trigger] reports(all[j], "ExternalIP"@, family, other));
            assert(reports(elements(node.addresses)[i], "ExternalIP"@, family, ip));
            assert(reports_any(node, "ExternalIP"@, family));
        } else {
            assert(!reports_any(node, "ExternalIP"@, family));
        }
    }
}

/// The address used of a node is that of IPv4, or, where it reports none that can be used, that
/// of IPv6; there is one exactly where the node reports one that can be used.
pub proof fn lemma_node_address(node: NodeObject)
    ensures
        address_of(node) matches Some(ip) ==> is_used(node, IpFamily::V4, ip) || (!has_usable(
            node,
            IpFamily::V4,
        ) && is_used(node, IpFamily::V6, ip)),
        address_of(node) is Some <==> has_usable(node, IpFamily::V4) || has_usable(
            node,
            IpFamily::V6,
        ),
{
    lemma_address_in(node, IpFamily::V4);
    lemma_address_in(node, IpFamily::V6);
}

/// Whether a number is what an annotation of the node spells, in 32 bits.
pub open spec fn notes(node: NodeObject, key: Seq<char>, n: u32) -> bool {
    exists|s: Seq<char>| #[trigger]
        gives(node.metadata.annotations, key, s) && crate::text::unsigned_of(
            s,
            0xffff_ffff,
        ) == Some(n as nat)
}

/// A number is read from an annotation exactly where the annotation spells it.
pub proof fn lemma_number_noted(node: NodeObject, key: Seq<char>, n: u32)
    ensures
        number_in(node, key) == Some(n) <==> notes(node, key, n),
{
    if number_in(node, key) == Some(n) {
        let s = crate::labels::lookup(
            crate::objects::map_or_empty(node.metadata.annotations),
            key,
        )->0;
        assert(gives(node.metadata.annotations, key, s));
    }
    if notes(node, key, n) {
        let s = choose|s: Seq<char>| #[trigger]
            gives(node.metadata.annotations, key, s) && crate::text::unsigned_of(
                s,
                0xffff_ffff,
            ) == Some(n as nat);
        assert(crate::labels::lookup(
            crate::objects::map_or_empty(node.metadata.annotations),
            key,
        ) == Some(s));
    }
}

/// What BGP is told of a node, field by field: it is told exactly of nodes with a name and an
/// address that can be used; the AS number is the node's own where an annotation spells one and
/// that of the cluster otherwise.
pub proof fn lemma_bgp_by_fields(node: NodeObject, cluster_asn: u32, b: NodeBgp)
    ensures
        bgp_of(node, cluster_asn) is Some <==> node.metadata.name is Some && address_of(
            node,
        ) is Some,
        bgp_of(node, cluster_asn) == Some(b@) ==> {
            &&& b.name@ == node.metadata.name->0@
            &&& address_of(node) == Some(b.ip)
            &&& forall|n: u32| #[trigger]
                notes(node, "kube-router.io/node.asn"@, n) ==> b.asn == n
            &&& (forall|n: u32| !#[trigger] notes(node, "kube-router.io/node.asn"@, n)) ==> b.asn
                == cluster_asn
            &&& forall|n: u32| #[trigger]
                notes(node, "kube-router.io/rr.server"@, n) <==> b.rr_server == Some(n)
            &&& forall|n: u32| #[trigger]
                notes(node, "kube-router.io/rr.client"@, n) <==> b.rr_client == Some(n)
        },
{
    assert forall|n: u32| #[trigger] notes(node, "kube-router.io/node.asn"@, n) <==> number_in(
        node,
        "kube-router.io/node.asn"@,
    ) == Some(n) by {
        lemma_number_noted(node, "kube-router.io/node.asn"@, n);
    }
    assert forall|n: u32| #[trigger] notes(node, "kube-router.io/rr.server"@, n) <==> number_in(
        node,
        "kube-router.io/rr.server"@,
    ) == Some(n) by {
        lemma_number_noted(node, "kube-router.io/rr.server"@, n);
    }
    assert forall|n: u32| #[trigger] notes(node, "kube-router.io/rr.client"@, n) <==> number_in(
        node,
        "kube-router.io/rr.client"@,
    ) == Some(n) by {
        lemma_number_noted(node, "kube-router.io/rr.client"@, n);
    }
    let own = number_in(node, "kube-router.io/node.asn"@);
    if own is Some {
        assert(notes(node, "kube-router.io/node.asn"@, own->0));
    }
}

/// The networks of a node's pods are those that its list spells, in order; where the list is
/// missing or empty, the one that its single text spells; otherwise it has none.
pub proof fn lemma_pod_networks_by_fields(node: NodeObject)
    ensures
        elements(node.pod_cidrs).len() > 0 ==> pod_nets(node) == crate::objects::nets_of(
            crate::text::texts(elements(node.pod_cidrs)),
        ),
        elements(node.pod_cidrs).len() == 0 && node.pod_cidr is Some ==> pod_nets(node)
            == crate::objects::nets_of(seq![node.pod_cidr->0@]),
        elements(node.pod_cidrs).len() == 0 && node.pod_cidr is None ==> pod_nets(node).len() == 0,
{
    assert(crate::objects::list_or_empty(node.pod_cidrs) == elements(node.pod_cidrs));
    if node.pod_cidr is Some {
        crate::object_laws::lemma_networks_add_up(
            Seq::empty(),
            Seq::empty(),
            node.pod_cidr->0@,
        );
    }
}

/// What routes are told of a node, field by field: of exactly the nodes that BGP is told of.
pub proof fn lemma_route_by_fields(node: NodeObject, x: NodeRoute)
    ensures
        route_of(node) is Some <==> node.metadata.name is Some && address_of(node) is Some,
        route_of(node) == Some(x@) ==> {
            &&& x.name@ == node.metadata.name->0@
            &&& address_of(node) == Some(x.ip)
            &&& x.pod_cidrs@ == pod_nets(node)
        },
{
}

/// Nodes are told in their order, one entry for each that there is an entry for.
pub proof fn lemma_nodes_add_up(
    a: Seq<NodeObject>,
    b: Seq<NodeObject>,
    node: NodeObject,
    cluster_asn: u32,
    local: Seq<char>,
)
    ensures
        all_bgp(Seq::empty(), cluster_asn).len() == 0,
        bgp_of(node, cluster_asn) matches Some(x) ==> all_bgp(seq![node], cluster_asn) == seq![x],
        bgp_of(node, cluster_asn) is None ==> all_bgp(seq![node], cluster_asn).len() == 0,
        all_bgp(a + b, cluster_asn) == all_bgp(a, cluster_asn) + all_bgp(b, cluster_asn),
        all_routes(Seq::empty()).len() == 0,
        route_of(node) matches Some(x) ==> all_routes(seq![node]) == seq![x],
        route_of(node) is None ==> all_routes(seq![node]).len() == 0,
        all_routes(a + b) == all_routes(a) + all_routes(b),
        crate::seqs::flat(a + b, |n: NodeObject| routes_from(n, local)) == crate::seqs::flat(
            a,
            |n: NodeObject| routes_from(n, local),
        ) + crate::seqs::flat(b, |n: NodeObject| routes_from(n, local)),
{
    let f = |n: NodeObject|
        match bgp_of(n, cluster_asn) {
            Some(b) => seq![b],
            None => Seq::empty(),
        };
    crate::seqs::lemma_flat_parts(a, b, node, f);
    let g = |n: NodeObject|
        match route_of(n) {
            Some(x) => seq![x],
            None => Seq::empty(),
        };
    crate::seqs::lemma_flat_parts(a, b, node, g);
    let h = |n: NodeObject| routes_from(n, local);
    crate::seqs::lemma_flat_parts(a, b, node, h);
}

/// Every network of the pods of every other node that is of the family of the node's address has
/// a route through that address in the main table.
pub proof fn lemma_every_network_has_a_route(
    nodes: Seq<NodeObject>,
    local: Seq<char>,
    i: int,
    k: int,
)
    requires
        0 <= i < nodes.len(),
        nodes[i].metadata.name is Some,
        nodes[i].metadata.name->0@ != local,
        address_of(nodes[i]) is Some,
        0 <= k < pod_nets(nodes[i]).len(),
        pod_nets(nodes[i])[k].addr is V4 == address_of(nodes[i])->0 is V4,
    ensures
        crate::seqs::flat(nodes, |n: NodeObject| routes_from(n, local)).contains(
            (Route {
                dst: pod_nets(nodes[i])[k],
                gateway: Some(address_of(nodes[i])->0),
                table: 254,
            }),
        ),
{
    let f = |n: NodeObject| routes_from(n, local);
    let x = route_of(nodes[i])->0;
    let r = Route { dst: x.pod_cidrs[k], gateway: Some(x.ip), table: 254 };
    let g = |c: IpNet|
        if crate::common::ipfamily::family_of(c.addr) == crate::common::ipfamily::family_of(x.ip) {
            seq![
                Route {
                    dst: c,
                    gateway: Some(x.ip),
                    table: crate::netlink::system::MAIN_TABLE,
                },
            ]
        } else {
            Seq::empty()
        };
    assert(g(x.pod_cidrs[k])[0] == r);
    crate::seqs::lemma_flat_has(x.pod_cidrs, g, k, r);
    assert(routes_from(nodes[i], local) == routes_to(x));
    crate::seqs::lemma_flat_has(nodes, f, i, r);
}

/// There is no other route: none to a network of the node itself, none to one of the other family
/// than its gateway's.
pub proof fn lemma_no_other_route(nodes: Seq<NodeObject>, local: Seq<char>, r: Route) -> (p: (
    int,
    int,
))
    requires
        crate::seqs::flat(nodes, |n: NodeObject| routes_from(n, local)).contains(r),
    ensures
        0 <= p.0 < nodes.len(),
        nodes[p.0].metadata.name is Some,
        nodes[p.0].metadata.name->0@ != local,
        address_of(nodes[p.0]) is Some,
        0 <= p.1 < pod_nets(nodes[p.0]).len(),
        pod_nets(nodes[p.0])[p.1].addr is V4 == address_of(nodes[p.0])->0 is V4,
        r.dst == pod_nets(nodes[p.0])[p.1],
        r.gateway == Some(address_of(nodes[p.0])->0),
        r.table == 254,
{
    let i = crate::seqs::lemma_flat_from(nodes, |n: NodeObject| routes_from(n, local), r);
    let x = route_of(nodes[i])->0;
    let g = |c: IpNet|
        if crate::common::ipfamily::family_of(c.addr) == crate::common::ipfamily::family_of(x.ip) {
            seq![
                Route {
                    dst: c,
                    gateway: Some(x.ip),
                    table: crate::netlink::system::MAIN_TABLE,
                },
            ]
        } else {
            Seq::empty()
        };
    let k = crate::seqs::lemma_flat_from(x.pod_cidrs, g, r);
    (i, k)
}

/// The node of a name is the first that has it, and there is one exactly where some node has it.
pub proof fn lemma_named_is_first(nodes: Seq<NodeObject>, name: Seq<char>)
    ensures
        named(nodes, name) matches Some(n) ==> exists|i: int|
            0 <= i < nodes.len() && #[trigger] nodes[i] == n && is_called(nodes[i], name)
                && forall|j: int| 0 <= j < i ==> !is_called(#[trigger] nodes[j], name),
        named(nodes, name) is None ==> forall|i: int|
            0 <= i < nodes.len() ==> !is_called(#[trigger] nodes[i], name),
    decreases nodes.len(),
{
    if nodes.len() > 0 {
        let front = nodes.drop_last();
        let last = nodes.len() - 1;
        lemma_named_is_first(front, name);
        assert forall|k: int| 0 <= k < front.len() implies #[trigger] front[k] == nodes[k] by {}
        if named(front, name) is Some {
            let n = named(front, name)->0;
            let i = choose|i: int|
                0 <= i < front.len() && #[trigger] front[i] == n && is_called(front[i], name)
                    && forall|j: int| 0 <= j < i ==> !is_called(#[trigger] front[j], name);
            assert forall|j: int| 0 <= j < i implies !is_called(#[trigger] nodes[j], name) by {
                assert(front[j] == nodes[j]);
            }
            assert(nodes[i] == n);
        } else {
            assert forall|j: int| 0 <= j < last implies !is_called(#[trigger] nodes[j], name) by {
                assert(front[j] == nodes[j]);
            }
            assert(nodes[last] == nodes.last());
        }
    }
}

/// Whether a node has the name.
pub open spec fn is_called(node: NodeObject, name: Seq<char>) -> bool {
    node.metadata.name is Some && node.metadata.name->0@ == name
}

/// Graceful restart is asked for exactly where the configuration says so, with its times in whole
/// seconds; of a list of ports those that fit 16 bits are kept, in order.
pub proof fn lemma_restart_and_ports(
    config: crate::config::KubeRouterConfig,
    a: Seq<u32>,
    b: Seq<u32>,
    p: u32,
)
    ensures
        restart_of(config) is Some <==> config.bgp_graceful_restart,
        restart_of(config) matches Some(g) ==> g.restart_time_secs
            == config.bgp_graceful_restart_time.secs % 0x1_0000_0000 && g.deferral_time_secs
            == config.bgp_graceful_restart_deferral_time.secs % 0x1_0000_0000,
        valid_ports(Seq::empty()).len() == 0,
        p <= 65535 ==> valid_ports(seq![p]) == seq![p as u16],
        p > 65535 ==> valid_ports(seq![p]).len() == 0,
        valid_ports(a + b) == valid_ports(a) + valid_ports(b),
{
    let f = |p: u32|
        if p <= 65535 {
            seq![p as u16]
        } else {
            Seq::empty()
        };
    crate::seqs::lemma_flat_parts(a, b, p, f);
}

/// Entries are shown one by one, with all their fields.
pub proof fn lemma_entries_are_shown(v: Seq<NodeBgp>, r: Seq<NodeRoute>, i: int)
    ensures
        crate::routing_wire::bgp_views(v).len() == v.len(),
        0 <= i < v.len() ==> {
            let x = crate::routing_wire::bgp_views(v)[i];
            x.name == v[i].name@ && x.ip == v[i].ip && x.asn == v[i].asn && x.rr_server
                == v[i].rr_server && x.rr_client == v[i].rr_client
        },
        crate::routing_wire::route_views(r).len() == r.len(),
        0 <= i < r.len() ==> {
            let x = crate::routing_wire::route_views(r)[i];
            x.name == r[i].name@ && x.ip == r[i].ip && x.pod_cidrs == r[i].pod_cidrs@
        },
{
}

/// The kinds of addresses by their names, their ranks, and the address of administration.
pub proof fn lemma_kinds_and_ranks(type_: Seq<char>, config: crate::config::KubeRouterConfig)
    ensures
        crate::routing_wire::kind_of(type_) == NodeAddressType::Internal <==> type_
            == "InternalIP"@,
        crate::routing_wire::kind_of(type_) == NodeAddressType::External <==> type_
            == "ExternalIP"@,
        crate::kube_client::rank_of(NodeAddressType::Internal) == 0,
        crate::kube_client::rank_of(NodeAddressType::External) == 1,
        crate::kube_client::rank_of(NodeAddressType::Other) == 2,
        config.gobgp_admin_address@.len() == 0 ==> crate::routing_wire::admin_address(config)
            == "127.0.0.1"@,
        config.gobgp_admin_address@.len() > 0 ==> crate::routing_wire::admin_address(config)
            == config.gobgp_admin_address@,
{
    reveal_strlit("InternalIP");
    reveal_strlit("ExternalIP");
    assert("InternalIP"@[0] != "ExternalIP"@[0]);
}

/// The addresses that a node reports are taken over one by one, by kind and text.
pub proof fn lemma_reported_addresses(v: Seq<NodeAddress>, node: NodeObject, i: int)
    requires
        crate::routing_wire::are_addresses_of(v, node),
    ensures
        v.len() == elements(node.addresses).len(),
        0 <= i < v.len() ==> v[i].address@ == elements(node.addresses)[i].address@ && v[i].kind
            == crate::routing_wire::kind_of(elements(node.addresses)[i].type_@),
{
    assert(crate::objects::list_or_empty(node.addresses) == elements(node.addresses));
}

/// Of a list of texts the networks come out that they spell, blanks around them not counted, in
/// their order.
pub proof fn lemma_trimmed_networks_add_up(
    a: Seq<Seq<char>>,
    b: Seq<Seq<char>>,
    t: Seq<char>,
)
    ensures
        crate::kube_client::nets_of(Seq::empty()).len() == 0,
        crate::net::net_of(crate::text::trimmed(t)) matches Some(n) ==> crate::kube_client::nets_of(
            seq![t],
        ) == seq![n],
        crate::net::net_of(crate::text::trimmed(t)) is None ==> crate::kube_client::nets_of(
            seq![t],
        ).len() == 0,
        crate::kube_client::nets_of(a + b) == crate::kube_client::nets_of(a)
            + crate::kube_client::nets_of(b),
{
    let f = |c: Seq<char>|
        match crate::net::net_of(crate::text::trimmed(c)) {
            Some(n) => seq![n],
            None => Seq::empty(),
        };
    crate::seqs::lemma_flat_parts(a, b, t, f);
}

} // verus!
