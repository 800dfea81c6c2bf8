//! Laws of what the service proxy is told of services and endpoints, stated on the fields of the
//! objects.

use vstd::prelude::*;

use crate::ip::IpAddr;
use crate::object_laws::{elements, gives, has_key};
use crate::objects::{Endpoint, EndpointPort, EndpointSlice, Service, ServicePort};
use crate::proxy::model::{EndpointInfo, Protocol, Scheduler, ServiceInfo};
use crate::proxy_wire::{
    all_endpoints, entries_of, first_fit, mapped_services, mapped_views, port_entry, port_fits,
    service_entries, slice_endpoints, slice_port, Mapped,
};

verus! {

/// Whether a slice is one of the service: of its namespace, and labelled with its name.
pub open spec fn slice_of(s: EndpointSlice, namespace: Seq<char>, name: Seq<char>) -> bool {
    s.metadata.namespace matches Some(n) && n@ == namespace && gives(
        s.metadata.labels,
        "kubernetes.io/service-name"@,
        name,
    )
}

/// Whether a port of a slice is the one asked for: any where no name is given, otherwise the one
/// of that name.
pub open spec fn is_asked(p: EndpointPort, port_name: Seq<char>) -> bool {
    port_name.len() == 0 || (p.name matches Some(n) && n@ == port_name)
}

/// Whether the slice serves the port of that name on that number: the first port that is the
/// one asked for has the number.
pub open spec fn serves_on(s: EndpointSlice, port_name: Seq<char>, port: u16) -> bool {
    exists|q: int|
        0 <= q < elements(s.ports).len() && is_asked(#[trigger] elements(s.ports)[q], port_name)
            && elements(s.ports)[q].port == Some(port as i32) && forall|r: int|
            0 <= r < q ==> !is_asked(#[trigger] elements(s.ports)[r], port_name)
}

/// What is told of an endpoint at one address: local where its node is this one, ready unless it
/// is known not to be.
pub open spec fn told(ep: Endpoint, ip: IpAddr, port: u16, local_node: Seq<char>) -> EndpointInfo {
    EndpointInfo {
        ip,
        port,
        is_local: ep.node_name matches Some(n) && n@ == local_node,
        ready: ep.ready != Some(false),
    }
}

proof fn lemma_first(ports: Seq<EndpointPort>, port_name: Seq<char>)
    ensures
        first_fit(ports, port_name) matches Some(p) ==> exists|q: int|
            0 <= q < ports.len() && is_asked(#[trigger] ports[q], port_name) && ports[q] == p
                && forall|r: int| 0 <= r < q ==> !is_asked(#[trigger] ports[r], port_name),
        first_fit(ports, port_name) is None ==> forall|q: int|
            0 <= q < ports.len() ==> !is_asked(#[trigger] ports[q], port_name),
    decreases ports.len(),
{
    if ports.len() > 0 {
        assert(port_fits(ports[0], port_name) == is_asked(ports[0], port_name));
        if is_asked(ports[0], port_name) {
            assert(first_fit(ports, port_name) == Some(ports[0]));
        } else {
            let rest = ports.skip(1);
            lemma_first(rest, port_name);
            assert forall|k: int| 0 <= k < rest.len() implies #[trigger] rest[k]
                == ports[k + 1] by {}
            if first_fit(rest, port_name) is Some {
                let p = first_fit(rest, port_name)->0;
                let q = choose|q: int|
                    0 <= q < rest.len() && is_asked(#[trigger] rest[q], port_name) && rest[q] == p
                        && forall|r: int| 0 <= r < q ==> !is_asked(#[trigger] rest[r], port_name);
                assert forall|r: int| 0 <= r < q + 1 implies !is_asked(
                    #[trigger] ports[r],
                    port_name,
                ) by {
                    if r > 0 {
                        assert(rest[r - 1] == ports[r]);
                    }
                }
                assert(is_asked(ports[q + 1], port_name) && ports[q + 1] == p);
            } else {
                assert forall|q: int| 0 <= q < ports.len() implies !is_asked(
                    #[trigger] ports[q],
                    port_name,
                ) by {
                    if q > 0 {
                        assert(rest[q - 1] == ports[q]);
                    }
                }
            }
        }
    }
}

proof fn lemma_port(s: EndpointSlice, port_name: Seq<char>, port: u16)
    ensures
        slice_port(crate::objects::list_or_empty(s.ports), port_name) == Some(port)
            <==> serves_on(s, port_name, port),
{
    let ports = crate::objects::list_or_empty(s.ports);
    assert(ports == elements(s.ports));
    lemma_first(ports, port_name);
    if serves_on(s, port_name, port) {
        let q = choose|q: int|
            0 <= q < ports.len() && is_asked(#[trigger] ports[q], port_name) && ports[q].port
                == Some(port as i32) && forall|r: int|
                0 <= r < q ==> !is_asked(#[trigger] ports[r], port_name);
        let p = first_fit(ports, port_name)->0;
        let w = choose|w: int|
            0 <= w < ports.len() && is_asked(#[trigger] ports[w], port_name) && ports[w] == p
                && forall|r: int| 0 <= r < w ==> !is_asked(#[trigger] ports[r], port_name);
        assert(w == q);
    }
}

/// Every endpoint of every slice of the service is told, at every address that is one, with the
/// port of the slice, its locality and its readiness.
pub proof fn lemma_every_endpoint_is_told(
    slices: Seq<EndpointSlice>,
    namespace: Seq<char>,
    name: Seq<char>,
    port_name: Seq<char>,
    local_node: Seq<char>,
    i: int,
    j: int,
    k: int,
    port: u16,
    ip: IpAddr,
)
    requires
        0 <= i < slices.len(),
        slice_of(slices[i], namespace, name),
        serves_on(slices[i], port_name, port),
        0 <= j < elements(slices[i].endpoints).len(),
        0 <= k < elements(slices[i].endpoints)[j].addresses@.len(),
        crate::ip::ip_of(elements(slices[i].endpoints)[j].addresses@[k]@) == Some(ip),
    ensures
        all_endpoints(slices, namespace, name, port_name, local_node).contains(
            told(elements(slices[i].endpoints)[j], ip, port, local_node),
        ),
{
    let s = slices[i];
    lemma_port(s, port_name, port);
    let eps = crate::objects::list_or_empty(s.endpoints);
    assert(eps == elements(s.endpoints));
    let ep = eps[j];
    let e = told(ep, ip, port, local_node);
    let texts = crate::text::texts(ep.addresses@);
    crate::object_laws::lemma_addresses_spelled(texts, ip);
    assert(crate::ip::ip_of(texts[k]) == Some(ip));
    let ips = crate::objects::ips_of(texts);
    let x = choose|x: int| 0 <= x < ips.len() && ips[x] == ip;
    let f = |s: EndpointSlice| slice_endpoints(s, namespace, name, port_name, local_node);
    let g = |ep: Endpoint| entries_of(ep, port, local_node);
    assert(entries_of(ep, port, local_node)[x] == e);
    crate::seqs::lemma_flat_has(eps, g, j, e);
    crate::seqs::lemma_flat_has(slices, f, i, e);
}

/// Nothing else is told: what is told is an address of an endpoint of a slice of the service,
/// with the port of that slice, its locality and its readiness.
pub proof fn lemma_only_endpoints_are_told(
    slices: Seq<EndpointSlice>,
    namespace: Seq<char>,
    name: Seq<char>,
    port_name: Seq<char>,
    local_node: Seq<char>,
    e: EndpointInfo,
) -> (r: (int, int, int))
    requires
        all_endpoints(slices, namespace, name, port_name, local_node).contains(e),
    ensures
        0 <= r.0 < slices.len(),
        slice_of(slices[r.0], namespace, name),
        serves_on(slices[r.0], port_name, e.port),
        0 <= r.1 < elements(slices[r.0].endpoints).len(),
        0 <= r.2 < elements(slices[r.0].endpoints)[r.1].addresses@.len(),
        crate::ip::ip_of(elements(slices[r.0].endpoints)[r.1].addresses@[r.2]@) == Some(e.ip),
        e == told(elements(slices[r.0].endpoints)[r.1], e.ip, e.port, local_node),
{
    let f = |s: EndpointSlice| slice_endpoints(s, namespace, name, port_name, local_node);
    let i = crate::seqs::lemma_flat_from(slices, f, e);
    let s = slices[i];
    let ports = crate::objects::list_or_empty(s.ports);
    let eps = crate::objects::list_or_empty(s.endpoints);
    assert(eps == elements(s.endpoints));
    let port = slice_port(ports, port_name)->0;
    let g = |ep: Endpoint| entries_of(ep, port, local_node);
    let j = crate::seqs::lemma_flat_from(eps, g, e);
    let ep = eps[j];
    let texts = crate::text::texts(ep.addresses@);
    let ips = crate::objects::ips_of(texts);
    let es = entries_of(ep, port, local_node);
    let x = choose|x: int| 0 <= x < es.len() && es[x] == e;
    assert(e == told(ep, ips[x], port, local_node));
    lemma_port(s, port_name, port);
    crate::object_laws::lemma_addresses_spelled(texts, ips[x]);
    assert(ips.contains(ips[x]));
    let k = choose|k: int|
        0 <= k < texts.len() && crate::ip::ip_of(#[trigger] texts[k]) == Some(ips[x]);
    (i, j, k)
}

/// What is told keeps the order of slices and of their endpoints, each once: for two lists of
/// slices one after the other it is what is told for the first, then for the second; and the same
/// holds of the endpoints of a slice.
pub proof fn lemma_told_in_order(
    a: Seq<EndpointSlice>,
    b: Seq<EndpointSlice>,
    namespace: Seq<char>,
    name: Seq<char>,
    port_name: Seq<char>,
    local_node: Seq<char>,
    first: EndpointSlice,
    second: EndpointSlice,
    both: EndpointSlice,
)
    requires
        first.metadata == both.metadata,
        second.metadata == both.metadata,
        first.ports == both.ports,
        second.ports == both.ports,
        elements(both.endpoints) == elements(first.endpoints) + elements(second.endpoints),
    ensures
        all_endpoints(Seq::empty(), namespace, name, port_name, local_node).len() == 0,
        all_endpoints(a + b, namespace, name, port_name, local_node) == all_endpoints(
            a,
            namespace,
            name,
            port_name,
            local_node,
        ) + all_endpoints(b, namespace, name, port_name, local_node),
        all_endpoints(seq![both], namespace, name, port_name, local_node) == all_endpoints(
            seq![first],
            namespace,
            name,
            port_name,
            local_node,
        ) + all_endpoints(seq![second], namespace, name, port_name, local_node),
{
    let f = |s: EndpointSlice| slice_endpoints(s, namespace, name, port_name, local_node);
    crate::seqs::lemma_flat_parts(a, b, first, f);
    crate::seqs::lemma_flat_parts(a, b, second, f);
    crate::seqs::lemma_flat_parts(a, b, both, f);
    assert(crate::objects::list_or_empty(both.endpoints) == elements(both.endpoints));
    assert(crate::objects::list_or_empty(first.endpoints) == elements(first.endpoints));
    assert(crate::objects::list_or_empty(second.endpoints) == elements(second.endpoints));
    let ports = crate::objects::list_or_empty(both.ports);
    if slice_port(ports, port_name) is Some {
        let port = slice_port(ports, port_name)->0;
        let g = |ep: Endpoint| entries_of(ep, port, local_node);
        let ep: Endpoint = arbitrary();
        crate::seqs::lemma_flat_parts(
            elements(first.endpoints),
            elements(second.endpoints),
            ep,
            g,
        );
    }
    assert(f(both) =~= f(first) + f(second));
}

/// A slice with one endpoint: one entry per address that is one, in the order of the addresses.
pub proof fn lemma_one_endpoint_is_told(
    s: EndpointSlice,
    namespace: Seq<char>,
    name: Seq<char>,
    port_name: Seq<char>,
    local_node: Seq<char>,
    port: u16,
)
    requires
        slice_of(s, namespace, name),
        serves_on(s, port_name, port),
        elements(s.endpoints).len() == 1,
    ensures
        ({
            let ep = elements(s.endpoints)[0];
            let ips = crate::objects::ips_of(crate::text::texts(ep.addresses@));
            let got = all_endpoints(seq![s], namespace, name, port_name, local_node);
            &&& got.len() == ips.len()
            &&& forall|x: int|
                0 <= x < ips.len() ==> #[trigger] got[x] == told(ep, ips[x], port, local_node)
        }),
{
    let f = |s: EndpointSlice| slice_endpoints(s, namespace, name, port_name, local_node);
    crate::seqs::lemma_flat_parts(Seq::empty(), Seq::empty(), s, f);
    lemma_port(s, port_name, port);
    let ep = elements(s.endpoints)[0];
    assert(crate::objects::list_or_empty(s.endpoints) =~= seq![ep]);
    let g = |ep: Endpoint| entries_of(ep, port, local_node);
    crate::seqs::lemma_flat_parts(Seq::empty(), Seq::empty(), ep, g);
}

/// Whether the proxy is told of a service: it has a namespace and a name and says what it asks
/// for, is no alias of an outside name, and has an address in the cluster.
pub open spec fn is_served(svc: Service) -> bool {
    &&& svc.metadata.namespace is Some
    &&& svc.metadata.name is Some
    &&& svc.spec is Some
    &&& !(svc.spec->0.type_ matches Some(t) && t@ == "ExternalName"@)
    &&& exists|ip: IpAddr| svc.spec->0.cluster_addresses().contains(ip)
}

proof fn lemma_served(svc: Service)
    ensures
        crate::proxy_wire::served(svc) <==> is_served(svc),
{
    if svc.spec is Some {
        let all = svc.spec->0.cluster_addresses();
        if all.len() > 0 {
            assert(all.contains(all[0]));
        }
    }
}

/// Services are told in their order, and so are the ports of a service, each once; nothing is
/// told of a service that is not served.
pub proof fn lemma_services_add_up(
    a: Seq<Service>,
    b: Seq<Service>,
    svc: Service,
    slices: Seq<EndpointSlice>,
    local_node: Seq<char>,
)
    ensures
        mapped_services(Seq::empty(), slices, local_node).len() == 0,
        mapped_services(a + b, slices, local_node) == mapped_services(a, slices, local_node)
            + mapped_services(b, slices, local_node),
        !is_served(svc) ==> mapped_services(seq![svc], slices, local_node).len() == 0,
{
    lemma_served(svc);
    let f = |svc: Service| service_entries(svc, slices, local_node);
    crate::seqs::lemma_flat_parts(a, b, svc, f);
}

/// A port of a service has an entry of its own exactly where its number is one of a port: the
/// entries of a service whose ports are two lists one after the other are those of the service
/// with the first list, then those of the service with the second.
pub proof fn lemma_ports_add_up(
    first: Service,
    second: Service,
    both: Service,
    slices: Seq<EndpointSlice>,
    local_node: Seq<char>,
)
    requires
        is_served(both),
        first.metadata == both.metadata,
        second.metadata == both.metadata,
        first.ingress == both.ingress,
        second.ingress == both.ingress,
        first.spec is Some,
        second.spec is Some,
        first.spec->0 == (crate::objects::ServiceSpec {
            ports: first.spec->0.ports,
            ..both.spec->0
        }),
        second.spec->0 == (crate::objects::ServiceSpec {
            ports: second.spec->0.ports,
            ..both.spec->0
        }),
        elements(both.spec->0.ports) == elements(first.spec->0.ports) + elements(
            second.spec->0.ports,
        ),
    ensures
        mapped_services(seq![both], slices, local_node) == mapped_services(
            seq![first],
            slices,
            local_node,
        ) + mapped_services(seq![second], slices, local_node),
        elements(first.spec->0.ports).len() == 0 ==> mapped_services(
            seq![first],
            slices,
            local_node,
        ).len() == 0,
        elements(first.spec->0.ports).len() == 1 && !(0 <= elements(first.spec->0.ports)[0].port
            <= 65535) ==> mapped_services(seq![first], slices, local_node).len() == 0,
        elements(first.spec->0.ports).len() == 1 && 0 <= elements(first.spec->0.ports)[0].port
            <= 65535 ==> mapped_services(seq![first], slices, local_node).len() == 1,
{
    let f = |svc: Service| service_entries(svc, slices, local_node);
    crate::seqs::lemma_flat_parts(Seq::empty(), Seq::empty(), first, f);
    crate::seqs::lemma_flat_parts(Seq::empty(), Seq::empty(), second, f);
    crate::seqs::lemma_flat_parts(Seq::empty(), Seq::empty(), both, f);
    let ns = both.metadata.namespace->0@;
    let name = both.metadata.name->0@;
    assert(first.spec->0.cluster_addresses() == both.spec->0.cluster_addresses());
    assert(second.spec->0.cluster_addresses() == both.spec->0.cluster_addresses());
    lemma_served(both);
    lemma_served(first);
    lemma_served(second);
    let x = elements(first.spec->0.ports);
    let y = elements(second.spec->0.ports);
    assert(crate::objects::list_or_empty(first.spec->0.ports) == x);
    assert(crate::objects::list_or_empty(second.spec->0.ports) == y);
    assert(crate::objects::list_or_empty(both.spec->0.ports) == x + y);
    let gb = |sp: ServicePort| port_entry(both, both.spec->0, ns, name, sp, slices, local_node);
    let gf = |sp: ServicePort| port_entry(first, first.spec->0, ns, name, sp, slices, local_node);
    let gs = |sp: ServicePort|
        port_entry(second, second.spec->0, ns, name, sp, slices, local_node);
    let sp: ServicePort = arbitrary();
    crate::seqs::lemma_flat_parts(x, y, sp, gb);
    assert forall|i: int| 0 <= i < x.len() implies gb(#[trigger] x[i]) == gf(x[i]) by {
        lemma_same_entry(both, first, ns, name, x[i], slices, local_node);
    }
    assert forall|i: int| 0 <= i < y.len() implies gb(#[trigger] y[i]) == gs(y[i]) by {
        lemma_same_entry(both, second, ns, name, y[i], slices, local_node);
    }
    crate::seqs::lemma_flat_same(x, gb, gf);
    crate::seqs::lemma_flat_same(y, gb, gs);
    assert(service_entries(both, slices, local_node) == crate::seqs::flat(x + y, gb));
    assert(service_entries(first, slices, local_node) == crate::seqs::flat(x, gf));
    assert(service_entries(second, slices, local_node) == crate::seqs::flat(y, gs));
    if x.len() == 0 {
        assert(x =~= Seq::empty());
        crate::seqs::lemma_flat_parts(x, y, sp, gf);
    }
    if x.len() == 1 {
        assert(x =~= seq![x[0]]);
        crate::seqs::lemma_flat_parts(x, y, x[0], gf);
    }
}

proof fn lemma_same_entry(
    a: Service,
    b: Service,
    ns: Seq<char>,
    name: Seq<char>,
    sp: ServicePort,
    slices: Seq<EndpointSlice>,
    local_node: Seq<char>,
)
    requires
        a.metadata == b.metadata,
        a.ingress == b.ingress,
        a.spec is Some,
        b.spec is Some,
        b.spec->0 == (crate::objects::ServiceSpec { ports: b.spec->0.ports, ..a.spec->0 }),
    ensures
        port_entry(a, a.spec->0, ns, name, sp, slices, local_node) == port_entry(
            b,
            b.spec->0,
            ns,
            name,
            sp,
            slices,
            local_node,
        ),
{
    assert(a.spec->0.cluster_addresses() == b.spec->0.cluster_addresses());
}

/// A number that may be missing, as one of a port.
pub open spec fn port_or_none(n: Option<i32>) -> Option<u16> {
    if n is Some && 0 <= n->0 <= 65535 {
        Some(n->0 as u16)
    } else {
        None
    }
}

/// What is told of a served service with one port, field by field.
pub proof fn lemma_one_port_is_told(
    svc: Service,
    slices: Seq<EndpointSlice>,
    local_node: Seq<char>,
    made: Seq<(ServiceInfo, Vec<EndpointInfo>)>,
)
    requires
        mapped_views(made) == mapped_services(seq![svc], slices, local_node),
        is_served(svc),
        elements(svc.spec->0.ports).len() == 1,
        0 <= elements(svc.spec->0.ports)[0].port <= 65535,
    ensures
        ({
            let spec = svc.spec->0;
            let sp = elements(spec.ports)[0];
            let notes = svc.metadata.annotations;
            let info = made[0].0;
            &&& made.len() == 1
            &&& info.namespace@ == svc.metadata.namespace->0@
            &&& info.name@ == svc.metadata.name->0@
            &&& sp.name matches Some(n) ==> info.port_name@ == n@
            &&& sp.name is None ==> info.port_name@.len() == 0
            &&& info.port == sp.port
            &&& info.node_port == port_or_none(sp.node_port)
            &&& info.health_check_node_port == port_or_none(spec.health_check_node_port)
            &&& info.cluster_ips@ == spec.cluster_addresses()
            &&& info.external_ips@ == crate::objects::ips_of(
                crate::text::texts(elements(spec.external_ips)),
            )
            &&& info.load_balancer_ips@ == crate::objects::ingress_ips(elements(svc.ingress))
            &&& (info.protocol == Protocol::Udp) == (sp.protocol matches Some(p) && (p@
                == "UDP"@ || p@ == "udp"@))
            &&& (info.protocol == Protocol::Sctp) == (sp.protocol matches Some(p) && (p@
                == "SCTP"@ || p@ == "sctp"@))
            &&& info.session_affinity == (spec.session_affinity matches Some(a) && a@
                == "ClientIP"@)
            &&& !info.session_affinity ==> info.affinity_timeout == 0
            &&& info.session_affinity && spec.affinity_timeout_seconds is Some
                && spec.affinity_timeout_seconds->0 >= 0 ==> info.affinity_timeout
                == spec.affinity_timeout_seconds->0
            &&& info.session_affinity && !(spec.affinity_timeout_seconds is Some
                && spec.affinity_timeout_seconds->0 >= 0) ==> info.affinity_timeout == 10800
            &&& info.dsr == has_key(notes, "kube-router.io/service.dsr"@)
            &&& info.hairpin == has_key(notes, "kube-router.io/service.hairpin"@)
            &&& info.hairpin_external_ips == has_key(
                notes,
                "kube-router.io/service.hairpin.externalips"@,
            )
            &&& info.internal_traffic_local == (gives(
                notes,
                "kube-router.io/service.local"@,
                "true"@,
            ) || (spec.internal_traffic_policy matches Some(p) && p@ == "Local"@))
            &&& info.external_traffic_local == (gives(
                notes,
                "kube-router.io/service.local"@,
                "true"@,
            ) || (spec.external_traffic_policy matches Some(p) && p@ == "Local"@))
            &&& (info.scheduler == Scheduler::Lc) == gives(
                notes,
                "kube-router.io/service.scheduler"@,
                "lc"@,
            )
            &&& (info.scheduler == Scheduler::Dh) == gives(
                notes,
                "kube-router.io/service.scheduler"@,
                "dh"@,
            )
            &&& (info.scheduler == Scheduler::Sh) == gives(
                notes,
                "kube-router.io/service.scheduler"@,
                "sh"@,
            )
            &&& (info.scheduler == Scheduler::Mh) == gives(
                notes,
                "kube-router.io/service.scheduler"@,
                "mh"@,
            )
            &&& info.sched_flags.flag1 == flagged(svc, "flag-1"@)
            &&& info.sched_flags.flag2 == flagged(svc, "flag-2"@)
            &&& info.sched_flags.flag3 == flagged(svc, "flag-3"@)
            &&& made[0].1@ == all_endpoints(
                slices,
                svc.metadata.namespace->0@,
                svc.metadata.name->0@,
                info.port_name@,
                local_node,
            )
        }),
{
    reveal_strlit("lc");
    reveal_strlit("dh");
    reveal_strlit("sh");
    reveal_strlit("mh");
    reveal_strlit("UDP");
    reveal_strlit("udp");
    reveal_strlit("SCTP");
    reveal_strlit("sctp");
    assert("lc"@[0] != "dh"@[0] && "lc"@[0] != "sh"@[0] && "lc"@[0] != "mh"@[0]);
    assert("dh"@[0] != "sh"@[0] && "dh"@[0] != "mh"@[0] && "sh"@[0] != "mh"@[0]);
    assert("UDP"@.len() != "SCTP"@.len() && "udp"@.len() != "sctp"@.len());
    assert("UDP"@.len() != "sctp"@.len() && "udp"@.len() != "SCTP"@.len());
    lemma_served(svc);
    let f = |svc: Service| service_entries(svc, slices, local_node);
    crate::seqs::lemma_flat_parts(Seq::empty(), Seq::empty(), svc, f);
    let spec = svc.spec->0;
    let ns = svc.metadata.namespace->0@;
    let name = svc.metadata.name->0@;
    let sp = elements(spec.ports)[0];
    let g = |sp: ServicePort| port_entry(svc, spec, ns, name, sp, slices, local_node);
    assert(crate::objects::list_or_empty(spec.ports) =~= seq![sp]);
    crate::seqs::lemma_flat_parts(Seq::empty(), Seq::empty(), sp, g);
    assert(service_entries(svc, slices, local_node) == g(sp));
    assert(mapped_views(made).len() == made.len());
    assert(mapped_views(made)[0] == (Mapped { info: made[0].0@, endpoints: made[0].1@ }));
    assert(crate::objects::list_or_empty(spec.external_ips) == elements(spec.external_ips));
    assert(crate::objects::list_or_empty(svc.ingress) == elements(svc.ingress));
}

/// Whether the annotation for scheduler flags lists the flag, and the scheduler is the one that
/// has flags. Flags are separated by commas; blanks around them do not count.
pub open spec fn flagged(svc: Service, flag: Seq<char>) -> bool {
    &&& gives(svc.metadata.annotations, "kube-router.io/service.scheduler"@, "mh"@)
    &&& exists|list: Seq<char>, i: int|
        gives(svc.metadata.annotations, "kube-router.io/service.schedflags"@, list) && 0 <= i
            < crate::text::split(list, ',').len() && crate::text::trimmed(
            #[trigger] crate::text::split(list, ',')[i],
        ) == flag
}

/// Entries are shown one by one, with all their fields.
pub proof fn lemma_entries_are_shown(v: Seq<(ServiceInfo, Vec<EndpointInfo>)>, i: int)
    requires
        0 <= i < v.len(),
    ensures
        ({
            let x = mapped_views(v)[i];
            let s = v[i].0;
            &&& mapped_views(v).len() == v.len()
            &&& x.endpoints == v[i].1@
            &&& x.info.namespace == s.namespace@
            &&& x.info.name == s.name@
            &&& x.info.port_name == s.port_name@
            &&& x.info.protocol == s.protocol
            &&& x.info.port == s.port
            &&& x.info.node_port == s.node_port
            &&& x.info.cluster_ips == s.cluster_ips@
            &&& x.info.external_ips == s.external_ips@
            &&& x.info.load_balancer_ips == s.load_balancer_ips@
            &&& x.info.scheduler == s.scheduler
            &&& x.info.sched_flags == s.sched_flags
            &&& x.info.session_affinity == s.session_affinity
            &&& x.info.affinity_timeout == s.affinity_timeout
            &&& x.info.dsr == s.dsr
            &&& x.info.internal_traffic_local == s.internal_traffic_local
            &&& x.info.external_traffic_local == s.external_traffic_local
            &&& x.info.hairpin == s.hairpin
            &&& x.info.hairpin_external_ips == s.hairpin_external_ips
            &&& x.info.health_check_node_port == s.health_check_node_port
        }),
{
}

/// Every port of every served service whose number is one of a port has an entry of its own among
/// all entries, under its names and number; and the entry has every endpoint of every slice of
/// the service, at every address that is one, with the port of the slice.
pub proof fn lemma_every_endpoint_reaches_its_port(
    services: Seq<Service>,
    slices: Seq<EndpointSlice>,
    local_node: Seq<char>,
    made: Seq<(ServiceInfo, Vec<EndpointInfo>)>,
    v: int,
    q: int,
    i: int,
    j: int,
    k: int,
    port: u16,
    ip: IpAddr,
) -> (m: int)
    requires
        mapped_views(made) == mapped_services(services, slices, local_node),
        0 <= v < services.len(),
        is_served(services[v]),
        0 <= q < elements(services[v].spec->0.ports).len(),
        0 <= elements(services[v].spec->0.ports)[q].port <= 65535,
        0 <= i < slices.len(),
        slice_of(
            slices[i],
            services[v].metadata.namespace->0@,
            services[v].metadata.name->0@,
        ),
        serves_on(
            slices[i],
            crate::objects::text_or_empty(elements(services[v].spec->0.ports)[q].name),
            port,
        ),
        0 <= j < elements(slices[i].endpoints).len(),
        0 <= k < elements(slices[i].endpoints)[j].addresses@.len(),
        crate::ip::ip_of(elements(slices[i].endpoints)[j].addresses@[k]@) == Some(ip),
    ensures
        0 <= m < made.len(),
        made[m].0.namespace@ == services[v].metadata.namespace->0@,
        made[m].0.name@ == services[v].metadata.name->0@,
        made[m].0.port == elements(services[v].spec->0.ports)[q].port,
        elements(services[v].spec->0.ports)[q].name is Some ==> made[m].0.port_name@ == elements(
            services[v].spec->0.ports,
        )[q].name->0@,
        elements(services[v].spec->0.ports)[q].name is None ==> made[m].0.port_name@.len() == 0,
        made[m].1@.contains(told(elements(slices[i].endpoints)[j], ip, port, local_node)),
{
    let svc = services[v];
    let spec = svc.spec->0;
    let ns = svc.metadata.namespace->0@;
    let name = svc.metadata.name->0@;
    let sp = elements(spec.ports)[q];
    let port_name = crate::objects::text_or_empty(sp.name);
    lemma_served(svc);
    lemma_every_endpoint_is_told(
        slices,
        ns,
        name,
        port_name,
        local_node,
        i,
        j,
        k,
        port,
        ip,
    );
    let f = |svc: Service| service_entries(svc, slices, local_node);
    let g = |sp: ServicePort| port_entry(svc, spec, ns, name, sp, slices, local_node);
    let x = port_entry(svc, spec, ns, name, sp, slices, local_node)[0];
    assert(crate::objects::list_or_empty(spec.ports) == elements(spec.ports));
    assert(g(sp)[0] == x);
    crate::seqs::lemma_flat_has(elements(spec.ports), g, q, x);
    assert(f(svc).contains(x));
    crate::seqs::lemma_flat_has(services, f, v, x);
    let all = mapped_services(services, slices, local_node);
    let m = choose|m: int| 0 <= m < all.len() && all[m] == x;
    assert(mapped_views(made).len() == made.len());
    assert(mapped_views(made)[m] == (Mapped { info: made[m].0@, endpoints: made[m].1@ }));
    m
}

} // verus!
