//! From services and endpoint slices of the cluster to the addresses that are advertised.

use vstd::prelude::*;

use crate::ip::IpAddr;
use crate::labels::Labels;
use crate::objects::{
    find_value, is_text, parse_ingress, parse_ips_opt, value_is, Endpoint, EndpointSlice, Service,
    ServiceSpec,
};
use crate::text::same;

verus! {

/// Overrides whether addresses in the cluster are advertised.
pub const ADV_CLUSTER_ANN: &'static str = "kube-router.io/service.advertise.clusterip";

/// Overrides whether external addresses are advertised.
pub const ADV_EXTERNAL_ANN: &'static str = "kube-router.io/service.advertise.externalip";

/// Overrides whether addresses of load balancers are advertised.
pub const ADV_LB_ANN: &'static str = "kube-router.io/service.advertise.loadbalancer";

/// Keeps addresses of load balancers out.
pub const SKIP_LB_ANN: &'static str = "kube-router.io/service.skiplbips";

/// Keeps traffic on the node.
pub const LOCAL_ANN: &'static str = "kube-router.io/service.local";

/// What decides which addresses of a service a node advertises.
#[derive(Debug, Clone)]
pub struct SvcVip {
    /// Addresses in the cluster.
    pub cluster_ips: Vec<IpAddr>,
    /// External addresses.
    pub external_ips: Vec<IpAddr>,
    /// Addresses of load balancers.
    pub lb_ips: Vec<IpAddr>,
    /// Whether traffic from the cluster stays on the node.
    pub internal_traffic_local: bool,
    /// Whether traffic from outside stays on the node.
    pub external_traffic_local: bool,
    /// Whether this node hosts a ready endpoint.
    pub has_local_endpoints: bool,
    /// Whether addresses in the cluster are advertised, where the service says so.
    pub adv_cluster: Option<bool>,
    /// Whether external addresses are advertised, where the service says so.
    pub adv_external: Option<bool>,
    /// Whether addresses of load balancers are advertised, where the service says so.
    pub adv_lb: Option<bool>,
    /// Whether addresses of load balancers are kept out.
    pub skip_lb_ips: bool,
}

/// The same as a value.
#[verifier::ext_equal]
pub struct VipView {
    pub cluster_ips: Seq<IpAddr>,
    pub external_ips: Seq<IpAddr>,
    pub lb_ips: Seq<IpAddr>,
    pub internal_traffic_local: bool,
    pub external_traffic_local: bool,
    pub has_local_endpoints: bool,
    pub adv_cluster: Option<bool>,
    pub adv_external: Option<bool>,
    pub adv_lb: Option<bool>,
    pub skip_lb_ips: bool,
}

impl View for SvcVip {
    type V = VipView;

    open spec fn view(&self) -> VipView {
        VipView {
            cluster_ips: self.cluster_ips@,
            external_ips: self.external_ips@,
            lb_ips: self.lb_ips@,
            internal_traffic_local: self.internal_traffic_local,
            external_traffic_local: self.external_traffic_local,
            has_local_endpoints: self.has_local_endpoints,
            adv_cluster: self.adv_cluster,
            adv_external: self.adv_external,
            adv_lb: self.adv_lb,
            skip_lb_ips: self.skip_lb_ips,
        }
    }
}

/// What an annotation says: nothing where it is absent, else whether it is `true`.
pub open spec fn flag_of(value: Option<Seq<char>>) -> Option<bool> {
    match value {
        Some(v) => Some(v == "true"@),
        None => None,
    }
}

/// What an annotation says.
pub fn ann_bool(anns: &Option<Labels>, key: &str) -> (r: Option<bool>)
    ensures
        r == flag_of(crate::labels::lookup(crate::objects::map_or_empty(*anns), key@)),
        r is None <==> !(anns matches Some(l) && l@.contains_key(key@)),
        r == Some(true) <==> (anns matches Some(l) && l@.contains_key(key@) && l@[key@]
            == "true"@),
{
    match find_value(anns, key) {
        Some(v) => Some(same(v.as_str(), "true")),
        None => None,
    }
}

/// Whether one of the endpoints is on the node and ready.
pub open spec fn any_ready_on(eps: Seq<Endpoint>, node: Seq<char>) -> bool {
    exists|i: int| 0 <= i < eps.len() && (#[trigger] eps[i]).is_on(node) && eps[i].is_ready()
}

/// Whether a slice of the service has an endpoint that is on the node and ready.
pub open spec fn local_endpoints(
    slices: Seq<EndpointSlice>,
    namespace: Seq<char>,
    name: Seq<char>,
    node: Seq<char>,
) -> bool {
    exists|i: int|
        0 <= i < slices.len() && (#[trigger] slices[i]).belongs_to(namespace, name)
            && any_ready_on(crate::objects::list_or_empty(slices[i].endpoints), node)
}

fn any_ready(eps: &[Endpoint], node: &str) -> (r: bool)
    ensures
        r == any_ready_on(eps@, node@),
{
    let mut i: usize = 0;
    while i < eps.len()
        invariant
            i <= eps@.len(),
            forall|k: int|
                0 <= k < i ==> !((#[trigger] eps@[k]).is_on(node@) && eps@[k].is_ready()),
        decreases eps@.len() - i,
    {
        let ready = match eps[i].ready {
            Some(b) => b,
            None => true,
        };
        if is_text(&eps[i].node_name, node) && ready {
            assert(eps@[i as int].is_on(node@) && eps@[i as int].is_ready());
            return true;
        }
        i = i + 1;
    }
    false
}

/// Whether a slice of the service has an endpoint that is on the node and ready.
pub fn has_local_endpoints(
    slices: &[EndpointSlice],
    namespace: &str,
    name: &str,
    local_node: &str,
) -> (r: bool)
    ensures
        r == local_endpoints(slices@, namespace@, name@, local_node@),
{
    let mut i: usize = 0;
    while i < slices.len()
        invariant
            i <= slices@.len(),
            forall|k: int|
                0 <= k < i ==> !((#[trigger] slices@[k]).belongs_to(namespace@, name@)
                    && any_ready_on(
                    crate::objects::list_or_empty(slices@[k].endpoints),
                    local_node@,
                )),
        decreases slices@.len() - i,
    {
        let ready = match &slices[i].endpoints {
            Some(eps) => any_ready(eps, local_node),
            None => false,
        };
        if slices[i].is_of(namespace, name) && ready {
            assert(slices@[i as int].belongs_to(namespace@, name@));
            return true;
        }
        i = i + 1;
    }
    false
}

/// What decides about the addresses of a service.
pub open spec fn vip_of(
    svc: Service,
    spec: ServiceSpec,
    namespace: Seq<char>,
    name: Seq<char>,
    slices: Seq<EndpointSlice>,
    local_node: Seq<char>,
) -> VipView {
    VipView {
        cluster_ips: spec.cluster_addresses(),
        external_ips: crate::objects::ips_of(
            crate::text::texts(crate::objects::list_or_empty(spec.external_ips)),
        ),
        lb_ips: crate::objects::ingress_ips(crate::objects::list_or_empty(svc.ingress)),
        internal_traffic_local: crate::objects::text_of(spec.internal_traffic_policy) == Some(
            "Local"@,
        ),
        external_traffic_local: svc.annotation(LOCAL_ANN@) == Some("true"@)
            || crate::objects::text_of(spec.external_traffic_policy) == Some("Local"@),
        has_local_endpoints: local_endpoints(slices, namespace, name, local_node),
        adv_cluster: flag_of(svc.annotation(ADV_CLUSTER_ANN@)),
        adv_external: flag_of(svc.annotation(ADV_EXTERNAL_ANN@)),
        adv_lb: flag_of(svc.annotation(ADV_LB_ANN@)),
        skip_lb_ips: svc.annotation(SKIP_LB_ANN@) is Some,
    }
}

/// Whether addresses of the service can be advertised at all: it has a name and is no mere alias.
pub open spec fn advertisable(svc: Service) -> bool {
    &&& svc.metadata.namespace is Some
    &&& svc.metadata.name is Some
    &&& svc.spec is Some
    &&& crate::objects::text_of(svc.spec->0.type_) != Some("ExternalName"@)
}

/// What decides about the addresses of a service, where they can be advertised.
pub open spec fn vip_entry(
    svc: Service,
    slices: Seq<EndpointSlice>,
    local_node: Seq<char>,
) -> Seq<VipView> {
    if advertisable(svc) {
        seq![
            vip_of(
                svc,
                svc.spec->0,
                svc.metadata.namespace->0@,
                svc.metadata.name->0@,
                slices,
                local_node,
            ),
        ]
    } else {
        Seq::empty()
    }
}

/// The same for all services, in order.
pub open spec fn mapped_vips(
    services: Seq<Service>,
    slices: Seq<EndpointSlice>,
    local_node: Seq<char>,
) -> Seq<VipView> {
    crate::seqs::flat(services, |svc: Service| vip_entry(svc, slices, local_node))
}

/// Entries as values.
pub open spec fn vip_views(v: Seq<SvcVip>) -> Seq<VipView> {
    v.map_values(|x: SvcVip| x@)
}

fn add_vip(out: &mut Vec<SvcVip>, svc: &Service, slices: &[EndpointSlice], local_node: &str)
    ensures
        vip_views(final(out)@) == vip_views(old(out)@) + vip_entry(*svc, slices@, local_node@),
{
    let ghost start = out@;
    match (&svc.metadata.namespace, &svc.metadata.name, &svc.spec) {
        (Some(namespace), Some(name), Some(spec)) => {
            if !is_text(&spec.type_, "ExternalName") {
                let anns = &svc.metadata.annotations;
                out.push(
                    SvcVip {
                        cluster_ips: spec.parse_cluster_ips(),
                        external_ips: parse_ips_opt(&spec.external_ips),
                        lb_ips: parse_ingress(&svc.ingress),
                        internal_traffic_local: is_text(&spec.internal_traffic_policy, "Local"),
                        external_traffic_local: value_is(anns, LOCAL_ANN, "true") || is_text(
                            &spec.external_traffic_policy,
                            "Local",
                        ),
                        has_local_endpoints: has_local_endpoints(
                            slices,
                            namespace.as_str(),
                            name.as_str(),
                            local_node,
                        ),
                        adv_cluster: ann_bool(anns, ADV_CLUSTER_ANN),
                        adv_external: ann_bool(anns, ADV_EXTERNAL_ANN),
                        adv_lb: ann_bool(anns, ADV_LB_ANN),
                        skip_lb_ips: find_value(anns, SKIP_LB_ANN).is_some(),
                    },
                );
                assert(vip_views(out@) =~= vip_views(start).push(out@.last()@));
            }
        },
        _ => {},
    }
    assert(vip_views(out@) =~= vip_views(start) + vip_entry(*svc, slices@, local_node@));
}

/// What decides which addresses of the services a node advertises.
pub fn map_svc_vips(
    services: &[Service],
    slices: &[EndpointSlice],
    local_node: &str,
) -> (r: Vec<SvcVip>)
    ensures
        vip_views(r@) == mapped_vips(services@, slices@, local_node@),
{
    let ghost f = |svc: Service| vip_entry(svc, slices@, local_node@);
    let mut out: Vec<SvcVip> = Vec::new();
    let mut i: usize = 0;
    assert(vip_views(out@) =~= crate::seqs::flat(services@.take(0), f));
    while i < services.len()
        invariant
            i <= services@.len(),
            f == (|svc: Service| vip_entry(svc, slices@, local_node@)),
            vip_views(out@) == crate::seqs::flat(services@.take(i as int), f),
        decreases services@.len() - i,
    {
        add_vip(&mut out, &services[i], slices, local_node);
        proof {
            crate::seqs::lemma_flat_step(services@, f, i as int);
        }
        i = i + 1;
    }
    assert(services@.take(i as int) =~= services@);
    out
}

/// An endpoint that is not ready, or that another node hosts, does not make the service local: a
/// service is local only where a slice of it has an endpoint that is both on this node and ready.
pub proof fn lemma_local_needs_ready_endpoint(
    slices: Seq<EndpointSlice>,
    namespace: Seq<char>,
    name: Seq<char>,
    node: Seq<char>,
)
    requires
        forall|i: int, j: int|
            0 <= i < slices.len() && 0 <= j < crate::objects::list_or_empty(
                slices[i].endpoints,
            ).len() ==> !(#[trigger] crate::objects::list_or_empty(slices[i].endpoints)[j]).is_on(
                node,
            ) || !crate::objects::list_or_empty(slices[i].endpoints)[j].is_ready(),
    ensures
        !local_endpoints(slices, namespace, name, node),
{
}

/// Advertising and the service proxy see the same addresses of a service, and agree on whether
/// traffic from outside stays on the node.
pub proof fn lemma_agrees_with_proxy(
    svc: Service,
    spec: ServiceSpec,
    namespace: Seq<char>,
    name: Seq<char>,
    slices: Seq<EndpointSlice>,
    local_node: Seq<char>,
    sp: crate::objects::ServicePort,
)
    ensures
        ({
            let v = vip_of(svc, spec, namespace, name, slices, local_node);
            let i = crate::proxy_wire::info_of(svc, spec, namespace, name, sp);
            &&& v.cluster_ips == i.cluster_ips
            &&& v.external_ips == i.external_ips
            &&& v.lb_ips == i.load_balancer_ips
            &&& v.external_traffic_local == i.external_traffic_local
            &&& v.internal_traffic_local ==> i.internal_traffic_local
        }),
{
}

/// Where the service proxy has an endpoint on this node that is ready, the service counts as local
/// for advertising.
pub proof fn lemma_proxied_endpoint_makes_local(
    slices: Seq<EndpointSlice>,
    namespace: Seq<char>,
    name: Seq<char>,
    port_name: Seq<char>,
    local_node: Seq<char>,
    e: crate::proxy::model::EndpointInfo,
)
    requires
        crate::proxy_wire::all_endpoints(slices, namespace, name, port_name, local_node).contains(
            e,
        ),
        e.is_local,
        e.ready,
    ensures
        local_endpoints(slices, namespace, name, local_node),
{
    let (i, j) = crate::proxy_wire::lemma_endpoint_origin(
        slices,
        namespace,
        name,
        port_name,
        local_node,
        e,
    );
    let eps = crate::objects::list_or_empty(slices[i].endpoints);
    assert(eps[j].is_on(local_node) && eps[j].is_ready());
    assert(any_ready_on(eps, local_node));
    assert(slices[i].belongs_to(namespace, name));
}

} // verus!
