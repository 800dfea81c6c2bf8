//! Laws of what decides about the advertised addresses of services, stated on the fields of the
//! objects.

use vstd::prelude::*;

use crate::object_laws::{elements, gives, has_key};
use crate::objects::{EndpointSlice, Service};
use crate::proxy_laws::slice_of;
use crate::svc_vip_wire::{
    any_ready_on, local_endpoints, mapped_vips, vip_entry, vip_views, SvcVip,
};

verus! {

/// Whether addresses of a service can be advertised: it has a namespace and a name and says what
/// it asks for, and is no alias of an outside name.
pub open spec fn can_be_advertised(svc: Service) -> bool {
    &&& svc.metadata.namespace is Some
    &&& svc.metadata.name is Some
    &&& svc.spec is Some
    &&& !(svc.spec->0.type_ matches Some(t) && t@ == "ExternalName"@)
}

/// What an annotation says of a choice: yes where it is `true`, no where it is anything else,
/// nothing where it is absent.
pub open spec fn says(svc: Service, key: Seq<char>, choice: Option<bool>) -> bool {
    &&& choice is None <==> !has_key(svc.metadata.annotations, key)
    &&& choice == Some(true) <==> gives(svc.metadata.annotations, key, "true"@)
}

/// Services are taken in their order, one entry for each whose addresses can be advertised.
pub proof fn lemma_advertised_services_add_up(
    a: Seq<Service>,
    b: Seq<Service>,
    svc: Service,
    slices: Seq<EndpointSlice>,
    local_node: Seq<char>,
)
    ensures
        mapped_vips(Seq::empty(), slices, local_node).len() == 0,
        mapped_vips(a + b, slices, local_node) == mapped_vips(a, slices, local_node)
            + mapped_vips(b, slices, local_node),
        !can_be_advertised(svc) ==> mapped_vips(seq![svc], slices, local_node).len() == 0,
        can_be_advertised(svc) ==> mapped_vips(seq![svc], slices, local_node).len() == 1,
{
    let f = |svc: Service| vip_entry(svc, slices, local_node);
    crate::seqs::lemma_flat_parts(a, b, svc, f);
}

/// Whether a slice of the service has an endpoint on the node that is not known to be unready.
pub open spec fn hosted(
    slices: Seq<EndpointSlice>,
    namespace: Seq<char>,
    name: Seq<char>,
    node: Seq<char>,
) -> bool {
    exists|i: int, j: int|
        0 <= i < slices.len() && slice_of(slices[i], namespace, name) && 0 <= j < elements(
            slices[i].endpoints,
        ).len() && (#[trigger] elements(slices[i].endpoints)[j]).node_name is Some && elements(
            slices[i].endpoints,
        )[j].node_name->0@ == node && elements(slices[i].endpoints)[j].ready != Some(false)
}

/// A service counts as local exactly where one of its slices has an endpoint on the node that is
/// not known to be unready.
pub proof fn lemma_local_where_hosted(
    slices: Seq<EndpointSlice>,
    namespace: Seq<char>,
    name: Seq<char>,
    node: Seq<char>,
)
    ensures
        local_endpoints(slices, namespace, name, node) <==> hosted(slices, namespace, name, node),
{
    if local_endpoints(slices, namespace, name, node) {
        let i = choose|i: int|
            0 <= i < slices.len() && (#[trigger] slices[i]).belongs_to(namespace, name)
                && any_ready_on(crate::objects::list_or_empty(slices[i].endpoints), node);
        let eps = crate::objects::list_or_empty(slices[i].endpoints);
        let j = choose|j: int|
            0 <= j < eps.len() && (#[trigger] eps[j]).is_on(node) && eps[j].is_ready();
        assert(eps == elements(slices[i].endpoints));
        assert(slice_of(slices[i], namespace, name));
        assert(elements(slices[i].endpoints)[j].node_name is Some);
    }
    if hosted(slices, namespace, name, node) {
        let (i, j) = choose|i: int, j: int|
            0 <= i < slices.len() && slice_of(slices[i], namespace, name) && 0 <= j < elements(
                slices[i].endpoints,
            ).len() && (#[trigger] elements(slices[i].endpoints)[j]).node_name is Some
                && elements(slices[i].endpoints)[j].node_name->0@ == node && elements(
                slices[i].endpoints,
            )[j].ready != Some(false);
        let eps = crate::objects::list_or_empty(slices[i].endpoints);
        assert(eps == elements(slices[i].endpoints));
        assert(eps[j].is_on(node) && eps[j].is_ready());
        assert(any_ready_on(eps, node));
        assert(slices[i].belongs_to(namespace, name));
    }
}

/// What is made of the service at `i`, whose addresses can be advertised, field by field: it
/// stands behind what is made of those before it.
pub proof fn lemma_advertised_field_by_field(
    services: Seq<Service>,
    slices: Seq<EndpointSlice>,
    local_node: Seq<char>,
    made: Seq<SvcVip>,
    i: int,
)
    requires
        vip_views(made) == mapped_vips(services, slices, local_node),
        0 <= i < services.len(),
        can_be_advertised(services[i]),
    ensures
        ({
            let at = mapped_vips(services.take(i), slices, local_node).len() as int;
            let svc = services[i];
            let spec = svc.spec->0;
            let v = made[at];
            &&& at < made.len()
            &&& says(svc, "kube-router.io/service.advertise.clusterip"@, v.adv_cluster)
            &&& says(svc, "kube-router.io/service.advertise.externalip"@, v.adv_external)
            &&& says(svc, "kube-router.io/service.advertise.loadbalancer"@, v.adv_lb)
            &&& v.skip_lb_ips == has_key(
                svc.metadata.annotations,
                "kube-router.io/service.skiplbips"@,
            )
            &&& v.cluster_ips@ == spec.cluster_addresses()
            &&& v.external_ips@ == crate::objects::ips_of(
                crate::text::texts(elements(spec.external_ips)),
            )
            &&& v.lb_ips@ == crate::objects::ingress_ips(elements(svc.ingress))
            &&& v.internal_traffic_local == (spec.internal_traffic_policy matches Some(p) && p@
                == "Local"@)
            &&& v.external_traffic_local == (gives(
                svc.metadata.annotations,
                "kube-router.io/service.local"@,
                "true"@,
            ) || (spec.external_traffic_policy matches Some(p) && p@ == "Local"@))
            &&& v.has_local_endpoints == hosted(
                slices,
                svc.metadata.namespace->0@,
                svc.metadata.name->0@,
                local_node,
            )
        }),
{
    let f = |svc: Service| vip_entry(svc, slices, local_node);
    let svc = services[i];
    let spec = svc.spec->0;
    let before = services.take(i);
    let after = services.skip(i + 1);
    assert(services =~= (before + seq![svc]) + after);
    crate::seqs::lemma_flat_parts(before + seq![svc], after, svc, f);
    crate::seqs::lemma_flat_parts(before, seq![svc], svc, f);
    let at = mapped_vips(before, slices, local_node).len() as int;
    let entry = vip_entry(svc, slices, local_node);
    assert(entry.len() == 1);
    assert(mapped_vips(services, slices, local_node)[at] == entry[0]);
    assert(vip_views(made).len() == made.len());
    assert(vip_views(made)[at] == made[at]@);
    lemma_local_where_hosted(
        slices,
        svc.metadata.namespace->0@,
        svc.metadata.name->0@,
        local_node,
    );
    assert(crate::objects::list_or_empty(spec.external_ips) == elements(spec.external_ips));
    assert(crate::objects::list_or_empty(svc.ingress) == elements(svc.ingress));
}

} // verus!
