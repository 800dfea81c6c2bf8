//! From services and endpoint slices of the cluster to what the service proxy needs.

use vstd::prelude::*;

use crate::ip::IpAddr;
use crate::objects::{
    find_value, is_text, own_or_empty, parse_ingress, parse_ips_opt, to_port,
    to_port_opt, value_is, Endpoint, EndpointPort, EndpointSlice, Service, ServicePort,
    ServiceSpec,
};
use crate::proxy::model::{EndpointInfo, Protocol, SchedFlags, Scheduler, ServiceInfo};

verus! {

/// Chooses the scheduler.
pub const SCHEDULER_ANNOTATION: &'static str = "kube-router.io/service.scheduler";

/// Sets flags of the scheduler.
pub const SCHEDFLAGS_ANNOTATION: &'static str = "kube-router.io/service.schedflags";

/// Sends replies to the client directly.
pub const DSR_ANNOTATION: &'static str = "kube-router.io/service.dsr";

/// Keeps all traffic on the node.
pub const LOCAL_ANNOTATION: &'static str = "kube-router.io/service.local";

/// Lets an endpoint reach itself through the service.
pub const HAIRPIN_ANNOTATION: &'static str = "kube-router.io/service.hairpin";

/// Lets an endpoint reach itself through external addresses.
pub const HAIRPIN_EXTERNALIPS_ANNOTATION: &'static str =
    "kube-router.io/service.hairpin.externalips";

/// How long a client stays with its endpoint, in seconds, where the service does not say.
pub const DEFAULT_AFFINITY_TIMEOUT: u32 = 10800;

/// Whether a port of a slice stands for the port of that name; an empty name stands for any.
pub open spec fn port_fits(p: EndpointPort, port_name: Seq<char>) -> bool {
    port_name.len() == 0 || crate::objects::text_of(p.name) == Some(port_name)
}

/// The first of the ports that fits.
pub open spec fn first_fit(ports: Seq<EndpointPort>, port_name: Seq<char>) -> Option<EndpointPort>
    decreases ports.len(),
{
    if ports.len() == 0 {
        None
    } else if port_fits(ports[0], port_name) {
        Some(ports[0])
    } else {
        first_fit(ports.skip(1), port_name)
    }
}

/// The number of the port of a slice that stands for the port of that name: the first that fits.
pub open spec fn slice_port(ports: Seq<EndpointPort>, port_name: Seq<char>) -> Option<u16> {
    match first_fit(ports, port_name) {
        Some(p) => crate::objects::as_port_opt(p.port),
        None => None,
    }
}

fn find_port(ports: &[EndpointPort], port_name: &str) -> (r: Option<u16>)
    ensures
        r == slice_port(ports@, port_name@),
{
    let mut i: usize = 0;
    assert(ports@.skip(0) =~= ports@);
    while i < ports.len()
        invariant
            i <= ports@.len(),
            first_fit(ports@, port_name@) == first_fit(ports@.skip(i as int), port_name@),
        decreases ports@.len() - i,
    {
        assert(ports@.skip(i as int)[0] == ports@[i as int]);
        if port_name.is_empty() || is_text(&ports[i].name, port_name) {
            return to_port_opt(ports[i].port);
        }
        assert(ports@.skip(i as int).skip(1) =~= ports@.skip(i + 1));
        i = i + 1;
    }
    None
}

/// A port that has a name is served only on a port of the slice that has the same name: where
/// none has, the slice has no endpoints for it.
pub proof fn lemma_other_names_are_not_served(
    s: EndpointSlice,
    namespace: Seq<char>,
    name: Seq<char>,
    port_name: Seq<char>,
    local_node: Seq<char>,
)
    requires
        port_name.len() > 0,
        forall|i: int|
            0 <= i < crate::objects::list_or_empty(s.ports).len() ==> crate::objects::text_of(
                (#[trigger] crate::objects::list_or_empty(s.ports)[i]).name,
            ) != Some(port_name),
    ensures
        slice_endpoints(s, namespace, name, port_name, local_node).len() == 0,
{
    lemma_no_fit(crate::objects::list_or_empty(s.ports), port_name);
}

proof fn lemma_no_fit(ports: Seq<EndpointPort>, port_name: Seq<char>)
    requires
        forall|i: int| 0 <= i < ports.len() ==> !port_fits(#[trigger] ports[i], port_name),
    ensures
        first_fit(ports, port_name) is None,
    decreases ports.len(),
{
    if ports.len() > 0 {
        assert forall|i: int| 0 <= i < ports.skip(1).len() implies !port_fits(
            #[trigger] ports.skip(1)[i],
            port_name,
        ) by {
            assert(ports.skip(1)[i] == ports[i + 1]);
        }
        lemma_no_fit(ports.skip(1), port_name);
    }
}

/// What the proxy needs of an endpoint: one entry per address.
pub open spec fn entries_of(ep: Endpoint, port: u16, local_node: Seq<char>) -> Seq<EndpointInfo> {
    crate::objects::ips_of(crate::text::texts(ep.addresses@)).map_values(
        |ip: IpAddr|
            EndpointInfo { ip, port, is_local: ep.is_on(local_node), ready: ep.is_ready() },
    )
}

/// The endpoints that a slice has for a port of a service.
pub open spec fn slice_endpoints(
    s: EndpointSlice,
    namespace: Seq<char>,
    name: Seq<char>,
    port_name: Seq<char>,
    local_node: Seq<char>,
) -> Seq<EndpointInfo> {
    if !s.belongs_to(namespace, name) {
        Seq::empty()
    } else {
        match slice_port(crate::objects::list_or_empty(s.ports), port_name) {
            None => Seq::empty(),
            Some(port) => crate::seqs::flat(
                crate::objects::list_or_empty(s.endpoints),
                |ep: Endpoint| entries_of(ep, port, local_node),
            ),
        }
    }
}

/// The endpoints that all slices have for a port of a service, in order.
pub open spec fn all_endpoints(
    slices: Seq<EndpointSlice>,
    namespace: Seq<char>,
    name: Seq<char>,
    port_name: Seq<char>,
    local_node: Seq<char>,
) -> Seq<EndpointInfo> {
    crate::seqs::flat(
        slices,
        |s: EndpointSlice| slice_endpoints(s, namespace, name, port_name, local_node),
    )
}

fn add_entries(out: &mut Vec<EndpointInfo>, ep: &Endpoint, port: u16, local_node: &str)
    ensures
        final(out)@ == old(out)@ + entries_of(*ep, port, local_node@),
{
    let is_local = is_text(&ep.node_name, local_node);
    let ready = match ep.ready {
        Some(b) => b,
        None => true,
    };
    let ips = crate::objects::parse_ips(&ep.addresses);
    let ghost all = entries_of(*ep, port, local_node@);
    let ghost before = out@;
    let mut i: usize = 0;
    assert(out@ =~= before + all.take(0));
    while i < ips.len()
        invariant
            i <= ips@.len(),
            ips@ == crate::objects::ips_of(crate::text::texts(ep.addresses@)),
            is_local == ep.is_on(local_node@),
            ready == ep.is_ready(),
            all == entries_of(*ep, port, local_node@),
            out@ == before + all.take(i as int),
        decreases ips@.len() - i,
    {
        out.push(EndpointInfo { ip: ips[i], port, is_local, ready });
        assert(all.take(i + 1) =~= all.take(i as int).push(all[i as int]));
        assert(out@ =~= before + all.take(i + 1));
        i = i + 1;
    }
    assert(all.take(i as int) =~= all);
}

fn add_slice(
    out: &mut Vec<EndpointInfo>,
    slice: &EndpointSlice,
    namespace: &str,
    name: &str,
    port_name: &str,
    local_node: &str,
)
    ensures
        final(out)@ == old(out)@ + slice_endpoints(
            *slice,
            namespace@,
            name@,
            port_name@,
            local_node@,
        ),
{
    let ghost before = out@;
    if !slice.is_of(namespace, name) {
        assert(out@ =~= before + Seq::<EndpointInfo>::empty());
        return ;
    }
    let found = match &slice.ports {
        Some(ports) => find_port(ports, port_name),
        None => None,
    };
    match (found, &slice.endpoints) {
        (Some(port), Some(eps)) => {
            let ghost f = |ep: Endpoint| entries_of(ep, port, local_node@);
            let mut i: usize = 0;
            assert(out@ =~= before + crate::seqs::flat(eps@.take(0), f));
            while i < eps.len()
                invariant
                    i <= eps@.len(),
                    f == (|ep: Endpoint| entries_of(ep, port, local_node@)),
                    out@ == before + crate::seqs::flat(eps@.take(i as int), f),
                decreases eps@.len() - i,
            {
                add_entries(out, &eps[i], port, local_node);
                proof {
                    crate::seqs::lemma_flat_step(eps@, f, i as int);
                }
                assert(out@ =~= before + crate::seqs::flat(eps@.take(i + 1), f));
                i = i + 1;
            }
            assert(eps@.take(i as int) =~= eps@);
        },
        _ => {
            assert(out@ =~= before + slice_endpoints(
                *slice,
                namespace@,
                name@,
                port_name@,
                local_node@,
            ));
        },
    }
}

/// The endpoints that the slices have for a port of a service, in order.
pub fn endpoints_for(
    slices: &[EndpointSlice],
    namespace: &str,
    name: &str,
    port_name: &str,
    local_node: &str,
) -> (r: Vec<EndpointInfo>)
    ensures
        r@ == all_endpoints(slices@, namespace@, name@, port_name@, local_node@),
{
    let ghost f = |s: EndpointSlice|
        slice_endpoints(s, namespace@, name@, port_name@, local_node@);
    let mut out: Vec<EndpointInfo> = Vec::new();
    let mut i: usize = 0;
    assert(out@ =~= crate::seqs::flat(slices@.take(0), f));
    while i < slices.len()
        invariant
            i <= slices@.len(),
            f == (|s: EndpointSlice|
                slice_endpoints(s, namespace@, name@, port_name@, local_node@)),
            out@ == crate::seqs::flat(slices@.take(i as int), f),
        decreases slices@.len() - i,
    {
        add_slice(&mut out, &slices[i], namespace, name, port_name, local_node);
        proof {
            crate::seqs::lemma_flat_step(slices@, f, i as int);
        }
        i = i + 1;
    }
    assert(slices@.take(i as int) =~= slices@);
    out
}

impl Service {
    /// The annotation of that key.
    pub open spec fn annotation(self, key: Seq<char>) -> Option<Seq<char>> {
        crate::labels::lookup(crate::objects::map_or_empty(self.metadata.annotations), key)
    }

    /// The scheduler: that of the annotation, or round robin.
    pub open spec fn scheduler(self) -> Scheduler {
        match self.annotation(SCHEDULER_ANNOTATION@) {
            Some(s) => Scheduler::of(s),
            None => Scheduler::Rr,
        }
    }

    /// The flags of the scheduler: those of the annotation. Only the Maglev scheduler has any.
    pub open spec fn sched_flags(self) -> SchedFlags {
        match self.annotation(SCHEDFLAGS_ANNOTATION@) {
            Some(s) => if self.scheduler() == Scheduler::Mh {
                SchedFlags::of(s)
            } else {
                SchedFlags::none()
            },
            None => SchedFlags::none(),
        }
    }

    /// Whether the annotation keeps all traffic on the node.
    pub open spec fn kept_local(self) -> bool {
        self.annotation(LOCAL_ANNOTATION@) == Some("true"@)
    }
}

impl ServiceSpec {
    /// Whether a client stays with its endpoint.
    pub open spec fn has_affinity(self) -> bool {
        crate::objects::text_of(self.session_affinity) == Some("ClientIP"@)
    }

    /// How long a client stays with its endpoint, in seconds.
    pub open spec fn affinity_seconds(self) -> u32 {
        if !self.has_affinity() {
            0
        } else {
            match self.affinity_timeout_seconds {
                Some(t) => if t >= 0 {
                    t as u32
                } else {
                    DEFAULT_AFFINITY_TIMEOUT
                },
                None => DEFAULT_AFFINITY_TIMEOUT,
            }
        }
    }
}

/// What the proxy needs of a port of a service.
pub open spec fn info_of(
    svc: Service,
    spec: ServiceSpec,
    namespace: Seq<char>,
    name: Seq<char>,
    sp: ServicePort,
) -> crate::proxy::model::ServiceView {
    crate::proxy::model::ServiceView {
        namespace,
        name,
        port_name: crate::objects::text_or_empty(sp.name),
        protocol: match sp.protocol {
            Some(p) => Protocol::of(p@),
            None => Protocol::Tcp,
        },
        port: sp.port as u16,
        node_port: crate::objects::as_port_opt(sp.node_port),
        cluster_ips: spec.cluster_addresses(),
        external_ips: crate::objects::ips_of(
            crate::text::texts(crate::objects::list_or_empty(spec.external_ips)),
        ),
        load_balancer_ips: crate::objects::ingress_ips(
            crate::objects::list_or_empty(svc.ingress),
        ),
        scheduler: svc.scheduler(),
        sched_flags: svc.sched_flags(),
        session_affinity: spec.has_affinity(),
        affinity_timeout: spec.affinity_seconds(),
        dsr: svc.annotation(DSR_ANNOTATION@) is Some,
        internal_traffic_local: svc.kept_local() || crate::objects::text_of(
            spec.internal_traffic_policy,
        ) == Some("Local"@),
        external_traffic_local: svc.kept_local() || crate::objects::text_of(
            spec.external_traffic_policy,
        ) == Some("Local"@),
        hairpin: svc.annotation(HAIRPIN_ANNOTATION@) is Some,
        hairpin_external_ips: svc.annotation(HAIRPIN_EXTERNALIPS_ANNOTATION@) is Some,
        health_check_node_port: crate::objects::as_port_opt(spec.health_check_node_port),
    }
}

/// A port of a service with its endpoints.
#[verifier::ext_equal]
pub struct Mapped {
    pub info: crate::proxy::model::ServiceView,
    pub endpoints: Seq<EndpointInfo>,
}

/// What the proxy needs of one port: nothing where its number is not one of a port.
pub open spec fn port_entry(
    svc: Service,
    spec: ServiceSpec,
    namespace: Seq<char>,
    name: Seq<char>,
    sp: ServicePort,
    slices: Seq<EndpointSlice>,
    local_node: Seq<char>,
) -> Seq<Mapped> {
    if crate::objects::as_port(sp.port) is Some {
        seq![
            Mapped {
                info: info_of(svc, spec, namespace, name, sp),
                endpoints: all_endpoints(
                    slices,
                    namespace,
                    name,
                    crate::objects::text_or_empty(sp.name),
                    local_node,
                ),
            },
        ]
    } else {
        Seq::empty()
    }
}

/// Whether the proxy serves the service: it has a name, is no mere alias, and has an address in
/// the cluster.
pub open spec fn served(svc: Service) -> bool {
    &&& svc.metadata.namespace is Some
    &&& svc.metadata.name is Some
    &&& svc.spec is Some
    &&& crate::objects::text_of(svc.spec->0.type_) != Some("ExternalName"@)
    &&& svc.spec->0.cluster_addresses().len() > 0
}

/// What the proxy needs of a service: one entry per port.
pub open spec fn service_entries(
    svc: Service,
    slices: Seq<EndpointSlice>,
    local_node: Seq<char>,
) -> Seq<Mapped> {
    if served(svc) {
        let spec = svc.spec->0;
        crate::seqs::flat(
            crate::objects::list_or_empty(spec.ports),
            |sp: ServicePort|
                port_entry(
                    svc,
                    spec,
                    svc.metadata.namespace->0@,
                    svc.metadata.name->0@,
                    sp,
                    slices,
                    local_node,
                ),
        )
    } else {
        Seq::empty()
    }
}

/// What the proxy needs of all services, in order.
pub open spec fn mapped_services(
    services: Seq<Service>,
    slices: Seq<EndpointSlice>,
    local_node: Seq<char>,
) -> Seq<Mapped> {
    crate::seqs::flat(services, |svc: Service| service_entries(svc, slices, local_node))
}

/// Entries as values.
pub open spec fn mapped_views(v: Seq<(ServiceInfo, Vec<EndpointInfo>)>) -> Seq<Mapped> {
    v.map_values(
        |e: (ServiceInfo, Vec<EndpointInfo>)| Mapped { info: e.0@, endpoints: e.1@ },
    )
}

fn scheduling(svc: &Service) -> (r: (Scheduler, SchedFlags))
    ensures
        r.0 == svc.scheduler(),
        r.1 == svc.sched_flags(),
{
    let scheduler = match find_value(&svc.metadata.annotations, SCHEDULER_ANNOTATION) {
        Some(s) => Scheduler::parse(s.as_str()),
        None => Scheduler::default(),
    };
    let flags = if scheduler == Scheduler::Mh {
        match find_value(&svc.metadata.annotations, SCHEDFLAGS_ANNOTATION) {
            Some(s) => SchedFlags::parse(s.as_str()),
            None => SchedFlags::default(),
        }
    } else {
        SchedFlags::default()
    };
    (scheduler, flags)
}

fn affinity(spec: &ServiceSpec) -> (r: (bool, u32))
    ensures
        r.0 == spec.has_affinity(),
        r.1 == spec.affinity_seconds(),
{
    if is_text(&spec.session_affinity, "ClientIP") {
        let t: u32 = match spec.affinity_timeout_seconds {
            Some(t) => if t >= 0 {
                t as u32
            } else {
                DEFAULT_AFFINITY_TIMEOUT
            },
            None => DEFAULT_AFFINITY_TIMEOUT,
        };
        (true, t)
    } else {
        (false, 0)
    }
}

fn port_info(
    svc: &Service,
    spec: &ServiceSpec,
    namespace: &str,
    name: &str,
    sp: &ServicePort,
    port: u16,
) -> (r: ServiceInfo)
    requires
        crate::objects::as_port(sp.port) == Some(port),
    ensures
        r@ == info_of(*svc, *spec, namespace@, name@, *sp),
{
    let (scheduler, sched_flags) = scheduling(svc);
    let (session_affinity, affinity_timeout) = affinity(spec);
    let local = value_is(&svc.metadata.annotations, LOCAL_ANNOTATION, "true");
    let protocol = match &sp.protocol {
        Some(p) => Protocol::parse(p.as_str()),
        None => Protocol::Tcp,
    };
    ServiceInfo {
        namespace: namespace.to_owned(),
        name: name.to_owned(),
        port_name: own_or_empty(&sp.name),
        protocol,
        port,
        node_port: to_port_opt(sp.node_port),
        cluster_ips: spec.parse_cluster_ips(),
        external_ips: parse_ips_opt(&spec.external_ips),
        load_balancer_ips: parse_ingress(&svc.ingress),
        scheduler,
        sched_flags,
        session_affinity,
        affinity_timeout,
        dsr: find_value(&svc.metadata.annotations, DSR_ANNOTATION).is_some(),
        internal_traffic_local: local || is_text(&spec.internal_traffic_policy, "Local"),
        external_traffic_local: local || is_text(&spec.external_traffic_policy, "Local"),
        hairpin: find_value(&svc.metadata.annotations, HAIRPIN_ANNOTATION).is_some(),
        hairpin_external_ips: find_value(
            &svc.metadata.annotations,
            HAIRPIN_EXTERNALIPS_ANNOTATION,
        ).is_some(),
        health_check_node_port: to_port_opt(spec.health_check_node_port),
    }
}

fn add_ports(
    out: &mut Vec<(ServiceInfo, Vec<EndpointInfo>)>,
    svc: &Service,
    spec: &ServiceSpec,
    namespace: &str,
    name: &str,
    ports: &[ServicePort],
    slices: &[EndpointSlice],
    local_node: &str,
)
    ensures
        mapped_views(final(out)@) == mapped_views(old(out)@) + crate::seqs::flat(
            ports@,
            |sp: ServicePort|
                port_entry(*svc, *spec, namespace@, name@, sp, slices@, local_node@),
        ),
{
    let ghost f = |sp: ServicePort|
        port_entry(*svc, *spec, namespace@, name@, sp, slices@, local_node@);
    let ghost start = mapped_views(out@);
    let mut i: usize = 0;
    assert(mapped_views(out@) =~= start + crate::seqs::flat(ports@.take(0), f));
    while i < ports.len()
        invariant
            i <= ports@.len(),
            f == (|sp: ServicePort|
                port_entry(*svc, *spec, namespace@, name@, sp, slices@, local_node@)),
            mapped_views(out@) == start + crate::seqs::flat(ports@.take(i as int), f),
        decreases ports@.len() - i,
    {
        let sp = &ports[i];
        let ghost before = out@;
        match to_port(sp.port) {
            Some(port) => {
                let info = port_info(svc, spec, namespace, name, sp, port);
                let eps = endpoints_for(
                    slices,
                    namespace,
                    name,
                    info.port_name.as_str(),
                    local_node,
                );
                out.push((info, eps));
                assert(mapped_views(out@) =~= mapped_views(before).push(
                    Mapped { info: info@, endpoints: eps@ },
                ));
            },
            None => {},
        }
        proof {
            crate::seqs::lemma_flat_step(ports@, f, i as int);
            assert(ports@[i as int] == *sp);
            assert(mapped_views(out@) =~= mapped_views(before) + f(*sp));
        }
        assert(mapped_views(out@) =~= start + crate::seqs::flat(ports@.take(i + 1), f));
        i = i + 1;
    }
    assert(ports@.take(i as int) =~= ports@);
}

fn add_service(
    out: &mut Vec<(ServiceInfo, Vec<EndpointInfo>)>,
    svc: &Service,
    slices: &[EndpointSlice],
    local_node: &str,
)
    ensures
        mapped_views(final(out)@) == mapped_views(old(out)@) + service_entries(
            *svc,
            slices@,
            local_node@,
        ),
{
    let ghost start = mapped_views(out@);
    match (&svc.metadata.namespace, &svc.metadata.name, &svc.spec) {
        (Some(namespace), Some(name), Some(spec)) => {
            if !is_text(&spec.type_, "ExternalName") && spec.parse_cluster_ips().len() > 0 {
                match &spec.ports {
                    Some(ports) => {
                        add_ports(
                            out,
                            svc,
                            spec,
                            namespace.as_str(),
                            name.as_str(),
                            ports,
                            slices,
                            local_node,
                        );
                        assert(mapped_views(out@) =~= start + service_entries(
                            *svc,
                            slices@,
                            local_node@,
                        ));
                    },
                    None => {
                        assert(mapped_views(out@) =~= start + service_entries(
                            *svc,
                            slices@,
                            local_node@,
                        ));
                    },
                }
            } else {
                assert(mapped_views(out@) =~= start + service_entries(*svc, slices@, local_node@));
            }
        },
        _ => {
            assert(mapped_views(out@) =~= start + service_entries(*svc, slices@, local_node@));
        },
    }
}

/// What the proxy needs of all services: one entry per port, with its endpoints.
pub fn map_services(
    services: &[Service],
    slices: &[EndpointSlice],
    local_node: &str,
) -> (r: Vec<(ServiceInfo, Vec<EndpointInfo>)>)
    ensures
        mapped_views(r@) == mapped_services(services@, slices@, local_node@),
{
    let ghost f = |svc: Service| service_entries(svc, slices@, local_node@);
    let mut out: Vec<(ServiceInfo, Vec<EndpointInfo>)> = Vec::new();
    let mut i: usize = 0;
    assert(mapped_views(out@) =~= crate::seqs::flat(services@.take(0), f));
    while i < services.len()
        invariant
            i <= services@.len(),
            f == (|svc: Service| service_entries(svc, slices@, local_node@)),
            mapped_views(out@) == crate::seqs::flat(services@.take(i as int), f),
        decreases services@.len() - i,
    {
        add_service(&mut out, &services[i], slices, local_node);
        proof {
            crate::seqs::lemma_flat_step(services@, f, i as int);
        }
        i = i + 1;
    }
    assert(services@.take(i as int) =~= services@);
    out
}

/// Every entry comes from a port of a service that the proxy serves: none from an alias, none from
/// one without an address in the cluster.
pub proof fn lemma_only_served(
    services: Seq<Service>,
    slices: Seq<EndpointSlice>,
    local_node: Seq<char>,
    m: Mapped,
) -> (i: int)
    requires
        mapped_services(services, slices, local_node).contains(m),
    ensures
        0 <= i < services.len(),
        served(services[i]),
        m.info.namespace == services[i].metadata.namespace->0@,
        m.info.name == services[i].metadata.name->0@,
        m.info.cluster_ips == services[i].spec->0.cluster_addresses(),
        m.info.cluster_ips.len() > 0,
{
    let f = |svc: Service| service_entries(svc, slices, local_node);
    let i = crate::seqs::lemma_flat_from(services, f, m);
    let svc = services[i];
    let spec = svc.spec->0;
    let g = |sp: ServicePort|
        port_entry(
            svc,
            spec,
            svc.metadata.namespace->0@,
            svc.metadata.name->0@,
            sp,
            slices,
            local_node,
        );
    assert(f(svc).contains(m));
    assert(served(svc));
    let j = crate::seqs::lemma_flat_from(crate::objects::list_or_empty(spec.ports), g, m);
    i
}

/// Only the Maglev scheduler has flags.
pub proof fn lemma_flags_only_for_maglev(svc: Service)
    ensures
        svc.scheduler() != Scheduler::Mh ==> svc.sched_flags() == SchedFlags::none(),
{
}

/// Every endpoint of an entry stands in a slice of the same service, with the port of that slice,
/// and is told local exactly when its node is this one.
pub proof fn lemma_endpoint_origin(
    slices: Seq<EndpointSlice>,
    namespace: Seq<char>,
    name: Seq<char>,
    port_name: Seq<char>,
    local_node: Seq<char>,
    e: EndpointInfo,
) -> (r: (int, int))
    requires
        all_endpoints(slices, namespace, name, port_name, local_node).contains(e),
    ensures
        0 <= r.0 < slices.len(),
        slices[r.0].belongs_to(namespace, name),
        slice_port(crate::objects::list_or_empty(slices[r.0].ports), port_name) == Some(e.port),
        0 <= r.1 < crate::objects::list_or_empty(slices[r.0].endpoints).len(),
        e.is_local == crate::objects::list_or_empty(slices[r.0].endpoints)[r.1].is_on(local_node),
        e.ready == crate::objects::list_or_empty(slices[r.0].endpoints)[r.1].is_ready(),
{
    let f = |s: EndpointSlice| slice_endpoints(s, namespace, name, port_name, local_node);
    let i = crate::seqs::lemma_flat_from(slices, f, e);
    assert(f(slices[i]).contains(e));
    let ports = crate::objects::list_or_empty(slices[i].ports);
    assert(slice_port(ports, port_name) is Some);
    let port = slice_port(ports, port_name)->0;
    let g = |ep: Endpoint| entries_of(ep, port, local_node);
    let eps = crate::objects::list_or_empty(slices[i].endpoints);
    let j = crate::seqs::lemma_flat_from(eps, g, e);
    assert(g(eps[j]).contains(e));
    (i, j)
}

} // verus!
