use kube_router_rs::bgp::engine::PeerConfig;
use kube_router_rs::cleanup::{
    chains_to_sweep, cleanup_plan, destroy_args, sets_to_sweep, sweep_args, sweep_plan,
    CleanupCmd,
};
use kube_router_rs::common::ipfamily::IpFamily;
use kube_router_rs::config::KubeRouterConfig;
use kube_router_rs::ip::IpAddr;
use kube_router_rs::labels::Labels;
use kube_router_rs::lballoc_wire::{
    attempt_outcome, ingress_texts, lease_step, map_lb_service, LeaseRecord, LeaseStep, Moment,
};
use kube_router_rs::netpol::model::{selector_matches, Peer};
use kube_router_rs::netpol::naming::{dst_set, local_pods_set, src_set};
use kube_router_rs::netpol_wire::{
    map_namespace, map_peer, map_pod, map_policy, map_ports, match_labels, port_spec,
};
use kube_router_rs::objects::{
    Endpoint, EndpointPort, EndpointSlice, ExpressionObject, IntOrString, IpBlockObject,
    NamespaceObject, NodeAddressObject, NodeObject, ObjectMeta, PeerObject, PodObject,
    PolicyObject, PolicySpec, PortObject, RuleObject, SelectorObject, Service, ServicePort,
    ServiceSpec, SERVICE_NAME_LABEL,
};
use kube_router_rs::observability::health::Component;
use kube_router_rs::orchestrate::{bind_addr, components_for, enabled_controllers, require_root};
use kube_router_rs::proxy::model::{Protocol, SchedFlags, Scheduler};
use kube_router_rs::proxy_wire::{
    endpoints_for, map_services, DSR_ANNOTATION, HAIRPIN_ANNOTATION,
    HAIRPIN_EXTERNALIPS_ANNOTATION, LOCAL_ANNOTATION, SCHEDFLAGS_ANNOTATION, SCHEDULER_ANNOTATION,
};
use kube_router_rs::routing_wire::{
    bgp_nodes, build_controller, direct_routes, engine_plan, external_peers, forwarding_settings,
    global_config, local_node, local_pod_cidrs, node_routes, node_to_bgp, node_to_route,
    resolve_node_name, BUNDLED_CNI_DIR, GOBGPD_PATH,
};
use kube_router_rs::startup::{
    enabled_family_list, filtered_address, filtered_links, ipvs_settings, is_own_path,
    lease_identity, lease_namespace, loosened_rp_filter, masquerade_config, node_port_addresses,
    rp_filter_key, split_ranges, validation_ranges, vip_advertisement,
};
use kube_router_rs::svc_vip_wire::{map_svc_vips, ADV_CLUSTER_ANN, LOCAL_ANN, SKIP_LB_ANN};
use kube_router_rs::time::Duration;

fn ip(s: &str) -> IpAddr {
    IpAddr::parse(s).unwrap()
}

fn labels(pairs: &[(&str, &str)]) -> Labels {
    let mut l = Labels::new();
    for (k, v) in pairs {
        l.insert(k.to_string(), v.to_string());
    }
    l
}

fn meta(namespace: &str, name: &str) -> ObjectMeta {
    ObjectMeta {
        namespace: Some(namespace.to_string()),
        name: Some(name.to_string()),
        labels: None,
        annotations: None,
    }
}

fn has(plan: &[CleanupCmd], prog: &str, needle: &str) -> bool {
    plan.iter()
        .any(|c| c.prog == prog && c.args.iter().any(|a| a.contains(needle)))
}

#[test]
fn default_cleanup_covers_all_three_controllers() {
    let plan = cleanup_plan(&KubeRouterConfig::default());
    assert!(has(&plan, "iptables", "KUBE-ROUTER-INPUT"));
    assert!(has(&plan, "ipset", "kube-router-local-pods"));
    assert!(has(&plan, "ipvsadm", "-C"));
    assert!(has(&plan, "ip", "kube-dummy-if"));
    assert!(has(&plan, "iptables", "KUBE-ROUTER-SERVICES"));
    assert!(has(&plan, "iptables", "KUBE-ROUTER-HAIRPIN"));
    assert!(has(&plan, "ipset", "kube-router-svip"));
    assert!(has(&plan, "ip", "kube-tunnel-if"));
    assert!(has(&plan, "ip", "78"));
}

#[test]
fn firewall_only_cleanup_skips_ipvs_and_routes() {
    let mut c = KubeRouterConfig::default();
    c.run_service_proxy = false;
    c.run_router = false;
    let plan = cleanup_plan(&c);
    assert!(has(&plan, "iptables", "KUBE-ROUTER-INPUT"));
    assert!(!has(&plan, "ipvsadm", "-C"));
    assert!(!has(&plan, "ip", "kube-tunnel-if"));
}

#[test]
fn service_proxy_only_cleanup_skips_firewall_and_router() {
    let mut c = KubeRouterConfig::default();
    c.run_firewall = false;
    c.run_service_proxy = true;
    c.run_router = false;
    let plan = cleanup_plan(&c);
    assert!(has(&plan, "ipvsadm", "-C"));
    assert!(!has(&plan, "ipset", "kube-router-local-pods"));
    assert!(!has(&plan, "ip", "table"));
}

#[test]
fn teardown_order_proxy_before_router() {
    let plan = cleanup_plan(&KubeRouterConfig::default());
    let ipvs = plan.iter().position(|c| c.prog == "ipvsadm").unwrap();
    let tunnel = plan
        .iter()
        .position(|c| c.args.iter().any(|a| a == "kube-tunnel-if"))
        .unwrap();
    assert!(ipvs < tunnel);
}

#[test]
fn v6_ipset_variants_included() {
    let plan = cleanup_plan(&KubeRouterConfig::default());
    assert!(has(&plan, "ipset", "inet6:kube-router-svip"));
    assert!(has(&plan, "ipset", "inet6:kube-router-local-pods"));
}

#[test]
fn only_pod_and_policy_chains_are_swept() {
    let doc = "*filter\n:INPUT ACCEPT [0:0]\n:KUBE-POD-FW-ABC - [0:0]\r\n:KUBE-NWPLCY-XYZ -\n\
               -A KUBE-POD-FW-ABC -j X\n:KUBE-ROUTER-INPUT -\n:\nCOMMIT\n";
    assert_eq!(
        chains_to_sweep(doc),
        vec!["KUBE-POD-FW-ABC".to_string(), "KUBE-NWPLCY-XYZ".to_string()]
    );
    assert_eq!(
        sweep_args("-F", "KUBE-POD-FW-ABC"),
        vec!["-w", "-t", "filter", "-F", "KUBE-POD-FW-ABC"]
    );
}

#[test]
fn the_sets_that_a_firewall_makes_are_destroyed() {
    let plan = cleanup_plan(&KubeRouterConfig::default());
    for family in [IpFamily::V4, IpFamily::V6] {
        let args = destroy_args(&local_pods_set(family));
        assert!(plan.iter().any(|c| c.prog == "ipset" && c.args == args));
    }
    for chain in ["KUBE-ROUTER-INPUT", "KUBE-ROUTER-FORWARD", "KUBE-ROUTER-OUTPUT"] {
        for tool in ["iptables", "ip6tables"] {
            let args = sweep_args("-X", chain);
            assert!(plan.iter().any(|c| c.prog == tool && c.args == args));
        }
    }
    let src = src_set("default", "web", IpFamily::V4);
    let dst = dst_set("default", "web", IpFamily::V6);
    let local = local_pods_set(IpFamily::V6);
    let left = format!("TMP-{src}");
    let list = format!("{src}\nkube-router-svip\n{dst}\n{local}\nTMP-other\n{left}\n");
    assert_eq!(sets_to_sweep(&list), vec![src, dst, local, left]);
}

#[test]
fn chains_are_emptied_before_they_are_deleted() {
    let chains = vec!["KUBE-POD-FW-ABC".to_string(), "KUBE-NWPLCY-XYZ".to_string()];
    assert_eq!(
        sweep_plan(&chains),
        vec![
            sweep_args("-F", "KUBE-POD-FW-ABC"),
            sweep_args("-F", "KUBE-NWPLCY-XYZ"),
            sweep_args("-X", "KUBE-POD-FW-ABC"),
            sweep_args("-X", "KUBE-NWPLCY-XYZ"),
        ]
    );
}

#[test]
fn root_required() {
    assert!(require_root(0).is_ok());
    assert!(require_root(1000).is_err());
    assert_eq!(
        require_root(1000).unwrap_err().message(),
        "kube-router-rs must run as root (effective uid 1000); needs iptables/ipset/ipvs/netlink"
    );
}

fn components(c: &KubeRouterConfig) -> Vec<Component> {
    components_for(c).into_iter().map(|(c, _)| c).collect()
}

#[test]
fn default_components_cover_three_controllers() {
    let comps = components(&KubeRouterConfig::default());
    assert!(comps.contains(&Component::NetworkRoutes));
    assert!(comps.contains(&Component::NetworkPolicy));
    assert!(comps.contains(&Component::NetworkServices));
    assert!(!comps.contains(&Component::LoadBalancer));
}

#[test]
fn loadbalancer_component_only_when_enabled() {
    let mut c = KubeRouterConfig::default();
    c.run_loadbalancer = true;
    assert!(components(&c).contains(&Component::LoadBalancer));
}

#[test]
fn metrics_and_hairpin_not_registered_as_health_components() {
    let mut c = KubeRouterConfig::default();
    c.metrics_port = 8080;
    c.run_service_proxy = true;
    let comps = components(&c);
    assert!(!comps.contains(&Component::Metrics));
    assert!(!comps.contains(&Component::Hairpin));
    assert!(comps.contains(&Component::NetworkServices));
}

#[test]
fn subset_enable_lists_only_selected() {
    let mut c = KubeRouterConfig::default();
    c.run_router = false;
    c.run_firewall = false;
    c.run_service_proxy = true;
    assert_eq!(enabled_controllers(&c), vec!["service-proxy (IPVS)"]);
}

#[test]
fn bind_addr_defaults_to_all_interfaces() {
    assert_eq!(bind_addr("", 20244), "0.0.0.0:20244");
    assert_eq!(bind_addr("127.0.0.1", 9000), "127.0.0.1:9000");
}

fn lb_service(type_: &str, class: Option<&str>) -> Service {
    let mut spec = ServiceSpec::default();
    spec.type_ = Some(type_.to_string());
    spec.load_balancer_class = class.map(String::from);
    spec.ip_families = Some(vec!["IPv4".to_string()]);
    spec.external_ips = Some(vec!["203.0.113.5".to_string()]);
    Service {
        metadata: meta("default", "web"),
        spec: Some(spec),
        ingress: None,
    }
}

#[test]
fn maps_loadbalancer_fields() {
    let m = map_lb_service(&lb_service("LoadBalancer", Some("kube-router"))).unwrap();
    assert!(m.is_loadbalancer);
    assert_eq!(m.loadbalancer_class.as_deref(), Some("kube-router"));
    assert!(m.want_v4 && !m.want_v6);
    assert_eq!(m.external_ips, vec![ip("203.0.113.5")]);
    assert!(m.ingress_ips.is_empty());
}

#[test]
fn maps_clusterip_as_non_loadbalancer() {
    let m = map_lb_service(&lb_service("ClusterIP", None)).unwrap();
    assert!(!m.is_loadbalancer);
}

#[test]
fn assigned_addresses_read_back() {
    let ips = vec![ip("198.51.100.9"), ip("fd00::9")];
    let texts = ingress_texts(&ips);
    assert_eq!(texts, vec!["198.51.100.9", "fd00::9"]);
    let mut svc = lb_service("LoadBalancer", None);
    svc.ingress = Some(texts.into_iter().map(Some).chain([None]).collect());
    svc.spec.as_mut().unwrap().ip_family_policy = Some("RequireDualStack".to_string());
    let m = map_lb_service(&svc).unwrap();
    assert_eq!(m.ingress_ips, ips);
    assert!(m.require_dual);
    svc.metadata.name = None;
    assert!(map_lb_service(&svc).is_none());
}

fn lease(holder: Option<&str>, renewed: Option<i64>, duration: Option<i32>) -> Option<LeaseRecord> {
    Some(LeaseRecord {
        holder: holder.map(String::from),
        renew_second: renewed,
        duration_seconds: duration,
    })
}

fn at(second: i64) -> Moment {
    Moment {
        second,
        nanosecond: 5,
    }
}

#[test]
fn a_valid_lease_keeps_others_out() {
    assert!(matches!(
        lease_step(&lease(Some("b"), Some(100), None), "a", at(114)),
        LeaseStep::Decline
    ));
    assert!(matches!(
        lease_step(&lease(Some("b"), Some(100), None), "a", at(115)),
        LeaseStep::Replace(_)
    ));
    assert!(matches!(
        lease_step(&lease(Some("b"), Some(100), Some(30)), "a", at(115)),
        LeaseStep::Decline
    ));
    assert!(matches!(
        lease_step(&lease(Some("a"), Some(100), None), "a", at(101)),
        LeaseStep::Replace(_)
    ));
    assert!(matches!(
        lease_step(&lease(Some("b"), None, None), "a", at(101)),
        LeaseStep::Replace(_)
    ));
    assert!(matches!(
        lease_step(&lease(None, Some(100), None), "a", at(101)),
        LeaseStep::Replace(_)
    ));
    match lease_step(&None, "a", at(101)) {
        LeaseStep::Create(c) => {
            assert_eq!(c.holder, "a");
            assert_eq!(c.duration_seconds, 15);
            assert_eq!(c.renew_time, at(101));
            assert_eq!(c.acquire_time, at(101));
        }
        _ => panic!("expected create"),
    }
}

#[test]
fn the_lease_is_held_once_written() {
    let create = lease_step(&None, "a", at(0));
    assert!(attempt_outcome(&create, Ok(())).unwrap());
    assert_eq!(
        attempt_outcome(&create, Err("conflict".to_string()))
            .unwrap_err()
            .message(),
        "lease error: conflict"
    );
    assert!(!attempt_outcome(&LeaseStep::Decline, Ok(())).unwrap());
}

fn selector(pairs: &[(&str, &str)]) -> SelectorObject {
    SelectorObject {
        match_labels: Some(labels(pairs)),
        match_expressions: None,
    }
}

fn pod_peer(pairs: &[(&str, &str)]) -> PeerObject {
    PeerObject {
        ip_block: None,
        namespace_selector: None,
        pod_selector: Some(selector(pairs)),
    }
}

fn policy() -> PolicyObject {
    PolicyObject {
        metadata: meta("default", "web"),
        spec: Some(PolicySpec {
            pod_selector: Some(selector(&[("app", "web")])),
            policy_types: Some(vec!["Ingress".to_string()]),
            ingress: Some(vec![RuleObject {
                peers: Some(vec![pod_peer(&[("app", "client")])]),
                ports: None,
            }]),
            egress: None,
        }),
    }
}

#[test]
fn maps_ingress_policy_with_pod_selector_peer() {
    let m = map_policy(&policy()).unwrap();
    assert_eq!(m.name, "web");
    assert!(m.policy_types.ingress && !m.policy_types.egress);
    assert_eq!(m.ingress.len(), 1);
    assert_eq!(m.ingress[0].peers.len(), 1);
}

#[test]
fn ipblock_peer_maps_to_cidr_and_except() {
    let peer = PeerObject {
        ip_block: Some(IpBlockObject {
            cidr: "10.0.0.0/8".to_string(),
            except: Some(vec!["10.1.0.0/16".to_string()]),
        }),
        namespace_selector: None,
        pod_selector: None,
    };
    match map_peer(&peer).unwrap() {
        Peer::IpBlock { cidr, except } => {
            assert_eq!(cidr.to_text(), "10.0.0.0/8");
            assert_eq!(except.len(), 1);
        }
        _ => panic!("expected ipblock"),
    }
}

#[test]
fn directions_follow_types_or_rules() {
    let mut np = policy();
    np.spec.as_mut().unwrap().policy_types = None;
    let m = map_policy(&np).unwrap();
    assert!(m.policy_types.ingress && !m.policy_types.egress);
    np.spec.as_mut().unwrap().egress = Some(vec![RuleObject {
        peers: None,
        ports: None,
    }]);
    let m = map_policy(&np).unwrap();
    assert!(m.policy_types.ingress && m.policy_types.egress);
    np.spec.as_mut().unwrap().policy_types = Some(vec!["Egress".to_string()]);
    let m = map_policy(&np).unwrap();
    assert!(!m.policy_types.ingress && m.policy_types.egress);
    np.spec.as_mut().unwrap().pod_selector = None;
    assert!(selector_matches(
        &map_policy(&np).unwrap().pod_selector,
        &labels(&[("any", "thing")])
    ));
    np.spec = None;
    assert!(map_policy(&np).is_none());
}

#[test]
fn unreadable_networks_are_left_out() {
    let bad = PeerObject {
        ip_block: Some(IpBlockObject {
            cidr: "10.0.0.0/33".to_string(),
            except: None,
        }),
        namespace_selector: None,
        pod_selector: None,
    };
    assert!(map_peer(&bad).is_none());
}

#[test]
fn set_based_requirements_keep_their_meaning() {
    let expr = |operator: &str, values: &[&str]| SelectorObject {
        match_labels: None,
        match_expressions: Some(vec![ExpressionObject {
            key: "env".to_string(),
            operator: operator.to_string(),
            values: Some(values.iter().map(|v| v.to_string()).collect()),
        }]),
    };
    let prod = labels(&[("env", "prod")]);
    let none = labels(&[]);
    let check = |o: SelectorObject, l: &Labels| selector_matches(&match_labels(&o), l);
    assert!(check(expr("In", &["prod"]), &prod));
    assert!(!check(expr("In", &["dev"]), &prod));
    assert!(!check(expr("In", &["prod"]), &none));
    assert!(check(expr("NotIn", &["dev"]), &prod));
    assert!(check(expr("NotIn", &["dev"]), &none));
    assert!(check(expr("Exists", &[]), &prod));
    assert!(check(expr("DoesNotExist", &[]), &none));
    assert!(!check(expr("Gt", &["1"]), &prod));
}

#[test]
fn ports_have_lower_case_protocols() {
    let port = |protocol: Option<&str>, port: Option<IntOrString>| PortObject {
        protocol: protocol.map(String::from),
        port,
    };
    let v = map_ports(&Some(vec![
        port(Some("UDP"), Some(IntOrString::Int(53))),
        port(None, Some(IntOrString::Name("http".to_string()))),
        port(Some("SCTP"), Some(IntOrString::Int(70000))),
    ]));
    assert_eq!(v.len(), 3);
    assert_eq!((v[0].protocol.as_str(), v[0].port), ("udp", Some(53)));
    assert_eq!((v[1].protocol.as_str(), v[1].port), ("tcp", None));
    assert_eq!((v[2].protocol.as_str(), v[2].port), ("sctp", None));
    assert!(map_ports(&None).is_empty());
    let one = port_spec(&port(None, Some(IntOrString::Int(80))), "tcp".to_string());
    assert_eq!((one.protocol.as_str(), one.port), ("tcp", Some(80)));
}

#[test]
fn pods_and_namespaces_map() {
    let mut pod = PodObject {
        metadata: meta("default", "p"),
        pod_ips: Some(vec![
            "10.244.0.5".to_string(),
            "x".to_string(),
            "fd00::5".to_string(),
        ]),
        pod_ip: Some("10.244.0.9".to_string()),
        node_name: Some("node-a".to_string()),
        host_network: None,
    };
    let p = map_pod(&pod).unwrap();
    assert_eq!(p.ips, vec![ip("10.244.0.5"), ip("fd00::5")]);
    assert!(!p.host_network);
    assert_eq!(p.node_name, "node-a");
    pod.pod_ips = None;
    assert_eq!(map_pod(&pod).unwrap().ips, vec![ip("10.244.0.9")]);
    pod.pod_ip = None;
    assert!(map_pod(&pod).is_none());
    pod.pod_ip = Some("10.244.0.9".to_string());
    pod.metadata.name = None;
    assert!(map_pod(&pod).is_none());
    let mut ns = NamespaceObject {
        metadata: meta("", "prod"),
    };
    ns.metadata.labels = Some(labels(&[("team", "a")]));
    let n = map_namespace(&ns).unwrap();
    assert_eq!(n.name, "prod");
    assert_eq!(n.labels.get("team"), Some(&"a".to_string()));
}

fn slice(ns: &str, svc: &str, port: i32, addr: &str, node: &str, ready: bool) -> EndpointSlice {
    EndpointSlice {
        metadata: ObjectMeta {
            namespace: Some(ns.to_string()),
            name: None,
            labels: Some(labels(&[(SERVICE_NAME_LABEL, svc)])),
            annotations: None,
        },
        endpoints: Some(vec![Endpoint {
            addresses: vec![addr.to_string()],
            ready: Some(ready),
            node_name: Some(node.to_string()),
        }]),
        ports: Some(vec![EndpointPort {
            name: Some("http".to_string()),
            port: Some(port),
        }]),
    }
}

fn clusterip_service(ns: &str, name: &str, cip: &str) -> Service {
    let mut spec = ServiceSpec::default();
    spec.cluster_ips = Some(vec![cip.to_string()]);
    spec.ports = Some(vec![ServicePort {
        name: Some("http".to_string()),
        port: 80,
        protocol: Some("TCP".to_string()),
        node_port: None,
    }]);
    Service {
        metadata: meta(ns, name),
        spec: Some(spec),
        ingress: None,
    }
}

fn annotated(pairs: &[(&str, &str)]) -> Service {
    let mut svc = clusterip_service("default", "web", "10.96.0.10");
    svc.metadata.annotations = Some(labels(pairs));
    svc
}

#[test]
fn maps_clusterip_service_with_ready_endpoints() {
    let svcs = vec![clusterip_service("default", "web", "10.96.0.10")];
    let slices = vec![
        slice("default", "web", 8080, "10.244.0.5", "node-a", true),
        slice("default", "web", 8080, "10.244.1.5", "node-b", false),
    ];
    let mapped = map_services(&svcs, &slices, "node-a");
    assert_eq!(mapped.len(), 1);
    let (info, eps) = &mapped[0];
    assert_eq!(info.port, 80);
    assert_eq!(info.cluster_ips, vec![ip("10.96.0.10")]);
    assert_eq!(eps.len(), 2);
    assert!(eps
        .iter()
        .any(|e| e.ip.to_text() == "10.244.0.5" && e.ready && e.is_local));
    assert!(eps
        .iter()
        .any(|e| e.ip.to_text() == "10.244.1.5" && !e.ready));
}

#[test]
fn headless_and_externalname_skipped() {
    let mut headless = clusterip_service("default", "h", "None");
    headless.spec.as_mut().unwrap().cluster_ips = Some(vec!["None".to_string()]);
    let mut extname = clusterip_service("default", "e", "10.96.0.11");
    extname.spec.as_mut().unwrap().type_ = Some("ExternalName".to_string());
    let mapped = map_services(&[headless, extname], &[], "node-a");
    assert!(mapped.is_empty());
}

#[test]
fn traffic_policy_and_loadbalancer_ingress_mapped() {
    let mut svc = clusterip_service("default", "web", "10.96.0.10");
    {
        let spec = svc.spec.as_mut().unwrap();
        spec.internal_traffic_policy = Some("Local".to_string());
        spec.external_traffic_policy = Some("Local".to_string());
        spec.external_ips = Some(vec!["203.0.113.7".to_string()]);
    }
    svc.ingress = Some(vec![Some("198.51.100.9".to_string())]);
    let info = &map_services(&[svc], &[], "node-a")[0].0;
    assert!(info.internal_traffic_local);
    assert!(info.external_traffic_local);
    assert_eq!(info.external_ips, vec![ip("203.0.113.7")]);
    assert_eq!(info.load_balancer_ips, vec![ip("198.51.100.9")]);
}

#[test]
fn legacy_local_annotation_forces_both_local() {
    let info = &map_services(&[annotated(&[(LOCAL_ANNOTATION, "true")])], &[], "node-a")[0].0;
    assert!(info.internal_traffic_local);
    assert!(info.external_traffic_local);
}

#[test]
fn scheduler_annotation_parsed() {
    let mapped = map_services(&[annotated(&[(SCHEDULER_ANNOTATION, "lc")])], &[], "node-a");
    assert_eq!(mapped[0].0.scheduler, Scheduler::Lc);
}

#[test]
fn hairpin_externalips_annotation_parsed() {
    let svc = annotated(&[(HAIRPIN_EXTERNALIPS_ANNOTATION, "")]);
    assert!(
        map_services(&[svc], &[], "node-a")[0]
            .0
            .hairpin_external_ips
    );
    let plain = clusterip_service("default", "web2", "10.96.0.11");
    assert!(
        !map_services(&[plain], &[], "node-a")[0]
            .0
            .hairpin_external_ips
    );
}

#[test]
fn schedflags_parsed_only_for_maglev() {
    let ann = |sched: &str| {
        let svc = annotated(&[
            (SCHEDULER_ANNOTATION, sched),
            (SCHEDFLAGS_ANNOTATION, "flag-1,flag-2"),
        ]);
        map_services(&[svc], &[], "node-a")[0].0.sched_flags
    };
    assert_eq!(
        ann("mh"),
        SchedFlags {
            flag1: true,
            flag2: true,
            flag3: false
        }
    );
    assert_eq!(ann("rr"), SchedFlags::default());
}

#[test]
fn names_of_protocols_and_schedulers() {
    assert_eq!(Protocol::parse("TCP"), Protocol::Tcp);
    assert_eq!(Protocol::parse("UDP"), Protocol::Udp);
    assert_eq!(Protocol::parse("SCTP"), Protocol::Sctp);
    assert_eq!(Scheduler::parse("sh"), Scheduler::Sh);
    assert_eq!(Scheduler::parse("dh"), Scheduler::Dh);
    assert_eq!(Scheduler::parse("unknown"), Scheduler::Rr);
    assert!(SchedFlags::parse(" flag-3 ").flag3);
}

#[test]
fn affinity_annotations_and_ports_of_a_service() {
    let mut svc = annotated(&[(DSR_ANNOTATION, "tunnel"), (HAIRPIN_ANNOTATION, "")]);
    {
        let spec = svc.spec.as_mut().unwrap();
        spec.session_affinity = Some("ClientIP".to_string());
        spec.health_check_node_port = Some(32000);
        let mut more = spec.ports.as_ref().unwrap()[0].clone();
        more.name = None;
        more.port = 70000;
        spec.ports.as_mut().unwrap().push(more.clone());
        more.port = 53;
        more.protocol = Some("UDP".to_string());
        more.node_port = Some(30053);
        spec.ports.as_mut().unwrap().push(more);
    }
    let mapped = map_services(&[svc.clone()], &[], "node-a");
    assert_eq!(mapped.len(), 2);
    let info = &mapped[1].0;
    assert_eq!((info.port, info.node_port), (53, Some(30053)));
    assert_eq!(info.protocol, Protocol::Udp);
    assert_eq!(info.port_name, "");
    assert!(info.dsr && info.hairpin && info.session_affinity);
    assert_eq!(info.affinity_timeout, 10800);
    assert_eq!(info.health_check_node_port, Some(32000));
    svc.spec.as_mut().unwrap().affinity_timeout_seconds = Some(60);
    assert_eq!(
        map_services(&[svc], &[], "node-a")[0].0.affinity_timeout,
        60
    );
}

#[test]
fn endpoints_take_the_port_of_their_slice() {
    let mut s = slice("default", "web", 8080, "10.244.0.5", "node-a", true);
    s.ports.as_mut().unwrap().push(EndpointPort {
        name: Some("metrics".to_string()),
        port: Some(9090),
    });
    s.endpoints.as_mut().unwrap()[0].ready = None;
    let slices = [s];
    let port = |name: &str| endpoints_for(&slices, "default", "web", name, "node-b")[0].port;
    assert_eq!(port("metrics"), 9090);
    assert_eq!(port("http"), 8080);
    assert_eq!(port(""), 8080);
    assert!(endpoints_for(&slices, "default", "web", "other", "node-b").is_empty());
    let e = endpoints_for(&slices, "default", "web", "", "node-b")[0];
    assert!(e.ready && !e.is_local);
    assert!(endpoints_for(&slices, "default", "api", "", "node-b").is_empty());
    assert!(endpoints_for(&slices, "prod", "web", "", "node-b").is_empty());
}

#[test]
fn a_named_port_is_not_served_on_another() {
    let mut s = slice("default", "web", 9090, "10.244.0.5", "node-a", true);
    s.ports = Some(vec![
        EndpointPort {
            name: Some("metrics".to_string()),
            port: Some(9090),
        },
        EndpointPort {
            name: Some("grpc".to_string()),
            port: Some(9091),
        },
    ]);
    let slices = [s];
    assert!(endpoints_for(&slices, "default", "web", "http", "node-a").is_empty());
    let grpc = endpoints_for(&slices, "default", "web", "grpc", "node-a");
    assert_eq!(grpc[0].port, 9091);
}

fn vip_service(cip: &str, ext_local: bool) -> Service {
    let mut spec = ServiceSpec::default();
    spec.cluster_ips = Some(vec![cip.to_string()]);
    if ext_local {
        spec.external_traffic_policy = Some("Local".to_string());
    }
    Service {
        metadata: meta("default", "web"),
        spec: Some(spec),
        ingress: None,
    }
}

fn vip_slice(node: &str, ready: bool) -> EndpointSlice {
    let mut s = slice("default", "web", 0, "10.244.0.5", node, ready);
    s.ports = None;
    s
}

#[test]
fn maps_clusterip_and_local_endpoint_presence() {
    let v = map_svc_vips(
        &[vip_service("10.96.0.10", true)],
        &[vip_slice("node-a", true)],
        "node-a",
    );
    assert_eq!(v.len(), 1);
    assert_eq!(v[0].cluster_ips, vec![ip("10.96.0.10")]);
    assert!(v[0].external_traffic_local);
    assert!(v[0].has_local_endpoints);
}

#[test]
fn endpoint_on_other_node_is_not_local() {
    let v = map_svc_vips(
        &[vip_service("10.96.0.10", true)],
        &[vip_slice("node-b", true)],
        "node-a",
    );
    assert!(!v[0].has_local_endpoints);
    let v = map_svc_vips(
        &[vip_service("10.96.0.10", true)],
        &[vip_slice("node-a", false)],
        "node-a",
    );
    assert!(!v[0].has_local_endpoints);
}

#[test]
fn advertise_annotations_parsed() {
    let mut s = vip_service("10.96.0.10", false);
    s.metadata.annotations = Some(labels(&[(ADV_CLUSTER_ANN, "false"), (SKIP_LB_ANN, "")]));
    let v = map_svc_vips(&[s.clone()], &[], "node-a");
    assert_eq!(v[0].adv_cluster, Some(false));
    assert!(v[0].skip_lb_ips);
    assert_eq!(v[0].adv_external, None);
    s.metadata.annotations = Some(labels(&[(LOCAL_ANN, "true")]));
    let v = map_svc_vips(&[s], &[], "node-a");
    assert!(v[0].external_traffic_local);
    assert!(!v[0].internal_traffic_local);
}

fn node(name: &str, internal_ip: &str, annotations: &[(&str, &str)]) -> NodeObject {
    NodeObject {
        metadata: ObjectMeta {
            namespace: None,
            name: Some(name.to_string()),
            labels: None,
            annotations: Some(labels(annotations)),
        },
        addresses: Some(vec![NodeAddressObject {
            type_: "InternalIP".to_string(),
            address: internal_ip.to_string(),
        }]),
        pod_cidrs: None,
        pod_cidr: None,
    }
}

#[test]
fn maps_node_ip_and_default_asn() {
    let b = node_to_bgp(&node("worker-1", "10.0.0.5", &[]), 64512).unwrap();
    assert_eq!(b.name, "worker-1");
    assert_eq!(b.ip, ip("10.0.0.5"));
    assert_eq!(b.asn, 64512);
}

#[test]
fn node_asn_annotation_overrides_cluster_asn() {
    let n = node("w", "10.0.0.5", &[("kube-router.io/node.asn", "65001")]);
    assert_eq!(node_to_bgp(&n, 64512).unwrap().asn, 65001);
}

#[test]
fn rr_server_annotation_parsed() {
    let n = node("w", "10.0.0.5", &[("kube-router.io/rr.server", "42")]);
    assert_eq!(node_to_bgp(&n, 64512).unwrap().rr_server, Some(42));
}

#[test]
fn node_without_ip_is_skipped() {
    let mut n = node("no-ip", "10.0.0.5", &[]);
    n.addresses = None;
    assert!(node_to_bgp(&n, 64512).is_none());
    assert!(node_to_route(&n).is_none());
}

#[test]
fn resolve_name_prefers_override() {
    assert_eq!(
        resolve_node_name("explicit", None, None),
        Some("explicit".to_string())
    );
    assert_eq!(
        resolve_node_name("explicit", Some("n".to_string()), Some("h".to_string())),
        Some("explicit".to_string())
    );
    assert_eq!(
        resolve_node_name("", Some("n".to_string()), Some("h".to_string())),
        Some("n".to_string())
    );
    assert_eq!(
        resolve_node_name("", None, Some("h".to_string())),
        Some("h".to_string())
    );
    assert_eq!(resolve_node_name("", None, None), None);
}

#[test]
fn nodes_map_to_routes_and_peers() {
    let mut a = node("a", "10.0.0.1", &[]);
    a.pod_cidrs = Some(vec!["10.244.0.0/24".to_string(), "x".to_string()]);
    a.pod_cidr = Some("10.9.0.0/16".to_string());
    let mut b = node("b", "not-an-ip", &[]);
    b.pod_cidrs = Some(vec![]);
    b.pod_cidr = Some("10.244.1.0/24".to_string());
    let nodes = [a, b];
    assert_eq!(bgp_nodes(&nodes, 64512).len(), 1);
    let routes = node_routes(&nodes);
    assert_eq!(routes.len(), 1);
    assert_eq!(routes[0].pod_cidrs[0].to_text(), "10.244.0.0/24");
    assert_eq!(routes[0].pod_cidrs.len(), 1);
    assert_eq!(local_pod_cidrs(&nodes, "b")[0].to_text(), "10.244.1.0/24");
    assert!(local_pod_cidrs(&nodes, "c").is_empty());
    assert!(local_node(&nodes, "b", 64512).is_none());
    assert_eq!(local_node(&nodes, "a", 64512).unwrap().asn, 64512);
}

#[test]
fn the_routes_controller_is_set_up_from_the_configuration() {
    let nodes = [node("a", "10.0.0.1", &[])];
    let mut c = KubeRouterConfig::default();
    c.cluster_asn = 64512;
    c.peer_router_ports = vec![179, 70000, 1179];
    let r = build_controller(&c, &nodes, "a").unwrap();
    assert_eq!(r.local.asn, 64512);
    assert_eq!(r.external.ports, vec![179, 1179]);
    assert_eq!(r.external.multihop_ttl, None);
    assert_eq!(r.external.local_address, Some(ip("10.0.0.1")));
    assert!(r.external.ips.is_empty());
    assert!(r.graceful_restart.is_none());
    c.bgp_graceful_restart = true;
    c.bgp_graceful_restart_time = Duration::from_secs(0x1_0000_0005);
    c.peer_router_multihop_ttl = 4;
    c.peer_router_ips = vec![ip("10.0.0.9")];
    c.peer_router_asns = vec![64513];
    c.peer_router_passwords = vec!["word".to_string()];
    let r = build_controller(&c, &nodes, "a").unwrap();
    assert_eq!(r.graceful_restart.unwrap().restart_time_secs, 5);
    assert_eq!(r.graceful_restart.unwrap().deferral_time_secs, 360);
    assert_eq!(r.external.multihop_ttl, Some(4));
    assert_eq!(r.external.ips, vec![ip("10.0.0.9")]);
    assert_eq!(r.external.asns, vec![64513]);
    assert_eq!(r.external.passwords, vec!["word".to_string()]);
    assert_eq!(r.external.graceful_restart, r.graceful_restart);
    assert!(build_controller(&c, &nodes, "z").is_none());
}

#[test]
fn direct_routes_lead_to_other_nodes_in_one_family() {
    let mut a = node("a", "10.0.0.1", &[]);
    a.pod_cidrs = Some(vec!["10.244.0.0/24".to_string()]);
    let mut b = node("b", "10.0.0.2", &[]);
    b.pod_cidrs = Some(vec![
        "10.244.1.0/24".to_string(),
        "fd00:1::/64".to_string(),
        "10.244.2.0/24".to_string(),
    ]);
    let routes = direct_routes(&[a, b], "a");
    let shown: Vec<(String, Option<IpAddr>, u32)> = routes
        .iter()
        .map(|r| (r.dst.to_text(), r.gateway, r.table))
        .collect();
    assert_eq!(
        shown,
        vec![
            ("10.244.1.0/24".to_string(), Some(ip("10.0.0.2")), 254),
            ("10.244.2.0/24".to_string(), Some(ip("10.0.0.2")), 254),
        ]
    );
}

#[test]
fn settings_that_are_not_valid_make_no_external_peers() {
    let peer = PeerConfig {
        neighbor: ip("10.0.0.9"),
        peer_asn: 64513,
        is_external: true,
        rr_client: false,
        rr_cluster_id: None,
        local_address: None,
        password: None,
        port: None,
        multihop_ttl: None,
        graceful_restart: None,
    };
    assert_eq!(external_peers(Ok(vec![peer]))[0].peer_asn, 64513);
    assert!(external_peers(Err("lengths differ".to_string())).is_empty());
}

#[test]
fn the_speaker_is_started_where_it_is_installed() {
    let mut c = KubeRouterConfig::default();
    assert!(engine_plan(&c, false).is_none());
    let p = engine_plan(&c, true).unwrap();
    assert_eq!(p.endpoint, "127.0.0.1:50051");
    c.gobgp_admin_address = String::new();
    assert_eq!(engine_plan(&c, true).unwrap().admin_addr, "127.0.0.1");
    c.gobgp_admin_port = 0;
    assert!(engine_plan(&c, true).is_none());
    let g = global_config(&c, Some(ip("10.0.0.1")));
    assert_eq!(g.router_id.as_deref(), Some("10.0.0.1"));
    assert_eq!(g.listen_addresses, vec![ip("10.0.0.1")]);
    assert_eq!(g.listen_port, 179);
    assert_eq!(global_config(&c, Some(ip("fd00::1"))).router_id, None);
    assert!(global_config(&c, None).listen_addresses.is_empty());
    assert_eq!(GOBGPD_PATH, "/usr/local/bin/gobgpd");
    assert_eq!(BUNDLED_CNI_DIR, "/opt/cni-bundled");
}

#[test]
fn kernel_settings() {
    assert_eq!(forwarding_settings(false), vec![("net.ipv4.ip_forward", "1")]);
    assert_eq!(forwarding_settings(true).len(), 2);
    assert_eq!(ipvs_settings().len(), 6);
    assert_eq!(ipvs_settings()[3], ("net.ipv4.vs.conn_reuse_mode", "0"));
    assert_eq!(filtered_links(), vec!["all", "kube-bridge", "kube-dummy-if"]);
    assert_eq!(rp_filter_key("eth0"), "net.ipv4.conf.eth0.rp_filter");
    assert_eq!(loosened_rp_filter(Some("1".to_string())), Some("2"));
    assert_eq!(loosened_rp_filter(Some("0".to_string())), None);
    assert_eq!(loosened_rp_filter(None), None);
    assert_eq!(filtered_address(Some(ip("10.0.0.1"))), Some(ip("10.0.0.1")));
    assert_eq!(filtered_address(Some(ip("fd00::1"))), None);
}

#[test]
fn controllers_are_set_up_from_the_configuration() {
    let mut c = KubeRouterConfig::default();
    c.enable_ipv6 = true;
    assert_eq!(enabled_family_list(&c).len(), 2);
    let (v4, v6) = split_ranges(&[
        "10.1.0.0/24".to_string(),
        "bad".to_string(),
        "fd00::/64".to_string(),
    ]);
    assert_eq!((v4.len(), v6.len()), (1, 1));
    assert_eq!(lease_namespace(None), "kube-system");
    assert_eq!(lease_namespace(Some("x".to_string())), "x");
    assert_eq!(lease_identity(None, None), "kube-router-rs");
    assert_eq!(lease_identity(None, Some("h".to_string())), "h");
    assert_eq!(
        lease_identity(Some("p".to_string()), Some("h".to_string())),
        "p"
    );
    assert!(vip_advertisement(&c, Some(ip("10.0.0.1"))).is_none());
    c.advertise_external_ip = true;
    let (d, next_hop) = vip_advertisement(&c, Some(ip("10.0.0.1"))).unwrap();
    assert!(d.external && !d.cluster && !d.loadbalancer);
    assert_eq!(next_hop, ip("10.0.0.1"));
    assert!(vip_advertisement(&c, None).is_none());
    assert_eq!(
        node_port_addresses(&c, vec![ip("10.0.0.2")], Some(ip("10.0.0.1"))),
        vec![ip("10.0.0.1")]
    );
    c.nodeport_bindon_all_ip = true;
    assert_eq!(
        node_port_addresses(&c, vec![ip("10.0.0.2")], Some(ip("10.0.0.1"))),
        vec![ip("10.0.0.2")]
    );
    let r = validation_ranges(&c);
    assert_eq!(r.cluster[0].to_text(), "10.96.0.0/12");
    assert!(r.external.is_empty() && r.strict);
    let m = masquerade_config(&c, Some(ip("fd00::1")), &r.cluster);
    assert_eq!(m.primary, vec![(true, ip("fd00::1"))]);
    assert_eq!(m.pod_cidrs, vec!["10.96.0.0/12".to_string()]);
    assert!(m.random_fully && !m.all);
}

#[test]
fn own_paths_are_skipped() {
    let ev = kube_router_rs::bgp::grpc::PathEvent {
        prefix: kube_router_rs::net::parse_net("10.244.1.0/24").unwrap(),
        next_hop: ip("10.0.0.1"),
        withdrawal: false,
    };
    assert!(is_own_path(&ev, Some(ip("10.0.0.1"))));
    assert!(!is_own_path(&ev, Some(ip("10.0.0.2"))));
    assert!(!is_own_path(&ev, None));
}

#[test]
fn advertising_and_the_proxy_agree() {
    let mut svc = clusterip_service("default", "web", "10.96.0.10");
    svc.metadata.annotations = Some(labels(&[(LOCAL_ANNOTATION, "true")]));
    svc.ingress = Some(vec![Some("198.51.100.9".to_string())]);
    let slices = [slice("default", "web", 8080, "10.244.0.5", "node-a", true)];
    let proxied = map_services(&[svc.clone()], &slices, "node-a");
    let vips = map_svc_vips(&[svc], &slices, "node-a");
    assert_eq!(proxied[0].0.cluster_ips, vips[0].cluster_ips);
    assert_eq!(proxied[0].0.load_balancer_ips, vips[0].lb_ips);
    assert_eq!(
        proxied[0].0.external_traffic_local,
        vips[0].external_traffic_local
    );
    assert!(proxied[0].1[0].is_local && vips[0].has_local_endpoints);
}
