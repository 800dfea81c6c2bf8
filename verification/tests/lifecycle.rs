use kube_router_rs::bgp::grpc::PathEvent;
use kube_router_rs::cleanup::chains_to_sweep;
use kube_router_rs::common::ipfamily::IpFamily;
use kube_router_rs::config::KubeRouterConfig;
use kube_router_rs::ip::IpAddr;
use kube_router_rs::lballoc::election::{LeaderElector, LeaseError};
use kube_router_rs::lballoc::model::LbService;
use kube_router_rs::lifecycle::{
    firewall_controller, inject_step, lb_allocator, lb_step, plan_startup, routing_tasks,
    service_proxy_plan, teardown_steps, watch_step, BestPath, Controller, InjectAction,
    InjectEvent, LbAction, LbEvent, Startup, TeardownStep, WatchAction, WatchEvent, DSR_MTU,
};
use kube_router_rs::net::parse_net;
use kube_router_rs::netpol::controller::{PolicyWorld, SyncAction};
use kube_router_rs::netpol::model::{LabelSelector, NetworkPolicy, Pod, PolicyTypes};
use kube_router_rs::observability::metrics::{
    service_families, service_labels, ServiceSeries, NAMESPACE,
};

fn ip(s: &str) -> IpAddr {
    IpAddr::parse(s).unwrap()
}

#[test]
fn an_invalid_configuration_ends_the_start() {
    let mut c = KubeRouterConfig::default();
    c.enable_ipv4 = false;
    c.cleanup_config = true;
    let e = plan_startup(&c, 0).unwrap_err();
    assert_eq!(
        e.message(),
        "configuration error: invalid configuration: \
         at least one of --enable-ipv4 or --enable-ipv6 must be true"
    );
}

#[test]
fn a_cleanup_needs_no_root() {
    let mut c = KubeRouterConfig::default();
    c.cleanup_config = true;
    match plan_startup(&c, 1000).unwrap() {
        Startup::Cleanup { plan, sweep } => {
            assert!(sweep);
            assert_eq!(plan[0].prog, "ipvsadm");
        }
        Startup::Run(_) => panic!("expected cleanup"),
    }
}

#[test]
fn root_runs_what_is_enabled() {
    let mut c = KubeRouterConfig::default();
    let e = plan_startup(&c, 1000).unwrap_err();
    assert!(e.message().contains("effective uid 1000"));
    c.run_firewall = false;
    c.run_loadbalancer = true;
    c.metrics_port = 8080;
    c.health_addr = "127.0.0.1".to_string();
    match plan_startup(&c, 0).unwrap() {
        Startup::Run(p) => {
            assert_eq!(p.health_addr.as_deref(), Some("127.0.0.1:20244"));
            assert_eq!(p.metrics_addr.as_deref(), Some("0.0.0.0:8080"));
            assert_eq!(p.components.len(), 4);
            assert_eq!(
                p.controllers,
                vec![
                    Controller::Routing,
                    Controller::ServiceProxy,
                    Controller::LoadBalancer
                ]
            );
        }
        Startup::Cleanup { .. } => panic!("expected run"),
    }
    c.metrics_port = 0;
    match plan_startup(&c, 0).unwrap() {
        Startup::Run(p) => assert_eq!(p.metrics_addr, None),
        Startup::Cleanup { .. } => panic!("expected run"),
    }
}

#[test]
fn only_a_leader_allocates() {
    let mut e = LeaderElector::new();
    let sync = |e: &mut LeaderElector| lb_step(e, LbEvent::SyncDue);
    assert_eq!(sync(&mut e), LbAction::Sync { allocate: false });
    assert_eq!(
        lb_step(&mut e, LbEvent::Attempted(Ok(true))),
        LbAction::Announce(true)
    );
    assert_eq!(
        lb_step(&mut e, LbEvent::Attempted(Ok(true))),
        LbAction::Nothing
    );
    assert_eq!(sync(&mut e), LbAction::Sync { allocate: true });
    assert_eq!(
        lb_step(
            &mut e,
            LbEvent::Attempted(Err(LeaseError("down".to_string())))
        ),
        LbAction::Announce(false)
    );
    assert_eq!(sync(&mut e), LbAction::Sync { allocate: false });
    assert_eq!(lb_step(&mut e, LbEvent::Signal(false)), LbAction::Nothing);
    assert_eq!(lb_step(&mut e, LbEvent::Signal(true)), LbAction::End);
}

#[test]
fn learned_paths_are_installed_but_for_own_ones() {
    let ev = PathEvent {
        prefix: parse_net("10.244.1.0/24").unwrap(),
        next_hop: ip("10.0.0.2"),
        withdrawal: true,
    };
    let here = Some(ip("10.0.0.1"));
    assert_eq!(
        inject_step(InjectEvent::Path(ev), here),
        InjectAction::Apply(BestPath {
            prefix: ev.prefix,
            next_hop: ev.next_hop,
            withdrawal: true
        })
    );
    assert_eq!(
        inject_step(InjectEvent::Path(ev), Some(ip("10.0.0.2"))),
        InjectAction::Skip
    );
    assert_eq!(inject_step(InjectEvent::SyncDue, here), InjectAction::Sync);
    assert_eq!(inject_step(InjectEvent::Closed, here), InjectAction::End);
    assert_eq!(inject_step(InjectEvent::Stop, here), InjectAction::End);
}

#[test]
fn routes_come_from_paths_or_are_direct() {
    let mut c = KubeRouterConfig::default();
    c.advertise_cluster_ip = true;
    let t = routing_tasks(&c, true, true, Some(ip("10.0.0.1")));
    assert!(t.learn && t.peers && !t.direct_routes);
    assert!(t.advertise.is_some());
    let t = routing_tasks(&c, false, false, Some(ip("10.0.0.1")));
    assert!(!t.learn && !t.peers && t.direct_routes);
    assert!(t.advertise.is_none());
    assert_eq!(
        teardown_steps(true),
        vec![
            TeardownStep::StopBgp,
            TeardownStep::StopTasks,
            TeardownStep::EndSpeaker
        ]
    );
    assert!(teardown_steps(false).is_empty());
}

#[test]
fn proxy_and_allocator_follow_the_configuration() {
    let mut c = KubeRouterConfig::default();
    c.loadbalancer_ip_range = vec!["203.0.113.0/24".to_string(), "fd00::/120".to_string()];
    let p = service_proxy_plan(&c, Some(ip("10.0.0.1")), vec![], &[]);
    assert_eq!(p.families, vec![IpFamily::V4]);
    assert_eq!(p.node_ips, vec![ip("10.0.0.1")]);
    assert_eq!(p.ranges.loadbalancer.len(), 2);
    assert!(p.permit_all && !p.hairpin_mode && !p.graceful.0);
    assert_eq!(p.mtu, DSR_MTU);
    assert_eq!(p.node_port_range, "30000-32767");
    let mut a = lb_allocator(&c);
    let mut svc = LbService::default();
    svc.is_loadbalancer = true;
    svc.want_v4 = true;
    svc.want_v6 = true;
    let given = a.reconcile(&[svc]);
    assert_eq!(given[0].ips, vec![ip("203.0.113.0"), ip("fd00::")]);
}

#[test]
fn a_lost_watch_is_taken_up_again() {
    assert_eq!(watch_step(WatchEvent::Start, false), WatchAction::Watch);
    assert_eq!(watch_step(WatchEvent::Lost, false), WatchAction::Wait(2));
    assert_eq!(watch_step(WatchEvent::Waited, false), WatchAction::Watch);
    assert_eq!(watch_step(WatchEvent::Waited, true), WatchAction::End);
    assert_eq!(watch_step(WatchEvent::Start, true), WatchAction::End);
}

#[test]
fn the_chains_of_a_sync_are_swept_again() {
    let c = KubeRouterConfig::default();
    let f = firewall_controller(&c, "node-a".to_string(), vec![]);
    let world = PolicyWorld {
        policies: vec![NetworkPolicy {
            namespace: "default".to_string(),
            name: "p".to_string(),
            pod_selector: LabelSelector::default(),
            policy_types: PolicyTypes {
                ingress: true,
                egress: false,
            },
            ingress: vec![],
            egress: vec![],
        }],
        pods: vec![Pod {
            namespace: "default".to_string(),
            name: "web".to_string(),
            labels: kube_router_rs::labels::Labels::new(),
            ips: vec![ip("10.244.0.5")],
            node_name: "node-a".to_string(),
            host_network: false,
        }],
        namespaces: vec![],
    };
    let docs: Vec<String> = f
        .reconcile(&world)
        .into_iter()
        .filter_map(|a| match a {
            SyncAction::RestoreFilter(_, d) => Some(d),
            _ => None,
        })
        .collect();
    let chains = chains_to_sweep(&docs[0]);
    assert_eq!(chains.len(), 5);
    assert!(chains.iter().any(|c| c.starts_with("KUBE-POD-FW-")));
    assert!(chains.contains(&"KUBE-NWPLCY-TAIL".to_string()));
}

#[test]
fn series_have_a_value_for_each_label() {
    let s = ServiceSeries {
        namespace: "default".to_string(),
        service: "web".to_string(),
        vip: "10.96.0.10".to_string(),
        protocol: "tcp".to_string(),
        port: 80,
    };
    assert_eq!(
        s.label_values(),
        vec!["default", "web", "10.96.0.10", "tcp", "80"]
    );
    assert_eq!(service_labels().len(), s.label_values().len());
    assert_eq!(service_families().len(), 10);
    assert_eq!(NAMESPACE, "kube_router");
}

#[test]
fn nothing_is_watched_without_controllers() {
    let mut c = KubeRouterConfig::default();
    let watched = kube_router_rs::orchestrate::components_for(&c);
    for (i, a) in watched.iter().enumerate() {
        assert!(watched[i + 1..].iter().all(|b| b.0 != a.0));
    }
    c.run_router = false;
    c.run_firewall = false;
    c.run_service_proxy = false;
    assert!(kube_router_rs::orchestrate::components_for(&c).is_empty());
}
