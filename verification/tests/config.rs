use kube_router_rs::common::error::Error;
use kube_router_rs::config::{
    can_read_span, parse_go_duration, try_go_duration, KubeRouterConfig,
};
use kube_router_rs::ip::IpAddr;
use kube_router_rs::time::Duration;

fn defaults() -> KubeRouterConfig {
    KubeRouterConfig::default()
}

fn fault(c: &KubeRouterConfig) -> String {
    match c.validate() {
        Err(Error::Config(m)) => m,
        _ => panic!("valid"),
    }
}

#[test]
fn defaults_validate() {
    defaults().validate().expect("defaults should be valid");
}

#[test]
fn no_family_enabled_is_rejected() {
    let mut c = defaults();
    c.enable_ipv4 = false;
    c.enable_ipv6 = false;
    assert!(c.validate().is_err());
    assert_eq!(
        fault(&c),
        "at least one of --enable-ipv4 or --enable-ipv6 must be true"
    );
}

#[test]
fn ipv6_only_requires_router_id() {
    let mut c = defaults();
    c.enable_ipv4 = false;
    c.enable_ipv6 = true;
    assert!(c.validate().is_err());
    c.router_id = "generate".to_string();
    c.validate().expect("router-id satisfies v6-only");
}

#[test]
fn ipv6_only_router_not_running_is_ok() {
    let mut c = defaults();
    c.enable_ipv4 = false;
    c.enable_ipv6 = true;
    c.run_router = false;
    c.validate().expect("no router => no router-id needed");
}

#[test]
fn bad_cidr_rejected() {
    let mut c = defaults();
    c.service_cluster_ip_range = vec!["nonsense".to_string()];
    assert!(c.validate().is_err());
    assert_eq!(
        fault(&c),
        "--service-cluster-ip-range: invalid IP/CIDR \"nonsense\": invalid IP address syntax"
    );
}

#[test]
fn too_many_cluster_ranges_rejected() {
    let mut c = defaults();
    c.service_cluster_ip_range = vec![
        "10.0.0.0/12".to_string(),
        "fd00::/108".to_string(),
        "10.1.0.0/16".to_string(),
    ];
    assert!(c.validate().is_err());
}

#[test]
fn unknown_overlay_encap_rejected() {
    let mut c = defaults();
    c.overlay_encap = "vxlan".to_string();
    assert!(c.validate().is_err());
    assert_eq!(
        fault(&c),
        "--overlay-encap must be \"ipip\" or \"fou\", got \"vxlan\""
    );
}

#[test]
fn zero_sync_period_rejected() {
    let mut c = defaults();
    c.ipvs_sync_period = parse_go_duration("0s").unwrap();
    assert!(c.validate().is_err());
    assert_eq!(fault(&c), "--ipvs-sync-period must be greater than 0");
}

#[test]
fn peer_ip_asn_length_mismatch_rejected() {
    let mut c = defaults();
    c.peer_router_ips = vec![
        IpAddr::parse("10.0.0.1").unwrap(),
        IpAddr::parse("10.0.0.2").unwrap(),
    ];
    c.peer_router_asns = vec![65000];
    assert!(c.validate().is_err());
}

#[test]
fn unknown_overlay_type_rejected() {
    let mut c = defaults();
    c.overlay_type = "mesh".to_string();
    assert_eq!(
        fault(&c),
        "--overlay-type must be \"subnet\" or \"full\", got \"mesh\""
    );
}

#[test]
fn the_first_fault_is_reported() {
    let mut c = defaults();
    c.enable_ipv4 = false;
    c.overlay_encap = "vxlan".to_string();
    c.excluded_cidrs = vec!["10.0.0.0/8".to_string(), "x".to_string()];
    assert!(fault(&c).starts_with("at least one of"));
    c.enable_ipv4 = true;
    assert!(fault(&c).starts_with("--excluded-cidrs: "));
    c.excluded_cidrs.clear();
    assert!(fault(&c).starts_with("--overlay-encap"));
    assert!(c.enabled_families().contains(kube_router_rs::common::ipfamily::IpFamily::V4));
}

#[test]
fn controller_default_toggles_match_upstream() {
    let c = defaults();
    assert!(c.run_router, "run-router defaults true");
    assert!(c.run_firewall, "run-firewall defaults true");
    assert!(c.run_service_proxy, "run-service-proxy defaults true");
    assert!(!c.run_loadbalancer, "run-loadbalancer defaults false");
}

#[test]
fn family_defaults_match_upstream() {
    let c = defaults();
    assert!(c.enable_ipv4);
    assert!(!c.enable_ipv6);
}

#[test]
fn numeric_and_string_defaults_match_upstream() {
    let c = defaults();
    assert_eq!(c.bgp_port, 179);
    assert_eq!(c.gobgp_admin_address, "127.0.0.1");
    assert_eq!(c.gobgp_admin_port, 50051);
    assert_eq!(c.health_port, 20244);
    assert_eq!(c.metrics_port, 0);
    assert_eq!(c.metrics_path, "/metrics");
    assert_eq!(c.overlay_encap, "ipip");
    assert_eq!(c.overlay_type, "subnet");
    assert_eq!(c.overlay_encap_port, 5555);
    assert_eq!(c.service_node_port_range, "30000-32767");
    assert_eq!(c.service_cluster_ip_range, vec!["10.96.0.0/12".to_string()]);
    assert_eq!(c.v_level, "0");
    assert_eq!(c.cluster_asn, 0);
    assert_eq!(c.peer_router_multihop_ttl, 0);
}

#[test]
fn duration_defaults_match_upstream() {
    let c = defaults();
    assert_eq!(c.bgp_holdtime, Duration::from_secs(90));
    assert_eq!(c.bgp_graceful_restart_time, Duration::from_secs(90));
    assert_eq!(
        c.bgp_graceful_restart_deferral_time,
        Duration::from_secs(360)
    );
    assert_eq!(c.cache_sync_timeout, Duration::from_secs(60));
    assert_eq!(c.iptables_sync_period, Duration::from_secs(300));
    assert_eq!(c.ipvs_sync_period, Duration::from_secs(300));
    assert_eq!(c.routes_sync_period, Duration::from_secs(300));
    assert_eq!(c.injected_routes_sync_period, Duration::from_secs(60));
    assert_eq!(c.ipvs_graceful_period, Duration::from_secs(30));
    assert_eq!(c.loadbalancer_sync_period, Duration::from_secs(60));
    assert_eq!(c.service_tcp_timeout, Duration::from_secs(0));
}

#[test]
fn spans_of_time_are_read() {
    assert_eq!(parse_go_duration("5m"), Ok(Duration::from_secs(300)));
    assert_eq!(parse_go_duration("1m30s"), Ok(Duration::from_secs(90)));
    assert_eq!(parse_go_duration("250ms"), Ok(Duration::from_millis(250)));
    assert_eq!(
        parse_go_duration("x"),
        Err("invalid duration \"x\": expected number at 0".to_string())
    );
    assert_eq!(
        try_go_duration("90s"),
        Some(Ok(Duration::from_secs(90)))
    );
    assert_eq!(
        try_go_duration("0000000000000060s"),
        Some(Ok(Duration::from_secs(60)))
    );
    assert_eq!(
        try_go_duration("600000000000ns"),
        Some(Ok(Duration::from_secs(600)))
    );
    assert_eq!(
        try_go_duration("18446744073709551615s"),
        Some(Ok(Duration {
            secs: u64::MAX,
            nanos: 0
        }))
    );
    assert!(try_go_duration("18446744073709551616s").unwrap().is_err());
    assert!(can_read_span("1.5s") && can_read_span("1 000 000 h 5 ms"));
    assert_eq!(
        try_go_duration("10000000000000m 5ms"),
        Some(Ok(Duration {
            secs: 600_000_000_000_000,
            nanos: 5_000_000
        }))
    );
    assert_eq!(
        try_go_duration("10000000000000ms"),
        Some(Ok(Duration::from_secs(10_000_000_000)))
    );
    assert_eq!(
        try_go_duration("18446744073709551614s 999ms"),
        Some(Ok(Duration {
            secs: u64::MAX - 1,
            nanos: 999_000_000
        }))
    );
    assert!(try_go_duration("99999999999999999999 minutes").unwrap().is_err());
    assert!(try_go_duration("5 fortnights").unwrap().is_err());
    assert_eq!(try_go_duration("18446744073709551615s 1000000000ns"), None);
    assert_eq!(try_go_duration("500ms 18446744073709551615.5s"), None);
    assert_eq!(try_go_duration("1 000 000 000 000y 5ms"), None);
}
