use kube_router_rs::ip::IpAddr;
use kube_router_rs::kube_client::{
    parse_pod_cidrs, rank, select_node_ips, sync_outcome, CacheSyncTimeout, NodeAddress,
    NodeAddressType,
};
use kube_router_rs::time::Duration;

fn addr(kind: NodeAddressType, a: &str) -> NodeAddress {
    NodeAddress {
        kind,
        address: a.to_string(),
    }
}

fn ip(s: &str) -> IpAddr {
    IpAddr::parse(s).unwrap()
}

#[test]
fn prefers_internal_over_external_ipv4() {
    let addrs = vec![
        addr(NodeAddressType::External, "1.2.3.4"),
        addr(NodeAddressType::Internal, "10.0.0.5"),
    ];
    let ips = select_node_ips(&addrs);
    assert_eq!(ips.v4, Some(ip("10.0.0.5")));
}

#[test]
fn selects_both_families() {
    let addrs = vec![
        addr(NodeAddressType::Internal, "10.0.0.5"),
        addr(NodeAddressType::Internal, "fd00::5"),
    ];
    let ips = select_node_ips(&addrs);
    assert_eq!(ips.v4, Some(ip("10.0.0.5")));
    assert_eq!(ips.v6, Some(ip("fd00::5")));
}

#[test]
fn external_used_when_no_internal() {
    let addrs = vec![addr(NodeAddressType::External, "1.2.3.4")];
    assert_eq!(select_node_ips(&addrs).v4, Some(ip("1.2.3.4")));
}

#[test]
fn ignores_hostname_and_garbage() {
    let addrs = vec![
        addr(NodeAddressType::Other, "node-1"),
        addr(NodeAddressType::Internal, "not-an-ip"),
        addr(NodeAddressType::External, "10.0.0.9"),
    ];
    assert_eq!(select_node_ips(&addrs).v4, Some(ip("10.0.0.9")));
}

#[test]
fn parses_pod_cidrs_skipping_bad() {
    let cidrs = vec![
        "10.244.0.0/24".to_string(),
        "garbage".to_string(),
        "fd00:244::/64".to_string(),
    ];
    let nets = parse_pod_cidrs(&cidrs);
    assert_eq!(nets.len(), 2);
}

#[test]
fn the_first_of_a_kind_is_used() {
    let addrs = vec![
        addr(NodeAddressType::Internal, "10.0.0.5"),
        addr(NodeAddressType::Internal, "10.0.0.6"),
        addr(NodeAddressType::External, "1.2.3.4"),
    ];
    assert_eq!(select_node_ips(&addrs).v4, Some(ip("10.0.0.5")));
    assert_eq!(select_node_ips(&addrs).v6, None);
    assert!(rank(NodeAddressType::Internal) < rank(NodeAddressType::External));
    assert!(rank(NodeAddressType::External) < rank(NodeAddressType::Other));
}

#[test]
fn late_objects_time_out() {
    assert!(sync_outcome(true, Duration::from_secs(1)).is_ok());
    assert_eq!(
        sync_outcome(false, Duration::from_millis(50)),
        Err(CacheSyncTimeout(Duration::from_millis(50)))
    );
    assert_eq!(
        CacheSyncTimeout(Duration::from_millis(50)).message(),
        "cache sync timed out after 50ms"
    );
}
