use kube_router_rs::bgp::engine::{
    BgpError, GlobalConfig, GracefulRestart, LoggingEngine, PeerConfig,
};
use kube_router_rs::bgp::grpc::{
    build_path, build_withdrawal, dual_afi_safis, family, global_message, map_err,
    parse_path_event, path_events, peer_message, watch_request, Attribute, AFI_IP, AFI_IP6,
    DEFAULT_BGP_PORT, SAFI_UNICAST,
};
use kube_router_rs::bgp::path::{Afi, Attr, Path, PathBuilder};
use kube_router_rs::bgp::policy::{DefinedSet, DefinedSetKind};
use kube_router_rs::bgp::server::{admin_uri, gobgpd_args, wait_step, WaitStep};
use kube_router_rs::ip::IpAddr;
use kube_router_rs::net::{parse_net, IpNet};
use kube_router_rs::time::{Duration, Instant};

fn net(s: &str) -> IpNet {
    parse_net(s).unwrap()
}

fn ip(s: &str) -> IpAddr {
    IpAddr::parse(s).unwrap()
}

fn path(prefix: &str, next_hop: &str) -> Path {
    PathBuilder::new(net(prefix), ip(next_hop)).build()
}

#[test]
fn build_path_v4_has_prefix_origin_and_next_hop() {
    let gp = build_path(&path("10.244.0.0/24", "192.168.32.5"));
    assert!(!gp.is_withdraw);
    assert_eq!(gp.family.afi, AFI_IP);
    let pfx = gp.nlri.as_ref().unwrap();
    assert_eq!(pfx.prefix, "10.244.0.0");
    assert_eq!(pfx.prefix_len, 24);
    let has_next_hop = gp.pattrs.iter().any(|a| matches!(a, Attribute::NextHop(_)));
    let has_mp = gp
        .pattrs
        .iter()
        .any(|a| matches!(a, Attribute::MpReach { .. }));
    assert!(has_next_hop && !has_mp);
}

#[test]
fn build_path_v6_uses_mp_reach() {
    let gp = build_path(&path("fd00:244::/64", "fd00::5"));
    assert_eq!(gp.family.afi, AFI_IP6);
    let (next_hops, nlris) = gp
        .pattrs
        .iter()
        .find_map(|a| match a {
            Attribute::MpReach {
                next_hops, nlris, ..
            } => Some((next_hops, nlris)),
            _ => None,
        })
        .expect("mp_reach present");
    assert_eq!(*next_hops, vec!["fd00::5".to_string()]);
    assert_eq!(nlris.len(), 1);
}

#[test]
fn path_event_roundtrips_v4() {
    let ev = parse_path_event(&build_path(&path("10.244.1.0/24", "192.168.32.4"))).expect("parses");
    assert_eq!(ev.prefix, net("10.244.1.0/24"));
    assert_eq!(ev.next_hop, ip("192.168.32.4"));
    assert!(!ev.withdrawal);
}

#[test]
fn path_event_roundtrips_v6_via_mp_reach() {
    let ev = parse_path_event(&build_path(&path("fd00:244:1::/64", "fd00::4"))).expect("parses");
    assert_eq!(ev.prefix, net("fd00:244:1::/64"));
    assert_eq!(ev.next_hop, ip("fd00::4"));
}

#[test]
fn build_path_withdrawal_flag() {
    let p = PathBuilder::new(net("10.244.0.0/24"), ip("192.168.32.5"))
        .withdrawal(true)
        .build();
    assert!(build_path(&p).is_withdraw);
}

#[test]
fn dual_afi_safis_has_v4_and_v6_unicast() {
    let afs = dual_afi_safis(false);
    assert_eq!(afs.len(), 2);
    let fams: Vec<(i32, i32)> = afs.iter().map(|a| (a.family.afi, a.family.safi)).collect();
    assert!(fams.contains(&(AFI_IP, SAFI_UNICAST)));
    assert!(fams.contains(&(AFI_IP6, SAFI_UNICAST)));
    assert!(afs.iter().all(|a| !a.mp_graceful_restart));
    assert!(dual_afi_safis(true).iter().all(|a| a.mp_graceful_restart));
}

#[test]
fn ipv4_path_uses_next_hop_attr() {
    let p = path("10.244.1.0/24", "10.0.0.2");
    assert_eq!(p.afi, Afi::Ip);
    assert!(p.attrs.contains(&Attr::Origin(0)));
    assert!(p.attrs.iter().any(|a| matches!(a, Attr::NextHop(_))));
    assert!(!p
        .attrs
        .iter()
        .any(|a| matches!(a, Attr::MpReachNlri { .. })));
    assert!(!p.withdrawal);
}

#[test]
fn ipv6_path_uses_mp_reach_nlri() {
    let p = path("fd00:244:1::/64", "fd00::2");
    assert_eq!(p.afi, Afi::Ip6);
    assert!(p.attrs.contains(&Attr::Origin(0)));
    assert!(p
        .attrs
        .iter()
        .any(|a| matches!(a, Attr::MpReachNlri { .. })));
    assert!(!p.attrs.iter().any(|a| matches!(a, Attr::NextHop(_))));
}

#[test]
fn withdrawal_flag_is_carried() {
    let p = PathBuilder::new(net("10.244.1.0/24"), ip("10.0.0.2"))
        .withdrawal(true)
        .build();
    assert!(p.withdrawal);
    assert_eq!(p.prefix, net("10.244.1.0/24"));
}

#[test]
fn names_match_upstream_scheme() {
    let v4 = DefinedSet::new(DefinedSetKind::PodCidr, false, vec![]);
    assert_eq!(v4.name, "podcidrdefinedset");
    let v6 = DefinedSet::new(DefinedSetKind::ServiceVip, true, vec![]);
    assert_eq!(v6.name, "servicevipsdefinedsetv6");
}

#[test]
fn gobgpd_args_bind_admin_endpoint() {
    assert_eq!(
        gobgpd_args("127.0.0.1", 50051),
        vec!["--api-hosts".to_string(), "127.0.0.1:50051".to_string()]
    );
    assert_eq!(admin_uri("127.0.0.1", 50051), "http://127.0.0.1:50051");
}

#[test]
fn waiting_ends_at_the_deadline() {
    let at = |ms: u64| Instant {
        since: Duration::from_millis(ms),
    };
    assert!(matches!(wait_step(true, at(5), at(1)), WaitStep::Ready));
    assert!(matches!(wait_step(false, at(5), at(5)), WaitStep::GiveUp));
    assert!(matches!(
        wait_step(false, at(4), at(5)),
        WaitStep::RetryAfterMillis(_)
    ));
}

#[test]
fn extra_attributes_survive_and_keep_the_next_hop() {
    let mut p = path("10.244.1.0/24", "192.168.32.4");
    p.attrs.push(Attr::Communities(vec![7, 8]));
    p.attrs.push(Attr::AsPathPrepend {
        asn: 65001,
        repeat: 3,
    });
    let gp = build_path(&p);
    assert!(gp
        .pattrs
        .iter()
        .any(|a| *a == Attribute::Communities(vec![7, 8])));
    assert!(gp
        .pattrs
        .iter()
        .any(|a| *a == Attribute::AsPath(vec![65001, 65001, 65001])));
    assert_eq!(parse_path_event(&gp).unwrap().next_hop, ip("192.168.32.4"));
}

#[test]
fn withdrawals_are_marked_and_read_back() {
    let m = build_withdrawal(&path("10.244.1.0/24", "192.168.32.4"));
    assert!(m.is_withdraw);
    assert!(parse_path_event(&m).unwrap().withdrawal);
}

#[test]
fn events_without_prefix_or_next_hop_are_dropped() {
    let mut m = build_path(&path("10.244.1.0/24", "192.168.32.4"));
    m.pattrs.clear();
    assert!(parse_path_event(&m).is_none());
    let mut m = build_path(&path("10.244.1.0/24", "192.168.32.4"));
    m.nlri = None;
    assert!(parse_path_event(&m).is_none());
    let whole = build_path(&path("10.244.2.0/24", "192.168.32.4"));
    let events = path_events(&[m, whole]);
    assert_eq!(events.len(), 1);
    assert_eq!(events[0].prefix, net("10.244.2.0/24"));
    assert_eq!(family(AFI_IP6).safi, SAFI_UNICAST);
}

#[test]
fn best_paths_are_asked_for_with_the_table_as_it_is() {
    let r = watch_request();
    assert!(r.best && r.init);
}

#[test]
fn next_hops_that_cannot_be_used_do_not_count() {
    let mut m = build_path(&path("10.244.1.0/24", "192.168.32.4"));
    m.pattrs.push(Attribute::NextHop("nowhere".to_string()));
    assert_eq!(parse_path_event(&m).unwrap().next_hop, ip("192.168.32.4"));
    m.pattrs.push(Attribute::NextHop("192.168.32.5".to_string()));
    assert_eq!(parse_path_event(&m).unwrap().next_hop, ip("192.168.32.5"));
    m.pattrs.clear();
    m.pattrs.push(Attribute::NextHop("nowhere".to_string()));
    assert!(parse_path_event(&m).is_none());
    let mut m = build_path(&path("fd00:244:1::/64", "fd00::4"));
    for a in m.pattrs.iter_mut() {
        if let Attribute::MpReach { next_hops, .. } = a {
            next_hops.insert(0, "nowhere".to_string());
        }
    }
    assert_eq!(parse_path_event(&m).unwrap().next_hop, ip("fd00::4"));
}

#[test]
fn peer_messages_carry_defaults_and_options() {
    let mut peer = PeerConfig {
        neighbor: ip("10.0.0.2"),
        peer_asn: 64512,
        is_external: false,
        rr_client: false,
        rr_cluster_id: None,
        local_address: None,
        password: None,
        port: None,
        multihop_ttl: None,
        graceful_restart: None,
    };
    let m = peer_message(&peer);
    assert_eq!(m.neighbor_address, "10.0.0.2");
    assert_eq!(m.peer_asn, 64512);
    assert_eq!(m.remote_port, DEFAULT_BGP_PORT);
    assert_eq!(m.auth_password, "");
    assert_eq!(m.multihop_ttl, None);
    assert_eq!(m.graceful_restart, None);
    assert_eq!(m.afi_safis.len(), 2);
    peer.port = Some(1179);
    peer.multihop_ttl = Some(4);
    peer.password = Some("SECRET-REDACTED".to_string());
    peer.graceful_restart = Some(GracefulRestart {
        restart_time_secs: 90,
        deferral_time_secs: 360,
    });
    let m = peer_message(&peer);
    assert_eq!(m.remote_port, 1179);
    assert_eq!(m.multihop_ttl, Some(4));
    assert_eq!(m.auth_password, "SECRET-REDACTED");
    assert!(m.graceful_restart.is_some());
    assert!(m.afi_safis.iter().all(|a| a.mp_graceful_restart));
}

#[test]
fn global_messages_carry_addresses_as_text() {
    let m = global_message(&GlobalConfig {
        asn: 64512,
        router_id: Some("10.0.0.1".to_string()),
        listen_port: 179,
        listen_addresses: vec![ip("10.0.0.1")],
    });
    assert_eq!(m.asn, 64512);
    assert_eq!(m.router_id, "10.0.0.1");
    assert_eq!(m.listen_port, 179);
    assert_eq!(m.listen_addresses, vec!["10.0.0.1".to_string()]);
}

#[test]
fn engine_errors_have_text() {
    let BgpError::Engine(m) = map_err("refused".to_string());
    assert_eq!(m, "refused");
    assert_eq!(
        BgpError::Engine("refused".to_string()).message(),
        "bgp engine error: refused"
    );
    let _speaker: LoggingEngine = LoggingEngine::new();
}
