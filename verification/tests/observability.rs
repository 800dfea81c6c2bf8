use kube_router_rs::observability::health::{Component, HealthState, GRACE};
use kube_router_rs::observability::http::{
    health_handler, health_reply, metrics_handler, parse_path, reason, render,
};
use kube_router_rs::observability::logging::{verbosity_to_level, LevelFilter};
use kube_router_rs::time::{Duration, Instant};

fn at(secs: u64) -> Instant {
    Instant {
        since: Duration::from_secs(secs),
    }
}

#[test]
fn empty_state_is_healthy() {
    assert!(HealthState::new().is_healthy(at(1)));
}

#[test]
fn fresh_heartbeat_is_healthy() {
    let mut h = HealthState::new();
    h.register(Component::NetworkRoutes, Duration::from_secs(5), at(1000));
    assert!(h.is_healthy(at(1000)));
}

#[test]
fn stale_component_is_unhealthy() {
    let mut h = HealthState::new();
    h.register(Component::NetworkPolicy, Duration::from_secs(5), at(1000));
    let later = at(1010);
    assert!(!h.is_healthy(later));
    assert_eq!(h.healthz_response(later), (500, "Unhealthy"));
    let stale = h.stale_components(later);
    assert_eq!(stale.len(), 1);
    assert_eq!(stale[0].0, Component::NetworkPolicy);
    assert_eq!(stale[0].1, 10_000_000_000);
}

#[test]
fn heartbeat_refreshes_window() {
    let mut h = HealthState::new();
    h.register(Component::NetworkServices, Duration::from_secs(5), at(1000));
    let t1 = at(1004);
    h.heartbeat(Component::NetworkServices, t1);
    assert!(h.is_healthy(at(1008)));
}

#[test]
fn one_stale_makes_all_unhealthy() {
    let mut h = HealthState::new();
    h.register(Component::NetworkRoutes, Duration::from_secs(5), at(1000));
    h.register(Component::NetworkServices, Duration::from_secs(5), at(1000));
    h.heartbeat(Component::NetworkRoutes, at(1100));
    assert!(!h.is_healthy(at(1100)));
}

#[test]
fn first_cycle_ttl_widens_the_window() {
    let mut h = HealthState::new();
    let period = Duration::from_secs(300);
    h.register(Component::NetworkPolicy, period, at(1000));
    h.heartbeat(Component::NetworkPolicy, at(1020));
    assert!(h.is_healthy(at(1020 + 315)));
    assert!(!h.is_healthy(at(1020 + 300 + 20 + 2)));
}

#[test]
fn component_ids_match_upstream() {
    assert_eq!(Component::NetworkRoutes.id(), 0);
    assert_eq!(Component::RouteSync.id(), 6);
}

#[test]
fn the_window_ends_with_the_grace() {
    let mut h = HealthState::new();
    h.register(Component::LoadBalancer, Duration::from_secs(5), at(1000));
    assert_eq!(GRACE, 1500);
    let edge = at(1000).plus(Duration::from_millis(6500));
    assert!(h.is_healthy(edge));
    assert!(!h.is_healthy(edge.plus(Duration::from_nanos(1))));
    h.heartbeat(Component::Metrics, at(2000));
    assert!(h.is_healthy(edge));
}

#[test]
fn parses_request_path() {
    assert_eq!(parse_path("GET /healthz HTTP/1.1\r\n"), Some("/healthz"));
    assert_eq!(parse_path("GET /metrics HTTP/1.1"), Some("/metrics"));
    assert_eq!(parse_path(""), None);
}

#[test]
fn healthz_serves_200_when_healthy() {
    let mut state = HealthState::new();
    state.register(Component::NetworkRoutes, Duration::from_secs(60), at(1000));
    let req = "GET /healthz HTTP/1.1\r\nHost: x\r\n\r\n";
    let resp = render(&health_reply(&state, req, at(1000)));
    assert!(resp.starts_with("HTTP/1.1 200 OK"), "got: {resp}");
    assert!(resp.contains("OK"));
    let late = health_handler(&state, "/healthz", at(1100));
    assert_eq!((late.status, late.body.as_str()), (500, "Unhealthy"));
    assert_eq!(health_handler(&state, "/other", at(1000)).status, 404);
}

#[test]
fn metrics_serves_build_info() {
    let resp = render(&metrics_handler(
        "/metrics",
        "/metrics",
        "kube_router_build_info 1\n".to_string(),
    ));
    assert!(resp.starts_with("HTTP/1.1 200 OK"));
    assert!(resp.contains("kube_router_build_info"));
    let nf = render(&metrics_handler("/metrics", "/wrong", String::new()));
    assert!(nf.starts_with("HTTP/1.1 404"));
}

#[test]
fn replies_state_their_length_in_bytes() {
    let mut r = metrics_handler("/m", "/m", "\u{b5}s".to_string());
    r.status = 200;
    assert!(render(&r).contains("Content-Length: 3\r\n"));
    assert_eq!(reason(500), "Internal Server Error");
}

#[test]
fn maps_verbosity_levels() {
    assert_eq!(verbosity_to_level("0"), LevelFilter::INFO);
    assert_eq!(verbosity_to_level("1"), LevelFilter::DEBUG);
    assert_eq!(verbosity_to_level("2"), LevelFilter::TRACE);
    assert_eq!(verbosity_to_level("9"), LevelFilter::TRACE);
}

#[test]
fn non_numeric_defaults_to_info() {
    assert_eq!(verbosity_to_level(""), LevelFilter::INFO);
    assert_eq!(verbosity_to_level("debug"), LevelFilter::INFO);
}
