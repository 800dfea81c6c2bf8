use kube_router_rs::ip::IpAddr;
use kube_router_rs::net::parse_net;
use kube_router_rs::netlink::retry::{Attempt, Retry, RetryConfig, RetryStep};
use kube_router_rs::netlink::routes::{AddressBook, NetlinkError, Route, RouteTable};
use kube_router_rs::netlink::system::{
    addr_args, dummy_add_args, link_up_args, route_del_args, route_replace_args, run_outcome,
    show_list, spawn_failure, tolerate, SystemNetlink, Tolerance, MAIN_TABLE,
};
use kube_router_rs::time::Duration;

fn ip(s: &str) -> IpAddr {
    IpAddr::parse(s).unwrap()
}

fn route(dst: &str, gw: Option<&str>, table: u32) -> Route {
    Route {
        dst: parse_net(dst).unwrap(),
        gateway: gw.map(ip),
        table,
    }
}

#[test]
fn dummy_link_and_addr_roundtrip() {
    let mut book = AddressBook::new();
    let a = ip("10.96.0.10");
    book.addr_add("kube-dummy-if", a, 32);
    assert!(book.has_addr("kube-dummy-if", a, 32));
    assert!(!book.has_addr("eth0", a, 32));
    book.addr_add("kube-dummy-if", a, 32);
    book.addr_del("kube-dummy-if", a, 32);
    assert!(!book.has_addr("kube-dummy-if", a, 32));
}

#[test]
fn route_replace_is_idempotent_per_dst_table() {
    let mut t = RouteTable::new();
    t.route_replace(&route("10.244.1.0/24", Some("10.0.0.2"), 254));
    let r2 = route("10.244.1.0/24", Some("10.0.0.3"), 254);
    t.route_replace(&r2);
    let routes = t.route_list(254);
    assert_eq!(routes.len(), 1);
    assert_eq!(routes[0].gateway, Some(ip("10.0.0.3")));
    t.route_del(&r2);
    assert!(t.route_list(254).is_empty());
}

#[test]
fn route_list_filters_by_table() {
    let mut t = RouteTable::new();
    t.route_replace(&route("10.244.1.0/24", None, 254));
    t.route_replace(&route("10.244.2.0/24", None, 77));
    assert_eq!(t.route_list(254).len(), 1);
    assert_eq!(t.route_list(77).len(), 1);
}

const NO_SLEEP: RetryConfig = RetryConfig {
    base: Duration { secs: 0, nanos: 0 },
    max: Duration { secs: 0, nanos: 0 },
    attempts: 5,
};

fn run<T, E>(
    retryable: bool,
    mut op: impl FnMut(u32) -> Result<T, E>,
) -> (Result<T, E>, u32) {
    let mut r = Retry::new(NO_SLEEP);
    let mut calls = 0;
    loop {
        calls += 1;
        if let Attempt::Done(outcome) = r.after_attempt(op(calls), retryable) {
            return (outcome, calls);
        }
    }
}

#[test]
fn succeeds_first_try() {
    let (r, calls) = run::<i32, ()>(true, |_| Ok(42));
    assert_eq!(r, Ok(42));
    assert_eq!(calls, 1);
}

#[test]
fn retries_until_success() {
    let (r, calls) = run::<i32, &str>(true, |n| {
        if n < 3 {
            Err("dump interrupted")
        } else {
            Ok(7)
        }
    });
    assert_eq!(r, Ok(7));
    assert_eq!(calls, 3);
}

#[test]
fn gives_up_after_attempts() {
    let (r, calls) = run::<(), &str>(true, |_| Err("always"));
    assert_eq!(r, Err("always"));
    assert_eq!(calls, 5);
}

#[test]
fn non_retryable_returns_immediately() {
    let (r, calls) = run::<(), &str>(false, |_| Err("fatal"));
    assert_eq!(r, Err("fatal"));
    assert_eq!(calls, 1);
}

#[test]
fn delays_double_up_to_the_longest() {
    let mut r = Retry::new(RetryConfig {
        base: Duration::from_millis(10),
        max: Duration::from_millis(35),
        attempts: 5,
    });
    let mut delays = Vec::new();
    while let RetryStep::Again(d) = r.after_failure(true) {
        delays.push(d / 1_000_000);
    }
    assert_eq!(delays, vec![10, 20, 35, 35]);
}

#[test]
fn replace_args_main_table_with_gateway() {
    let a = route_replace_args(&route("10.244.1.0/24", Some("192.168.32.3"), 254));
    assert_eq!(
        a,
        vec!["route", "replace", "10.244.1.0/24", "via", "192.168.32.3"]
    );
    assert_eq!(MAIN_TABLE, 254);
}

#[test]
fn replace_args_custom_table() {
    let a = route_replace_args(&route("10.244.1.0/24", Some("192.168.32.3"), 77));
    assert!(a.ends_with(&["table".to_string(), "77".to_string()]));
}

#[test]
fn del_args_omit_via() {
    let a = route_del_args(&route("10.244.1.0/24", Some("192.168.32.3"), 254));
    assert_eq!(a, vec!["route", "del", "10.244.1.0/24"]);
}

#[test]
fn addr_args_format() {
    assert_eq!(
        addr_args("add", "kube-dummy-if", "10.96.0.1", 32),
        vec!["addr", "add", "10.96.0.1/32", "dev", "kube-dummy-if"]
    );
}

#[test]
fn link_args_format() {
    assert_eq!(
        dummy_add_args("d0"),
        vec!["link", "add", "d0", "type", "dummy"]
    );
    assert_eq!(link_up_args("d0"), vec!["link", "set", "d0", "up"]);
    let _system: SystemNetlink = SystemNetlink::new();
}

#[test]
fn repeated_operations_are_tolerated() {
    let exists = || Err(NetlinkError::Op("RTNETLINK answers: File exists".to_string()));
    assert!(tolerate(exists(), Tolerance::Present).is_ok());
    assert!(tolerate(exists(), Tolerance::AddressGone).is_err());
    assert!(tolerate(
        Err(NetlinkError::Op("other".to_string())),
        Tolerance::Present
    )
    .is_err());
    assert!(tolerate(Ok(()), Tolerance::Present).is_ok());
}

#[test]
fn failures_name_the_command() {
    let args = vec!["link".to_string(), "up".to_string()];
    assert_eq!(show_list(&args), format!("{:?}", args));
    assert_eq!(
        run_outcome(&args, true, "out".to_string(), "").unwrap(),
        "out"
    );
    let e = run_outcome(&args, false, String::new(), " no such link \n").unwrap_err();
    assert!(e.message().contains("no such link"));
    assert_eq!(
        spawn_failure(&args, "missing").message(),
        "netlink operation failed: spawn ip [\"link\", \"up\"]: missing"
    );
}
