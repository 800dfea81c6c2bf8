use kube_router_rs::ip::IpAddr;
use kube_router_rs::lballoc::allocate::{
    check_class, needs_ingress, plan_allocation, should_allocate, AllocError, AllocationPlan,
};
use kube_router_rs::lballoc::controller::{
    allocated_ips, LbAllocator, PassStep, StatusError,
};
use kube_router_rs::lballoc::election::{
    can_acquire, LeaderElector, LeaseError, LEASE_DURATION, LEASE_NAME, RENEW_DEADLINE,
    RETRY_PERIOD,
};
use kube_router_rs::lballoc::model::LbService;
use kube_router_rs::lballoc::pools::{inc_ip, IpRanges};
use kube_router_rs::net::parse_net;

fn ranges(cidrs: &[&str]) -> IpRanges {
    IpRanges::new(cidrs.iter().map(|c| parse_net(c).unwrap()).collect())
}

fn ip(s: &str) -> IpAddr {
    IpAddr::parse(s).unwrap()
}

fn lb(name: &str) -> LbService {
    LbService {
        namespace: "default".to_string(),
        name: name.to_string(),
        is_loadbalancer: true,
        loadbalancer_class: None,
        want_v4: true,
        want_v6: false,
        require_dual: false,
        external_ips: vec![],
        ingress_ips: vec![],
    }
}

fn v4_lb() -> LbService {
    lb("web")
}

#[test]
fn check_class_matches_kube_router_and_default_rules() {
    assert!(check_class(Some("kube-router"), false));
    assert!(check_class(None, true));
    assert!(check_class(Some("default"), true));
    assert!(!check_class(None, false));
    assert!(!check_class(Some("metallb"), true));
}

#[test]
fn should_allocate_requires_type_class_and_missing_ingress() {
    let svc = v4_lb();
    assert!(should_allocate(&svc, true));
    let mut done = v4_lb();
    done.ingress_ips = vec![ip("203.0.113.5")];
    assert!(!should_allocate(&done, true));
    assert!(!needs_ingress(&done));
    let mut clip = v4_lb();
    clip.is_loadbalancer = false;
    assert!(!should_allocate(&clip, true));
}

#[test]
fn plans_v4_allocation() {
    let mut v4 = ranges(&["203.0.113.0/24"]);
    let mut v6 = ranges(&[]);
    let plan = plan_allocation(&v4_lb(), &mut v4, &mut v6, &[], &[]).unwrap();
    assert_eq!(plan.v4, Some(ip("203.0.113.0")));
    assert_eq!(plan.v6, None);
    assert_eq!(plan.ips(), vec![ip("203.0.113.0")]);
}

#[test]
fn no_matching_range_errors() {
    let mut v4 = ranges(&[]);
    let mut v6 = ranges(&["fd00::/120"]);
    let err = plan_allocation(&v4_lb(), &mut v4, &mut v6, &[], &[]).unwrap_err();
    assert!(matches!(err, AllocError::NoRanges(_)));
}

#[test]
fn require_dual_needs_both_families() {
    let mut svc = v4_lb();
    svc.want_v6 = true;
    svc.require_dual = true;
    let mut v4 = ranges(&["203.0.113.0/24"]);
    let mut v6 = ranges(&[]);
    let err = plan_allocation(&svc, &mut v4, &mut v6, &[], &[]).unwrap_err();
    assert!(matches!(err, AllocError::NoRanges(_)));
}

#[test]
fn exhausted_family_of_a_dual_service_is_an_error() {
    let mut svc = v4_lb();
    svc.want_v6 = true;
    svc.require_dual = true;
    let mut v4 = ranges(&["203.0.113.0/32"]);
    let mut v6 = ranges(&["fd00::/120"]);
    let taken = [ip("203.0.113.0")];
    let err = plan_allocation(&svc, &mut v4, &mut v6, &taken, &[]).unwrap_err();
    assert!(!matches!(err, AllocError::NoRanges(_)));
    assert!(!err.message().is_empty());
}

#[test]
fn dual_stack_allocates_both() {
    let mut svc = v4_lb();
    svc.want_v6 = true;
    svc.require_dual = true;
    let mut v4 = ranges(&["203.0.113.0/24"]);
    let mut v6 = ranges(&["fd00::/120"]);
    let plan = plan_allocation(&svc, &mut v4, &mut v6, &[], &[]).unwrap();
    assert!(plan.v4.is_some() && plan.v6.is_some());
    assert_eq!(plan.ips().len(), 2);
}

#[test]
fn already_satisfied_returns_empty_plan() {
    let mut svc = v4_lb();
    svc.ingress_ips = vec![ip("203.0.113.5")];
    let mut v4 = ranges(&["203.0.113.0/24"]);
    let mut v6 = ranges(&[]);
    let plan = plan_allocation(&svc, &mut v4, &mut v6, &[], &[]).unwrap();
    assert_eq!(plan, AllocationPlan::default());
    assert!(plan.is_empty());
}

#[test]
fn a_satisfied_service_needs_no_networks() {
    let mut svc = v4_lb();
    svc.ingress_ips = vec![ip("203.0.113.5")];
    let mut v4 = ranges(&[]);
    let mut v6 = ranges(&[]);
    let plan = plan_allocation(&svc, &mut v4, &mut v6, &[], &[]).unwrap();
    assert!(plan.is_empty());
    svc.want_v6 = true;
    svc.require_dual = true;
    assert_eq!(
        plan_allocation(&svc, &mut v4, &mut v6, &[], &[]).unwrap_err(),
        AllocError::NoRanges("IPv4 required".to_string())
    );
}

#[test]
fn allocated_ips_collects_external_and_ingress_in_range() {
    let mut svc = lb("web");
    svc.external_ips = vec![ip("203.0.113.5"), ip("10.0.0.1")];
    svc.ingress_ips = vec![ip("203.0.113.6")];
    let (v4, _) = allocated_ips(&[svc], &ranges(&["203.0.113.0/24"]), &ranges(&[]));
    assert!(v4.contains(&ip("203.0.113.5")) && v4.contains(&ip("203.0.113.6")));
    assert!(!v4.contains(&ip("10.0.0.1")));
}

#[test]
fn reconcile_allocates_distinct_ips_and_updates_status() {
    let services = vec![lb("a"), lb("b")];
    let mut alloc = LbAllocator::new(ranges(&["203.0.113.0/24"]), ranges(&[]), true);
    let recs = alloc.reconcile(&services);
    assert_eq!(recs.len(), 2);
    let assigned: Vec<IpAddr> = recs.iter().flat_map(|a| a.ips.clone()).collect();
    assert_eq!(assigned.len(), 2);
    assert_ne!(assigned[0], assigned[1]);
    assert_eq!((recs[0].service, recs[1].service), (0, 1));
}

#[test]
fn reconcile_skips_satisfied_and_unowned_services() {
    let mut satisfied = lb("done");
    satisfied.ingress_ips = vec![ip("203.0.113.9")];
    let mut foreign = lb("foreign");
    foreign.loadbalancer_class = Some("metallb".to_string());
    let mut alloc = LbAllocator::new(ranges(&["203.0.113.0/24"]), ranges(&[]), true);
    assert_eq!(alloc.reconcile(&[satisfied, foreign]).len(), 0);
}

#[test]
fn a_pass_goes_service_by_service() {
    let services = vec![lb("a"), lb("b"), lb("c")];
    let mut alloc = LbAllocator::new(ranges(&["203.0.113.0/31"]), ranges(&[]), true);
    let mut pass = alloc.begin(&services);
    let (first, _) = alloc.step(&mut pass, &services[0]);
    let (second, _) = alloc.step(&mut pass, &services[1]);
    let (third, why) = alloc.step(&mut pass, &services[2]);
    assert_eq!(why, Some(AllocError::Exhausted));
    assert_eq!(first, vec![ip("203.0.113.0")]);
    assert_eq!(second, vec![ip("203.0.113.1")]);
    assert!(third.is_empty());
    assert_eq!(
        StatusError("conflict".to_string()).message(),
        "status update error: conflict"
    );
}

#[test]
fn a_pass_ends_where_an_assignment_cannot_be_recorded() {
    let mut foreign = lb("foreign");
    foreign.loadbalancer_class = Some("metallb".to_string());
    let services = vec![lb("a"), foreign, lb("b"), lb("c")];
    let mut alloc = LbAllocator::new(ranges(&["203.0.113.0/30"]), ranges(&[]), true);
    let mut round = alloc.begin_round(&services);
    match alloc.advance(&mut round, &services, Ok(())) {
        PassStep::Record(a) => {
            assert_eq!(a.service, 0);
            assert_eq!(a.ips, vec![ip("203.0.113.0")]);
        }
        _ => panic!("expected an assignment"),
    }
    assert!(matches!(
        alloc.advance(&mut round, &services, Ok(())),
        PassStep::Skip(None)
    ));
    match alloc.advance(&mut round, &services, Ok(())) {
        PassStep::Record(a) => assert_eq!(a.service, 2),
        _ => panic!("expected an assignment"),
    }
    match alloc.advance(&mut round, &services, Err(StatusError("conflict".to_string()))) {
        PassStep::End(Err(e)) => assert_eq!(e.message(), "status update error: conflict"),
        _ => panic!("expected the end"),
    }
}

#[test]
fn a_whole_pass_counts_what_it_recorded() {
    let services = vec![lb("a"), lb("b"), lb("c")];
    let mut alloc = LbAllocator::new(ranges(&["203.0.113.0/31"]), ranges(&[]), true);
    let mut round = alloc.begin_round(&services);
    let mut steps = 0;
    loop {
        match alloc.advance(&mut round, &services, Ok(())) {
            PassStep::Record(_) => steps += 1,
            PassStep::Skip(why) => assert_eq!(why, Some(AllocError::Exhausted)),
            PassStep::End(outcome) => {
                assert_eq!(outcome.unwrap(), 2);
                break;
            }
        }
    }
    assert_eq!(steps, 2);
}

#[test]
fn can_acquire_when_free_self_or_expired() {
    assert!(can_acquire(None, false, "me"));
    assert!(can_acquire(Some("me"), false, "me"));
    assert!(can_acquire(Some("other"), true, "me"));
    assert!(!can_acquire(Some("other"), false, "me"));
}

#[test]
fn elector_emits_transitions_on_acquire_renew_lose() {
    let mut e = LeaderElector::new();
    assert_eq!(e.tick(Ok(true)), Some(true));
    assert!(e.is_leader());
    assert_eq!(e.tick(Ok(true)), None);
    assert_eq!(e.tick(Ok(true)), None);
    assert_eq!(e.tick(Ok(false)), Some(false));
    assert!(!e.is_leader());
    assert_eq!(e.tick(Ok(false)), None);
    assert_eq!(e.tick(Ok(true)), Some(true));
    assert_eq!(e.tick(Err(LeaseError("down".to_string()))), Some(false));
}

#[test]
fn the_lease_outlives_its_renewal() {
    assert_eq!(LEASE_NAME, "kube-router-lballoc");
    assert!(RETRY_PERIOD < RENEW_DEADLINE && RENEW_DEADLINE < LEASE_DURATION);
}

#[test]
fn increments_byte_wise_with_carry() {
    assert_eq!(inc_ip(ip("10.0.0.3")), ip("10.0.0.4"));
    assert_eq!(inc_ip(ip("10.0.0.255")), ip("10.0.1.0"));
    assert_eq!(inc_ip(ip("fd00::ff")), ip("fd00::100"));
    assert_eq!(inc_ip(ip("255.255.255.255")), ip("0.0.0.0"));
}

#[test]
fn allocates_sequentially_skipping_allocated() {
    let mut r = ranges(&["10.0.0.0/29"]);
    assert_eq!(r.next_free_ip(&[]), Some(ip("10.0.0.0")));
    let allocated = vec![ip("10.0.0.0"), ip("10.0.0.1")];
    assert_eq!(r.next_free_ip(&allocated), Some(ip("10.0.0.2")));
}

#[test]
fn wraps_across_multiple_ranges() {
    let mut r = ranges(&["10.0.0.0/31", "10.0.1.0/31"]);
    let allocated = vec![ip("10.0.0.0"), ip("10.0.0.1")];
    assert_eq!(r.next_free_ip(&allocated), Some(ip("10.0.1.0")));
}

#[test]
fn reports_exhaustion() {
    let mut r = ranges(&["10.0.0.0/31"]);
    let allocated = vec![ip("10.0.0.0"), ip("10.0.0.1")];
    assert_eq!(r.next_free_ip(&allocated), None);
}

#[test]
fn empty_ranges_allocate_nothing() {
    let mut r = IpRanges::new(vec![]);
    assert!(r.is_empty());
    assert_eq!(r.len(), 0);
    assert_eq!(r.next_free_ip(&[]), None);
    assert!(!r.contains(ip("10.0.0.1")));
}

#[test]
fn contains_checks_membership() {
    let r = ranges(&["203.0.113.0/24"]);
    assert!(r.contains(ip("203.0.113.50")));
    assert!(!r.contains(ip("198.51.100.1")));
}

#[test]
fn a_released_address_is_found_again() {
    let mut r = ranges(&["10.0.0.0/30"]);
    assert_eq!(r.next_free_ip(&[]), Some(ip("10.0.0.0")));
    let all = vec![
        ip("10.0.0.0"),
        ip("10.0.0.1"),
        ip("10.0.0.2"),
        ip("10.0.0.3"),
    ];
    assert_eq!(r.next_free_ip(&all), None);
    assert_eq!(r.next_free_ip(&all[1..]), Some(ip("10.0.0.0")));
}
