//! Laws of address allocation, stated on the fields of services and leases and on the addresses
//! of the pools.

use vstd::prelude::*;

use crate::ip::IpAddr;
use crate::lballoc::allocate::{acts_on, outcome, AllocError, AllocationPlan};
use crate::lballoc::controller::{grants, held, of_family, pooled, service_ips, PassState};
use crate::lballoc::model::LbService;
use crate::lballoc::pools::{around, covered, first_free, slot, total, Pool};
use crate::lballoc_wire::{lists_text, LeaseClaim, LeaseRecord, Moment};
use crate::net::IpNet;
use crate::object_laws::elements;

verus! {

/// Whether a list has an address of the family.
pub open spec fn any_of(ips: Seq<IpAddr>, v4: bool) -> bool {
    exists|i: int| 0 <= i < ips.len() && (#[trigger] ips[i]) is V4 == v4
}

/// Whether a service asks for an IPv4 address and has none.
pub open spec fn lacks4(svc: LbService) -> bool {
    svc.want_v4 && !any_of(svc.ingress_ips@, true)
}

/// Whether a service asks for an IPv6 address and has none.
pub open spec fn lacks6(svc: LbService) -> bool {
    svc.want_v6 && !any_of(svc.ingress_ips@, false)
}

/// Whether the allocator is to look at a service: it is of the type for load balancers, its class
/// is the allocator's or, for the default allocator, `default` or none, and the families it asks
/// for are not those it has.
pub open spec fn is_due(svc: LbService, is_default: bool) -> bool {
    &&& svc.is_loadbalancer
    &&& svc.loadbalancer_class is None ==> is_default
    &&& svc.loadbalancer_class matches Some(c) ==> c@ == "kube-router"@ || (c@ == "default"@
        && is_default)
    &&& svc.want_v4 != any_of(svc.ingress_ips@, true) || svc.want_v6 != any_of(
        svc.ingress_ips@,
        false,
    )
}

proof fn lemma_families(svc: LbService)
    ensures
        svc.has_v4() == any_of(svc.ingress_ips@, true),
        svc.has_v6() == any_of(svc.ingress_ips@, false),
{
    if svc.has_v4() {
        let i = choose|i: int|
            0 <= i < svc.ingress_ips@.len() && #[trigger] svc.ingress_ips@[i] is V4;
        assert(svc.ingress_ips@[i] is V4 == true);
    }
    if svc.has_v6() {
        let i = choose|i: int|
            0 <= i < svc.ingress_ips@.len() && #[trigger] svc.ingress_ips@[i] is V6;
        assert(svc.ingress_ips@[i] is V4 == false);
    }
}

/// The allocator acts on exactly the services that it is to look at.
pub proof fn lemma_acts_where_due(svc: LbService, is_default: bool)
    ensures
        acts_on(svc, is_default) <==> is_due(svc, is_default),
{
    lemma_families(svc);
}

/// What one service comes to. It is given an address of a family exactly where it asks for one,
/// has none, there are networks of the family and one is free, and never another; one that must
/// have both families is refused where it lacks any and cannot have both; one that can have none
/// is told why.
pub proof fn lemma_outcome_by_fields(
    svc: LbService,
    can_v4: bool,
    can_v6: bool,
    free4: Option<IpAddr>,
    free6: Option<IpAddr>,
    r: Result<AllocationPlan, AllocError>,
)
    requires
        outcome(svc, can_v4, can_v6, free4, free6, r),
    ensures
        r matches Ok(p) && p.v4 is Some ==> lacks4(svc) && can_v4 && r->Ok_0.v4 == free4,
        r matches Ok(p) && p.v6 is Some ==> lacks6(svc) && can_v6 && r->Ok_0.v6 == free6,
        !lacks4(svc) && !lacks6(svc) ==> r is Ok,
        !svc.require_dual && lacks4(svc) && can_v4 && free4 is Some ==> r is Ok && r->Ok_0.v4
            == free4,
        !svc.require_dual && lacks6(svc) && can_v6 && free6 is Some ==> r is Ok && r->Ok_0.v6
            == free6,
        lacks4(svc) && lacks6(svc) && can_v4 && can_v6 && free4 is Some && free6 is Some ==> r
            is Ok && r->Ok_0.v4 == free4 && r->Ok_0.v6 == free6,
        svc.require_dual && r is Ok ==> (r->Ok_0.v4 is Some <==> r->Ok_0.v6 is Some),
        svc.require_dual && (lacks4(svc) || lacks6(svc)) && !can_v4 ==> (r matches Err(
            AllocError::NoRanges(m),
        ) && m@ == "IPv4 required"@),
        svc.require_dual && (lacks4(svc) || lacks6(svc)) && can_v4 && !can_v6 ==> (r matches Err(
            AllocError::NoRanges(m),
        ) && m@ == "IPv6 required"@),
        !svc.require_dual && lacks4(svc) && !can_v4 && !svc.want_v6 ==> (r matches Err(
            AllocError::NoRanges(m),
        ) && m@ == "no IPv4 ranges"@),
        !svc.require_dual && lacks6(svc) && !can_v6 && !svc.want_v4 ==> (r matches Err(
            AllocError::NoRanges(m),
        ) && m@ == "no IPv6 ranges"@),
        r matches Err(AllocError::NoRanges(_)) ==> !can_v4 || !can_v6,
        r matches Err(AllocError::Exhausted) ==> (lacks4(svc) && can_v4 && free4 is None) || (
        lacks6(svc) && can_v6 && free6 is None),
        r matches Err(AllocError::DualStackUnavailable) ==> svc.require_dual && can_v4 && can_v6,
        !svc.require_dual && lacks4(svc) && can_v4 && free4 is None && !(lacks6(svc) && can_v6
            && free6 is Some) ==> r matches Err(AllocError::Exhausted),
        !svc.require_dual && lacks6(svc) && can_v6 && free6 is None && !(lacks4(svc) && can_v4
            && free4 is Some) ==> r matches Err(AllocError::Exhausted),
{
    lemma_families(svc);
}

/// The addresses of a plan: the IPv4 one, then the IPv6 one, each where there is one.
pub proof fn lemma_plan_list(p: AllocationPlan)
    ensures
        p.list().len() == (if p.v4 is Some {
            1int
        } else {
            0
        }) + (if p.v6 is Some {
            1int
        } else {
            0
        }),
        p.v4 matches Some(a) ==> p.list()[0] == a,
        p.v6 matches Some(a) ==> p.list().last() == a,
{
}

/// A service that is due, need not have both families and lacks an address of one is given one of
/// that family out of its networks that was not taken, whenever there is such an address.
pub proof fn lemma_due_service_is_served(
    st: PassState,
    svc: LbService,
    is_default: bool,
    v4: bool,
    free: IpAddr,
)
    requires
        st.wf(),
        st.sorted_by_family(),
        is_due(svc, is_default),
        !svc.require_dual,
        v4 ==> lacks4(svc) && covered(st.p4.ranges, free) && !st.a4.contains(free),
        !v4 ==> lacks6(svc) && covered(st.p6.ranges, free) && !st.a6.contains(free),
    ensures
        exists|k: int|
            0 <= k < st.granted(svc, is_default).len() && (#[trigger] st.granted(
                svc,
                is_default,
            )[k]) is V4 == v4,
{
    lemma_families(svc);
    lemma_acts_where_due(svc, is_default);
    let g = st.granted(svc, is_default);
    if v4 {
        crate::lballoc::pools::lemma_none_iff_exhausted(st.p4, st.a4);
        crate::lballoc::pools::lemma_next_is_free(st.p4, st.a4);
        assert(g[0] is V4 == v4);
    } else {
        crate::lballoc::pools::lemma_none_iff_exhausted(st.p6, st.a6);
        crate::lballoc::pools::lemma_next_is_free(st.p6, st.a6);
        assert(g[g.len() - 1] is V4 == v4);
    }
}

/// What a service is given is, of each family, one address at most, IPv4 first, of a family that
/// it lacks, out of the networks, and not taken; a service that is not due is given nothing.
pub proof fn lemma_grant_by_fields(st: PassState, svc: LbService, is_default: bool, k: int)
    requires
        st.wf(),
        st.sorted_by_family(),
        0 <= k < st.granted(svc, is_default).len(),
    ensures
        is_due(svc, is_default),
        st.granted(svc, is_default).len() <= 2,
        st.granted(svc, is_default).len() == 2 ==> st.granted(svc, is_default)[0] is V4
            && st.granted(svc, is_default)[1] is V6,
        svc.require_dual ==> st.granted(svc, is_default).len() == 2,
        st.granted(svc, is_default)[k] is V4 ==> lacks4(svc) && covered(
            st.p4.ranges,
            st.granted(svc, is_default)[k],
        ) && !st.a4.contains(st.granted(svc, is_default)[k]),
        st.granted(svc, is_default)[k] is V6 ==> lacks6(svc) && covered(
            st.p6.ranges,
            st.granted(svc, is_default)[k],
        ) && !st.a6.contains(st.granted(svc, is_default)[k]),
{
    lemma_families(svc);
    lemma_acts_where_due(svc, is_default);
    crate::lballoc::pools::lemma_next_is_free(st.p4, st.a4);
    crate::lballoc::pools::lemma_next_is_free(st.p6, st.a6);
}

/// What is taken after a service is what was taken before and what it was given; services are
/// taken one after the other, each on what those before it have left.
pub proof fn lemma_taken_after(
    st: PassState,
    services: Seq<LbService>,
    svc: LbService,
    is_default: bool,
    a: IpAddr,
)
    ensures
        st.after(svc, is_default).a4.contains(a) <==> st.a4.contains(a) || (a is V4
            && st.granted(svc, is_default).contains(a)),
        st.after(svc, is_default).a6.contains(a) <==> st.a6.contains(a) || (a is V6
            && st.granted(svc, is_default).contains(a)),
        st.after_all(Seq::empty(), is_default) == st,
        st.after_all(services.push(svc), is_default) == st.after_all(services, is_default).after(
            svc,
            is_default,
        ),
{
    let g = st.granted(svc, is_default);
    lemma_of_family(g, true, a);
    lemma_of_family(g, false, a);
    crate::seqs::lemma_in_sum(st.a4, of_family(g, true), a);
    crate::seqs::lemma_in_sum(st.a6, of_family(g, false), a);
    assert(services.push(svc).drop_last() =~= services);
}

proof fn lemma_of_family(ips: Seq<IpAddr>, v4: bool, a: IpAddr)
    ensures
        of_family(ips, v4).contains(a) <==> ips.contains(a) && a is V4 == v4,
{
    let f = |ip: IpAddr|
        if (ip is V4) == v4 {
            seq![ip]
        } else {
            Seq::empty()
        };
    if of_family(ips, v4).contains(a) {
        let i = crate::seqs::lemma_flat_from(ips, f, a);
        assert(ips[i] == a);
    }
    if ips.contains(a) && a is V4 == v4 {
        let i = choose|i: int| 0 <= i < ips.len() && ips[i] == a;
        assert(f(ips[i])[0] == a);
        crate::seqs::lemma_flat_has(ips, f, i, a);
    }
}

/// An address counts as taken at the start of a pass exactly where it is of the family, some
/// network of the pool covers it, and some service has it as an external or an assigned address.
pub proof fn lemma_held_by_fields(
    services: Seq<LbService>,
    ranges: Seq<IpNet>,
    v4: bool,
    a: IpAddr,
)
    ensures
        held(services, ranges, v4).contains(a) <==> a is V4 == v4 && (exists|i: int|
            0 <= i < ranges.len() && (#[trigger] ranges[i]).covers(a)) && exists|s: int|
            0 <= s < services.len() && ((#[trigger] services[s]).external_ips@.contains(a)
                || services[s].ingress_ips@.contains(a)),
{
    let f = |s: LbService| pooled(service_ips(s), ranges, v4);
    if held(services, ranges, v4).contains(a) {
        let s = crate::seqs::lemma_flat_from(services, f, a);
        lemma_pooled(service_ips(services[s]), ranges, v4, a);
        crate::seqs::lemma_in_sum(services[s].external_ips@, services[s].ingress_ips@, a);
        assert(services[s].external_ips@.contains(a) || services[s].ingress_ips@.contains(a));
    }
    if a is V4 == v4 && covered(ranges, a) && exists|s: int|
        0 <= s < services.len() && ((#[trigger] services[s]).external_ips@.contains(a)
            || services[s].ingress_ips@.contains(a)) {
        let s = choose|s: int|
            0 <= s < services.len() && ((#[trigger] services[s]).external_ips@.contains(a)
                || services[s].ingress_ips@.contains(a));
        crate::seqs::lemma_in_sum(services[s].external_ips@, services[s].ingress_ips@, a);
        lemma_pooled(service_ips(services[s]), ranges, v4, a);
        crate::seqs::lemma_flat_has(services, f, s, a);
    }
}

proof fn lemma_pooled(ips: Seq<IpAddr>, ranges: Seq<IpNet>, v4: bool, a: IpAddr)
    ensures
        pooled(ips, ranges, v4).contains(a) <==> ips.contains(a) && a is V4 == v4 && covered(
            ranges,
            a,
        ),
{
    let f = |ip: IpAddr|
        if (ip is V4) == v4 && covered(ranges, ip) {
            seq![ip]
        } else {
            Seq::empty()
        };
    if pooled(ips, ranges, v4).contains(a) {
        let i = crate::seqs::lemma_flat_from(ips, f, a);
        assert(ips[i] == a);
    }
    if ips.contains(a) && a is V4 == v4 && covered(ranges, a) {
        let i = choose|i: int| 0 <= i < ips.len() && ips[i] == a;
        assert(f(ips[i])[0] == a);
        crate::seqs::lemma_flat_has(ips, f, i, a);
    }
}

/// The assignments of a pass are exactly the non-empty shares of the services, each with the
/// index of its service, and the share of a service is what it is given after those before it.
pub proof fn lemma_assignments_are_the_shares(
    st: PassState,
    services: Seq<LbService>,
    is_default: bool,
    n: nat,
    x: (int, Seq<IpAddr>),
)
    requires
        n <= services.len(),
    ensures
        grants(st, services, is_default, n).contains(x) <==> 0 <= x.0 < n && x.1 == st.after_all(
            services.take(x.0),
            is_default,
        ).granted(services[x.0], is_default) && x.1.len() > 0,
    decreases n,
{
    if n > 0 {
        let before = grants(st, services, is_default, (n - 1) as nat);
        lemma_assignments_are_the_shares(st, services, is_default, (n - 1) as nat, x);
        let i = n - 1;
        let g = st.share(services, is_default, i);
        let all = grants(st, services, is_default, n);
        if g.len() > 0 {
            assert(all == before.push((i, g)));
            assert(all =~= before + seq![(i, g)]);
            crate::seqs::lemma_in_sum(before, seq![(i, g)], x);
            if x == (i, g) {
                assert(seq![(i, g)][0] == x);
            }
        }
    }
}

/// The next address of a pool is the first that is not taken, from the cursor on, round the pool
/// and back to the cursor; there the cursor then stands. Where all are taken there is none, and
/// the cursor stays.
pub proof fn lemma_next_is_first_free(pool: Pool, allocated: Seq<IpAddr>)
    requires
        pool.wf(),
        pool.ranges.len() > 0,
    ensures
        ({
            let n = total(pool.ranges);
            &&& pool.next(allocated) matches Some(a) ==> exists|j: nat|
                j < n && a == slot(pool.ranges, #[trigger] step_on(pool.at, j, n))
                    && !allocated.contains(a) && pool.after(allocated).at == step_on(
                    pool.at,
                    j,
                    n,
                ) && forall|x: nat|
                    x < j ==> allocated.contains(
                        slot(pool.ranges, #[trigger] step_on(pool.at, x, n)),
                    )
            &&& pool.next(allocated) is None ==> pool.after(allocated).at == pool.at && forall|
                x: nat,
            |
                x < n ==> allocated.contains(slot(pool.ranges, #[trigger] step_on(pool.at, x, n)))
        }),
{
    let n = total(pool.ranges);
    lemma_first(pool.ranges, pool.at, allocated, 0);
    if pool.next(allocated) is Some {
        let j = first_free(pool.ranges, pool.at, allocated, 0)->0;
        assert(step_on(pool.at, j, n) == around(pool.at, j, n));
    }
}

/// `k` places on from `at`, counted round a ring of `n`.
pub open spec fn step_on(at: nat, k: nat, n: nat) -> nat {
    if k < n - at {
        at + k
    } else {
        (k - (n - at)) as nat
    }
}

proof fn lemma_first(ranges: Seq<IpNet>, at: nat, allocated: Seq<IpAddr>, k: nat)
    requires
        at < total(ranges),
    ensures
        match first_free(ranges, at, allocated, k) {
            Some(j) => k <= j < total(ranges) && !allocated.contains(
                slot(ranges, step_on(at, j, total(ranges))),
            ) && forall|x: nat|
                k <= x < j ==> allocated.contains(
                    slot(ranges, #[trigger] step_on(at, x, total(ranges))),
                ),
            None => forall|x: nat|
                k <= x < total(ranges) ==> allocated.contains(
                    slot(ranges, #[trigger] step_on(at, x, total(ranges))),
                ),
        },
    decreases total(ranges) - k,
{
    let n = total(ranges);
    if k < n {
        assert(step_on(at, k, n) == around(at, k, n));
        if allocated.contains(slot(ranges, around(at, k, n))) {
            lemma_first(ranges, at, allocated, k + 1);
        }
    }
}

/// A network covers exactly the addresses of its family whose leading bits, as many as its prefix
/// says, are its own.
pub proof fn lemma_covers_by_prefix(n: IpNet, a: IpAddr)
    requires
        n.wf(),
    ensures
        n.covers(a) <==> (n.addr is V4) == (a is V4) && crate::net::value(a)
            / vstd::arithmetic::power2::pow2(
            (crate::net::width(n.addr) - n.prefix_len) as nat,
        ) == crate::net::value(n.addr) / vstd::arithmetic::power2::pow2(
            (crate::net::width(n.addr) - n.prefix_len) as nat,
        ),
        crate::net::width(n.addr) == if n.addr is V4 {
            32nat
        } else {
            128nat
        },
{
    let s = vstd::arithmetic::power2::pow2((crate::net::width(n.addr) - n.prefix_len) as nat);
    let x = crate::net::value(a) as int;
    let v = crate::net::value(n.addr) as int;
    crate::net::lemma_base(n);
    vstd::arithmetic::div_mod::lemma_fundamental_div_mod(x, s as int);
    vstd::arithmetic::div_mod::lemma_fundamental_div_mod(v, s as int);
    let q = x / (s as int);
    let p = v / (s as int);
    let t = s as int;
    assert(0 <= x % t < t && 0 <= v % t < t);
    assert(p * t <= x < p * t + t <==> q == p) by (nonlinear_arith)
        requires
            x == t * q + x % t,
            0 <= x % t < t,
            t > 0,
    ;
}

/// Whether a lease keeps an instance out: another one holds it, and it was renewed less than its
/// duration ago, fifteen seconds where it names none.
pub proof fn lemma_lease_by_fields(l: LeaseRecord, me: Seq<char>, now: i64)
    ensures
        l.kept_from(me, now) <==> (l.holder is Some && l.holder->0@ != me && l.renew_second is Some
            && now - l.renew_second->0 < (if l.duration_seconds is Some {
            l.duration_seconds->0 as int
        } else {
            15
        })),
{
}

/// What an instance writes into a lease: its own name, fifteen seconds, and the present moment as
/// the time of renewal and of taking; that is what stands in the lease afterwards.
pub proof fn lemma_claim_by_fields(c: LeaseClaim, me: Seq<char>, now: Moment)
    requires
        c.is_of(me, now),
    ensures
        c.holder@ == me,
        c.duration_seconds == 15,
        c.renew_time == now,
        c.acquire_time == now,
        c.record().holder == Some(c.holder),
        c.record().renew_second == Some(now.second),
        c.record().duration_seconds == Some(15i32),
{
}

/// A family is asked for exactly where the list of families names it.
pub proof fn lemma_families_asked_for(v: Option<Vec<String>>, s: Seq<char>)
    ensures
        lists_text(v, s) <==> exists|i: int|
            0 <= i < elements(v).len() && (#[trigger] elements(v)[i])@ == s,
{
    let all = elements(v);
    assert(crate::objects::list_or_empty(v) == all);
    let t = crate::text::texts(all);
    if t.contains(s) {
        let i = choose|i: int| 0 <= i < t.len() && t[i] == s;
        assert(all[i]@ == s);
    }
    if exists|i: int| 0 <= i < all.len() && (#[trigger] all[i])@ == s {
        let i = choose|i: int| 0 <= i < all.len() && (#[trigger] all[i])@ == s;
        assert(t[i] == s);
    }
}

/// The addresses of a pool, counted from the first address of its first network: the one `off`
/// places into the network at `i` comes after all addresses of the networks before it, and is the
/// network's first address and `off` more, in its family.
pub proof fn lemma_places_in_order(ranges: Seq<IpNet>, i: int, off: nat)
    requires
        crate::lballoc::pools::all_wf(ranges),
        0 <= i < ranges.len(),
        off < ranges[i].size(),
    ensures
        ({
            let a = slot(ranges, total(ranges.take(i)) + off);
            &&& a is V4 == ranges[i].addr is V4
            &&& crate::net::value(a) == ranges[i].base() + off
        }),
        total(ranges.take(i + 1)) == total(ranges.take(i)) + ranges[i].size(),
        total(Seq::empty()) == 0,
{
    crate::lballoc::pools::lemma_slot(ranges, i, off);
    crate::net::lemma_base(ranges[i]);
    assert(ranges.take(i + 1).drop_last() =~= ranges.take(i));
    vstd::arithmetic::power2::lemma2_to64();
    vstd::arithmetic::power2::lemma_pow2_adds(64, 64);
}

/// Assignments are shown one by one: the index of the service and the addresses.
pub proof fn lemma_assignments_are_shown(
    v: Seq<crate::lballoc::controller::Assignment>,
    i: int,
)
    requires
        0 <= i < v.len(),
    ensures
        crate::lballoc::controller::assigned(v).len() == v.len(),
        crate::lballoc::controller::assigned(v)[i].0 == v[i].service,
        crate::lballoc::controller::assigned(v)[i].1 == v[i].ips@,
{
}

/// A service that must have both families, is due and lacks both is given one of each, whenever
/// each pool has an address that is not taken.
pub proof fn lemma_dual_service_is_served(
    st: PassState,
    svc: LbService,
    is_default: bool,
    free4: IpAddr,
    free6: IpAddr,
)
    requires
        st.wf(),
        st.sorted_by_family(),
        is_due(svc, is_default),
        lacks4(svc),
        lacks6(svc),
        covered(st.p4.ranges, free4),
        !st.a4.contains(free4),
        covered(st.p6.ranges, free6),
        !st.a6.contains(free6),
    ensures
        st.granted(svc, is_default).len() == 2,
        st.granted(svc, is_default)[0] is V4,
        st.granted(svc, is_default)[1] is V6,
{
    lemma_families(svc);
    lemma_acts_where_due(svc, is_default);
    crate::lballoc::pools::lemma_none_iff_exhausted(st.p4, st.a4);
    crate::lballoc::pools::lemma_next_is_free(st.p4, st.a4);
    crate::lballoc::pools::lemma_none_iff_exhausted(st.p6, st.a6);
    crate::lballoc::pools::lemma_next_is_free(st.p6, st.a6);
}

/// A pool moves on exactly where an address of it is looked for: the service is due, lacks the
/// family, the pool has networks, and so has the other one where both families must be had. It
/// then goes on from what it found.
pub proof fn lemma_pools_move_on(st: PassState, svc: LbService, is_default: bool)
    ensures
        ({
            let both = st.p4.ranges.len() > 0 && st.p6.ranges.len() > 0;
            let looks4 = is_due(svc, is_default) && lacks4(svc) && st.p4.ranges.len() > 0 && (
            svc.require_dual ==> both);
            let looks6 = is_due(svc, is_default) && lacks6(svc) && st.p6.ranges.len() > 0 && (
            svc.require_dual ==> both);
            &&& looks4 ==> st.after(svc, is_default).p4 == st.p4.after(st.a4)
            &&& !looks4 ==> st.after(svc, is_default).p4 == st.p4
            &&& looks6 ==> st.after(svc, is_default).p6 == st.p6.after(st.a6)
            &&& !looks6 ==> st.after(svc, is_default).p6 == st.p6
        }),
{
    lemma_families(svc);
    lemma_acts_where_due(svc, is_default);
}

/// The address after another is one more, in the same family; after the last comes the first.
pub proof fn lemma_next_address(ip: IpAddr)
    ensures
        crate::lballoc::pools::succ(ip) is V4 == ip is V4,
        ip matches IpAddr::V4(x) && x < 0xffff_ffff ==> crate::net::value(
            crate::lballoc::pools::succ(ip),
        ) == crate::net::value(ip) + 1,
        ip matches IpAddr::V6(x) && x < 0xffff_ffff_ffff_ffff_ffff_ffff_ffff_ffff
            ==> crate::net::value(crate::lballoc::pools::succ(ip)) == crate::net::value(ip) + 1,
        ip == IpAddr::V4(0xffff_ffff) ==> crate::lballoc::pools::succ(ip) == IpAddr::V4(0),
        ip == IpAddr::V6(0xffff_ffff_ffff_ffff_ffff_ffff_ffff_ffff) ==> crate::lballoc::pools::succ(
            ip,
        ) == IpAddr::V6(0),
{
}

/// An instance may take a lease that nobody holds, that it holds itself, or that has expired, and
/// no other.
pub proof fn lemma_taking_a_lease(holder: Seq<char>, expired: bool, me: Seq<char>)
    ensures
        crate::lballoc::election::may_acquire(None, expired, me),
        crate::lballoc::election::may_acquire(Some(holder), expired, me) <==> holder == me
            || expired,
{
}

/// The addresses that are recorded with a service, as texts, one for each.
pub proof fn lemma_recorded_texts(ips: Seq<IpAddr>, i: int)
    requires
        0 <= i < ips.len(),
    ensures
        crate::lballoc_wire::ingress_entries(ips).len() == ips.len(),
        crate::lballoc_wire::ingress_entries(ips)[i] == ips[i].text(),
{
}

/// A pass ends at a failure and at the end of the services; otherwise the service it has reached
/// is given what it is granted, and nothing where that is nothing.
pub proof fn lemma_pass_step_by_step(
    st: PassState,
    services: Seq<LbService>,
    is_default: bool,
    at: nat,
    e: crate::lballoc::controller::StatusError,
)
    ensures
        crate::lballoc::controller::next_move(st, services, is_default, at, Err(e)) is Stop,
        at >= services.len() ==> crate::lballoc::controller::next_move(
            st,
            services,
            is_default,
            at,
            Ok(()),
        ) is Stop,
        at < services.len() && st.granted(services[at as int], is_default).len() > 0
            ==> crate::lballoc::controller::next_move(st, services, is_default, at, Ok(()))
            == crate::lballoc::controller::PassMove::Give(
            st.granted(services[at as int], is_default),
        ),
        at < services.len() && st.granted(services[at as int], is_default).len() == 0
            ==> crate::lballoc::controller::next_move(
            st,
            services,
            is_default,
            at,
            Ok(()),
        ) is Nothing,
{
}

/// An instance leads after an attempt on the lease exactly where it holds the lease; nothing else
/// changes whether it leads.
pub proof fn lemma_leading(
    led: bool,
    held: bool,
    e: crate::lballoc::election::LeaseError,
    ends: bool,
)
    ensures
        crate::lifecycle::leads_after(led, crate::lifecycle::LbEvent::Attempted(Ok(held))) == held,
        !crate::lifecycle::leads_after(led, crate::lifecycle::LbEvent::Attempted(Err(e))),
        crate::lifecycle::leads_after(led, crate::lifecycle::LbEvent::SyncDue) == led,
        crate::lifecycle::leads_after(led, crate::lifecycle::LbEvent::Signal(ends)) == led,
{
}

} // verus!
