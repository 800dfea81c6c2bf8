//! From services and leases of the cluster to what the address allocator needs, and back.

use vstd::prelude::*;

use crate::ip::IpAddr;
use crate::lballoc::election::{LeaseError, LEASE_DURATION};
use crate::lballoc::model::LbService;
use crate::netpol::model::holds_text;
use crate::objects::{is_text, parse_ingress, parse_ips_opt, Service};
use crate::text::same;

verus! {

/// Whether an optional list has the text.
pub open spec fn lists_text(v: Option<Vec<String>>, s: Seq<char>) -> bool {
    crate::text::texts(crate::objects::list_or_empty(v)).contains(s)
}

fn has_family(v: &Option<Vec<String>>, s: &str) -> (r: bool)
    ensures
        r == lists_text(*v, s@),
{
    match v {
        Some(l) => holds_text(l, s),
        None => false,
    }
}

/// What the allocator needs of a service; nothing where it lacks a name or what it asks for.
pub fn map_lb_service(svc: &Service) -> (r: Option<LbService>)
    ensures
        r is Some <==> svc.metadata.namespace is Some && svc.metadata.name is Some
            && svc.spec is Some,
        r matches Some(s) ==> {
            let spec = svc.spec->0;
            &&& Some(s.namespace@) == crate::objects::text_of(svc.metadata.namespace)
            &&& Some(s.name@) == crate::objects::text_of(svc.metadata.name)
            &&& s.is_loadbalancer == (crate::objects::text_of(spec.type_) == Some("LoadBalancer"@))
            &&& crate::objects::text_of(s.loadbalancer_class) == crate::objects::text_of(
                spec.load_balancer_class,
            )
            &&& s.want_v4 == lists_text(spec.ip_families, "IPv4"@)
            &&& s.want_v6 == lists_text(spec.ip_families, "IPv6"@)
            &&& s.require_dual == (crate::objects::text_of(spec.ip_family_policy) == Some(
                "RequireDualStack"@,
            ))
            &&& s.external_ips@ == crate::objects::ips_of(
                crate::text::texts(crate::objects::list_or_empty(spec.external_ips)),
            )
            &&& s.ingress_ips@ == crate::objects::ingress_ips(
                crate::objects::list_or_empty(svc.ingress),
            )
        },
{
    match (&svc.metadata.namespace, &svc.metadata.name, &svc.spec) {
        (Some(namespace), Some(name), Some(spec)) => {
            let class = match &spec.load_balancer_class {
                Some(c) => Some(c.clone()),
                None => None,
            };
            Some(
                LbService {
                    namespace: namespace.clone(),
                    name: name.clone(),
                    is_loadbalancer: is_text(&spec.type_, "LoadBalancer"),
                    loadbalancer_class: class,
                    want_v4: has_family(&spec.ip_families, "IPv4"),
                    want_v6: has_family(&spec.ip_families, "IPv6"),
                    require_dual: is_text(&spec.ip_family_policy, "RequireDualStack"),
                    external_ips: parse_ips_opt(&spec.external_ips),
                    ingress_ips: parse_ingress(&svc.ingress),
                },
            )
        },
        _ => None,
    }
}

/// The texts of addresses, as they are appended to the status of a service.
pub open spec fn ingress_entries(ips: Seq<IpAddr>) -> Seq<Seq<char>> {
    ips.map_values(|ip: IpAddr| ip.text())
}

/// The texts of addresses, as they are appended to the status of a service.
pub fn ingress_texts(ips: &[IpAddr]) -> (r: Vec<String>)
    ensures
        crate::text::texts(r@) == ingress_entries(ips@),
{
    let ghost all = ingress_entries(ips@);
    let mut out: Vec<String> = Vec::new();
    let mut i: usize = 0;
    assert(crate::text::texts(out@) =~= all.take(0));
    while i < ips.len()
        invariant
            i <= ips@.len(),
            all == ingress_entries(ips@),
            crate::text::texts(out@) == all.take(i as int),
        decreases ips@.len() - i,
    {
        let ghost before = out@;
        out.push(ips[i].to_text());
        proof {
            assert(out@ =~= before.push(out@.last()));
            crate::text::lemma_texts_push(before, out@.last());
            assert(all.take(i + 1) =~= all.take(i as int).push(all[i as int]));
        }
        i = i + 1;
    }
    assert(all.take(i as int) =~= all);
    out
}

/// What was appended to the status of a service is read back from it.
pub proof fn lemma_ingress_reads_back(ips: Seq<IpAddr>)
    ensures
        crate::objects::ips_of(ingress_entries(ips)) == ips,
    decreases ips.len(),
{
    let all = ingress_entries(ips);
    let f = |t: Seq<char>|
        match crate::ip::ip_of(t) {
            Some(a) => seq![a],
            None => Seq::empty(),
        };
    if ips.len() == 0 {
        assert(crate::objects::ips_of(all) =~= ips);
    } else {
        lemma_ingress_reads_back(ips.drop_last());
        assert(all.drop_last() =~= ingress_entries(ips.drop_last()));
        crate::ip_laws::lemma_text_reads_back(ips.last());
        assert(all.last() == ips.last().text());
        assert(f(all.last()) == seq![ips.last()]);
        assert(crate::objects::ips_of(all) =~= ips.drop_last() + seq![ips.last()]);
        assert(ips =~= ips.drop_last() + seq![ips.last()]);
    }
}

/// A lease, as far as the election reads it.
#[derive(Debug, Clone)]
pub struct LeaseRecord {
    /// Who holds it.
    pub holder: Option<String>,
    /// When it was last renewed, in seconds since the epoch.
    pub renew_second: Option<i64>,
    /// How long it is valid after that, in seconds.
    pub duration_seconds: Option<i32>,
}

impl LeaseRecord {
    /// How long the lease is valid after a renewal, in seconds.
    pub open spec fn valid_for(self) -> int {
        match self.duration_seconds {
            Some(d) => d as int,
            None => LEASE_DURATION as int,
        }
    }

    /// Whether the lease is still valid: it was renewed, less than its duration ago.
    pub open spec fn is_fresh(self, now: i64) -> bool {
        match self.renew_second {
            Some(t) => now - t < self.valid_for(),
            None => false,
        }
    }

    /// Whether another instance holds the lease and it is still valid.
    pub open spec fn kept_from(self, me: Seq<char>, now: i64) -> bool {
        match self.holder {
            Some(h) => h@ != me && self.is_fresh(now),
            None => false,
        }
    }
}

/// A point in time since the epoch.
#[derive(Debug, Clone, Copy, PartialEq, Eq, Structural)]
pub struct Moment {
    /// Whole seconds.
    pub second: i64,
    /// Nanoseconds more.
    pub nanosecond: i32,
}

/// What an instance writes into the lease that it takes or renews.
#[derive(Debug, Clone)]
pub struct LeaseClaim {
    /// The instance.
    pub holder: String,
    /// How long the lease is valid, in seconds.
    pub duration_seconds: i32,
    /// When it is renewed.
    pub renew_time: Moment,
    /// When it is taken.
    pub acquire_time: Moment,
}

impl LeaseClaim {
    /// Whether this is what `me` writes at a point in time.
    pub open spec fn is_of(self, me: Seq<char>, now: Moment) -> bool {
        &&& self.holder@ == me
        &&& self.duration_seconds == LEASE_DURATION
        &&& self.renew_time == now
        &&& self.acquire_time == now
    }

    /// The lease once this is written into it.
    pub open spec fn record(self) -> LeaseRecord {
        LeaseRecord {
            holder: Some(self.holder),
            renew_second: Some(self.renew_time.second),
            duration_seconds: Some(self.duration_seconds),
        }
    }
}

fn claim_of(me: &str, now: Moment) -> (r: LeaseClaim)
    ensures
        r.is_of(me@, now),
{
    LeaseClaim {
        holder: me.to_owned(),
        duration_seconds: LEASE_DURATION as i32,
        renew_time: now,
        acquire_time: now,
    }
}

/// What an attempt on the lease does.
#[derive(Debug)]
pub enum LeaseStep {
    /// Nothing: another instance leads.
    Decline,
    /// The lease is there and is taken or renewed.
    Replace(LeaseClaim),
    /// There is no lease: it is created.
    Create(LeaseClaim),
}

fn held_by_other_and_fresh(l: &LeaseRecord, me: &str, now: i64) -> (r: bool)
    ensures
        r == l.kept_from(me@, now),
{
    match (&l.holder, l.renew_second) {
        (Some(h), Some(t)) => {
            let valid: i128 = match l.duration_seconds {
                Some(d) => d as i128,
                None => LEASE_DURATION as i128,
            };
            !same(h.as_str(), me) && (now as i128) - (t as i128) < valid
        },
        _ => false,
    }
}

/// Decides what an attempt on the lease does, from the lease as it is.
pub fn lease_step(existing: &Option<LeaseRecord>, me: &str, now: Moment) -> (r: LeaseStep)
    ensures
        match r {
            LeaseStep::Decline => existing matches Some(l) && l.kept_from(me@, now.second),
            LeaseStep::Replace(c) => (existing matches Some(l) && !l.kept_from(me@, now.second))
                && c.is_of(me@, now),
            LeaseStep::Create(c) => existing is None && c.is_of(me@, now),
        },
{
    match existing {
        Some(l) => if held_by_other_and_fresh(l, me, now.second) {
            LeaseStep::Decline
        } else {
            LeaseStep::Replace(claim_of(me, now))
        },
        None => LeaseStep::Create(claim_of(me, now)),
    }
}

/// What an attempt comes to: the lease is held exactly when it was written.
pub fn attempt_outcome(step: &LeaseStep, written: Result<(), String>) -> (r: Result<
    bool,
    LeaseError,
>)
    ensures
        match r {
            Ok(held) => if step is Decline {
                !held
            } else {
                held && written is Ok
            },
            Err(e) => step !is Decline && (written matches Err(m) && e.0@ == m@),
        },
{
    match step {
        LeaseStep::Decline => Ok(false),
        _ => match written {
            Ok(_) => Ok(true),
            Err(m) => Err(LeaseError(m)),
        },
    }
}

/// An instance may take the lease exactly when the lease is free, its own, or expired.
pub proof fn lemma_declines_only_for_others(l: LeaseRecord, me: Seq<char>, now: i64)
    ensures
        !l.kept_from(me, now) <==> crate::lballoc::election::may_acquire(
            crate::objects::text_of(l.holder),
            !l.is_fresh(now),
            me,
        ),
{
}

/// While a lease is valid, it keeps out all but its holder: of two instances that look at it, at
/// most one may take it.
pub proof fn lemma_one_leader(l: LeaseRecord, a: Seq<char>, b: Seq<char>, now: i64)
    requires
        l.holder is Some,
        l.is_fresh(now),
        a != b,
    ensures
        l.kept_from(a, now) || l.kept_from(b, now),
{
}

/// A lease that an instance has taken or renewed keeps all others out until it runs out.
pub proof fn lemma_claim_keeps_others_out(
    c: LeaseClaim,
    me: Seq<char>,
    other: Seq<char>,
    then: Moment,
    now: i64,
)
    requires
        c.is_of(me, then),
        other != me,
    ensures
        c.record().kept_from(other, now) <==> now - then.second < LEASE_DURATION,
        !c.record().kept_from(me, now),
{
}

} // verus!
