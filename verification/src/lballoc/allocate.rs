//! Which services get an address, and which addresses one service gets.

use vstd::prelude::*;

use crate::ip::IpAddr;
use crate::lballoc::model::{LbService, LOAD_BALANCER_CLASS};
use crate::lballoc::pools::IpRanges;
use crate::text::{cat2, same};

verus! {

/// Why a service got no address.
#[derive(Debug, PartialEq, Eq)]
pub enum AllocError {
    /// There is no network of a family that it needs.
    NoRanges(String),
    /// It must have both families, and one was not to be had.
    DualStackUnavailable,
    /// No address was free.
    Exhausted,
}

impl AllocError {
    /// The text shown to a user.
    pub open spec fn text(self) -> Seq<char> {
        match self {
            AllocError::NoRanges(m) => "no ranges available: "@ + m@,
            AllocError::DualStackUnavailable => "unable to allocate dual-stack addresses"@,
            AllocError::Exhausted => "no IPs left to allocate"@,
        }
    }

    /// The text shown to a user.
    pub fn message(&self) -> (r: String)
        ensures
            r@ == self.text(),
    {
        match self {
            AllocError::NoRanges(m) => cat2("no ranges available: ", m.as_str()),
            AllocError::DualStackUnavailable => String::from_str(
                "unable to allocate dual-stack addresses",
            ),
            AllocError::Exhausted => String::from_str("no IPs left to allocate"),
        }
    }
}

/// Whether the allocator serves a class: its own, and where it is the default allocator also
/// none and `default`.
pub open spec fn serves_class(class: Option<Seq<char>>, is_default: bool) -> bool {
    match class {
        Some(c) => c == LOAD_BALANCER_CLASS@ || (c == "default"@ && is_default),
        None => is_default,
    }
}

/// Whether the allocator serves a class.
pub fn check_class(class: Option<&str>, is_default: bool) -> (r: bool)
    ensures
        r == serves_class(
            match class {
                Some(c) => Some(c@),
                None => None,
            },
            is_default,
        ),
{
    match class {
        Some(c) => same(c, LOAD_BALANCER_CLASS) || (same(c, "default") && is_default),
        None => is_default,
    }
}

/// Whether the families assigned differ from those asked for.
pub open spec fn lacks_ingress(svc: LbService) -> bool {
    svc.want_v4 != svc.has_v4() || svc.want_v6 != svc.has_v6()
}

/// Whether the families assigned differ from those asked for.
pub fn needs_ingress(svc: &LbService) -> (r: bool)
    ensures
        r == lacks_ingress(*svc),
{
    let (have4, have6) = svc.have_families();
    svc.want_v4 != have4 || svc.want_v6 != have6
}

/// The class that a service asks for.
pub open spec fn class_of(svc: LbService) -> Option<Seq<char>> {
    match svc.loadbalancer_class {
        Some(c) => Some(c@),
        None => None,
    }
}

/// Whether the allocator acts on the service.
pub open spec fn acts_on(svc: LbService, is_default: bool) -> bool {
    svc.is_loadbalancer && serves_class(class_of(svc), is_default) && lacks_ingress(svc)
}

/// Whether the allocator acts on the service.
pub fn should_allocate(svc: &LbService, is_default: bool) -> (r: bool)
    ensures
        r == acts_on(*svc, is_default),
{
    let class = match &svc.loadbalancer_class {
        Some(c) => Some(c.as_str()),
        None => None,
    };
    svc.is_loadbalancer && check_class(class, is_default) && needs_ingress(svc)
}

/// The addresses that a service gets.
#[derive(Debug, Clone, Copy, PartialEq, Eq)]
pub struct AllocationPlan {
    /// IPv4 address.
    pub v4: Option<IpAddr>,
    /// IPv6 address.
    pub v6: Option<IpAddr>,
}

impl Default for AllocationPlan {
    fn default() -> (r: AllocationPlan)
        ensures
            r.v4 is None,
            r.v6 is None,
    {
        AllocationPlan { v4: None, v6: None }
    }
}

/// The element, if there is one.
pub open spec fn of_option(a: Option<IpAddr>) -> Seq<IpAddr> {
    match a {
        Some(x) => seq![x],
        None => Seq::empty(),
    }
}

impl AllocationPlan {
    /// The addresses, IPv4 first.
    pub open spec fn list(self) -> Seq<IpAddr> {
        of_option(self.v4) + of_option(self.v6)
    }

    /// The addresses, IPv4 first.
    pub fn ips(&self) -> (r: Vec<IpAddr>)
        ensures
            r@ == self.list(),
    {
        let mut out: Vec<IpAddr> = Vec::new();
        if let Some(a) = self.v4 {
            out.push(a);
        }
        if let Some(a) = self.v6 {
            out.push(a);
        }
        assert(out@ =~= self.list());
        out
    }

    /// Whether there is no address.
    pub fn is_empty(&self) -> (r: bool)
        ensures
            r == (self.list().len() == 0),
    {
        self.v4.is_none() && self.v6.is_none()
    }
}

/// Why the networks at hand cannot serve the service at all.
pub open spec fn refusal(svc: LbService, can_v4: bool, can_v6: bool) -> Option<Seq<char>> {
    if svc.require_dual && !can_v4 {
        Some("IPv4 required"@)
    } else if svc.require_dual && !can_v6 {
        Some("IPv6 required"@)
    } else if svc.want_v4 && !can_v4 && !svc.want_v6 {
        Some("no IPv4 ranges"@)
    } else if svc.want_v6 && !can_v6 && !svc.want_v4 {
        Some("no IPv6 ranges"@)
    } else {
        None
    }
}

/// Whether an IPv4 address is looked for.
pub open spec fn seeks_v4(svc: LbService, can_v4: bool) -> bool {
    svc.want_v4 && !svc.has_v4() && can_v4
}

/// Whether an IPv6 address is looked for.
pub open spec fn seeks_v6(svc: LbService, can_v6: bool) -> bool {
    svc.want_v6 && !svc.has_v6() && can_v6
}

/// Whether the service has no address yet of a family that it asks for.
pub open spec fn wants_more(svc: LbService) -> bool {
    svc.want_v4 && !svc.has_v4() || svc.want_v6 && !svc.has_v6()
}

/// What a service comes to, given the next free address of each family: nothing where it has all
/// that it asks for; otherwise refused for want of networks; nothing where no network is of a
/// family that it lacks; nothing free; one family missing that it must have; or the addresses
/// that were looked for and found.
pub open spec fn outcome(
    svc: LbService,
    can_v4: bool,
    can_v6: bool,
    free4: Option<IpAddr>,
    free6: Option<IpAddr>,
    r: Result<AllocationPlan, AllocError>,
) -> bool {
    let got4 = if seeks_v4(svc, can_v4) {
        free4
    } else {
        None
    };
    let got6 = if seeks_v6(svc, can_v6) {
        free6
    } else {
        None
    };
    if !wants_more(svc) {
        r == Ok::<AllocationPlan, AllocError>(AllocationPlan { v4: None, v6: None })
    } else {
        match refusal(svc, can_v4, can_v6) {
            Some(why) => r matches Err(AllocError::NoRanges(m)) && m@ == why,
            None => if got4 is None && got6 is None {
                if seeks_v4(svc, can_v4) || seeks_v6(svc, can_v6) {
                    r matches Err(AllocError::Exhausted)
                } else {
                    r == Ok::<AllocationPlan, AllocError>(AllocationPlan { v4: None, v6: None })
                }
            } else if svc.require_dual && (got4 is None || got6 is None) {
                r matches Err(AllocError::DualStackUnavailable)
            } else {
                r == Ok::<AllocationPlan, AllocError>(AllocationPlan { v4: got4, v6: got6 })
            },
        }
    }
}

/// The addresses that one service gets, given those handed out already: none where it has all
/// that it asks for.
pub fn plan_allocation(
    svc: &LbService,
    v4_ranges: &mut IpRanges,
    v6_ranges: &mut IpRanges,
    allocated4: &[IpAddr],
    allocated6: &[IpAddr],
) -> (r: Result<AllocationPlan, AllocError>)
    requires
        old(v4_ranges).wf(),
        old(v6_ranges).wf(),
    ensures
        final(v4_ranges).wf(),
        final(v6_ranges).wf(),
        ({
            let p4 = old(v4_ranges)@;
            let p6 = old(v6_ranges)@;
            let can4 = p4.ranges.len() > 0;
            let can6 = p6.ranges.len() > 0;
            let open = refusal(*svc, can4, can6) is None;
            &&& outcome(*svc, can4, can6, p4.next(allocated4@), p6.next(allocated6@), r)
            &&& final(v4_ranges)@ == if open && seeks_v4(*svc, can4) {
                p4.after(allocated4@)
            } else {
                p4
            }
            &&& final(v6_ranges)@ == if open && seeks_v6(*svc, can6) {
                p6.after(allocated6@)
            } else {
                p6
            }
        }),
{
    let (have4, have6) = svc.have_families();
    if !(svc.want_v4 && !have4) && !(svc.want_v6 && !have6) {
        return Ok(AllocationPlan::default());
    }
    let can_v4 = !v4_ranges.is_empty();
    let can_v6 = !v6_ranges.is_empty();
    if svc.require_dual && !can_v4 {
        return Err(AllocError::NoRanges(String::from_str("IPv4 required")));
    }
    if svc.require_dual && !can_v6 {
        return Err(AllocError::NoRanges(String::from_str("IPv6 required")));
    }
    if svc.want_v4 && !can_v4 && !svc.want_v6 {
        return Err(AllocError::NoRanges(String::from_str("no IPv4 ranges")));
    }
    if svc.want_v6 && !can_v6 && !svc.want_v4 {
        return Err(AllocError::NoRanges(String::from_str("no IPv6 ranges")));
    }
    let mut plan = AllocationPlan::default();
    let mut failed = false;
    if svc.want_v4 && !have4 && can_v4 {
        match v4_ranges.next_free_ip(allocated4) {
            Some(ip) => {
                plan.v4 = Some(ip);
            },
            None => {
                failed = true;
            },
        }
    }
    if svc.want_v6 && !have6 && can_v6 {
        match v6_ranges.next_free_ip(allocated6) {
            Some(ip) => {
                plan.v6 = Some(ip);
            },
            None => {
                failed = true;
            },
        }
    }
    if plan.is_empty() && !failed {
        return Ok(plan);
    }
    if plan.is_empty() {
        return Err(AllocError::Exhausted);
    }
    if svc.require_dual && (plan.v4.is_none() || plan.v6.is_none()) {
        return Err(AllocError::DualStackUnavailable);
    }
    Ok(plan)
}

/// A service that has what it asks for gets an empty plan, whatever networks there are.
pub proof fn lemma_satisfied_gets_nothing(
    svc: LbService,
    can_v4: bool,
    can_v6: bool,
    free4: Option<IpAddr>,
    free6: Option<IpAddr>,
    r: Result<AllocationPlan, AllocError>,
)
    requires
        outcome(svc, can_v4, can_v6, free4, free6, r),
        !wants_more(svc),
    ensures
        r matches Ok(p) && p.list().len() == 0,
{
}

/// A service that must have both families gets both or none.
pub proof fn lemma_dual_gets_both(
    svc: LbService,
    can_v4: bool,
    can_v6: bool,
    free4: Option<IpAddr>,
    free6: Option<IpAddr>,
    r: Result<AllocationPlan, AllocError>,
)
    requires
        outcome(svc, can_v4, can_v6, free4, free6, r),
        svc.require_dual,
    ensures
        r matches Ok(p) ==> p.list().len() == 0 || (p.v4 is Some && p.v6 is Some),
{
}

} // verus!
