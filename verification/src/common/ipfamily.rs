//! Address families: IPv4, IPv6 and both together.

use vstd::prelude::*;

use crate::common::error::Error;
use crate::ip::IpAddr;
use crate::net::{parse_net, IpNet};
use crate::text::trim;

verus! {

/// One IP address family.
#[derive(Debug, Clone, Copy, PartialEq, Eq, Structural, Hash)]
pub enum IpFamily {
    /// IPv4.
    V4,
    /// IPv6.
    V6,
}

/// The family of an address.
pub open spec fn family_of(a: IpAddr) -> IpFamily {
    match a {
        IpAddr::V4(_) => IpFamily::V4,
        IpAddr::V6(_) => IpFamily::V6,
    }
}

impl IpFamily {
    /// The family of an address.
    pub fn of_addr(addr: &IpAddr) -> (r: IpFamily)
        ensures
            r == family_of(*addr),
    {
        match addr {
            IpAddr::V4(_) => IpFamily::V4,
            IpAddr::V6(_) => IpFamily::V6,
        }
    }

    /// The family of a network.
    pub fn of_net(net: &IpNet) -> (r: IpFamily)
        ensures
            r == family_of(net.addr),
    {
        IpFamily::of_addr(&net.addr)
    }

    /// Whether this is IPv6.
    pub fn is_v6(self) -> (r: bool)
        ensures
            r == (self is V6),
    {
        match self {
            IpFamily::V4 => false,
            IpFamily::V6 => true,
        }
    }
}

/// The families that the agent serves.
#[derive(Debug, Clone, Copy, PartialEq, Eq, Structural)]
pub struct EnabledFamilies {
    /// IPv4 is served.
    pub v4: bool,
    /// IPv6 is served.
    pub v6: bool,
}

impl EnabledFamilies {
    /// The families from their two switches.
    pub fn new(v4: bool, v6: bool) -> (r: EnabledFamilies)
        ensures
            r.v4 == v4,
            r.v6 == v6,
    {
        EnabledFamilies { v4, v6 }
    }

    /// Whether both families are served.
    pub fn is_dual_stack(self) -> (r: bool)
        ensures
            r == (self.v4 && self.v6),
    {
        self.v4 && self.v6
    }

    /// Whether IPv6 alone is served; BGP then needs an explicit router id.
    pub fn is_v6_only(self) -> (r: bool)
        ensures
            r == (self.v6 && !self.v4),
    {
        self.v6 && !self.v4
    }

    /// Whether any family is served.
    pub fn any(self) -> (r: bool)
        ensures
            r == (self.v4 || self.v6),
    {
        self.v4 || self.v6
    }

    /// Whether the family is served.
    pub open spec fn serves(self, family: IpFamily) -> bool {
        match family {
            IpFamily::V4 => self.v4,
            IpFamily::V6 => self.v6,
        }
    }

    /// Whether the family is served.
    pub fn contains(self, family: IpFamily) -> (r: bool)
        ensures
            r == self.serves(family),
    {
        match family {
            IpFamily::V4 => self.v4,
            IpFamily::V6 => self.v6,
        }
    }
}

/// Both families are served exactly where both switches are on, and some family exactly where one
/// of them is.
pub proof fn lemma_families_by_switches(f: EnabledFamilies)
    ensures
        f.v4 && f.v6 <==> forall|family: IpFamily| #[trigger] f.serves(family),
        f.v4 || f.v6 <==> exists|family: IpFamily| #[trigger] f.serves(family),
{
    assert(f.serves(IpFamily::V4) == f.v4);
    assert(f.serves(IpFamily::V6) == f.v6);
}

/// The error for text that is no address or network; it keeps the text as given.
pub open spec fn is_syntax_error(e: Error, s: Seq<char>) -> bool {
    e matches Error::InvalidIp { input, reason } && input@ == s && reason@
        == "invalid IP address syntax"@
}

fn syntax_error(s: &str) -> (e: Error)
    ensures
        is_syntax_error(e, s@),
{
    Error::InvalidIp {
        input: s.to_owned(),
        reason: String::from_str("invalid IP address syntax"),
    }
}

/// Reads a network in CIDR notation, white space around it ignored.
pub fn parse_cidr(s: &str) -> (r: Result<IpNet, Error>)
    ensures
        match r {
            Ok(n) => crate::net::net_of(crate::text::trimmed(s@)) == Some(n) && n.wf(),
            Err(e) => crate::net::net_of(crate::text::trimmed(s@)) is None && is_syntax_error(
                e,
                s@,
            ),
        },
{
    match parse_net(trim(s).as_str()) {
        Some(n) => Ok(n),
        None => Err(syntax_error(s)),
    }
}

/// Reads an address, white space around it ignored.
pub fn parse_ip(s: &str) -> (r: Result<IpAddr, Error>)
    ensures
        match r {
            Ok(a) => crate::ip::ip_of(crate::text::trimmed(s@)) == Some(a),
            Err(e) => crate::ip::ip_of(crate::text::trimmed(s@)) is None && is_syntax_error(e, s@),
        },
{
    match IpAddr::parse(trim(s).as_str()) {
        Some(a) => Ok(a),
        None => Err(syntax_error(s)),
    }
}

} // verus!
