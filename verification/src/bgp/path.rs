//! BGP paths and the attributes that go with the family of their prefix.

use vstd::prelude::*;

use crate::common::ipfamily::IpFamily;
use crate::ip::IpAddr;
use crate::net::IpNet;

verus! {

/// Address family of a path.
#[derive(Debug, Clone, Copy, PartialEq, Eq, Structural)]
pub enum Afi {
    /// IPv4.
    Ip,
    /// IPv6.
    Ip6,
}

/// Sub-address family of a path.
#[derive(Debug, Clone, Copy, PartialEq, Eq, Structural)]
pub enum Safi {
    /// Unicast.
    Unicast,
}

/// An attribute of a path.
#[derive(Debug, Clone, PartialEq, Eq)]
pub enum Attr {
    /// Origin; 0 is an interior protocol.
    Origin(u8),
    /// Next hop of an IPv4 prefix.
    NextHop(IpAddr),
    /// Next hop and prefix of an IPv6 path.
    MpReachNlri {
        /// The next hop.
        next_hop: IpAddr,
        /// The prefix.
        nlri: IpNet,
    },
    /// Communities.
    Communities(Vec<u32>),
    /// An AS number put in front of the AS path.
    AsPathPrepend {
        /// The AS number.
        asn: u32,
        /// How many times.
        repeat: u8,
    },
}

/// A path that is announced or withdrawn.
#[derive(Debug, Clone, PartialEq, Eq)]
pub struct Path {
    /// Address family.
    pub afi: Afi,
    /// Sub-address family.
    pub safi: Safi,
    /// The prefix.
    pub prefix: IpNet,
    /// The next hop.
    pub next_hop: IpAddr,
    /// Attributes.
    pub attrs: Vec<Attr>,
    /// The path is withdrawn.
    pub withdrawal: bool,
}

/// Makes a path with the attributes of its prefix's family.
pub struct PathBuilder {
    prefix: IpNet,
    next_hop: IpAddr,
    withdrawal: bool,
}

/// The family of a path with the prefix.
pub open spec fn afi_of(prefix: IpNet) -> Afi {
    match crate::common::ipfamily::family_of(prefix.addr) {
        IpFamily::V4 => Afi::Ip,
        IpFamily::V6 => Afi::Ip6,
    }
}

/// The attributes of a path: its origin, and its next hop in the form of its family.
pub open spec fn base_attrs(prefix: IpNet, next_hop: IpAddr) -> Seq<Attr> {
    match afi_of(prefix) {
        Afi::Ip => seq![Attr::Origin(0), Attr::NextHop(next_hop)],
        Afi::Ip6 => seq![Attr::Origin(0), Attr::MpReachNlri { next_hop, nlri: prefix }],
    }
}

impl PathBuilder {
    /// The prefix.
    pub closed spec fn target(self) -> IpNet {
        self.prefix
    }

    /// The next hop.
    pub closed spec fn hop(self) -> IpAddr {
        self.next_hop
    }

    /// Whether the path is withdrawn.
    pub closed spec fn withdraws(self) -> bool {
        self.withdrawal
    }

    /// Starts a path that is announced.
    pub fn new(prefix: IpNet, next_hop: IpAddr) -> (r: PathBuilder)
        ensures
            r.target() == prefix,
            r.hop() == next_hop,
            !r.withdraws(),
    {
        PathBuilder { prefix, next_hop, withdrawal: false }
    }

    /// Sets whether the path is withdrawn.
    pub fn withdrawal(self, w: bool) -> (r: PathBuilder)
        ensures
            r.target() == self.target(),
            r.hop() == self.hop(),
            r.withdraws() == w,
    {
        PathBuilder { prefix: self.prefix, next_hop: self.next_hop, withdrawal: w }
    }

    /// Makes the path.
    pub fn build(self) -> (r: Path)
        ensures
            r.afi == afi_of(self.target()),
            r.safi == Safi::Unicast,
            r.prefix == self.target(),
            r.next_hop == self.hop(),
            r.attrs@ == base_attrs(self.target(), self.hop()),
            r.withdrawal == self.withdraws(),
    {
        let (afi, attrs) = match IpFamily::of_net(&self.prefix) {
            IpFamily::V4 => (Afi::Ip, vec![Attr::Origin(0), Attr::NextHop(self.next_hop)]),
            IpFamily::V6 => (
                Afi::Ip6,
                vec![
                    Attr::Origin(0),
                    Attr::MpReachNlri { next_hop: self.next_hop, nlri: self.prefix },
                ],
            ),
        };
        assert(attrs@ =~= base_attrs(self.prefix, self.next_hop));
        Path {
            afi,
            safi: Safi::Unicast,
            prefix: self.prefix,
            next_hop: self.next_hop,
            attrs,
            withdrawal: self.withdrawal,
        }
    }
}

} // verus!
