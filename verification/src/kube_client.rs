//! Nodes as the cluster reports them: which of their addresses is used, and their pod networks.

use vstd::prelude::*;

use crate::common::ipfamily::{parse_cidr, parse_ip, IpFamily};
use crate::ip::IpAddr;
use crate::net::IpNet;
use crate::text::cat2;
use crate::time::Duration;

verus! {

/// The kind of a node's address.
#[derive(Debug, Clone, Copy, PartialEq, Eq, Structural)]
pub enum NodeAddressType {
    /// Internal; preferred.
    Internal,
    /// External; second choice.
    External,
    /// A name or something else; not used.
    Other,
}

/// An address of a node.
#[derive(Debug, Clone)]
pub struct NodeAddress {
    /// Its kind.
    pub kind: NodeAddressType,
    /// The address as text.
    pub address: String,
}

/// The addresses that are used of a node.
#[derive(Debug, Clone, Copy, PartialEq, Eq)]
pub struct NodeIps {
    /// IPv4 address.
    pub v4: Option<IpAddr>,
    /// IPv6 address.
    pub v6: Option<IpAddr>,
}

impl Default for NodeIps {
    fn default() -> (r: NodeIps)
        ensures
            r.v4 is None,
            r.v6 is None,
    {
        NodeIps { v4: None, v6: None }
    }
}

/// How a kind ranks; less is better.
pub open spec fn rank_of(kind: NodeAddressType) -> u8 {
    match kind {
        NodeAddressType::Internal => 0,
        NodeAddressType::External => 1,
        NodeAddressType::Other => 2,
    }
}

/// How a kind ranks; less is better.
pub fn rank(kind: NodeAddressType) -> (r: u8)
    ensures
        r == rank_of(kind),
{
    match kind {
        NodeAddressType::Internal => 0,
        NodeAddressType::External => 1,
        NodeAddressType::Other => 2,
    }
}

/// The address that a text spells, where it is of the kind and family.
pub open spec fn usable(a: NodeAddress, kind: NodeAddressType, family: IpFamily) -> Option<
    IpAddr,
> {
    match crate::ip::ip_of(crate::text::trimmed(a.address@)) {
        Some(ip) => if a.kind == kind && crate::common::ipfamily::family_of(ip) == family {
            Some(ip)
        } else {
            None
        },
        None => None,
    }
}

/// The first address of the kind and family.
pub open spec fn first_usable(
    addresses: Seq<NodeAddress>,
    kind: NodeAddressType,
    family: IpFamily,
) -> Option<IpAddr>
    decreases addresses.len(),
{
    if addresses.len() == 0 {
        None
    } else {
        match first_usable(addresses.drop_last(), kind, family) {
            Some(ip) => Some(ip),
            None => usable(addresses.last(), kind, family),
        }
    }
}

/// The address that is used of a family: the first internal one, or else the first external one.
pub open spec fn chosen(addresses: Seq<NodeAddress>, family: IpFamily) -> Option<IpAddr> {
    match first_usable(addresses, NodeAddressType::Internal, family) {
        Some(ip) => Some(ip),
        None => first_usable(addresses, NodeAddressType::External, family),
    }
}

/// The best rank seen of a family; the worst where none was.
pub open spec fn best_rank(addresses: Seq<NodeAddress>, family: IpFamily) -> u8 {
    if first_usable(addresses, NodeAddressType::Internal, family) is Some {
        0
    } else if first_usable(addresses, NodeAddressType::External, family) is Some {
        1
    } else {
        255
    }
}

impl NodeIps {
    /// The ranks before any address was seen.
    pub fn default_ranks() -> (r: (u8, u8))
        ensures
            r == (255u8, 255u8),
    {
        (255, 255)
    }
}

/// The addresses that are used of a node.
pub fn select_node_ips(addresses: &[NodeAddress]) -> (r: NodeIps)
    ensures
        r.v4 == chosen(addresses@, IpFamily::V4),
        r.v6 == chosen(addresses@, IpFamily::V6),
{
    let mut out = NodeIps::default();
    let mut best = NodeIps::default_ranks();
    let mut i: usize = 0;
    while i < addresses.len()
        invariant
            i <= addresses@.len(),
            out.v4 == chosen(addresses@.take(i as int), IpFamily::V4),
            out.v6 == chosen(addresses@.take(i as int), IpFamily::V6),
            best.0 == best_rank(addresses@.take(i as int), IpFamily::V4),
            best.1 == best_rank(addresses@.take(i as int), IpFamily::V6),
        decreases addresses@.len() - i,
    {
        let a = &addresses[i];
        let ghost now = addresses@.take(i + 1);
        assert(now.drop_last() =~= addresses@.take(i as int));
        assert(now.last() == *a);
        i = i + 1;
        if a.kind == NodeAddressType::Other {
            continue;
        }
        match parse_ip(a.address.as_str()) {
            Err(_) => {},
            Ok(ip) => {
                let r: u8 = rank(a.kind);
                match IpFamily::of_addr(&ip) {
                    IpFamily::V4 => {
                        if out.v4.is_none() || r < best.0 {
                            out.v4 = Some(ip);
                            best.0 = r;
                        }
                    },
                    IpFamily::V6 => {
                        if out.v6.is_none() || r < best.1 {
                            out.v6 = Some(ip);
                            best.1 = r;
                        }
                    },
                }
            },
        }
    }
    assert(addresses@.take(i as int) =~= addresses@);
    out
}

/// An internal address is used wherever there is one, whatever external ones there are.
pub proof fn lemma_internal_preferred(addresses: Seq<NodeAddress>, i: int, family: IpFamily)
    requires
        0 <= i < addresses.len(),
        usable(addresses[i], NodeAddressType::Internal, family) is Some,
    ensures
        chosen(addresses, family) == first_usable(addresses, NodeAddressType::Internal, family),
        chosen(addresses, family) is Some,
    decreases addresses.len(),
{
    if i < addresses.len() - 1 {
        assert(addresses.drop_last()[i] == addresses[i]);
        lemma_internal_preferred(addresses.drop_last(), i, family);
    }
}

/// The networks that texts spell; those that spell none are left out.
pub open spec fn nets_of(cidrs: Seq<Seq<char>>) -> Seq<IpNet> {
    crate::seqs::flat(
        cidrs,
        |c: Seq<char>|
            match crate::net::net_of(crate::text::trimmed(c)) {
                Some(n) => seq![n],
                None => Seq::empty(),
            },
    )
}

/// The networks that texts spell; those that spell none are left out.
pub fn parse_pod_cidrs(cidrs: &[String]) -> (r: Vec<IpNet>)
    ensures
        r@ == nets_of(crate::text::texts(cidrs@)),
        crate::lballoc::pools::all_wf(r@),
{
    let ghost all = crate::text::texts(cidrs@);
    let ghost f = |c: Seq<char>|
        match crate::net::net_of(crate::text::trimmed(c)) {
            Some(n) => seq![n],
            None => Seq::empty(),
        };
    let mut out: Vec<IpNet> = Vec::new();
    let mut i: usize = 0;
    assert(out@ =~= crate::seqs::flat(all.take(0), f));
    while i < cidrs.len()
        invariant
            i <= cidrs@.len(),
            all == crate::text::texts(cidrs@),
            f == (|c: Seq<char>|
                match crate::net::net_of(crate::text::trimmed(c)) {
                    Some(n) => seq![n],
                    None => Seq::empty(),
                }),
            out@ == crate::seqs::flat(all.take(i as int), f),
            crate::lballoc::pools::all_wf(out@),
        decreases cidrs@.len() - i,
    {
        proof {
            crate::seqs::lemma_flat_step(all, f, i as int);
            assert(all[i as int] == cidrs@[i as int]@);
        }
        match parse_cidr(cidrs[i].as_str()) {
            Ok(n) => {
                out.push(n);
            },
            Err(_) => {},
        }
        assert(out@ =~= crate::seqs::flat(all.take(i + 1), f));
        i = i + 1;
    }
    assert(all.take(i as int) =~= all);
    out
}

/// The objects of the cluster were not there in time.
#[derive(Debug, Clone, Copy, PartialEq, Eq, Structural)]
pub struct CacheSyncTimeout(pub Duration);

impl CacheSyncTimeout {
    /// The text shown to a user.
    pub fn message(&self) -> (r: String)
        requires
            self.0.nanos < 1_000_000_000,
        ensures
            r@ == "cache sync timed out after "@ + crate::cri::span_text_of(
                self.0.secs,
                self.0.nanos,
            ),
    {
        cat2(
            "cache sync timed out after ",
            crate::cri::span_text(self.0.secs, self.0.nanos).as_str(),
        )
    }
}

/// What waiting for the objects comes to: whether they were there within the time.
pub fn sync_outcome(in_time: bool, timeout: Duration) -> (r: Result<(), CacheSyncTimeout>)
    ensures
        match r {
            Ok(_) => in_time,
            Err(e) => !in_time && e.0 == timeout,
        },
{
    if in_time {
        Ok(())
    } else {
        Err(CacheSyncTimeout(timeout))
    }
}

} // verus!
