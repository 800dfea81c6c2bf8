//! Services and their endpoints as the service proxy sees them. The proxy that programs them is
//! not part of this crate: the names that protocols, schedulers and flags go by, and what an
//! unknown or missing name stands for, are laid down here and nowhere else.

use vstd::prelude::*;

use crate::ip::IpAddr;
use crate::text::{same, split_on, trim};

verus! {

/// A transport protocol.
#[derive(Debug, Clone, Copy, PartialEq, Eq, Structural)]
pub enum Protocol {
    Tcp,
    Udp,
    Sctp,
}

impl Protocol {
    /// The protocol that a name stands for; TCP where the name is unknown.
    pub open spec fn of(name: Seq<char>) -> Protocol {
        if name == "UDP"@ || name == "udp"@ {
            Protocol::Udp
        } else if name == "SCTP"@ || name == "sctp"@ {
            Protocol::Sctp
        } else {
            Protocol::Tcp
        }
    }

    /// The protocol that a name stands for.
    pub fn parse(name: &str) -> (r: Protocol)
        ensures
            r == Protocol::of(name@),
    {
        if same(name, "UDP") || same(name, "udp") {
            Protocol::Udp
        } else if same(name, "SCTP") || same(name, "sctp") {
            Protocol::Sctp
        } else {
            Protocol::Tcp
        }
    }
}

/// How connections are spread over endpoints.
#[derive(Debug, Clone, Copy, PartialEq, Eq, Structural)]
pub enum Scheduler {
    /// Round robin.
    Rr,
    /// Least connections.
    Lc,
    /// Hash of the destination.
    Dh,
    /// Hash of the source.
    Sh,
    /// Maglev hash.
    Mh,
}

impl Default for Scheduler {
    fn default() -> (r: Scheduler)
        ensures
            r == Scheduler::Rr,
    {
        Scheduler::Rr
    }
}

impl Scheduler {
    /// The scheduler that a name stands for; round robin where the name is unknown.
    pub open spec fn of(name: Seq<char>) -> Scheduler {
        if name == "lc"@ {
            Scheduler::Lc
        } else if name == "dh"@ {
            Scheduler::Dh
        } else if name == "sh"@ {
            Scheduler::Sh
        } else if name == "mh"@ {
            Scheduler::Mh
        } else {
            Scheduler::Rr
        }
    }

    /// The scheduler that a name stands for.
    pub fn parse(name: &str) -> (r: Scheduler)
        ensures
            r == Scheduler::of(name@),
    {
        if same(name, "lc") {
            Scheduler::Lc
        } else if same(name, "dh") {
            Scheduler::Dh
        } else if same(name, "sh") {
            Scheduler::Sh
        } else if same(name, "mh") {
            Scheduler::Mh
        } else {
            Scheduler::Rr
        }
    }
}

/// Flags of a scheduler.
#[derive(Debug, Clone, Copy, PartialEq, Eq, Structural)]
pub struct SchedFlags {
    pub flag1: bool,
    pub flag2: bool,
    pub flag3: bool,
}

impl Default for SchedFlags {
    fn default() -> (r: SchedFlags)
        ensures
            r == SchedFlags::none(),
    {
        SchedFlags { flag1: false, flag2: false, flag3: false }
    }
}

/// Whether a list of names separated by commas has the name; blanks around names do not count.
pub open spec fn lists(list: Seq<char>, name: Seq<char>) -> bool {
    exists|i: int|
        0 <= i < crate::text::split(list, ',').len() && crate::text::trimmed(
            #[trigger] crate::text::split(list, ',')[i],
        ) == name
}

fn is_listed(list: &str, name: &str) -> (r: bool)
    ensures
        r == lists(list@, name@),
{
    let pieces = split_on(list, ',');
    let ghost all = crate::text::split(list@, ',');
    let mut i: usize = 0;
    while i < pieces.len()
        invariant
            i <= pieces@.len(),
            all == crate::text::split(list@, ','),
            crate::text::texts(pieces@) == all,
            forall|k: int| 0 <= k < i ==> crate::text::trimmed(#[trigger] all[k]) != name@,
        decreases pieces@.len() - i,
    {
        assert(all[i as int] == pieces@[i as int]@);
        if same(trim(pieces[i].as_str()).as_str(), name) {
            return true;
        }
        i = i + 1;
    }
    false
}

impl SchedFlags {
    /// No flag.
    pub open spec fn none() -> SchedFlags {
        SchedFlags { flag1: false, flag2: false, flag3: false }
    }

    /// The flags that a list names: `flag-1`, `flag-2` and `flag-3`.
    pub open spec fn of(list: Seq<char>) -> SchedFlags {
        SchedFlags {
            flag1: lists(list, "flag-1"@),
            flag2: lists(list, "flag-2"@),
            flag3: lists(list, "flag-3"@),
        }
    }

    /// The flags that a list names.
    pub fn parse(list: &str) -> (r: SchedFlags)
        ensures
            r == SchedFlags::of(list@),
    {
        SchedFlags {
            flag1: is_listed(list, "flag-1"),
            flag2: is_listed(list, "flag-2"),
            flag3: is_listed(list, "flag-3"),
        }
    }
}

/// An endpoint of a service.
#[derive(Debug, Clone, Copy, PartialEq, Eq, Structural)]
pub struct EndpointInfo {
    /// Address.
    pub ip: IpAddr,
    /// Port.
    pub port: u16,
    /// Whether this node hosts it.
    pub is_local: bool,
    /// Whether it is ready.
    pub ready: bool,
}

/// A port of a service.
#[derive(Debug, Clone)]
pub struct ServiceInfo {
    /// Namespace.
    pub namespace: String,
    /// Name.
    pub name: String,
    /// Name of the port, or empty.
    pub port_name: String,
    /// Protocol.
    pub protocol: Protocol,
    /// Port.
    pub port: u16,
    /// Port on the nodes.
    pub node_port: Option<u16>,
    /// Addresses in the cluster.
    pub cluster_ips: Vec<IpAddr>,
    /// External addresses.
    pub external_ips: Vec<IpAddr>,
    /// Addresses of load balancers.
    pub load_balancer_ips: Vec<IpAddr>,
    /// How connections are spread.
    pub scheduler: Scheduler,
    /// Flags of the scheduler.
    pub sched_flags: SchedFlags,
    /// Whether a client stays with its endpoint.
    pub session_affinity: bool,
    /// How long it does, in seconds.
    pub affinity_timeout: u32,
    /// Whether replies go to the client directly.
    pub dsr: bool,
    /// Whether traffic from the cluster stays on the node.
    pub internal_traffic_local: bool,
    /// Whether traffic from outside stays on the node.
    pub external_traffic_local: bool,
    /// Whether an endpoint can reach itself through the service.
    pub hairpin: bool,
    /// Whether it can through external addresses.
    pub hairpin_external_ips: bool,
    /// Port of the health check.
    pub health_check_node_port: Option<u16>,
}

/// A port of a service as a value.
#[verifier::ext_equal]
pub struct ServiceView {
    pub namespace: Seq<char>,
    pub name: Seq<char>,
    pub port_name: Seq<char>,
    pub protocol: Protocol,
    pub port: u16,
    pub node_port: Option<u16>,
    pub cluster_ips: Seq<IpAddr>,
    pub external_ips: Seq<IpAddr>,
    pub load_balancer_ips: Seq<IpAddr>,
    pub scheduler: Scheduler,
    pub sched_flags: SchedFlags,
    pub session_affinity: bool,
    pub affinity_timeout: u32,
    pub dsr: bool,
    pub internal_traffic_local: bool,
    pub external_traffic_local: bool,
    pub hairpin: bool,
    pub hairpin_external_ips: bool,
    pub health_check_node_port: Option<u16>,
}

impl View for ServiceInfo {
    type V = ServiceView;

    open spec fn view(&self) -> ServiceView {
        ServiceView {
            namespace: self.namespace@,
            name: self.name@,
            port_name: self.port_name@,
            protocol: self.protocol,
            port: self.port,
            node_port: self.node_port,
            cluster_ips: self.cluster_ips@,
            external_ips: self.external_ips@,
            load_balancer_ips: self.load_balancer_ips@,
            scheduler: self.scheduler,
            sched_flags: self.sched_flags,
            session_affinity: self.session_affinity,
            affinity_timeout: self.affinity_timeout,
            dsr: self.dsr,
            internal_traffic_local: self.internal_traffic_local,
            external_traffic_local: self.external_traffic_local,
            hairpin: self.hairpin,
            hairpin_external_ips: self.hairpin_external_ips,
            health_check_node_port: self.health_check_node_port,
        }
    }
}

} // verus!
