//! Services of type load balancer, as far as the allocator reads them.

use vstd::prelude::*;

use crate::ip::IpAddr;

verus! {

/// The class that this allocator serves.
pub const LOAD_BALANCER_CLASS: &'static str = "kube-router";

/// A service.
#[derive(Debug, Clone)]
pub struct LbService {
    /// Namespace.
    pub namespace: String,
    /// Name.
    pub name: String,
    /// The service is of type load balancer.
    pub is_loadbalancer: bool,
    /// The class it asks for.
    pub loadbalancer_class: Option<String>,
    /// It asks for an IPv4 address.
    pub want_v4: bool,
    /// It asks for an IPv6 address.
    pub want_v6: bool,
    /// It must have both families.
    pub require_dual: bool,
    /// External addresses.
    pub external_ips: Vec<IpAddr>,
    /// Addresses assigned so far.
    pub ingress_ips: Vec<IpAddr>,
}

impl Default for LbService {
    fn default() -> (r: LbService)
        ensures
            r.namespace@.len() == 0,
            r.name@.len() == 0,
            !r.is_loadbalancer,
            r.loadbalancer_class is None,
            !r.want_v4,
            !r.want_v6,
            !r.require_dual,
            r.external_ips@.len() == 0,
            r.ingress_ips@.len() == 0,
    {
        LbService {
            namespace: String::new(),
            name: String::new(),
            is_loadbalancer: false,
            loadbalancer_class: None,
            want_v4: false,
            want_v6: false,
            require_dual: false,
            external_ips: Vec::new(),
            ingress_ips: Vec::new(),
        }
    }
}

impl LbService {
    /// Whether an IPv4 address is assigned.
    pub open spec fn has_v4(self) -> bool {
        exists|i: int| 0 <= i < self.ingress_ips@.len() && #[trigger] self.ingress_ips@[i] is V4
    }

    /// Whether an IPv6 address is assigned.
    pub open spec fn has_v6(self) -> bool {
        exists|i: int| 0 <= i < self.ingress_ips@.len() && #[trigger] self.ingress_ips@[i] is V6
    }

    /// The families of the addresses assigned so far.
    pub fn have_families(&self) -> (r: (bool, bool))
        ensures
            r.0 == self.has_v4(),
            r.1 == self.has_v6(),
    {
        let mut v4 = false;
        let mut v6 = false;
        let mut i: usize = 0;
        while i < self.ingress_ips.len()
            invariant
                i <= self.ingress_ips.len(),
                v4 == exists|j: int| 0 <= j < i && #[trigger] self.ingress_ips@[j] is V4,
                v6 == exists|j: int| 0 <= j < i && #[trigger] self.ingress_ips@[j] is V6,
            decreases self.ingress_ips.len() - i,
        {
            match self.ingress_ips[i] {
                IpAddr::V4(_) => {
                    assert(self.ingress_ips@[i as int] is V4);
                    v4 = true;
                },
                IpAddr::V6(_) => {
                    assert(self.ingress_ips@[i as int] is V6);
                    v6 = true;
                },
            }
            i = i + 1;
        }
        (v4, v6)
    }
}

} // verus!
