//! Startup: privileges, the components whose health is watched, and where the servers listen.

use vstd::prelude::*;

use crate::config::KubeRouterConfig;
use crate::observability::health::Component;
use crate::text::{cat3, dec_text};
use crate::time::Duration;

verus! {

/// The process does not run as root.
#[derive(Debug, Clone, Copy, PartialEq, Eq, Structural)]
pub struct NotRoot {
    /// The user it runs as.
    pub euid: u32,
}

impl NotRoot {
    /// The text shown to a user.
    pub fn message(&self) -> (r: String)
        ensures
            r@ == "kube-router-rs must run as root (effective uid "@ + crate::text::dec(
                self.euid as nat,
            ) + "); needs iptables/ipset/ipvs/netlink"@,
    {
        cat3(
            "kube-router-rs must run as root (effective uid ",
            dec_text(self.euid as u64).as_str(),
            "); needs iptables/ipset/ipvs/netlink",
        )
    }
}

/// Refuses every user but root.
pub fn require_root(euid: u32) -> (r: Result<(), NotRoot>)
    ensures
        r == if euid == 0 {
            Ok::<(), NotRoot>(())
        } else {
            Err(NotRoot { euid })
        },
{
    if euid == 0 {
        Ok(())
    } else {
        Err(NotRoot { euid })
    }
}

/// The element, where the condition holds.
pub open spec fn when<A>(cond: bool, a: A) -> Seq<A> {
    if cond {
        seq![a]
    } else {
        Seq::empty()
    }
}

/// The components whose health is watched, with their sync periods: those of the controllers that
/// run, each of which reports heartbeats.
pub open spec fn watched(c: KubeRouterConfig) -> Seq<(Component, Duration)> {
    when(c.run_router, (Component::NetworkRoutes, c.routes_sync_period)) + when(
        c.run_router,
        (Component::RouteSync, c.injected_routes_sync_period),
    ) + when(c.run_firewall, (Component::NetworkPolicy, c.iptables_sync_period)) + when(
        c.run_service_proxy,
        (Component::NetworkServices, c.ipvs_sync_period),
    ) + when(c.run_loadbalancer, (Component::LoadBalancer, c.loadbalancer_sync_period))
}

/// The components whose health is watched, with their sync periods.
pub fn components_for(config: &KubeRouterConfig) -> (r: Vec<(Component, Duration)>)
    ensures
        r@ == watched(*config),
{
    let mut out: Vec<(Component, Duration)> = Vec::new();
    if config.run_router {
        out.push((Component::NetworkRoutes, config.routes_sync_period));
        out.push((Component::RouteSync, config.injected_routes_sync_period));
    }
    if config.run_firewall {
        out.push((Component::NetworkPolicy, config.iptables_sync_period));
    }
    if config.run_service_proxy {
        out.push((Component::NetworkServices, config.ipvs_sync_period));
    }
    if config.run_loadbalancer {
        out.push((Component::LoadBalancer, config.loadbalancer_sync_period));
    }
    assert(out@ =~= watched(*config));
    out
}

/// What does not report heartbeats is never watched, whatever the configuration: neither metrics
/// nor hairpin mode.
pub proof fn lemma_passive_parts_not_watched(c: KubeRouterConfig, i: int)
    requires
        0 <= i < watched(c).len(),
    ensures
        watched(c)[i].0 != Component::Metrics,
        watched(c)[i].0 != Component::Hairpin,
{
}

/// No component is watched twice.
pub proof fn lemma_watched_once(c: KubeRouterConfig, i: int, j: int)
    requires
        0 <= i < j < watched(c).len(),
    ensures
        watched(c)[i].0 != watched(c)[j].0,
{
}

/// The controllers that run, in words.
pub open spec fn controller_words(c: KubeRouterConfig) -> Seq<Seq<char>> {
    when(c.run_router, "router (BGP + routes)"@) + when(
        c.run_firewall,
        "firewall (network policy)"@,
    ) + when(c.run_service_proxy, "service-proxy (IPVS)"@) + when(
        c.run_loadbalancer,
        "loadbalancer-allocator"@,
    )
}

/// The texts of literals.
pub open spec fn words(v: Seq<&'static str>) -> Seq<Seq<char>> {
    v.map_values(|s: &'static str| s@)
}

/// The controllers that run, in words.
pub fn enabled_controllers(config: &KubeRouterConfig) -> (r: Vec<&'static str>)
    ensures
        words(r@) == controller_words(*config),
{
    let mut v: Vec<&'static str> = Vec::new();
    if config.run_router {
        v.push("router (BGP + routes)");
    }
    if config.run_firewall {
        v.push("firewall (network policy)");
    }
    if config.run_service_proxy {
        v.push("service-proxy (IPVS)");
    }
    if config.run_loadbalancer {
        v.push("loadbalancer-allocator");
    }
    assert(words(v@) =~= controller_words(*config));
    v
}

/// Where a server listens; without a host, on all interfaces.
pub fn bind_addr(host: &str, port: u16) -> (r: String)
    ensures
        r@ == if host@.len() == 0 {
            "0.0.0.0"@ + ":"@ + crate::text::dec(port as nat)
        } else {
            host@ + ":"@ + crate::text::dec(port as nat)
        },
{
    let h = if host.is_empty() {
        "0.0.0.0"
    } else {
        host
    };
    cat3(h, ":", dec_text(port as u64).as_str())
}

} // verus!
