//! What the agent does from its start to its end: whether it runs at all, which tasks its
//! controllers are made of, and what each task does at each event.

use vstd::prelude::*;

use crate::bgp::grpc::PathEvent;
use crate::cleanup::{cleanup_plan, CleanupCmd};
use crate::common::error::Error;
use crate::common::ipfamily::IpFamily;
use crate::config::KubeRouterConfig;
use crate::ip::IpAddr;
use crate::lballoc::controller::LbAllocator;
use crate::lballoc::election::{LeaderElector, LeaseError};
use crate::lballoc::pools::IpRanges;
use crate::net::IpNet;
use crate::netpol::controller::FirewallController;
use crate::observability::health::Component;
use crate::orchestrate::{bind_addr, components_for, require_root, NotRoot};
use crate::startup::{
    enabled_family_list, is_own_path, masquerade_config, node_port_addresses, split_ranges,
    validation_ranges, vip_advertisement, AdvertiseDefaults, MasqueradeCfg, ValidationRanges,
};
use crate::text::cat2;
use crate::time::Duration;

verus! {

// ---------------------------------------------------------------------------------------------
// The start
// ---------------------------------------------------------------------------------------------

/// Why the agent does not start.
#[derive(Debug)]
pub enum StartError {
    /// Its configuration is not valid.
    Config(Error),
    /// It does not run as root.
    NotRoot(NotRoot),
}

impl StartError {
    /// The text shown to a user.
    pub fn message(&self) -> (r: String)
        ensures
            match *self {
                StartError::Config(e) => r@ == "configuration error: "@ + e.text(),
                StartError::NotRoot(e) => r@ == "kube-router-rs must run as root (effective uid "@
                    + crate::text::dec(e.euid as nat) + "); needs iptables/ipset/ipvs/netlink"@,
            },
    {
        match self {
            StartError::Config(e) => cat2("configuration error: ", e.message().as_str()),
            StartError::NotRoot(e) => e.message(),
        }
    }
}

/// A controller.
#[derive(Debug, Clone, Copy, PartialEq, Eq, Structural)]
pub enum Controller {
    /// Routes and BGP.
    Routing,
    /// Network policies.
    Firewall,
    /// Services.
    ServiceProxy,
    /// Addresses of load balancers.
    LoadBalancer,
}

/// The controllers that a configuration runs, in the order in which they start.
pub open spec fn controllers_of(c: KubeRouterConfig) -> Seq<Controller> {
    crate::orchestrate::when(c.run_router, Controller::Routing) + crate::orchestrate::when(
        c.run_firewall,
        Controller::Firewall,
    ) + crate::orchestrate::when(c.run_service_proxy, Controller::ServiceProxy)
        + crate::orchestrate::when(c.run_loadbalancer, Controller::LoadBalancer)
}

/// What the agent starts.
#[derive(Debug)]
pub struct RunPlan {
    /// Where health is served, if it is.
    pub health_addr: Option<String>,
    /// Where metrics are served, if they are.
    pub metrics_addr: Option<String>,
    /// What is watched, with sync periods.
    pub components: Vec<(Component, Duration)>,
    /// Controllers.
    pub controllers: Vec<Controller>,
}

/// What a start comes to.
#[derive(Debug)]
pub enum Startup {
    /// What the agent has set up is removed; of the firewall also what is found by its name.
    Cleanup {
        /// The commands.
        plan: Vec<CleanupCmd>,
        /// Whether chains and sets are looked for.
        sweep: bool,
    },
    /// The agent runs.
    Run(RunPlan),
}

/// Where a server listens; a server with port 0 does not.
pub open spec fn listen_text(host: Seq<char>, port: u16) -> Option<Seq<char>> {
    if port == 0 {
        None
    } else if host.len() == 0 {
        Some("0.0.0.0"@ + ":"@ + crate::text::dec(port as nat))
    } else {
        Some(host + ":"@ + crate::text::dec(port as nat))
    }
}

fn listen_addr(host: &str, port: u16) -> (r: Option<String>)
    ensures
        crate::objects::text_of(r) == listen_text(host@, port),
{
    if port == 0 {
        None
    } else {
        Some(bind_addr(host, port))
    }
}

fn controllers_for(c: &KubeRouterConfig) -> (r: Vec<Controller>)
    ensures
        r@ == controllers_of(*c),
{
    let mut v: Vec<Controller> = Vec::new();
    if c.run_router {
        v.push(Controller::Routing);
    }
    if c.run_firewall {
        v.push(Controller::Firewall);
    }
    if c.run_service_proxy {
        v.push(Controller::ServiceProxy);
    }
    if c.run_loadbalancer {
        v.push(Controller::LoadBalancer);
    }
    assert(v@ =~= controllers_of(*c));
    v
}

/// What a start comes to. An invalid configuration ends it; a cleanup needs no further right;
/// to run, the agent must be root.
pub fn plan_startup(config: &KubeRouterConfig, euid: u32) -> (r: Result<Startup, StartError>)
    ensures
        match config.fault() {
            Some(m) => r matches Err(StartError::Config(Error::Config(t))) && t@ == m,
            None => if config.cleanup_config {
                r matches Ok(Startup::Cleanup { plan, sweep }) && crate::cleanup::cmd_views(plan@)
                    == crate::cleanup::plan_of(*config) && sweep == config.run_firewall
            } else if euid != 0 {
                r == Err::<Startup, StartError>(StartError::NotRoot(NotRoot { euid }))
            } else {
                r matches Ok(Startup::Run(p)) && {
                    &&& crate::objects::text_of(p.health_addr) == listen_text(
                        config.health_addr@,
                        config.health_port,
                    )
                    &&& crate::objects::text_of(p.metrics_addr) == listen_text(
                        config.metrics_addr@,
                        config.metrics_port,
                    )
                    &&& p.components@ == crate::orchestrate::watched(*config)
                    &&& p.controllers@ == controllers_of(*config)
                }
            },
        },
{
    match config.validate() {
        Err(e) => {
            return Err(StartError::Config(e));
        },
        Ok(_) => {},
    }
    if config.cleanup_config {
        return Ok(
            Startup::Cleanup { plan: cleanup_plan(config), sweep: config.run_firewall },
        );
    }
    match require_root(euid) {
        Err(e) => {
            return Err(StartError::NotRoot(e));
        },
        Ok(_) => {},
    }
    Ok(
        Startup::Run(
            RunPlan {
                health_addr: listen_addr(config.health_addr.as_str(), config.health_port),
                metrics_addr: listen_addr(config.metrics_addr.as_str(), config.metrics_port),
                components: components_for(config),
                controllers: controllers_for(config),
            },
        ),
    )
}

/// Something is watched exactly when a controller that reports for it runs: without a controller
/// nothing is watched, so that health cannot fail for what never reports.
pub proof fn lemma_watched_only_with_controllers(c: KubeRouterConfig)
    ensures
        crate::orchestrate::watched(c).len() == 0 <==> controllers_of(c).len() == 0,
{
}

// ---------------------------------------------------------------------------------------------
// The firewall
// ---------------------------------------------------------------------------------------------

/// The firewall controller that a configuration asks for.
pub fn firewall_controller(
    config: &KubeRouterConfig,
    node: String,
    pod_cidrs: Vec<IpNet>,
) -> (r: FirewallController)
    ensures
        r.families@ == crate::startup::families_of(*config),
        r.node@ == node@,
        r.sync_version@ == "kr"@,
        r.sync_period == config.iptables_sync_period,
        r.default_deny == config.netpol_default_deny,
        r.pod_cidrs@ == pod_cidrs@,
{
    FirewallController::new(
        enabled_family_list(config),
        node,
        config.iptables_sync_period,
        config.netpol_default_deny,
        pod_cidrs,
    )
}

// ---------------------------------------------------------------------------------------------
// The service proxy
// ---------------------------------------------------------------------------------------------

/// The largest packet, in bytes, that replies sent to the client directly are clamped for.
pub const DSR_MTU: u32 = 1500;

/// What the service proxy is set up with.
#[derive(Debug)]
pub struct ServiceProxyPlan {
    /// Time between syncs.
    pub sync_period: Duration,
    /// Ranges that addresses of services must be in.
    pub ranges: ValidationRanges,
    /// Addresses on which node ports are served.
    pub node_ips: Vec<IpAddr>,
    /// Whether endpoints that leave are drained, and how long.
    pub graceful: (bool, Duration),
    /// Families.
    pub families: Vec<IpFamily>,
    /// Whether endpoints can reach themselves through their service.
    pub hairpin_mode: bool,
    /// Masquerading.
    pub masquerade: MasqueradeCfg,
    /// Whether traffic to addresses of services that have no such port is let through.
    pub permit_all: bool,
    /// Packet size for direct replies.
    pub mtu: u32,
    /// The range of node ports, as it was given.
    pub node_port_range: String,
}

/// What the service proxy is set up with.
pub fn service_proxy_plan(
    config: &KubeRouterConfig,
    primary_ip: Option<IpAddr>,
    all_local: Vec<IpAddr>,
    pod_cidrs: &[IpNet],
) -> (r: ServiceProxyPlan)
    ensures
        r.sync_period == config.ipvs_sync_period,
        r.ranges.external@ == crate::objects::nets_of(
            crate::text::texts(config.service_external_ip_range@),
        ),
        r.ranges.loadbalancer@ == crate::objects::nets_of(
            crate::text::texts(config.loadbalancer_ip_range@),
        ),
        r.ranges.cluster@ == crate::objects::nets_of(
            crate::text::texts(config.service_cluster_ip_range@),
        ),
        r.ranges.strict == config.strict_external_ip_validation,
        r.node_ips@ == if config.nodeport_bindon_all_ip {
            all_local@
        } else {
            match primary_ip {
                Some(ip) => seq![ip],
                None => Seq::empty(),
            }
        },
        r.graceful == (config.ipvs_graceful_termination, config.ipvs_graceful_period),
        r.families@ == crate::startup::families_of(*config),
        r.hairpin_mode == config.hairpin_mode,
        r.masquerade.all == config.masquerade_all,
        r.masquerade.random_fully,
        r.masquerade.primary@ == match primary_ip {
            Some(ip) => seq![(ip is V6, ip)],
            None => Seq::empty(),
        },
        crate::text::texts(r.masquerade.pod_cidrs@) == crate::startup::net_texts(pod_cidrs@),
        r.permit_all == config.ipvs_permit_all,
        r.mtu == DSR_MTU,
        r.node_port_range@ == config.service_node_port_range@,
{
    ServiceProxyPlan {
        sync_period: config.ipvs_sync_period,
        ranges: validation_ranges(config),
        node_ips: node_port_addresses(config, all_local, primary_ip),
        graceful: (config.ipvs_graceful_termination, config.ipvs_graceful_period),
        families: enabled_family_list(config),
        hairpin_mode: config.hairpin_mode,
        masquerade: masquerade_config(config, primary_ip, pod_cidrs),
        permit_all: config.ipvs_permit_all,
        mtu: DSR_MTU,
        node_port_range: config.service_node_port_range.clone(),
    }
}

// ---------------------------------------------------------------------------------------------
// Routing
// ---------------------------------------------------------------------------------------------

/// The tasks that routing is made of.
#[derive(Debug)]
pub struct RoutingTasks {
    /// Paths that the speaker learns are watched, and installed as routes.
    pub learn: bool,
    /// Addresses of services are advertised, with these defaults and this next hop.
    pub advertise: Option<(AdvertiseDefaults, IpAddr)>,
    /// Peers are kept.
    pub peers: bool,
    /// Routes to the other nodes are installed directly.
    pub direct_routes: bool,
}

/// The tasks that routing is made of. With a real speaker, routes come from the paths that it
/// learns; without one, they are installed directly.
pub fn routing_tasks(
    config: &KubeRouterConfig,
    real_speaker: bool,
    known: bool,
    local_ip: Option<IpAddr>,
) -> (r: RoutingTasks)
    ensures
        r.learn == real_speaker,
        r.direct_routes == !real_speaker,
        r.peers == known,
        match r.advertise {
            Some((d, next_hop)) => {
                &&& real_speaker
                &&& local_ip == Some(next_hop)
                &&& d.cluster == config.advertise_cluster_ip
                &&& d.external == config.advertise_external_ip
                &&& d.loadbalancer == config.advertise_loadbalancer_ip
                &&& d.cluster || d.external || d.loadbalancer
            },
            None => !real_speaker || local_ip is None || !(config.advertise_cluster_ip
                || config.advertise_external_ip || config.advertise_loadbalancer_ip),
        },
{
    let advertise = if real_speaker {
        vip_advertisement(config, local_ip)
    } else {
        None
    };
    RoutingTasks {
        learn: real_speaker,
        advertise,
        peers: known,
        direct_routes: !real_speaker,
    }
}

/// A step of the end of routing.
#[derive(Debug, Clone, Copy, PartialEq, Eq, Structural)]
pub enum TeardownStep {
    /// The speaker takes leave of its peers.
    StopBgp,
    /// Watching, installing and advertising end.
    StopTasks,
    /// The speaker ends.
    EndSpeaker,
}

/// The steps of the end of routing, in order: peers are told before the tasks end, and the speaker
/// ends last.
pub fn teardown_steps(real_speaker: bool) -> (r: Vec<TeardownStep>)
    ensures
        r@ == if real_speaker {
            seq![TeardownStep::StopBgp, TeardownStep::StopTasks, TeardownStep::EndSpeaker]
        } else {
            Seq::empty()
        },
{
    let mut v: Vec<TeardownStep> = Vec::new();
    if real_speaker {
        v.push(TeardownStep::StopBgp);
        v.push(TeardownStep::StopTasks);
        v.push(TeardownStep::EndSpeaker);
    }
    assert(v@ =~= if real_speaker {
        seq![TeardownStep::StopBgp, TeardownStep::StopTasks, TeardownStep::EndSpeaker]
    } else {
        Seq::empty()
    });
    v
}

/// A best path.
#[derive(Debug, Clone, Copy, PartialEq, Eq, Structural)]
pub struct BestPath {
    /// The prefix.
    pub prefix: IpNet,
    /// The next hop.
    pub next_hop: IpAddr,
    /// The path is withdrawn.
    pub withdrawal: bool,
}

/// What the task that installs learned paths meets.
#[derive(Debug, Clone, Copy)]
pub enum InjectEvent {
    /// A path was learned or withdrawn.
    Path(PathEvent),
    /// No more paths will come.
    Closed,
    /// It is time to sync.
    SyncDue,
    /// The agent ends.
    Stop,
}

/// What the task that installs learned paths does.
#[derive(Debug, Clone, Copy, PartialEq, Eq, Structural)]
pub enum InjectAction {
    /// Nothing.
    Skip,
    /// Install or withdraw the path.
    Apply(BestPath),
    /// Install again all that is installed.
    Sync,
    /// End.
    End,
}

/// What the task that installs learned paths does at an event. The node's own paths are left to
/// its bridge.
pub fn inject_step(event: InjectEvent, local_ip: Option<IpAddr>) -> (r: InjectAction)
    ensures
        r == match event {
            InjectEvent::Path(p) => if local_ip == Some(p.next_hop) {
                InjectAction::Skip
            } else {
                InjectAction::Apply(
                    BestPath {
                        prefix: p.prefix,
                        next_hop: p.next_hop,
                        withdrawal: p.withdrawal,
                    },
                )
            },
            InjectEvent::Closed => InjectAction::End,
            InjectEvent::SyncDue => InjectAction::Sync,
            InjectEvent::Stop => InjectAction::End,
        },
{
    match event {
        InjectEvent::Path(p) => if is_own_path(&p, local_ip) {
            InjectAction::Skip
        } else {
            InjectAction::Apply(
                BestPath { prefix: p.prefix, next_hop: p.next_hop, withdrawal: p.withdrawal },
            )
        },
        InjectEvent::Closed => InjectAction::End,
        InjectEvent::SyncDue => InjectAction::Sync,
        InjectEvent::Stop => InjectAction::End,
    }
}

/// How long the task that watches paths waits before it connects again, in seconds.
pub const RECONNECT_SECONDS: u64 = 2;

/// What the task that watches paths meets.
#[derive(Debug, Clone, Copy, PartialEq, Eq, Structural)]
pub enum WatchEvent {
    /// It starts.
    Start,
    /// The watch ended or failed.
    Lost,
    /// The wait is over, or it was broken off.
    Waited,
}

/// What the task that watches paths does.
#[derive(Debug, Clone, Copy, PartialEq, Eq, Structural)]
pub enum WatchAction {
    /// Connect and watch.
    Watch,
    /// Wait so many seconds, or until the shutdown signal changes.
    Wait(u64),
    /// End.
    End,
}

/// What the task that watches paths does at an event. A watch that is lost is taken up again
/// after a wait, until the agent ends; the end is looked at before each watch.
pub fn watch_step(event: WatchEvent, ends: bool) -> (r: WatchAction)
    ensures
        r == match event {
            WatchEvent::Lost => WatchAction::Wait(RECONNECT_SECONDS),
            _ => if ends {
                WatchAction::End
            } else {
                WatchAction::Watch
            },
        },
{
    match event {
        WatchEvent::Lost => WatchAction::Wait(RECONNECT_SECONDS),
        _ => if ends {
            WatchAction::End
        } else {
            WatchAction::Watch
        },
    }
}

// ---------------------------------------------------------------------------------------------
// The allocator of addresses
// ---------------------------------------------------------------------------------------------

/// The allocator that a configuration asks for: each range goes to the pool of its family.
pub fn lb_allocator(config: &KubeRouterConfig) -> (r: LbAllocator)
    ensures
        r.wf(),
        r.pool4().ranges == crate::startup::nets_in(
            crate::text::texts(config.loadbalancer_ip_range@),
            IpFamily::V4,
        ),
        r.pool4().at == 0,
        r.pool6().ranges == crate::startup::nets_in(
            crate::text::texts(config.loadbalancer_ip_range@),
            IpFamily::V6,
        ),
        r.pool6().at == 0,
        r.serves_default() == config.loadbalancer_default_class,
{
    let (v4, v6) = split_ranges(&config.loadbalancer_ip_range);
    LbAllocator::new(IpRanges::new(v4), IpRanges::new(v6), config.loadbalancer_default_class)
}

/// What the allocator's task meets.
#[derive(Debug)]
pub enum LbEvent {
    /// The lease was tried for.
    Attempted(Result<bool, LeaseError>),
    /// It is time to sync.
    SyncDue,
    /// The agent ends, or not.
    Signal(bool),
}

/// What the allocator's task does.
#[derive(Debug, Clone, Copy, PartialEq, Eq, Structural)]
pub enum LbAction {
    /// Nothing.
    Nothing,
    /// Tell that leadership changed.
    Announce(bool),
    /// Report to health, and allocate first where that is asked for.
    Sync {
        /// Whether to allocate.
        allocate: bool,
    },
    /// End.
    End,
}

/// Whether the instance leads after an event.
pub open spec fn leads_after(led: bool, event: LbEvent) -> bool {
    match event {
        LbEvent::Attempted(a) => a matches Ok(held) && held,
        _ => led,
    }
}

/// What the allocator's task does at an event. Only a leader allocates, and all report.
pub fn lb_step(elector: &mut LeaderElector, event: LbEvent) -> (r: LbAction)
    ensures
        final(elector).leads() == leads_after(old(elector).leads(), event),
        r == match event {
            LbEvent::Attempted(_) => if final(elector).leads() != old(elector).leads() {
                LbAction::Announce(final(elector).leads())
            } else {
                LbAction::Nothing
            },
            LbEvent::SyncDue => LbAction::Sync { allocate: old(elector).leads() },
            LbEvent::Signal(ends) => if ends {
                LbAction::End
            } else {
                LbAction::Nothing
            },
        },
{
    match event {
        LbEvent::Attempted(attempt) => match elector.tick(attempt) {
            Some(now) => LbAction::Announce(now),
            None => LbAction::Nothing,
        },
        LbEvent::SyncDue => LbAction::Sync { allocate: elector.is_leader() },
        LbEvent::Signal(ends) => if ends {
            LbAction::End
        } else {
            LbAction::Nothing
        },
    }
}

/// Whether a new instance leads after a run of events.
pub open spec fn leads_in_the_end(events: Seq<LbEvent>) -> bool
    decreases events.len(),
{
    if events.len() == 0 {
        false
    } else {
        leads_after(leads_in_the_end(events.drop_last()), events.last())
    }
}

/// An instance leads exactly when its last attempt on the lease succeeded: one that never tried
/// does not, and one that failed or was refused no longer does, whatever came in between. So only
/// the holder of the lease allocates.
pub proof fn lemma_leads_by_last_attempt(events: Seq<LbEvent>)
    ensures
        leads_in_the_end(events) <==> exists|i: int|
            0 <= i < events.len() && (#[trigger] events[i] matches LbEvent::Attempted(Ok(held))
                && held) && forall|j: int|
                i < j < events.len() ==> !(#[trigger] events[j] is Attempted),
    decreases events.len(),
{
    if events.len() > 0 {
        let front = events.drop_last();
        let last = events.last();
        lemma_leads_by_last_attempt(front);
        if last is Attempted {
            if leads_in_the_end(events) {
                let i = events.len() - 1;
                assert(events[i] matches LbEvent::Attempted(Ok(held)) && held);
            }
        } else {
            if leads_in_the_end(events) {
                let i = choose|i: int|
                    0 <= i < front.len() && (#[trigger] front[i] matches LbEvent::Attempted(
                        Ok(held),
                    ) && held) && forall|j: int|
                        i < j < front.len() ==> !(#[trigger] front[j] is Attempted);
                assert(events[i] == front[i]);
                assert forall|j: int| i < j < events.len() implies !(
                #[trigger] events[j] is Attempted) by {
                    if j < front.len() {
                        assert(front[j] == events[j]);
                    }
                }
                assert(events[i] matches LbEvent::Attempted(Ok(held)) && held);
            }
            if exists|i: int|
                0 <= i < events.len() && (#[trigger] events[i] matches LbEvent::Attempted(Ok(held))
                    && held) && forall|j: int|
                    i < j < events.len() ==> !(#[trigger] events[j] is Attempted) {
                let i = choose|i: int|
                    0 <= i < events.len() && (#[trigger] events[i] matches LbEvent::Attempted(
                        Ok(held),
                    ) && held) && forall|j: int|
                        i < j < events.len() ==> !(#[trigger] events[j] is Attempted);
                assert(i < front.len());
                assert(front[i] == events[i]);
                assert forall|j: int| i < j < front.len() implies !(
                #[trigger] front[j] is Attempted) by {
                    assert(front[j] == events[j]);
                }
                assert(leads_in_the_end(front));
            }
        }
    }
}

} // verus!
