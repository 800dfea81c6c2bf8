//! What each controller is set up with, from the configuration and the environment.

use vstd::prelude::*;

use crate::bgp::grpc::PathEvent;
use crate::common::ipfamily::IpFamily;
use crate::config::KubeRouterConfig;
use crate::ip::IpAddr;
use crate::net::{parse_net, IpNet};
use crate::objects::parse_nets;
use crate::text::cat3;

verus! {

/// The link that holds the addresses of services.
pub const DUMMY_IF: &'static str = "kube-dummy-if";

/// The namespace of the lease, where the environment does not say.
pub const DEFAULT_NAMESPACE: &'static str = "kube-system";

/// The identity of an instance, where the environment does not say.
pub const DEFAULT_IDENTITY: &'static str = "kube-router-rs";

/// The families that a configuration enables, IPv4 first.
pub open spec fn families_of(config: KubeRouterConfig) -> Seq<IpFamily> {
    crate::orchestrate::when(config.enable_ipv4, IpFamily::V4) + crate::orchestrate::when(
        config.enable_ipv6,
        IpFamily::V6,
    )
}

/// The families that a configuration enables, IPv4 first.
pub fn enabled_family_list(config: &KubeRouterConfig) -> (r: Vec<IpFamily>)
    ensures
        r@ == families_of(*config),
{
    let mut v: Vec<IpFamily> = Vec::new();
    if config.enable_ipv4 {
        v.push(IpFamily::V4);
    }
    if config.enable_ipv6 {
        v.push(IpFamily::V6);
    }
    assert(v@ =~= families_of(*config));
    v
}

/// The networks of one family among those that texts spell.
pub open spec fn nets_in(texts: Seq<Seq<char>>, family: IpFamily) -> Seq<IpNet> {
    crate::seqs::flat(
        texts,
        |t: Seq<char>|
            match crate::net::net_of(t) {
                Some(n) => if crate::common::ipfamily::family_of(n.addr) == family {
                    seq![n]
                } else {
                    Seq::empty()
                },
                None => Seq::empty(),
            },
    )
}

/// The networks that texts spell, of IPv4 and of IPv6.
pub fn split_ranges(ranges: &[String]) -> (r: (Vec<IpNet>, Vec<IpNet>))
    ensures
        r.0@ == nets_in(crate::text::texts(ranges@), IpFamily::V4),
        r.1@ == nets_in(crate::text::texts(ranges@), IpFamily::V6),
        forall|i: int| 0 <= i < r.0@.len() ==> (#[trigger] r.0@[i]).wf(),
        forall|i: int| 0 <= i < r.1@.len() ==> (#[trigger] r.1@[i]).wf(),
{
    let ghost all = crate::text::texts(ranges@);
    let ghost f = |t: Seq<char>|
        match crate::net::net_of(t) {
            Some(n) => if crate::common::ipfamily::family_of(n.addr) == IpFamily::V4 {
                seq![n]
            } else {
                Seq::empty()
            },
            None => Seq::empty(),
        };
    let ghost g = |t: Seq<char>|
        match crate::net::net_of(t) {
            Some(n) => if crate::common::ipfamily::family_of(n.addr) == IpFamily::V6 {
                seq![n]
            } else {
                Seq::empty()
            },
            None => Seq::empty(),
        };
    let mut v4: Vec<IpNet> = Vec::new();
    let mut v6: Vec<IpNet> = Vec::new();
    let mut i: usize = 0;
    assert(v4@ =~= crate::seqs::flat(all.take(0), f));
    assert(v6@ =~= crate::seqs::flat(all.take(0), g));
    while i < ranges.len()
        invariant
            i <= ranges@.len(),
            all == crate::text::texts(ranges@),
            f == (|t: Seq<char>|
                match crate::net::net_of(t) {
                    Some(n) => if crate::common::ipfamily::family_of(n.addr) == IpFamily::V4 {
                        seq![n]
                    } else {
                        Seq::empty()
                    },
                    None => Seq::empty(),
                }),
            g == (|t: Seq<char>|
                match crate::net::net_of(t) {
                    Some(n) => if crate::common::ipfamily::family_of(n.addr) == IpFamily::V6 {
                        seq![n]
                    } else {
                        Seq::empty()
                    },
                    None => Seq::empty(),
                }),
            v4@ == crate::seqs::flat(all.take(i as int), f),
            v6@ == crate::seqs::flat(all.take(i as int), g),
            forall|k: int| 0 <= k < v4@.len() ==> (#[trigger] v4@[k]).wf(),
            forall|k: int| 0 <= k < v6@.len() ==> (#[trigger] v6@[k]).wf(),
        decreases ranges@.len() - i,
    {
        proof {
            crate::seqs::lemma_flat_step(all, f, i as int);
            crate::seqs::lemma_flat_step(all, g, i as int);
            assert(all[i as int] == ranges@[i as int]@);
        }
        match parse_net(ranges[i].as_str()) {
            Some(n) => match n.addr {
                IpAddr::V4(_) => {
                    v4.push(n);
                },
                IpAddr::V6(_) => {
                    v6.push(n);
                },
            },
            None => {},
        }
        assert(v4@ =~= crate::seqs::flat(all.take(i + 1), f));
        assert(v6@ =~= crate::seqs::flat(all.take(i + 1), g));
        i = i + 1;
    }
    assert(all.take(i as int) =~= all);
    (v4, v6)
}

/// Every network that a range spells goes to exactly the pool of its family.
pub proof fn lemma_ranges_go_to_their_family(
    texts: Seq<Seq<char>>,
    i: int,
    n: IpNet,
    family: IpFamily,
)
    requires
        0 <= i < texts.len(),
        crate::net::net_of(texts[i]) == Some(n),
    ensures
        crate::common::ipfamily::family_of(n.addr) == family ==> nets_in(texts, family).contains(
            n,
        ),
        crate::common::ipfamily::family_of(n.addr) != family ==> !nets_in(texts, family).contains(
            n,
        ),
{
    let f = |t: Seq<char>|
        match crate::net::net_of(t) {
            Some(n) => if crate::common::ipfamily::family_of(n.addr) == family {
                seq![n]
            } else {
                Seq::empty()
            },
            None => Seq::empty(),
        };
    if crate::common::ipfamily::family_of(n.addr) == family {
        assert(f(texts[i])[0] == n);
        assert(f(texts[i]).contains(n));
        crate::seqs::lemma_flat_has(texts, f, i, n);
    } else if nets_in(texts, family).contains(n) {
        let j = crate::seqs::lemma_flat_from(texts, f, n);
        assert(f(texts[j]).contains(n));
    }
}

/// The namespace of the lease: that of the environment, or the default one.
pub fn lease_namespace(pod_namespace: Option<String>) -> (r: String)
    ensures
        r@ == match pod_namespace {
            Some(n) => n@,
            None => DEFAULT_NAMESPACE@,
        },
{
    match pod_namespace {
        Some(n) => n,
        None => DEFAULT_NAMESPACE.to_owned(),
    }
}

/// The identity of this instance in the election: the name of its pod, or of its host, or the
/// default one.
pub fn lease_identity(pod_name: Option<String>, hostname: Option<String>) -> (r: String)
    ensures
        r@ == match (pod_name, hostname) {
            (Some(n), _) => n@,
            (None, Some(h)) => h@,
            (None, None) => DEFAULT_IDENTITY@,
        },
{
    match (pod_name, hostname) {
        (Some(n), _) => n,
        (None, Some(h)) => h,
        (None, None) => DEFAULT_IDENTITY.to_owned(),
    }
}

/// Which kinds of service addresses are advertised unless a service says otherwise.
#[derive(Debug, Clone, Copy, PartialEq, Eq, Structural)]
pub struct AdvertiseDefaults {
    /// Addresses in the cluster.
    pub cluster: bool,
    /// External addresses.
    pub external: bool,
    /// Addresses of load balancers.
    pub loadbalancer: bool,
}

/// With which defaults service addresses are advertised, and under which next hop; they are not
/// where no kind is or the address of this node is unknown.
pub fn vip_advertisement(config: &KubeRouterConfig, local_ip: Option<IpAddr>) -> (r: Option<
    (AdvertiseDefaults, IpAddr),
>)
    ensures
        match r {
            Some((d, next_hop)) => {
                &&& local_ip == Some(next_hop)
                &&& d.cluster == config.advertise_cluster_ip
                &&& d.external == config.advertise_external_ip
                &&& d.loadbalancer == config.advertise_loadbalancer_ip
                &&& d.cluster || d.external || d.loadbalancer
            },
            None => local_ip is None || !(config.advertise_cluster_ip
                || config.advertise_external_ip || config.advertise_loadbalancer_ip),
        },
{
    if config.advertise_cluster_ip || config.advertise_external_ip
        || config.advertise_loadbalancer_ip {
        match local_ip {
            Some(next_hop) => Some(
                (
                    AdvertiseDefaults {
                        cluster: config.advertise_cluster_ip,
                        external: config.advertise_external_ip,
                        loadbalancer: config.advertise_loadbalancer_ip,
                    },
                    next_hop,
                ),
            ),
            None => None,
        }
    } else {
        None
    }
}

/// Whether a path that was learned is this node's own; its own are not installed.
pub fn is_own_path(event: &PathEvent, local_ip: Option<IpAddr>) -> (r: bool)
    ensures
        r == (local_ip == Some(event.next_hop)),
{
    match local_ip {
        Some(ip) => ip == event.next_hop,
        None => false,
    }
}

/// The kernel settings that the service proxy needs, as keys and values.
pub open spec fn proxy_settings() -> Seq<(&'static str, &'static str)> {
    seq![
        ("net.ipv4.vs.conntrack", "1"),
        ("net.ipv4.vs.expire_nodest_conn", "1"),
        ("net.ipv4.vs.expire_quiescent_template", "1"),
        ("net.ipv4.vs.conn_reuse_mode", "0"),
        ("net.ipv4.conf.all.arp_ignore", "1"),
        ("net.ipv4.conf.all.arp_announce", "2"),
    ]
}

/// The kernel settings that the service proxy needs, as keys and values.
pub fn ipvs_settings() -> (r: Vec<(&'static str, &'static str)>)
    ensures
        r@ == proxy_settings(),
{
    let r: Vec<(&'static str, &'static str)> = vec![
        ("net.ipv4.vs.conntrack", "1"),
        ("net.ipv4.vs.expire_nodest_conn", "1"),
        ("net.ipv4.vs.expire_quiescent_template", "1"),
        ("net.ipv4.vs.conn_reuse_mode", "0"),
        ("net.ipv4.conf.all.arp_ignore", "1"),
        ("net.ipv4.conf.all.arp_announce", "2"),
    ];
    assert(r@ =~= proxy_settings());
    r
}

/// The links whose reverse-path filter is loosened, besides that of the node's address.
pub fn filtered_links() -> (r: Vec<&'static str>)
    ensures
        r@ == seq!["all", "kube-bridge", DUMMY_IF],
{
    let r: Vec<&'static str> = vec!["all", "kube-bridge", DUMMY_IF];
    assert(r@ =~= seq!["all", "kube-bridge", DUMMY_IF]);
    r
}

/// The key of the reverse-path filter of a link.
pub fn rp_filter_key(iface: &str) -> (r: String)
    ensures
        r@ == "net.ipv4.conf."@ + iface@ + ".rp_filter"@,
{
    cat3("net.ipv4.conf.", iface, ".rp_filter")
}

/// The value that the reverse-path filter is set to: loose, where it is strict. One that is off
/// stays off, and one that cannot be read is left alone.
pub fn loosened_rp_filter(current: Option<String>) -> (r: Option<&'static str>)
    ensures
        r is Some <==> crate::objects::text_of(current) == Some("1"@),
        r matches Some(v) ==> v@ == "2"@,
{
    match current {
        Some(v) => if crate::text::same(v.as_str(), "1") {
            Some("2")
        } else {
            None
        },
        None => None,
    }
}

/// The address whose link has its reverse-path filter loosened too: that of the node, where it is
/// of IPv4.
pub fn filtered_address(primary_ip: Option<IpAddr>) -> (r: Option<IpAddr>)
    ensures
        r == match primary_ip {
            Some(IpAddr::V4(x)) => Some(IpAddr::V4(x)),
            _ => None,
        },
{
    match primary_ip {
        Some(IpAddr::V4(x)) => Some(IpAddr::V4(x)),
        _ => None,
    }
}

/// The addresses on which node ports are served: all of this node, or its primary one.
pub fn node_port_addresses(
    config: &KubeRouterConfig,
    all_local: Vec<IpAddr>,
    primary_ip: Option<IpAddr>,
) -> (r: Vec<IpAddr>)
    ensures
        r@ == if config.nodeport_bindon_all_ip {
            all_local@
        } else {
            match primary_ip {
                Some(ip) => seq![ip],
                None => Seq::empty(),
            }
        },
{
    if config.nodeport_bindon_all_ip {
        all_local
    } else {
        let mut v: Vec<IpAddr> = Vec::new();
        match primary_ip {
            Some(ip) => {
                v.push(ip);
            },
            None => {},
        }
        assert(v@ =~= match primary_ip {
            Some(ip) => seq![ip],
            None => Seq::empty(),
        });
        v
    }
}

/// The ranges that addresses of services must be in.
#[derive(Debug, Clone)]
pub struct ValidationRanges {
    /// Of external addresses.
    pub external: Vec<IpNet>,
    /// Of addresses of load balancers.
    pub loadbalancer: Vec<IpNet>,
    /// Of addresses in the cluster.
    pub cluster: Vec<IpNet>,
    /// Whether external addresses outside all ranges are refused.
    pub strict: bool,
}

/// The ranges that addresses of services must be in.
pub fn validation_ranges(config: &KubeRouterConfig) -> (r: ValidationRanges)
    ensures
        r.external@ == crate::objects::nets_of(
            crate::text::texts(config.service_external_ip_range@),
        ),
        r.loadbalancer@ == crate::objects::nets_of(
            crate::text::texts(config.loadbalancer_ip_range@),
        ),
        r.cluster@ == crate::objects::nets_of(
            crate::text::texts(config.service_cluster_ip_range@),
        ),
        r.strict == config.strict_external_ip_validation,
{
    ValidationRanges {
        external: parse_nets(&config.service_external_ip_range),
        loadbalancer: parse_nets(&config.loadbalancer_ip_range),
        cluster: parse_nets(&config.service_cluster_ip_range),
        strict: config.strict_external_ip_validation,
    }
}

/// How traffic to services is masqueraded.
#[derive(Debug, Clone)]
pub struct MasqueradeCfg {
    /// All of it.
    pub all: bool,
    /// With random source ports.
    pub random_fully: bool,
    /// The primary addresses of this node, each with whether it is of IPv6.
    pub primary: Vec<(bool, IpAddr)>,
    /// The networks of the pods of this node, as texts.
    pub pod_cidrs: Vec<String>,
}

/// The texts of networks.
pub open spec fn net_texts(nets: Seq<IpNet>) -> Seq<Seq<char>> {
    nets.map_values(|n: IpNet| n.text())
}

fn texts_of_nets(nets: &[IpNet]) -> (r: Vec<String>)
    ensures
        crate::text::texts(r@) == net_texts(nets@),
{
    let ghost all = net_texts(nets@);
    let mut out: Vec<String> = Vec::new();
    let mut i: usize = 0;
    assert(crate::text::texts(out@) =~= all.take(0));
    while i < nets.len()
        invariant
            i <= nets@.len(),
            all == net_texts(nets@),
            crate::text::texts(out@) == all.take(i as int),
        decreases nets@.len() - i,
    {
        let ghost before = out@;
        out.push(nets[i].to_text());
        proof {
            assert(out@ =~= before.push(out@.last()));
            crate::text::lemma_texts_push(before, out@.last());
            assert(all.take(i + 1) =~= all.take(i as int).push(all[i as int]));
        }
        i = i + 1;
    }
    assert(all.take(i as int) =~= all);
    out
}

/// How traffic to services is masqueraded.
pub fn masquerade_config(
    config: &KubeRouterConfig,
    primary_ip: Option<IpAddr>,
    pod_cidrs: &[IpNet],
) -> (r: MasqueradeCfg)
    ensures
        r.all == config.masquerade_all,
        r.random_fully,
        r.primary@ == match primary_ip {
            Some(ip) => seq![(ip is V6, ip)],
            None => Seq::empty(),
        },
        crate::text::texts(r.pod_cidrs@) == net_texts(pod_cidrs@),
{
    let mut primary: Vec<(bool, IpAddr)> = Vec::new();
    match primary_ip {
        Some(ip) => {
            let v6 = match ip {
                IpAddr::V4(_) => false,
                IpAddr::V6(_) => true,
            };
            primary.push((v6, ip));
        },
        None => {},
    }
    assert(primary@ =~= match primary_ip {
        Some(ip) => seq![(ip is V6, ip)],
        None => Seq::empty(),
    });
    MasqueradeCfg {
        all: config.masquerade_all,
        random_fully: true,
        primary,
        pod_cidrs: texts_of_nets(pod_cidrs),
    }
}

} // verus!
