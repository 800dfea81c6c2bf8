//! Laws of the configuration and of what each part is set up with, stated on the fields of the
//! configuration.

use vstd::prelude::*;

use crate::bgp::policy::{base_name, DefinedSetKind};
use crate::common::error::{quoted_of, Error};
use crate::common::ipfamily::IpFamily;
use crate::common::sysctl::{path_of, pushed_all};
use crate::config::{
    count_up, first_bad, first_of, is_readable, list_fault, period_fault, unit_ended, unit_nanos,
    KubeRouterConfig, SpanCount,
};
use crate::lballoc::allocate::AllocError;
use crate::lifecycle::{controllers_of, listen_text, Controller};
use crate::net::IpNet;
use crate::netpol::naming::port_range_of;
use crate::observability::health::Component;
use crate::orchestrate::{controller_words, watched, words};
use crate::startup::{families_of, net_texts, nets_in, proxy_settings};
use crate::time::Duration;

verus! {

/// Whether every text of a list spells a network; blanks around it do not count.
pub open spec fn all_networks(list: Seq<String>) -> bool {
    forall|i: int|
        0 <= i < list.len() ==> crate::net::net_of(
            crate::text::trimmed((#[trigger] list[i])@),
        ) is Some
}

/// Whether a span is not zero.
pub open spec fn is_positive(d: Duration) -> bool {
    d.secs > 0 || d.nanos > 0
}

proof fn lemma_first_bad(list: Seq<Seq<char>>, i: int)
    requires
        0 <= i <= list.len(),
    ensures
        match first_bad(list, i) {
            Some(k) => i <= k < list.len() && crate::net::net_of(
                crate::text::trimmed(list[k]),
            ) is None && forall|j: int|
                i <= j < k ==> crate::net::net_of(
                    crate::text::trimmed(#[trigger] list[j]),
                ) is Some,
            None => forall|j: int|
                i <= j < list.len() ==> crate::net::net_of(
                    crate::text::trimmed(#[trigger] list[j]),
                ) is Some,
        },
    decreases list.len() - i,
{
    if i < list.len() && crate::net::net_of(crate::text::trimmed(list[i])) is Some {
        lemma_first_bad(list, i + 1);
    }
}

proof fn lemma_list(flag: Seq<char>, list: Seq<String>)
    ensures
        list_fault(flag, crate::text::texts(list)) is None <==> all_networks(list),
{
    let t = crate::text::texts(list);
    lemma_first_bad(t, 0);
    if list_fault(flag, t) is None {
        assert forall|i: int| 0 <= i < list.len() implies crate::net::net_of(
            crate::text::trimmed((#[trigger] list[i])@),
        ) is Some by {
            assert(t[i] == list[i]@);
        }
    } else {
        let k = first_bad(t, 0)->0;
        assert(t[k] == list[k]@);
    }
}

/// A configuration is valid exactly where it serves a family; its four lists of networks hold
/// networks only, the list of ranges of service addresses at most two; a router of IPv6 alone has
/// an id; encapsulation and overlay are known; no period is zero; and peers and AS numbers match
/// in number, where both are given.
pub proof fn lemma_valid_by_fields(c: KubeRouterConfig)
    ensures
        c.fault() is None <==> {
            &&& c.enable_ipv4 || c.enable_ipv6
            &&& all_networks(c.service_cluster_ip_range@)
            &&& all_networks(c.service_external_ip_range@)
            &&& all_networks(c.loadbalancer_ip_range@)
            &&& all_networks(c.excluded_cidrs@)
            &&& c.service_cluster_ip_range@.len() <= 2
            &&& !(c.run_router && c.enable_ipv6 && !c.enable_ipv4 && c.router_id@.len() == 0)
            &&& c.overlay_encap@ == "ipip"@ || c.overlay_encap@ == "fou"@
            &&& c.overlay_type@ == "subnet"@ || c.overlay_type@ == "full"@
            &&& is_positive(c.cache_sync_timeout)
            &&& is_positive(c.routes_sync_period)
            &&& is_positive(c.iptables_sync_period)
            &&& is_positive(c.ipvs_sync_period)
            &&& is_positive(c.ipvs_graceful_period)
            &&& is_positive(c.injected_routes_sync_period)
            &&& is_positive(c.loadbalancer_sync_period)
            &&& c.peer_router_ips@.len() == 0 || c.peer_router_asns@.len() == 0
                || c.peer_router_ips@.len() == c.peer_router_asns@.len()
        },
{
    lemma_list("--service-cluster-ip-range"@, c.service_cluster_ip_range@);
    lemma_list("--service-external-ip-range"@, c.service_external_ip_range@);
    lemma_list("--loadbalancer-ip-range"@, c.loadbalancer_ip_range@);
    lemma_list("--excluded-cidrs"@, c.excluded_cidrs@);
}

/// A fault names the switch at fault: a list its first text that is no network, a period the
/// switch that sets it.
pub proof fn lemma_faults_name_switches(
    flag: Seq<char>,
    list: Seq<String>,
    k: int,
    d: Duration,
)
    ensures
        0 <= k < list.len() && crate::net::net_of(crate::text::trimmed(list[k]@)) is None
            && all_networks(list.take(k)) ==> list_fault(flag, crate::text::texts(list)) == Some(
            flag + ": "@ + ("invalid IP/CIDR "@ + quoted_of(list[k]@) + ": "@
                + "invalid IP address syntax"@),
        ),
        !is_positive(d) ==> period_fault(flag, d) == Some(flag + " must be greater than 0"@),
        is_positive(d) ==> period_fault(flag, d) is None,
{
    let t = crate::text::texts(list);
    lemma_first_bad(t, 0);
    if 0 <= k < list.len() && crate::net::net_of(crate::text::trimmed(list[k]@)) is None
        && all_networks(list.take(k)) {
        assert(t[k] == list[k]@);
        let b = first_bad(t, 0)->0;
        assert(t[b] == list[b]@);
        if b < k {
            assert(list.take(k)[b] == list[b]);
        }
        assert(b == k);
    }
}

/// Faults are told in this order, the first one alone: families, the four lists, their number,
/// the router id, encapsulation, overlay, the periods in order, peers.
pub proof fn lemma_first_fault_is_told(c: KubeRouterConfig, a: Seq<char>, b: Option<Seq<char>>)
    ensures
        first_of(Some(a), b) == Some(a),
        first_of(None, b) == b,
        !c.enable_ipv4 && !c.enable_ipv6 ==> c.fault() == Some(
            "at least one of --enable-ipv4 or --enable-ipv6 must be true"@,
        ),
        c.lists_fault() == first_of(
            list_fault(
                "--service-cluster-ip-range"@,
                crate::text::texts(c.service_cluster_ip_range@),
            ),
            first_of(
                list_fault(
                    "--service-external-ip-range"@,
                    crate::text::texts(c.service_external_ip_range@),
                ),
                first_of(
                    list_fault(
                        "--loadbalancer-ip-range"@,
                        crate::text::texts(c.loadbalancer_ip_range@),
                    ),
                    list_fault("--excluded-cidrs"@, crate::text::texts(c.excluded_cidrs@)),
                ),
            ),
        ),
        c.family_fault() is None && c.lists_fault() is Some ==> c.fault() == c.lists_fault(),
        c.family_fault() is None && c.lists_fault() is None && c.service_cluster_ip_range@.len() > 2
            ==> c.fault() == Some("--service-cluster-ip-range accepts at most 2 entries"@),
        c.family_fault() is None && c.lists_fault() is None && c.ranges_fault() is None
            && c.run_router && !c.enable_ipv4 && c.router_id@.len() == 0 ==> c.fault() == Some(
            "--router-id is required (or \"generate\") for an IPv6-only cluster"@,
        ),
        c.family_fault() is None && c.lists_fault() is None && c.ranges_fault() is None
            && c.router_fault() is None && c.overlay_encap@ != "ipip"@ && c.overlay_encap@
            != "fou"@ ==> c.fault() == Some(
            "--overlay-encap must be \"ipip\" or \"fou\", got "@ + quoted_of(c.overlay_encap@),
        ),
        c.family_fault() is None && c.lists_fault() is None && c.ranges_fault() is None
            && c.router_fault() is None && c.encap_fault() is None && c.overlay_type@
            != "subnet"@ && c.overlay_type@ != "full"@ ==> c.fault() == Some(
            "--overlay-type must be \"subnet\" or \"full\", got "@ + quoted_of(c.overlay_type@),
        ),
        c.family_fault() is None && c.lists_fault() is None && c.ranges_fault() is None
            && c.router_fault() is None && c.encap_fault() is None && c.overlay_fault() is None
            && !is_positive(c.cache_sync_timeout) ==> c.fault() == Some(
            "--cache-sync-timeout"@ + " must be greater than 0"@,
        ),
        c.periods_fault() == first_of(
            period_fault("--cache-sync-timeout"@, c.cache_sync_timeout),
            first_of(
                period_fault("--routes-sync-period"@, c.routes_sync_period),
                first_of(
                    period_fault("--iptables-sync-period"@, c.iptables_sync_period),
                    first_of(
                        period_fault("--ipvs-sync-period"@, c.ipvs_sync_period),
                        first_of(
                            period_fault("--ipvs-graceful-period"@, c.ipvs_graceful_period),
                            first_of(
                                period_fault(
                                    "--injected-routes-sync-period"@,
                                    c.injected_routes_sync_period,
                                ),
                                period_fault(
                                    "--loadbalancer-sync-period"@,
                                    c.loadbalancer_sync_period,
                                ),
                            ),
                        ),
                    ),
                ),
            ),
        ),
        c.family_fault() is None && c.lists_fault() is None && c.ranges_fault() is None
            && c.router_fault() is None && c.encap_fault() is None && c.overlay_fault() is None
            && c.periods_fault() is Some ==> c.fault() == c.periods_fault(),
        c.family_fault() is None && c.lists_fault() is None && c.ranges_fault() is None
            && c.router_fault() is None && c.encap_fault() is None && c.overlay_fault() is None
            && c.periods_fault() is None && c.peer_router_ips@.len() > 0
            && c.peer_router_asns@.len() > 0 && c.peer_router_ips@.len()
            != c.peer_router_asns@.len() ==> c.fault() == Some(
            "--peer-router-ips and --peer-router-asns must have equal length"@,
        ),
{
}

/// The element alone, or nothing.
pub open spec fn only_if<A>(cond: bool, a: A) -> Seq<A> {
    if cond {
        seq![a]
    } else {
        Seq::empty()
    }
}

/// The families that a configuration enables, IPv4 first; an element that is there on a condition.
pub proof fn lemma_families_by_flags<A>(c: KubeRouterConfig, a: A)
    ensures
        crate::orchestrate::when(true, a) == seq![a],
        crate::orchestrate::when(false, a) == Seq::<A>::empty(),
        c.enable_ipv4 && c.enable_ipv6 ==> families_of(c) == seq![IpFamily::V4, IpFamily::V6],
        c.enable_ipv4 && !c.enable_ipv6 ==> families_of(c) == seq![IpFamily::V4],
        !c.enable_ipv4 && c.enable_ipv6 ==> families_of(c) == seq![IpFamily::V6],
        !c.enable_ipv4 && !c.enable_ipv6 ==> families_of(c).len() == 0,
{
}

/// A controller runs exactly where its switch is on, and they start in the order routing,
/// firewall, service proxy, load balancer.
pub proof fn lemma_controllers_by_flags(c: KubeRouterConfig)
    ensures
        controllers_of(c).contains(Controller::Routing) == c.run_router,
        controllers_of(c).contains(Controller::Firewall) == c.run_firewall,
        controllers_of(c).contains(Controller::ServiceProxy) == c.run_service_proxy,
        controllers_of(c).contains(Controller::LoadBalancer) == c.run_loadbalancer,
        controllers_of(c) == only_if(c.run_router, Controller::Routing) + only_if(
            c.run_firewall,
            Controller::Firewall,
        ) + only_if(c.run_service_proxy, Controller::ServiceProxy) + only_if(
            c.run_loadbalancer,
            Controller::LoadBalancer,
        ),
        controller_words(c) == only_if(c.run_router, "router (BGP + routes)"@) + only_if(
            c.run_firewall,
            "firewall (network policy)"@,
        ) + only_if(c.run_service_proxy, "service-proxy (IPVS)"@) + only_if(
            c.run_loadbalancer,
            "loadbalancer-allocator"@,
        ),
{
    let a = only_if(c.run_router, Controller::Routing);
    let b = only_if(c.run_firewall, Controller::Firewall);
    let d = only_if(c.run_service_proxy, Controller::ServiceProxy);
    let e = only_if(c.run_loadbalancer, Controller::LoadBalancer);
    lemma_four(a, b, d, e, Controller::Routing);
    lemma_four(a, b, d, e, Controller::Firewall);
    lemma_four(a, b, d, e, Controller::ServiceProxy);
    lemma_four(a, b, d, e, Controller::LoadBalancer);
    lemma_only_if(c.run_router, Controller::Routing);
    lemma_only_if(c.run_firewall, Controller::Firewall);
    lemma_only_if(c.run_service_proxy, Controller::ServiceProxy);
    lemma_only_if(c.run_loadbalancer, Controller::LoadBalancer);
}

proof fn lemma_only_if<A>(cond: bool, a: A)
    ensures
        only_if(cond, a).contains(a) == cond,
        forall|x: A| #[trigger] only_if(cond, a).contains(x) ==> x == a,
{
    if cond {
        assert(only_if(cond, a)[0] == a);
    }
}

proof fn lemma_four<A>(a: Seq<A>, b: Seq<A>, c: Seq<A>, d: Seq<A>, x: A)
    ensures
        (a + b + c + d).contains(x) <==> a.contains(x) || b.contains(x) || c.contains(x)
            || d.contains(x),
{
    crate::seqs::lemma_in_sum(a, b, x);
    crate::seqs::lemma_in_sum(a + b, c, x);
    crate::seqs::lemma_in_sum(a + b + c, d, x);
}

/// What is watched: for each controller that runs its component, with the period that it syncs
/// at; routing has two. Nothing else is.
pub proof fn lemma_watched_by_flags(c: KubeRouterConfig, w: (Component, Duration))
    ensures
        watched(c).contains(w) <==> {
            ||| c.run_router && w == (Component::NetworkRoutes, c.routes_sync_period)
            ||| c.run_router && w == (Component::RouteSync, c.injected_routes_sync_period)
            ||| c.run_firewall && w == (Component::NetworkPolicy, c.iptables_sync_period)
            ||| c.run_service_proxy && w == (Component::NetworkServices, c.ipvs_sync_period)
            ||| c.run_loadbalancer && w == (Component::LoadBalancer, c.loadbalancer_sync_period)
        },
{
    let r = (Component::NetworkRoutes, c.routes_sync_period);
    let s = (Component::RouteSync, c.injected_routes_sync_period);
    let f = (Component::NetworkPolicy, c.iptables_sync_period);
    let p = (Component::NetworkServices, c.ipvs_sync_period);
    let l = (Component::LoadBalancer, c.loadbalancer_sync_period);
    let a = only_if(c.run_router, r) + only_if(c.run_router, s);
    crate::seqs::lemma_in_sum(only_if(c.run_router, r), only_if(c.run_router, s), w);
    lemma_four(
        a,
        only_if(c.run_firewall, f),
        only_if(c.run_service_proxy, p),
        only_if(c.run_loadbalancer, l),
        w,
    );
    lemma_only_if(c.run_router, r);
    lemma_only_if(c.run_router, s);
    lemma_only_if(c.run_firewall, f);
    lemma_only_if(c.run_service_proxy, p);
    lemma_only_if(c.run_loadbalancer, l);
}

/// A server with port 0 does not listen; one without a host listens on all interfaces.
pub proof fn lemma_listening(host: Seq<char>, port: u16)
    ensures
        listen_text(host, port) is None <==> port == 0,
        port != 0 && host.len() > 0 ==> listen_text(host, port) == Some(
            host + ":"@ + crate::text::dec(port as nat),
        ),
        port != 0 && host.len() == 0 ==> listen_text(host, port) == Some(
            "0.0.0.0"@ + ":"@ + crate::text::dec(port as nat),
        ),
{
}

/// Of a list of ranges the networks of a family come out, in order; a list of networks is shown
/// one by one; and so are literal words.
pub proof fn lemma_ranges_add_up(
    a: Seq<Seq<char>>,
    b: Seq<Seq<char>>,
    t: Seq<char>,
    family: IpFamily,
    nets: Seq<IpNet>,
    v: Seq<&'static str>,
    i: int,
)
    ensures
        nets_in(Seq::empty(), family).len() == 0,
        crate::net::net_of(t) is None ==> nets_in(seq![t], family).len() == 0,
        crate::net::net_of(t) matches Some(n) && n.addr is V4 == (family == IpFamily::V4)
            ==> nets_in(seq![t], family) == seq![crate::net::net_of(t)->0],
        crate::net::net_of(t) matches Some(n) && n.addr is V4 != (family == IpFamily::V4)
            ==> nets_in(seq![t], family).len() == 0,
        nets_in(a + b, family) == nets_in(a, family) + nets_in(b, family),
        net_texts(nets).len() == nets.len(),
        0 <= i < nets.len() ==> net_texts(nets)[i] == nets[i].text(),
        words(v).len() == v.len(),
        0 <= i < v.len() ==> words(v)[i] == v[i]@,
{
    let f = |t: Seq<char>|
        match crate::net::net_of(t) {
            Some(n) => if crate::common::ipfamily::family_of(n.addr) == family {
                seq![n]
            } else {
                Seq::empty()
            },
            None => Seq::empty(),
        };
    crate::seqs::lemma_flat_parts(a, b, t, f);
}

/// The kernel settings of the service proxy, the names of prefix sets, the numbers of components.
pub proof fn lemma_fixed_names()
    ensures
        proxy_settings() == seq![
            ("net.ipv4.vs.conntrack", "1"),
            ("net.ipv4.vs.expire_nodest_conn", "1"),
            ("net.ipv4.vs.expire_quiescent_template", "1"),
            ("net.ipv4.vs.conn_reuse_mode", "0"),
            ("net.ipv4.conf.all.arp_ignore", "1"),
            ("net.ipv4.conf.all.arp_announce", "2"),
        ],
        base_name(DefinedSetKind::PodCidr) == "podcidrdefinedset"@,
        base_name(DefinedSetKind::ServiceVip) == "servicevipsdefinedset"@,
        base_name(DefinedSetKind::CustomImportReject) == "customimportrejectdefinedset"@,
        base_name(DefinedSetKind::DefaultRoute) == "defaultroutedefinedset"@,
        Component::NetworkRoutes.number() == 0,
        Component::LoadBalancer.number() == 1,
        Component::NetworkPolicy.number() == 2,
        Component::NetworkServices.number() == 3,
        Component::Hairpin.number() == 4,
        Component::Metrics.number() == 5,
        Component::RouteSync.number() == 6,
{
}

/// The texts of errors, and the error for what is no address or network.
pub proof fn lemma_error_texts(e: Error, a: AllocError, s: Seq<char>)
    ensures
        crate::common::ipfamily::is_syntax_error(e, s) ==> e.text() == "invalid IP/CIDR "@
            + quoted_of(s) + ": "@ + "invalid IP address syntax"@,
        e matches Error::Config(m) ==> e.text() == "invalid configuration: "@ + m@,
        e matches Error::InvalidIp { input, reason } ==> e.text() == "invalid IP/CIDR "@
            + quoted_of(input@) + ": "@ + reason@,
        e matches Error::Sysctl { key, source } ==> e.text() == "sysctl error for "@ + quoted_of(
            key@,
        ) + ": "@ + source@,
        a matches AllocError::NoRanges(m) ==> a.text() == "no ranges available: "@ + m@,
        a is DualStackUnavailable ==> a.text() == "unable to allocate dual-stack addresses"@,
        a is Exhausted ==> a.text() == "no IPs left to allocate"@,
{
}

/// The path of a kernel setting follows the parts of its key: one part lies under `/proc/sys`,
/// and a part more lies under the path of the key before it.
pub proof fn lemma_setting_paths(key: Seq<char>, part: Seq<char>)
    requires
        !part.contains('.'),
        part.len() > 0,
        part[0] != '/',
    ensures
        path_of(part) == "/proc/sys"@ + "/"@ + part,
        path_of(key).len() > 0 && path_of(key).last() != '/' ==> path_of(key + seq!['.'] + part)
            == path_of(key) + "/"@ + part,
{
    reveal_strlit("/proc/sys");
    crate::text::lemma_split_single(part, '.');
    crate::text::lemma_split_append(key, '.', part);
    let one = seq![part];
    assert(one.drop_last() =~= Seq::<Seq<char>>::empty());
    assert(pushed_all("/proc/sys"@, one.drop_last()) == "/proc/sys"@);
    assert("/proc/sys"@.last() == 's');
    let segs = crate::text::split(key, '.');
    assert(segs.push(part).drop_last() =~= segs);
}

/// A range of ports: two numbers of 16 bits, the first below the second, with a hyphen or a colon
/// between them, come out with a colon; numbers that do not ascend, and a text without a
/// separator, are refused.
pub proof fn lemma_port_ranges(lo: nat, hi: nat, sep: char, text: Seq<char>)
    requires
        sep == '-' || sep == ':',
        !text.contains('-'),
        !text.contains(':'),
    ensures
        lo < hi <= 65535 ==> port_range_of(
            crate::text::dec(lo) + seq![sep] + crate::text::dec(hi),
        ) == Some(crate::text::dec(lo) + ":"@ + crate::text::dec(hi)),
        !(lo < hi <= 65535) ==> port_range_of(
            crate::text::dec(lo) + seq![sep] + crate::text::dec(hi),
        ) is None,
        port_range_of(text) is None,
{
    let a = crate::text::dec(lo);
    let b = crate::text::dec(hi);
    let s = a + seq![sep] + b;
    let n = a.len() as int;
    let cs = set!['-', ':'];
    crate::text::lemma_numeral(lo, 10);
    assert forall|k: int| 0 <= k < n implies !cs.contains(#[trigger] s[k]) by {
        assert(s[k] == a[k]);
        assert(crate::text::is_digit_of(a[k], 10));
    }
    assert(s[n] == sep);
    crate::text::lemma_find_any(s, cs, n);
    assert(s.take(n) =~= a);
    assert(s.skip(n + 1) =~= b);
    crate::observability::laws::lemma_numeral_is_trimmed(lo);
    crate::observability::laws::lemma_numeral_is_trimmed(hi);
    crate::text_laws::lemma_number_reads_back(lo, 65535);
    crate::text_laws::lemma_number_reads_back(hi, 65535);
    assert forall|k: int| 0 <= k < text.len() implies !cs.contains(#[trigger] text[k]) by {
        assert(text.contains(text[k]));
    }
    crate::text::lemma_find_any(text, cs, text.len() as int);
}

/// The defaults of the switches.
pub proof fn lemma_defaults_written_out(c: KubeRouterConfig)
    requires
        crate::config::has_defaults(c),
    ensures
        !c.advertise_cluster_ip,
        !c.advertise_external_ip,
        !c.advertise_loadbalancer_ip,
        c.advertise_pod_cidr,
        c.auto_mtu,
        !c.bgp_graceful_restart,
        c.bgp_graceful_restart_deferral_time == (crate::time::Duration { secs: 360, nanos: 0 }),
        c.bgp_graceful_restart_time == (crate::time::Duration { secs: 90, nanos: 0 }),
        c.bgp_holdtime == (crate::time::Duration { secs: 90, nanos: 0 }),
        c.bgp_port == 179,
        c.cache_sync_timeout == (crate::time::Duration { secs: 60, nanos: 0 }),
        !c.cleanup_config,
        c.cluster_asn == 0,
        c.disable_source_dest_check,
        c.enable_cni,
        c.enable_ibgp,
        c.enable_ipv4,
        !c.enable_ipv6,
        c.enable_overlay,
        c.enable_pod_egress,
        !c.enable_pprof,
        c.excluded_cidrs@.len() == 0,
        !c.hairpin_mode,
        c.gobgp_admin_address@ == "127.0.0.1"@,
        c.gobgp_admin_port == 50051,
        c.health_addr@ == ""@,
        c.health_port == 20244,
        c.hostname_override@ == ""@,
        c.injected_routes_sync_period == (crate::time::Duration { secs: 60, nanos: 0 }),
        c.iptables_sync_period == (crate::time::Duration { secs: 300, nanos: 0 }),
        c.ipvs_graceful_period == (crate::time::Duration { secs: 30, nanos: 0 }),
        !c.ipvs_graceful_termination,
        c.ipvs_permit_all,
        c.ipvs_sync_period == (crate::time::Duration { secs: 300, nanos: 0 }),
        c.kubeconfig@ == ""@,
        c.loadbalancer_default_class,
        c.loadbalancer_ip_range@.len() == 0,
        c.loadbalancer_sync_period == (crate::time::Duration { secs: 60, nanos: 0 }),
        !c.masquerade_all,
        c.master@ == ""@,
        c.metrics_path@ == "/metrics"@,
        c.metrics_port == 0,
        c.metrics_addr@ == ""@,
        !c.netpol_default_deny,
        !c.nodeport_bindon_all_ip,
        c.nodes_full_mesh,
        c.overlay_encap@ == "ipip"@,
        c.overlay_encap_port == 5555,
        c.overlay_type@ == "subnet"@,
        !c.override_nexthop,
        c.peer_router_asns@.len() == 0,
        c.peer_router_ips@.len() == 0,
        c.peer_router_multihop_ttl == 0,
        c.peer_router_passwords@.len() == 0,
        c.peer_router_passwords_file@ == ""@,
        c.peer_router_ports@.len() == 0,
        c.router_id@ == ""@,
        c.routes_sync_period == (crate::time::Duration { secs: 300, nanos: 0 }),
        c.run_firewall,
        !c.run_loadbalancer,
        c.run_router,
        c.run_service_proxy,
        c.runtime_endpoint@ == ""@,
        c.service_cluster_ip_range@.len() == 1,
        c.service_cluster_ip_range@[0]@ == "10.96.0.0/12"@,
        c.strict_external_ip_validation,
        c.service_external_ip_range@.len() == 0,
        c.service_node_port_range@ == "30000-32767"@,
        c.service_tcp_timeout == (crate::time::Duration { secs: 0, nanos: 0 }),
        c.service_tcpfin_timeout == (crate::time::Duration { secs: 0, nanos: 0 }),
        c.service_udp_timeout == (crate::time::Duration { secs: 0, nanos: 0 }),
        c.v_level@ == "0"@,
{
    let t = crate::text::texts(c.service_cluster_ip_range@);
    assert(t.len() == c.service_cluster_ip_range@.len());
    assert(t.len() == 1);
    assert(t[0] == c.service_cluster_ip_range@[0]@);
}

/// Whether a number of nanoseconds is that of a unit, or none.
pub open spec fn is_unit_weight(n: nat) -> bool {
    ||| n == 0
    ||| n == 1
    ||| n == 1_000
    ||| n == 1_000_000
    ||| n == 1_000_000_000
    ||| n == 60_000_000_000
    ||| n == 3_600_000_000_000
    ||| n == 86_400_000_000_000
    ||| n == 604_800_000_000_000
    ||| n == 2_630_016_000_000_000
    ||| n == 31_557_600_000_000_000
}

/// The units of spans: every unit stands for the span that its name says, and what is none of
/// them stands for nothing.
pub proof fn lemma_units_written_out(u: Seq<char>)
    ensures
        unit_nanos(u) == 1 ==> u == "nanos"@ || u == "nsec"@ || u == "ns"@,
        unit_nanos(u) == 1_000 ==> u == "usec"@ || u == "us"@ || u == "\u{b5}s"@,
        unit_nanos(u) == 1_000_000 ==> u == "millis"@ || u == "msec"@ || u == "ms"@,
        unit_nanos(u) == 1_000_000_000 ==> u == "seconds"@ || u == "second"@ || u == "secs"@ || u
            == "sec"@ || u == "s"@,
        unit_nanos(u) == 60_000_000_000 ==> u == "minutes"@ || u == "minute"@ || u == "min"@ || u
            == "mins"@ || u == "m"@,
        unit_nanos(u) == 3_600_000_000_000 ==> u == "hours"@ || u == "hour"@ || u == "hr"@ || u
            == "hrs"@ || u == "h"@,
        unit_nanos(u) == 86_400_000_000_000 ==> u == "days"@ || u == "day"@ || u == "d"@,
        unit_nanos(u) == 604_800_000_000_000 ==> u == "weeks"@ || u == "week"@ || u == "wk"@ || u
            == "wks"@ || u == "w"@,
        unit_nanos(u) == 2_630_016_000_000_000 ==> u == "months"@ || u == "month"@ || u == "M"@,
        unit_nanos(u) == 31_557_600_000_000_000 ==> u == "years"@ || u == "year"@ || u == "yr"@ || u
            == "yrs"@ || u == "y"@,
        is_unit_weight(unit_nanos(u)),
        u == "ns"@ || u == "us"@ || u == "ms"@ || u == "s"@ || u == "m"@ || u == "h"@ || u == "d"@
            || u == "w"@ || u == "M"@ || u == "y"@ ==> unit_nanos(u) > 0,
{
}

proof fn lemma_digits_count(s: Seq<char>)
    requires
        crate::text::all_digits(s, 10),
    ensures
        count_up(s) == (SpanCount {
            nanos: 0,
            number: crate::text::number_of(s, 10),
            fraction: false,
            unit: Seq::empty(),
            fine: false,
        }),
    decreases s.len(),
{
    if s.len() > 0 {
        let front = s.drop_last();
        assert forall|i: int| 0 <= i < front.len() implies crate::text::is_digit_of(
            #[trigger] front[i],
            10,
        ) by {
            assert(front[i] == s[i]);
        }
        lemma_digits_count(front);
        let c = s.last();
        assert(c == s[s.len() - 1]);
        assert(crate::text::is_digit_of(c, 10));
        assert(unit_ended(count_up(front)) == count_up(front));
    }
}

/// Whether a span of one number and one unit can be read. In whole seconds it always can; in
/// milliseconds it can exactly below two to the power 64 seconds.
pub proof fn lemma_readable_spans(n: nat)
    ensures
        is_readable(crate::text::dec(n)),
        is_readable(crate::text::dec(n) + seq!['s']),
        is_readable(crate::text::dec(n) + seq!['m', 's']) == (n * 1_000_000
            < 18_446_744_073_709_551_616_000_000_000),
{
    let d = crate::text::dec(n);
    crate::text::lemma_numeral(n, 10);
    lemma_digits_count(d);
    let one = d + seq!['s'];
    assert(one.drop_last() =~= d);
    assert(one.last() == 's');
    assert(count_up(one).unit =~= seq!['s']);
    let m = d + seq!['m'];
    assert(m.drop_last() =~= d);
    assert(count_up(m).unit =~= seq!['m']);
    let ms = d + seq!['m', 's'];
    assert(ms.drop_last() =~= m);
    assert(count_up(ms).unit =~= seq!['m', 's']);
    reveal_strlit("nanos");
    reveal_strlit("nsec");
    reveal_strlit("ns");
    reveal_strlit("usec");
    reveal_strlit("us");
    reveal_strlit("\u{b5}s");
    reveal_strlit("millis");
    reveal_strlit("msec");
    reveal_strlit("ms");
    reveal_strlit("seconds");
    reveal_strlit("second");
    reveal_strlit("secs");
    reveal_strlit("sec");
    reveal_strlit("s");
    assert("ms"@ =~= seq!['m', 's']);
    assert("s"@ =~= seq!['s']);
    assert("ns"@[0] == 'n' && "us"@[0] == 'u' && "\u{b5}s"@[0] == '\u{b5}');
    assert("nanos"@.len() == 5 && "nsec"@.len() == 4 && "usec"@.len() == 4);
    assert("ns"@.len() == 2 && "us"@.len() == 2 && "\u{b5}s"@.len() == 2);
    assert("millis"@.len() == 6 && "msec"@.len() == 4 && "ms"@.len() == 2);
    assert(unit_nanos(seq!['s']) == 1_000_000_000);
    assert(unit_nanos(seq!['m', 's']) == 1_000_000);
    assert(!unit_ended(count_up(d)).fine);
    assert(!unit_ended(count_up(one)).fine);
    assert(unit_ended(count_up(ms)).nanos == n * 1_000_000);
}

/// The fixed paths, names, numbers and times; a lease is renewed several times before it runs
/// out.
pub proof fn lemma_constants_written_out()
    ensures
        crate::cni::DEFAULT_CONF_PATH@ == "/etc/cni/net.d/10-kuberouter.conflist"@,
        crate::cni::DEFAULT_BIN_DIR@ == "/opt/cni/bin"@,
        crate::routing_wire::BUNDLED_CNI_DIR@ == "/opt/cni-bundled"@,
        crate::routing_wire::GOBGPD_PATH@ == "/usr/local/bin/gobgpd"@,
        crate::observability::metrics::NAMESPACE@ == "kube_router"@,
        crate::startup::DUMMY_IF@ == "kube-dummy-if"@,
        crate::startup::DEFAULT_NAMESPACE@ == "kube-system"@,
        crate::startup::DEFAULT_IDENTITY@ == "kube-router-rs"@,
        crate::lballoc::election::LEASE_NAME@ == "kube-router-lballoc"@,
        crate::lballoc::election::LEASE_DURATION == 15,
        crate::lballoc::election::RENEW_DEADLINE == 10,
        crate::lballoc::election::RETRY_PERIOD == 2,
        crate::lballoc::election::RETRY_PERIOD < crate::lballoc::election::RENEW_DEADLINE,
        crate::lballoc::election::RENEW_DEADLINE < crate::lballoc::election::LEASE_DURATION,
        crate::cri::DEFAULT_CONNECTION_TIMEOUT == 15,
        crate::config::MAX_CLUSTER_IP_RANGES == 2,
        crate::lifecycle::DSR_MTU == 1500,
        crate::lifecycle::RECONNECT_SECONDS == 2,
        crate::bgp::grpc::AFI_IP == 1,
        crate::bgp::grpc::AFI_IP6 == 2,
        crate::bgp::grpc::SAFI_UNICAST == 1,
        crate::bgp::grpc::DEFAULT_BGP_PORT == 179,
        crate::netlink::system::MAIN_TABLE == 254,
{
}

} // verus!
