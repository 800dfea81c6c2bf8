//! The configuration of the agent: its switches, their defaults, and which combinations of them
//! are valid.

use vstd::prelude::*;

use crate::common::error::{quoted, Error};
use crate::common::ipfamily::{parse_cidr, EnabledFamilies};
use crate::ip::IpAddr;
use crate::text::{cat2, cat3, cat4, same};
use crate::time::Duration;

verus! {

/// How many ranges of service addresses there may be: one for each family.
pub const MAX_CLUSTER_IP_RANGES: usize = 2;

/// The configuration.
#[derive(Debug, Clone)]
pub struct KubeRouterConfig {
    /// `--advertise-cluster-ip`.
    pub advertise_cluster_ip: bool,
    /// `--advertise-external-ip`.
    pub advertise_external_ip: bool,
    /// `--advertise-loadbalancer-ip`.
    pub advertise_loadbalancer_ip: bool,
    /// `--advertise-pod-cidr`.
    pub advertise_pod_cidr: bool,
    /// `--auto-mtu`.
    pub auto_mtu: bool,
    /// `--bgp-graceful-restart`.
    pub bgp_graceful_restart: bool,
    /// `--bgp-graceful-restart-deferral-time`.
    pub bgp_graceful_restart_deferral_time: Duration,
    /// `--bgp-graceful-restart-time`.
    pub bgp_graceful_restart_time: Duration,
    /// `--bgp-holdtime`.
    pub bgp_holdtime: Duration,
    /// `--bgp-port`.
    pub bgp_port: u32,
    /// `--cache-sync-timeout`.
    pub cache_sync_timeout: Duration,
    /// `--cleanup-config`.
    pub cleanup_config: bool,
    /// `--cluster-asn`.
    pub cluster_asn: u32,
    /// `--disable-source-dest-check`.
    pub disable_source_dest_check: bool,
    /// `--enable-cni`.
    pub enable_cni: bool,
    /// `--enable-ibgp`.
    pub enable_ibgp: bool,
    /// `--enable-ipv4`.
    pub enable_ipv4: bool,
    /// `--enable-ipv6`.
    pub enable_ipv6: bool,
    /// `--enable-overlay`.
    pub enable_overlay: bool,
    /// `--enable-pod-egress`.
    pub enable_pod_egress: bool,
    /// `--enable-pprof`.
    pub enable_pprof: bool,
    /// `--excluded-cidrs`.
    pub excluded_cidrs: Vec<String>,
    /// `--hairpin-mode`.
    pub hairpin_mode: bool,
    /// `--gobgp-admin-address`.
    pub gobgp_admin_address: String,
    /// `--gobgp-admin-port`.
    pub gobgp_admin_port: u16,
    /// `--health-addr`.
    pub health_addr: String,
    /// `--health-port`.
    pub health_port: u16,
    /// `--hostname-override`.
    pub hostname_override: String,
    /// `--injected-routes-sync-period`.
    pub injected_routes_sync_period: Duration,
    /// `--iptables-sync-period`.
    pub iptables_sync_period: Duration,
    /// `--ipvs-graceful-period`.
    pub ipvs_graceful_period: Duration,
    /// `--ipvs-graceful-termination`.
    pub ipvs_graceful_termination: bool,
    /// `--ipvs-permit-all`.
    pub ipvs_permit_all: bool,
    /// `--ipvs-sync-period`.
    pub ipvs_sync_period: Duration,
    /// `--kubeconfig`.
    pub kubeconfig: String,
    /// `--loadbalancer-default-class`.
    pub loadbalancer_default_class: bool,
    /// `--loadbalancer-ip-range`.
    pub loadbalancer_ip_range: Vec<String>,
    /// `--loadbalancer-sync-period`.
    pub loadbalancer_sync_period: Duration,
    /// `--masquerade-all`.
    pub masquerade_all: bool,
    /// `--master`.
    pub master: String,
    /// `--metrics-path`.
    pub metrics_path: String,
    /// `--metrics-port`.
    pub metrics_port: u16,
    /// `--metrics-addr`.
    pub metrics_addr: String,
    /// `--netpol-default-deny`.
    pub netpol_default_deny: bool,
    /// `--nodeport-bindon-all-ip`.
    pub nodeport_bindon_all_ip: bool,
    /// `--nodes-full-mesh`.
    pub nodes_full_mesh: bool,
    /// `--overlay-encap`.
    pub overlay_encap: String,
    /// `--overlay-encap-port`.
    pub overlay_encap_port: u16,
    /// `--overlay-type`.
    pub overlay_type: String,
    /// `--override-nexthop`.
    pub override_nexthop: bool,
    /// `--peer-router-asns`.
    pub peer_router_asns: Vec<u32>,
    /// `--peer-router-ips`.
    pub peer_router_ips: Vec<IpAddr>,
    /// `--peer-router-multihop-ttl`.
    pub peer_router_multihop_ttl: u8,
    /// `--peer-router-passwords`.
    pub peer_router_passwords: Vec<String>,
    /// `--peer-router-passwords-file`.
    pub peer_router_passwords_file: String,
    /// `--peer-router-ports`.
    pub peer_router_ports: Vec<u32>,
    /// `--router-id`.
    pub router_id: String,
    /// `--routes-sync-period`.
    pub routes_sync_period: Duration,
    /// `--run-firewall`.
    pub run_firewall: bool,
    /// `--run-loadbalancer`.
    pub run_loadbalancer: bool,
    /// `--run-router`.
    pub run_router: bool,
    /// `--run-service-proxy`.
    pub run_service_proxy: bool,
    /// `--runtime-endpoint`.
    pub runtime_endpoint: String,
    /// `--service-cluster-ip-range`.
    pub service_cluster_ip_range: Vec<String>,
    /// `--strict-external-ip-validation`.
    pub strict_external_ip_validation: bool,
    /// `--service-external-ip-range`.
    pub service_external_ip_range: Vec<String>,
    /// `--service-node-port-range`.
    pub service_node_port_range: String,
    /// `--service-tcp-timeout`.
    pub service_tcp_timeout: Duration,
    /// `--service-tcpfin-timeout`.
    pub service_tcpfin_timeout: Duration,
    /// `--service-udp-timeout`.
    pub service_udp_timeout: Duration,
    /// `--v`.
    pub v_level: String,
}

/// Whether every switch has its default.
pub open spec fn has_defaults(c: KubeRouterConfig) -> bool {
    &&& !c.advertise_cluster_ip
    &&& !c.advertise_external_ip
    &&& !c.advertise_loadbalancer_ip
    &&& c.advertise_pod_cidr
    &&& c.auto_mtu
    &&& !c.bgp_graceful_restart
    &&& c.bgp_graceful_restart_deferral_time == (Duration { secs: 360, nanos: 0 })
    &&& c.bgp_graceful_restart_time == (Duration { secs: 90, nanos: 0 })
    &&& c.bgp_holdtime == (Duration { secs: 90, nanos: 0 })
    &&& c.bgp_port == 179
    &&& c.cache_sync_timeout == (Duration { secs: 60, nanos: 0 })
    &&& !c.cleanup_config
    &&& c.cluster_asn == 0
    &&& c.disable_source_dest_check
    &&& c.enable_cni
    &&& c.enable_ibgp
    &&& c.enable_ipv4
    &&& !c.enable_ipv6
    &&& c.enable_overlay
    &&& c.enable_pod_egress
    &&& !c.enable_pprof
    &&& c.excluded_cidrs@.len() == 0
    &&& !c.hairpin_mode
    &&& c.gobgp_admin_address@ == "127.0.0.1"@
    &&& c.gobgp_admin_port == 50051
    &&& c.health_addr@ == ""@
    &&& c.health_port == 20244
    &&& c.hostname_override@ == ""@
    &&& c.injected_routes_sync_period == (Duration { secs: 60, nanos: 0 })
    &&& c.iptables_sync_period == (Duration { secs: 300, nanos: 0 })
    &&& c.ipvs_graceful_period == (Duration { secs: 30, nanos: 0 })
    &&& !c.ipvs_graceful_termination
    &&& c.ipvs_permit_all
    &&& c.ipvs_sync_period == (Duration { secs: 300, nanos: 0 })
    &&& c.kubeconfig@ == ""@
    &&& c.loadbalancer_default_class
    &&& c.loadbalancer_ip_range@.len() == 0
    &&& c.loadbalancer_sync_period == (Duration { secs: 60, nanos: 0 })
    &&& !c.masquerade_all
    &&& c.master@ == ""@
    &&& c.metrics_path@ == "/metrics"@
    &&& c.metrics_port == 0
    &&& c.metrics_addr@ == ""@
    &&& !c.netpol_default_deny
    &&& !c.nodeport_bindon_all_ip
    &&& c.nodes_full_mesh
    &&& c.overlay_encap@ == "ipip"@
    &&& c.overlay_encap_port == 5555
    &&& c.overlay_type@ == "subnet"@
    &&& !c.override_nexthop
    &&& c.peer_router_asns@.len() == 0
    &&& c.peer_router_ips@.len() == 0
    &&& c.peer_router_multihop_ttl == 0
    &&& c.peer_router_passwords@.len() == 0
    &&& c.peer_router_passwords_file@ == ""@
    &&& c.peer_router_ports@.len() == 0
    &&& c.router_id@ == ""@
    &&& c.routes_sync_period == (Duration { secs: 300, nanos: 0 })
    &&& c.run_firewall
    &&& !c.run_loadbalancer
    &&& c.run_router
    &&& c.run_service_proxy
    &&& c.runtime_endpoint@ == ""@
    &&& crate::text::texts(c.service_cluster_ip_range@) == seq!["10.96.0.0/12"@]
    &&& c.strict_external_ip_validation
    &&& c.service_external_ip_range@.len() == 0
    &&& c.service_node_port_range@ == "30000-32767"@
    &&& c.service_tcp_timeout == (Duration { secs: 0, nanos: 0 })
    &&& c.service_tcpfin_timeout == (Duration { secs: 0, nanos: 0 })
    &&& c.service_udp_timeout == (Duration { secs: 0, nanos: 0 })
    &&& c.v_level@ == "0"@
}

impl Default for KubeRouterConfig {
    fn default() -> (r: KubeRouterConfig)
        ensures
            has_defaults(r),
    {
        let r = KubeRouterConfig {
            advertise_cluster_ip: false,
            advertise_external_ip: false,
            advertise_loadbalancer_ip: false,
            advertise_pod_cidr: true,
            auto_mtu: true,
            bgp_graceful_restart: false,
            bgp_graceful_restart_deferral_time: Duration::from_secs(360),
            bgp_graceful_restart_time: Duration::from_secs(90),
            bgp_holdtime: Duration::from_secs(90),
            bgp_port: 179,
            cache_sync_timeout: Duration::from_secs(60),
            cleanup_config: false,
            cluster_asn: 0,
            disable_source_dest_check: true,
            enable_cni: true,
            enable_ibgp: true,
            enable_ipv4: true,
            enable_ipv6: false,
            enable_overlay: true,
            enable_pod_egress: true,
            enable_pprof: false,
            excluded_cidrs: Vec::new(),
            hairpin_mode: false,
            gobgp_admin_address: String::from_str("127.0.0.1"),
            gobgp_admin_port: 50051,
            health_addr: String::from_str(""),
            health_port: 20244,
            hostname_override: String::from_str(""),
            injected_routes_sync_period: Duration::from_secs(60),
            iptables_sync_period: Duration::from_secs(300),
            ipvs_graceful_period: Duration::from_secs(30),
            ipvs_graceful_termination: false,
            ipvs_permit_all: true,
            ipvs_sync_period: Duration::from_secs(300),
            kubeconfig: String::from_str(""),
            loadbalancer_default_class: true,
            loadbalancer_ip_range: Vec::new(),
            loadbalancer_sync_period: Duration::from_secs(60),
            masquerade_all: false,
            master: String::from_str(""),
            metrics_path: String::from_str("/metrics"),
            metrics_port: 0,
            metrics_addr: String::from_str(""),
            netpol_default_deny: false,
            nodeport_bindon_all_ip: false,
            nodes_full_mesh: true,
            overlay_encap: String::from_str("ipip"),
            overlay_encap_port: 5555,
            overlay_type: String::from_str("subnet"),
            override_nexthop: false,
            peer_router_asns: Vec::new(),
            peer_router_ips: Vec::new(),
            peer_router_multihop_ttl: 0,
            peer_router_passwords: Vec::new(),
            peer_router_passwords_file: String::from_str(""),
            peer_router_ports: Vec::new(),
            router_id: String::from_str(""),
            routes_sync_period: Duration::from_secs(300),
            run_firewall: true,
            run_loadbalancer: false,
            run_router: true,
            run_service_proxy: true,
            runtime_endpoint: String::from_str(""),
            service_cluster_ip_range: vec![String::from_str("10.96.0.0/12")],
            strict_external_ip_validation: true,
            service_external_ip_range: Vec::new(),
            service_node_port_range: String::from_str("30000-32767"),
            service_tcp_timeout: Duration::from_secs(0),
            service_tcpfin_timeout: Duration::from_secs(0),
            service_udp_timeout: Duration::from_secs(0),
            v_level: String::from_str("0"),
        };
        assert(crate::text::texts(r.service_cluster_ip_range@) =~= seq!["10.96.0.0/12"@]);
        r
    }
}

// ---------------------------------------------------------------------------------------------
// Durations
// ---------------------------------------------------------------------------------------------

/// What a text is read as by `humantime`: a span, or why it is none.
pub uninterp spec fn span_of(s: Seq<char>) -> Result<Duration, Seq<char>>;

/// How far a span has been counted up from its text.
pub struct SpanCount {
    /// At most so many nanoseconds come from the numbers whose unit has ended.
    pub nanos: nat,
    /// The number after these, rounded up.
    pub number: nat,
    /// Its fraction has begun.
    pub fraction: bool,
    /// Its unit, as far as it has come.
    pub unit: Seq<char>,
    /// Some part is below the second: a fraction, or a unit that is.
    pub fine: bool,
}

/// The nanoseconds that a unit stands for; none where it is no unit.
pub open spec fn unit_nanos(u: Seq<char>) -> nat {
    if u == "nanos"@ || u == "nsec"@ || u == "ns"@ {
        1
    } else if u == "usec"@ || u == "us"@ || u == "\u{b5}s"@ {
        1_000
    } else if u == "millis"@ || u == "msec"@ || u == "ms"@ {
        1_000_000
    } else if u == "seconds"@ || u == "second"@ || u == "secs"@ || u == "sec"@ || u == "s"@ {
        1_000_000_000
    } else if u == "minutes"@ || u == "minute"@ || u == "min"@ || u == "mins"@ || u == "m"@ {
        60_000_000_000
    } else if u == "hours"@ || u == "hour"@ || u == "hr"@ || u == "hrs"@ || u == "h"@ {
        3_600_000_000_000
    } else if u == "days"@ || u == "day"@ || u == "d"@ {
        86_400_000_000_000
    } else if u == "weeks"@ || u == "week"@ || u == "wk"@ || u == "wks"@ || u == "w"@ {
        604_800_000_000_000
    } else if u == "months"@ || u == "month"@ || u == "M"@ {
        2_630_016_000_000_000
    } else if u == "years"@ || u == "year"@ || u == "yr"@ || u == "yrs"@ || u == "y"@ {
        31_557_600_000_000_000
    } else {
        0
    }
}

/// Whether a character is one of those that units are made of.
pub open spec fn is_unit_char(c: char) -> bool {
    'a' <= c <= 'z' || 'A' <= c <= 'Z' || c == '\u{b5}'
}

/// The count once the unit has ended: the number counts by it.
pub open spec fn unit_ended(c: SpanCount) -> SpanCount {
    if c.unit.len() == 0 {
        c
    } else {
        let w = unit_nanos(c.unit);
        SpanCount {
            nanos: c.nanos + c.number * w,
            number: 0,
            fraction: false,
            unit: Seq::empty(),
            fine: c.fine || 0 < w < 1_000_000_000,
        }
    }
}

/// Counts up a span: a number may hold white space and ends at its unit; a unit ends at the first
/// character that is not one of a unit.
pub open spec fn count_up(s: Seq<char>) -> SpanCount
    decreases s.len(),
{
    if s.len() == 0 {
        SpanCount { nanos: 0, number: 0, fraction: false, unit: Seq::empty(), fine: false }
    } else {
        let before = count_up(s.drop_last());
        let c = s.last();
        if is_unit_char(c) {
            SpanCount { unit: before.unit.push(c), ..before }
        } else {
            let done = unit_ended(before);
            if '0' <= c <= '9' {
                if done.fraction {
                    done
                } else {
                    SpanCount { number: done.number * 10 + (c as nat - '0' as nat) as nat, ..done }
                }
            } else if c == '.' {
                SpanCount { number: done.number + 1, fraction: true, fine: true, ..done }
            } else {
                done
            }
        }
    }
}

/// `2^64` seconds, in nanoseconds.
pub const SPAN_CAP: u128 = 18_446_744_073_709_551_616_000_000_000;

/// Whether a span can be read: it holds whole seconds only, or stays below `2^64` of them.
pub open spec fn is_readable(s: Seq<char>) -> bool {
    let all = unit_ended(count_up(s));
    !all.fine || all.nanos < SPAN_CAP
}

/// A number, or the cap where it is above.
spec fn capped(n: nat) -> nat {
    if n < SPAN_CAP {
        n
    } else {
        SPAN_CAP as nat
    }
}

/// Capped numbers can stand for those above the cap in what is capped again.
proof fn lemma_capped(nanos: nat, number: nat, w: nat)
    ensures
        capped(capped(nanos) + capped(capped(number) * w)) == capped(nanos + number * w),
{
    let cap = SPAN_CAP as nat;
    let k = capped(number);
    if w == 0 {
        assert(number * w == 0 && k * w == 0) by (nonlinear_arith)
            requires
                w == 0,
        ;
    } else if number >= cap {
        assert(number * w >= cap) by (nonlinear_arith)
            requires
                number >= cap,
                w >= 1,
        ;
        assert(k * w >= cap) by (nonlinear_arith)
            requires
                k == cap,
                w >= 1,
        ;
    }
    assert(number * w >= 0) by (nonlinear_arith);
}

fn unit_weight(u: &str) -> (r: u128)
    ensures
        r == unit_nanos(u@),
{
    if same(u, "nanos") || same(u, "nsec") || same(u, "ns") {
        1
    } else if same(u, "usec") || same(u, "us") || same(u, "\u{b5}s") {
        1_000
    } else if same(u, "millis") || same(u, "msec") || same(u, "ms") {
        1_000_000
    } else if same(u, "seconds") || same(u, "second") || same(u, "secs") || same(u, "sec")
        || same(u, "s") {
        1_000_000_000
    } else if same(u, "minutes") || same(u, "minute") || same(u, "min") || same(u, "mins")
        || same(u, "m") {
        60_000_000_000
    } else if same(u, "hours") || same(u, "hour") || same(u, "hr") || same(u, "hrs")
        || same(u, "h") {
        3_600_000_000_000
    } else if same(u, "days") || same(u, "day") || same(u, "d") {
        86_400_000_000_000
    } else if same(u, "weeks") || same(u, "week") || same(u, "wk") || same(u, "wks")
        || same(u, "w") {
        604_800_000_000_000
    } else if same(u, "months") || same(u, "month") || same(u, "M") {
        2_630_016_000_000_000
    } else if same(u, "years") || same(u, "year") || same(u, "yr") || same(u, "yrs")
        || same(u, "y") {
        31_557_600_000_000_000
    } else {
        0
    }
}

/// A count of a span as it is made: numbers are capped, and the unit is a part of the text.
struct Tally {
    nanos: u128,
    number: u128,
    fraction: bool,
    fine: bool,
}

impl Tally {
    /// Whether this is the count, but for the unit.
    spec fn is_of(self, c: SpanCount) -> bool {
        &&& self.nanos == capped(c.nanos)
        &&& self.number == capped(c.number)
        &&& self.fraction == c.fraction
        &&& self.fine == c.fine
    }

    /// Takes in the end of a unit, if there is one.
    fn end_unit(self, unit: &str, Ghost(c): Ghost<SpanCount>) -> (r: Tally)
        requires
            self.is_of(c),
            unit@ == c.unit,
        ensures
            r.is_of(unit_ended(c)),
    {
        if unit.is_empty() {
            return self;
        }
        let w: u128 = unit_weight(unit);
        let part: u128 = match self.number.checked_mul(w) {
            Some(p) => if p < SPAN_CAP {
                p
            } else {
                SPAN_CAP
            },
            None => SPAN_CAP,
        };
        let sum: u128 = self.nanos + part;
        proof {
            lemma_capped(c.nanos, c.number, w as nat);
        }
        Tally {
            nanos: if sum < SPAN_CAP {
                sum
            } else {
                SPAN_CAP
            },
            number: 0,
            fraction: false,
            fine: self.fine || (0 < w && w < 1_000_000_000),
        }
    }
}

/// Whether a span can be read.
pub fn can_read_span(s: &str) -> (r: bool)
    ensures
        r == is_readable(s@),
{
    let cs = crate::text::chars_of(s);
    let mut t = Tally { nanos: 0, number: 0, fraction: false, fine: false };
    let mut from: usize = 0;
    let mut i: usize = 0;
    assert(cs@.subrange(0, 0) =~= count_up(cs@.take(0)).unit);
    while i < cs.len()
        invariant
            from <= i <= cs@.len(),
            t.is_of(count_up(cs@.take(i as int))),
            cs@.subrange(from as int, i as int) == count_up(cs@.take(i as int)).unit,
        decreases cs@.len() - i,
    {
        let c = cs[i];
        let ghost before = count_up(cs@.take(i as int));
        assert(cs@.take(i + 1).drop_last() =~= cs@.take(i as int));
        assert(cs@.take(i + 1).last() == c);
        if ('a' <= c && c <= 'z') || ('A' <= c && c <= 'Z') || c == '\u{b5}' {
            assert(cs@.subrange(from as int, i + 1) =~= cs@.subrange(from as int, i as int).push(
                c,
            ));
        } else {
            let unit = crate::text::string_of(&cs, from, i);
            t = t.end_unit(unit.as_str(), Ghost(before));
            let ghost done = unit_ended(before);
            if '0' <= c && c <= '9' {
                if !t.fraction {
                    let d: u128 = (c as u32 - '0' as u32) as u128;
                    let n: u128 = t.number * 10 + d;
                    t.number = if n < SPAN_CAP {
                        n
                    } else {
                        SPAN_CAP
                    };
                }
            } else if c == '.' {
                t.number = if t.number < SPAN_CAP {
                    t.number + 1
                } else {
                    SPAN_CAP
                };
                t.fraction = true;
                t.fine = true;
            }
            from = i + 1;
            assert(cs@.subrange(i + 1, i + 1) =~= Seq::<char>::empty());
            assert(done.unit =~= Seq::<char>::empty());
        }
        i = i + 1;
    }
    assert(cs@.take(i as int) =~= cs@);
    let unit = crate::text::string_of(&cs, from, i);
    t = t.end_unit(unit.as_str(), Ghost(count_up(s@)));
    !t.fine || t.nanos < SPAN_CAP
}

/// `humantime::parse_duration`: reads a span such as `5m` or `1h 30m`; the outcome is named by
/// `span_of`, an error by its text. It can panic only where the parts read so far come to exactly
/// `2^64` seconds and the last of them is below the second: a span that stays below, or that has
/// no such part, is safe.
#[verifier::external_body]
fn read_span(s: &str) -> (r: Result<Duration, String>)
    requires
        is_readable(s@),
    ensures
        match r {
            Ok(d) => span_of(s@) == Ok::<Duration, Seq<char>>(d),
            Err(e) => span_of(s@) == Err::<Duration, Seq<char>>(e@),
        },
{
    match humantime::parse_duration(s) {
        Ok(d) => Ok(Duration { secs: d.as_secs(), nanos: d.subsec_nanos() }),
        Err(e) => Err(e.to_string()),
    }
}

/// Reads the value of a switch that is a span of time.
pub fn parse_go_duration(s: &str) -> (r: Result<Duration, String>)
    requires
        is_readable(s@),
    ensures
        match span_of(s@) {
            Ok(d) => r == Ok::<Duration, String>(d),
            Err(why) => r matches Err(m) && m@ == "invalid duration "@
                + crate::common::error::quoted_of(s@) + ": "@ + why,
        },
{
    match read_span(s) {
        Ok(d) => Ok(d),
        Err(e) => Err(cat4("invalid duration ", quoted(s).as_str(), ": ", e.as_str())),
    }
}

/// Reads the value of a switch that is a span of time, where it can be read; nothing is said of
/// others.
pub fn try_go_duration(s: &str) -> (r: Option<Result<Duration, String>>)
    ensures
        r is Some <==> is_readable(s@),
        r matches Some(outcome) ==> match span_of(s@) {
            Ok(d) => outcome == Ok::<Duration, String>(d),
            Err(why) => outcome matches Err(m) && m@ == "invalid duration "@
                + crate::common::error::quoted_of(s@) + ": "@ + why,
        },
{
    if can_read_span(s) {
        Some(parse_go_duration(s))
    } else {
        None
    }
}

// ---------------------------------------------------------------------------------------------
// Validation
// ---------------------------------------------------------------------------------------------

/// The index of the first text, from `i` on, that is no network.
pub open spec fn first_bad(list: Seq<Seq<char>>, i: int) -> Option<int>
    decreases list.len() - i,
{
    if i < 0 || i >= list.len() {
        None
    } else if crate::net::net_of(crate::text::trimmed(list[i])) is None {
        Some(i)
    } else {
        first_bad(list, i + 1)
    }
}

/// What is wrong with a list of networks.
pub open spec fn list_fault(flag: Seq<char>, list: Seq<Seq<char>>) -> Option<Seq<char>> {
    match first_bad(list, 0) {
        Some(i) => Some(
            flag + ": "@ + ("invalid IP/CIDR "@ + crate::common::error::quoted_of(list[i]) + ": "@
                + "invalid IP address syntax"@),
        ),
        None => None,
    }
}

/// What is wrong with a span that must not be zero.
pub open spec fn period_fault(flag: Seq<char>, d: Duration) -> Option<Seq<char>> {
    if d.total() == 0 {
        Some(flag + " must be greater than 0"@)
    } else {
        None
    }
}

/// The first fault, if there is any.
pub open spec fn first_of(a: Option<Seq<char>>, b: Option<Seq<char>>) -> Option<Seq<char>> {
    if a is Some {
        a
    } else {
        b
    }
}

impl KubeRouterConfig {
    /// No family is served.
    pub open spec fn family_fault(self) -> Option<Seq<char>> {
        if !(self.enable_ipv4 || self.enable_ipv6) {
            Some("at least one of --enable-ipv4 or --enable-ipv6 must be true"@)
        } else {
            None
        }
    }

    /// A list of networks holds something else.
    pub open spec fn lists_fault(self) -> Option<Seq<char>> {
        first_of(
            list_fault(
                "--service-cluster-ip-range"@,
                crate::text::texts(self.service_cluster_ip_range@),
            ),
            first_of(
                list_fault(
                    "--service-external-ip-range"@,
                    crate::text::texts(self.service_external_ip_range@),
                ),
                first_of(
                    list_fault(
                        "--loadbalancer-ip-range"@,
                        crate::text::texts(self.loadbalancer_ip_range@),
                    ),
                    list_fault("--excluded-cidrs"@, crate::text::texts(self.excluded_cidrs@)),
                ),
            ),
        )
    }

    /// There are too many ranges of service addresses.
    pub open spec fn ranges_fault(self) -> Option<Seq<char>> {
        if self.service_cluster_ip_range@.len() > MAX_CLUSTER_IP_RANGES {
            Some("--service-cluster-ip-range accepts at most 2 entries"@)
        } else {
            None
        }
    }

    /// The router serves IPv6 alone and has no id.
    pub open spec fn router_fault(self) -> Option<Seq<char>> {
        if self.run_router && self.enable_ipv6 && !self.enable_ipv4 && self.router_id@.len() == 0 {
            Some("--router-id is required (or \"generate\") for an IPv6-only cluster"@)
        } else {
            None
        }
    }

    /// The encapsulation is not known.
    pub open spec fn encap_fault(self) -> Option<Seq<char>> {
        if !(self.overlay_encap@ == "ipip"@ || self.overlay_encap@ == "fou"@) {
            Some(
                "--overlay-encap must be \"ipip\" or \"fou\", got "@
                    + crate::common::error::quoted_of(self.overlay_encap@),
            )
        } else {
            None
        }
    }

    /// The kind of overlay is not known.
    pub open spec fn overlay_fault(self) -> Option<Seq<char>> {
        if !(self.overlay_type@ == "subnet"@ || self.overlay_type@ == "full"@) {
            Some(
                "--overlay-type must be \"subnet\" or \"full\", got "@
                    + crate::common::error::quoted_of(self.overlay_type@),
            )
        } else {
            None
        }
    }

    /// A period is zero.
    pub open spec fn periods_fault(self) -> Option<Seq<char>> {
        first_of(
            period_fault("--cache-sync-timeout"@, self.cache_sync_timeout),
            first_of(
                period_fault("--routes-sync-period"@, self.routes_sync_period),
                first_of(
                    period_fault("--iptables-sync-period"@, self.iptables_sync_period),
                    first_of(
                        period_fault("--ipvs-sync-period"@, self.ipvs_sync_period),
                        first_of(
                            period_fault("--ipvs-graceful-period"@, self.ipvs_graceful_period),
                            first_of(
                                period_fault(
                                    "--injected-routes-sync-period"@,
                                    self.injected_routes_sync_period,
                                ),
                                period_fault(
                                    "--loadbalancer-sync-period"@,
                                    self.loadbalancer_sync_period,
                                ),
                            ),
                        ),
                    ),
                ),
            ),
        )
    }

    /// Peers and their AS numbers are given and do not match in number.
    pub open spec fn peers_fault(self) -> Option<Seq<char>> {
        if self.peer_router_ips@.len() > 0 && self.peer_router_asns@.len() > 0
            && self.peer_router_ips@.len() != self.peer_router_asns@.len() {
            Some("--peer-router-ips and --peer-router-asns must have equal length"@)
        } else {
            None
        }
    }

    /// The first fault, in the order in which they are looked for.
    pub open spec fn fault(self) -> Option<Seq<char>> {
        first_of(
            self.family_fault(),
            first_of(
                self.lists_fault(),
                first_of(
                    self.ranges_fault(),
                    first_of(
                        self.router_fault(),
                        first_of(
                            self.encap_fault(),
                            first_of(
                                self.overlay_fault(),
                                first_of(self.periods_fault(), self.peers_fault()),
                            ),
                        ),
                    ),
                ),
            ),
        )
    }

    /// The families that are served.
    pub fn enabled_families(&self) -> (r: EnabledFamilies)
        ensures
            r.v4 == self.enable_ipv4,
            r.v6 == self.enable_ipv6,
    {
        EnabledFamilies::new(self.enable_ipv4, self.enable_ipv6)
    }

    /// Whether the configuration is valid; the first fault where it is not.
    pub fn validate(&self) -> (r: Result<(), Error>)
        ensures
            match self.fault() {
                None => r is Ok,
                Some(m) => r matches Err(Error::Config(t)) && t@ == m,
            },
    {
        let fams = self.enabled_families();
        if !fams.any() {
            return Err(
                Error::Config(
                    String::from_str(
                        "at least one of --enable-ipv4 or --enable-ipv6 must be true",
                    ),
                ),
            );
        }
        check_list("--service-cluster-ip-range", &self.service_cluster_ip_range)?;
        check_list("--service-external-ip-range", &self.service_external_ip_range)?;
        check_list("--loadbalancer-ip-range", &self.loadbalancer_ip_range)?;
        check_list("--excluded-cidrs", &self.excluded_cidrs)?;
        if self.service_cluster_ip_range.len() > MAX_CLUSTER_IP_RANGES {
            return Err(
                Error::Config(
                    String::from_str("--service-cluster-ip-range accepts at most 2 entries"),
                ),
            );
        }
        if self.run_router && fams.is_v6_only() && self.router_id.as_str().is_empty() {
            return Err(
                Error::Config(
                    String::from_str(
                        "--router-id is required (or \"generate\") for an IPv6-only cluster",
                    ),
                ),
            );
        }
        if !same(self.overlay_encap.as_str(), "ipip") && !same(
            self.overlay_encap.as_str(),
            "fou",
        ) {
            return Err(
                Error::Config(
                    cat2(
                        "--overlay-encap must be \"ipip\" or \"fou\", got ",
                        quoted(self.overlay_encap.as_str()).as_str(),
                    ),
                ),
            );
        }
        if !same(self.overlay_type.as_str(), "subnet") && !same(
            self.overlay_type.as_str(),
            "full",
        ) {
            return Err(
                Error::Config(
                    cat2(
                        "--overlay-type must be \"subnet\" or \"full\", got ",
                        quoted(self.overlay_type.as_str()).as_str(),
                    ),
                ),
            );
        }
        check_period("--cache-sync-timeout", self.cache_sync_timeout)?;
        check_period("--routes-sync-period", self.routes_sync_period)?;
        check_period("--iptables-sync-period", self.iptables_sync_period)?;
        check_period("--ipvs-sync-period", self.ipvs_sync_period)?;
        check_period("--ipvs-graceful-period", self.ipvs_graceful_period)?;
        check_period("--injected-routes-sync-period", self.injected_routes_sync_period)?;
        check_period("--loadbalancer-sync-period", self.loadbalancer_sync_period)?;
        if self.peer_router_ips.len() > 0 && self.peer_router_asns.len() > 0
            && self.peer_router_ips.len() != self.peer_router_asns.len() {
            return Err(
                Error::Config(
                    String::from_str(
                        "--peer-router-ips and --peer-router-asns must have equal length",
                    ),
                ),
            );
        }
        Ok(())
    }
}

fn check_list(flag: &str, list: &[String]) -> (r: Result<(), Error>)
    ensures
        match list_fault(flag@, crate::text::texts(list@)) {
            None => r is Ok,
            Some(m) => r matches Err(Error::Config(t)) && t@ == m,
        },
{
    let ghost all = crate::text::texts(list@);
    let mut i: usize = 0;
    while i < list.len()
        invariant
            i <= list@.len(),
            all == crate::text::texts(list@),
            first_bad(all, i as int) == first_bad(all, 0),
        decreases list@.len() - i,
    {
        assert(all[i as int] == list@[i as int]@);
        match parse_cidr(list[i].as_str()) {
            Ok(_) => {},
            Err(e) => {
                return Err(Error::Config(cat3(flag, ": ", e.message().as_str())));
            },
        }
        i = i + 1;
    }
    Ok(())
}

fn check_period(flag: &str, d: Duration) -> (r: Result<(), Error>)
    ensures
        match period_fault(flag@, d) {
            None => r is Ok,
            Some(m) => r matches Err(Error::Config(t)) && t@ == m,
        },
{
    if d.as_nanos() == 0 {
        Err(Error::Config(cat2(flag, " must be greater than 0")))
    } else {
        Ok(())
    }
}

/// A configuration is valid exactly where none of the constraints is violated.
pub proof fn lemma_valid_iff_no_fault(c: KubeRouterConfig)
    ensures
        c.fault() is None <==> {
            &&& c.family_fault() is None
            &&& c.lists_fault() is None
            &&& c.ranges_fault() is None
            &&& c.router_fault() is None
            &&& c.encap_fault() is None
            &&& c.overlay_fault() is None
            &&& c.periods_fault() is None
            &&& c.peers_fault() is None
        },
{
}

} // verus!
