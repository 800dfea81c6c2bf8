//! The messages of the BGP daemon's API: paths and peers as the daemon takes them, and the paths
//! it reports.

use vstd::prelude::*;

use crate::bgp::engine::{BgpError, GlobalConfig, PeerConfig};
use crate::bgp::path::{Afi, Attr, Path};
use crate::ip::IpAddr;
use crate::net::{parse_net, IpNet};
use crate::objects::own_or_empty;
use crate::text::{cat3, dec_text};

verus! {

/// Number of the IPv4 address family.
pub const AFI_IP: i32 = 1;

/// Number of the IPv6 address family.
pub const AFI_IP6: i32 = 2;

/// Number of the unicast sub-address family.
pub const SAFI_UNICAST: i32 = 1;

/// The port of the protocol.
pub const DEFAULT_BGP_PORT: u32 = 179;

/// A failure reported by the daemon, from its text.
pub fn map_err(text: String) -> (r: BgpError)
    ensures
        r matches BgpError::Engine(m) && m@ == text@,
{
    BgpError::Engine(text)
}

/// An address family with its sub-address family.
#[derive(Debug, Clone, Copy, PartialEq, Eq, Structural)]
pub struct Family {
    /// Address family.
    pub afi: i32,
    /// Sub-address family.
    pub safi: i32,
}

/// The unicast family of an address family.
pub fn family(afi: i32) -> (r: Family)
    ensures
        r == (Family { afi, safi: SAFI_UNICAST }),
{
    Family { afi, safi: SAFI_UNICAST }
}

/// A prefix: its address as text, and its length.
#[derive(Debug, Clone, PartialEq, Eq)]
pub struct IpAddressPrefix {
    /// Prefix length.
    pub prefix_len: u32,
    /// Address.
    pub prefix: String,
}

/// An attribute of a path.
#[derive(Debug, Clone, PartialEq, Eq)]
pub enum Attribute {
    /// Origin.
    Origin(u32),
    /// Next hop.
    NextHop(String),
    /// Next hops and prefixes of a family.
    MpReach {
        /// The family.
        family: Family,
        /// Next hops.
        next_hops: Vec<String>,
        /// Prefixes.
        nlris: Vec<IpAddressPrefix>,
    },
    /// Communities.
    Communities(Vec<u32>),
    /// One AS sequence.
    AsPath(Vec<u32>),
    /// Any other.
    Other,
}

/// A path. One whose destination is not an address prefix has no `nlri`.
#[derive(Debug, Clone, PartialEq, Eq)]
pub struct ApiPath {
    /// The prefix.
    pub nlri: Option<IpAddressPrefix>,
    /// Attributes.
    pub pattrs: Vec<Attribute>,
    /// The path is withdrawn.
    pub is_withdraw: bool,
    /// Family.
    pub family: Family,
}

/// A prefix as a value.
pub struct PrefixView {
    pub prefix_len: u32,
    pub prefix: Seq<char>,
}

/// An attribute as a value.
pub enum AttributeView {
    Origin(u32),
    NextHop(Seq<char>),
    MpReach(Family, Seq<Seq<char>>, Seq<PrefixView>),
    Communities(Seq<u32>),
    AsPath(Seq<u32>),
    Other,
}

impl View for IpAddressPrefix {
    type V = PrefixView;

    open spec fn view(&self) -> PrefixView {
        PrefixView { prefix_len: self.prefix_len, prefix: self.prefix@ }
    }
}

/// The values of prefixes.
pub open spec fn prefix_views(v: Seq<IpAddressPrefix>) -> Seq<PrefixView> {
    v.map_values(|p: IpAddressPrefix| p@)
}

impl View for Attribute {
    type V = AttributeView;

    open spec fn view(&self) -> AttributeView {
        match self {
            Attribute::Origin(o) => AttributeView::Origin(*o),
            Attribute::NextHop(h) => AttributeView::NextHop(h@),
            Attribute::MpReach { family, next_hops, nlris } => AttributeView::MpReach(
                *family,
                crate::text::texts(next_hops@),
                prefix_views(nlris@),
            ),
            Attribute::Communities(c) => AttributeView::Communities(c@),
            Attribute::AsPath(a) => AttributeView::AsPath(a@),
            Attribute::Other => AttributeView::Other,
        }
    }
}

/// The values of attributes.
pub open spec fn attribute_views(v: Seq<Attribute>) -> Seq<AttributeView> {
    v.map_values(|a: Attribute| a@)
}

/// The prefix of a path in a message.
pub open spec fn prefix_of(net: IpNet) -> PrefixView {
    PrefixView { prefix_len: net.prefix_len as u32, prefix: net.addr.text() }
}

/// The number of a path's family.
pub open spec fn afi_number(afi: Afi) -> i32 {
    match afi {
        Afi::Ip => AFI_IP,
        Afi::Ip6 => AFI_IP6,
    }
}

/// The attributes that every path has: origin and next hop, the latter with the prefix for IPv6.
pub open spec fn reach_attributes(p: Path) -> Seq<AttributeView> {
    match p.afi {
        Afi::Ip => seq![AttributeView::Origin(0), AttributeView::NextHop(p.next_hop.text())],
        Afi::Ip6 => seq![
            AttributeView::Origin(0),
            AttributeView::MpReach(
                Family { afi: AFI_IP6, safi: SAFI_UNICAST },
                seq![p.next_hop.text()],
                seq![prefix_of(p.prefix)],
            ),
        ],
    }
}

/// What an attribute of a path adds: communities where there are any, an AS sequence where the
/// number is to be repeated at all.
pub open spec fn extra_attribute(a: Attr) -> Seq<AttributeView> {
    match a {
        Attr::Communities(c) => if c@.len() > 0 {
            seq![AttributeView::Communities(c@)]
        } else {
            Seq::empty()
        },
        Attr::AsPathPrepend { asn, repeat } => if repeat > 0 {
            seq![AttributeView::AsPath(Seq::new(repeat as nat, |i: int| asn))]
        } else {
            Seq::empty()
        },
        _ => Seq::empty(),
    }
}

/// Whether a message is that of a path.
pub open spec fn is_message_of(m: ApiPath, p: Path) -> bool {
    &&& m.nlri matches Some(n) && n@ == prefix_of(p.prefix)
    &&& attribute_views(m.pattrs@) == reach_attributes(p) + crate::seqs::flat(
        p.attrs@,
        |a: Attr| extra_attribute(a),
    )
    &&& m.is_withdraw == p.withdrawal
    &&& m.family == (Family { afi: afi_number(p.afi), safi: SAFI_UNICAST })
}

fn prefix_nlri(p: &Path) -> (r: IpAddressPrefix)
    ensures
        r@ == prefix_of(p.prefix),
{
    IpAddressPrefix { prefix_len: p.prefix.prefix_len as u32, prefix: p.prefix.addr.to_text() }
}

fn origin_attr() -> (r: Attribute)
    ensures
        r@ == AttributeView::Origin(0),
{
    Attribute::Origin(0)
}

fn put(v: &mut Vec<Attribute>, a: Attribute)
    ensures
        attribute_views(final(v)@) == attribute_views(old(v)@).push(a@),
{
    let ghost before = v@;
    v.push(a);
    assert(attribute_views(v@) =~= attribute_views(before).push(a@));
}

fn copy_numbers(v: &[u32]) -> (r: Vec<u32>)
    ensures
        r@ == v@,
{
    let mut out: Vec<u32> = Vec::new();
    let mut i: usize = 0;
    while i < v.len()
        invariant
            i <= v@.len(),
            out@ == v@.take(i as int),
        decreases v@.len() - i,
    {
        out.push(v[i]);
        assert(v@.take(i + 1) =~= v@.take(i as int).push(v@[i as int]));
        i = i + 1;
    }
    assert(v@.take(i as int) =~= v@);
    out
}

fn repeat_number(n: u32, times: u8) -> (r: Vec<u32>)
    ensures
        r@ == Seq::new(times as nat, |i: int| n),
{
    let mut out: Vec<u32> = Vec::new();
    let mut i: u8 = 0;
    while i < times
        invariant
            i <= times,
            out@ == Seq::new(i as nat, |k: int| n),
        decreases times - i,
    {
        out.push(n);
        i = i + 1;
        assert(out@ =~= Seq::new(i as nat, |k: int| n));
    }
    out
}

fn add_extra(v: &mut Vec<Attribute>, a: &Attr)
    ensures
        attribute_views(final(v)@) == attribute_views(old(v)@) + extra_attribute(*a),
{
    let ghost before = attribute_views(v@);
    match a {
        Attr::Communities(c) => {
            if c.len() > 0 {
                put(v, Attribute::Communities(copy_numbers(c)));
            }
        },
        Attr::AsPathPrepend { asn, repeat } => {
            if *repeat > 0 {
                put(v, Attribute::AsPath(repeat_number(*asn, *repeat)));
            }
        },
        _ => {},
    }
    assert(attribute_views(v@) =~= before + extra_attribute(*a));
}

/// The message of a path.
pub fn build_path(p: &Path) -> (r: ApiPath)
    ensures
        is_message_of(r, *p),
{
    let mut pattrs: Vec<Attribute> = Vec::new();
    put(&mut pattrs, origin_attr());
    let afi: i32 = match p.afi {
        Afi::Ip => {
            put(&mut pattrs, Attribute::NextHop(p.next_hop.to_text()));
            AFI_IP
        },
        Afi::Ip6 => {
            let next_hops: Vec<String> = vec![p.next_hop.to_text()];
            let nlris: Vec<IpAddressPrefix> = vec![prefix_nlri(p)];
            assert(crate::text::texts(next_hops@) =~= seq![p.next_hop.text()]);
            assert(prefix_views(nlris@) =~= seq![prefix_of(p.prefix)]);
            put(&mut pattrs, Attribute::MpReach { family: family(AFI_IP6), next_hops, nlris });
            AFI_IP6
        },
    };
    let ghost base = reach_attributes(*p);
    let ghost f = |a: Attr| extra_attribute(a);
    let mut i: usize = 0;
    assert(attribute_views(pattrs@) =~= base + crate::seqs::flat(p.attrs@.take(0), f));
    while i < p.attrs.len()
        invariant
            i <= p.attrs@.len(),
            f == (|a: Attr| extra_attribute(a)),
            attribute_views(pattrs@) == base + crate::seqs::flat(p.attrs@.take(i as int), f),
        decreases p.attrs@.len() - i,
    {
        proof {
            crate::seqs::lemma_flat_step(p.attrs@, f, i as int);
        }
        add_extra(&mut pattrs, &p.attrs[i]);
        assert(attribute_views(pattrs@) =~= base + crate::seqs::flat(p.attrs@.take(i + 1), f));
        i = i + 1;
    }
    assert(p.attrs@.take(i as int) =~= p.attrs@);
    ApiPath {
        nlri: Some(prefix_nlri(p)),
        pattrs,
        is_withdraw: p.withdrawal,
        family: family(afi),
    }
}

/// The message that withdraws a path, whatever the path says of itself.
pub fn build_withdrawal(p: &Path) -> (r: ApiPath)
    ensures
        r.is_withdraw,
        is_message_of((ApiPath { is_withdraw: p.withdrawal, ..r }), *p),
{
    let m = build_path(p);
    ApiPath { nlri: m.nlri, pattrs: m.pattrs, is_withdraw: true, family: m.family }
}

/// What is asked of the daemon to learn paths.
#[derive(Debug, Clone, Copy, PartialEq, Eq, Structural)]
pub struct WatchRequest {
    /// Only best paths are reported.
    pub best: bool,
    /// The table as it is comes first, then its changes.
    pub init: bool,
}

/// What is asked of the daemon to learn paths: the best of each prefix, those it knows already
/// included.
pub fn watch_request() -> (r: WatchRequest)
    ensures
        r == (WatchRequest { best: true, init: true }),
{
    WatchRequest { best: true, init: true }
}

/// A path learned from a neighbour.
#[derive(Debug, Clone, Copy, PartialEq, Eq, Structural)]
pub struct PathEvent {
    /// The prefix.
    pub prefix: IpNet,
    /// The next hop.
    pub next_hop: IpAddr,
    /// The path is withdrawn.
    pub withdrawal: bool,
}

/// The first of the texts that is an address.
pub open spec fn first_ip(texts: Seq<Seq<char>>) -> Option<IpAddr>
    decreases texts.len(),
{
    if texts.len() == 0 {
        None
    } else {
        match crate::ip::ip_of(texts[0]) {
            Some(a) => Some(a),
            None => first_ip(texts.skip(1)),
        }
    }
}

/// The next hop that an attribute names, where it names one that can be used.
pub open spec fn own_hop(a: AttributeView) -> Option<IpAddr> {
    match a {
        AttributeView::NextHop(h) => crate::ip::ip_of(h),
        AttributeView::MpReach(_, hops, _) => first_ip(hops),
        _ => None,
    }
}

/// The next hop that attributes name: the last that can be used.
pub open spec fn hop_of(attrs: Seq<AttributeView>) -> Option<IpAddr>
    decreases attrs.len(),
{
    if attrs.len() == 0 {
        None
    } else {
        match own_hop(attrs.last()) {
            Some(a) => Some(a),
            None => hop_of(attrs.drop_last()),
        }
    }
}

/// There is no next hop exactly where no attribute names one that can be used.
pub proof fn lemma_no_hop(attrs: Seq<AttributeView>)
    ensures
        hop_of(attrs) is None <==> forall|i: int|
            0 <= i < attrs.len() ==> own_hop(#[trigger] attrs[i]) is None,
    decreases attrs.len(),
{
    if attrs.len() > 0 {
        let front = attrs.drop_last();
        lemma_no_hop(front);
        assert forall|i: int| 0 <= i < front.len() implies front[i] == #[trigger] attrs[i] by {}
        assert(attrs.last() == attrs[attrs.len() - 1]);
    }
}

fn find_ip(texts: &[String]) -> (r: Option<IpAddr>)
    ensures
        r == first_ip(crate::text::texts(texts@)),
{
    let ghost all = crate::text::texts(texts@);
    let mut i: usize = 0;
    assert(all.skip(0) =~= all);
    while i < texts.len()
        invariant
            i <= texts@.len(),
            all == crate::text::texts(texts@),
            first_ip(all) == first_ip(all.skip(i as int)),
        decreases texts@.len() - i,
    {
        assert(all.skip(i as int)[0] == texts@[i as int]@);
        if let Some(a) = IpAddr::parse(texts[i].as_str()) {
            return Some(a);
        }
        assert(all.skip(i as int).skip(1) =~= all.skip(i + 1));
        i = i + 1;
    }
    None
}

/// The text of a prefix.
pub open spec fn prefix_text(p: PrefixView) -> Seq<char> {
    p.prefix + "/"@ + crate::text::dec(p.prefix_len as nat)
}

/// What a message says of a learned path: nothing without a prefix that can be read or a next
/// hop.
pub open spec fn event_of(
    nlri: Option<PrefixView>,
    attrs: Seq<AttributeView>,
    is_withdraw: bool,
) -> Option<PathEvent> {
    match nlri {
        None => None,
        Some(p) => match (crate::net::net_of(prefix_text(p)), hop_of(attrs)) {
            (Some(prefix), Some(next_hop)) => Some(
                PathEvent { prefix, next_hop, withdrawal: is_withdraw },
            ),
            _ => None,
        },
    }
}

/// Attributes that name no next hop do not change the one named before them.
proof fn lemma_hop_kept(base: Seq<AttributeView>, attrs: Seq<Attr>)
    ensures
        hop_of(base + crate::seqs::flat(attrs, |a: Attr| extra_attribute(a))) == hop_of(base),
    decreases attrs.len(),
{
    let f = |a: Attr| extra_attribute(a);
    if attrs.len() == 0 {
        assert(base + crate::seqs::flat(attrs, f) =~= base);
    } else {
        lemma_hop_kept(base, attrs.drop_last());
        let front = base + crate::seqs::flat(attrs.drop_last(), f);
        let whole = base + crate::seqs::flat(attrs, f);
        let e = extra_attribute(attrs.last());
        assert(whole =~= front + e);
        if e.len() > 0 {
            assert(whole.drop_last() =~= front);
            assert(whole.last() == e[0]);
        } else {
            assert(whole =~= front);
        }
    }
}

/// The message of a path names the path's next hop.
proof fn lemma_hop_of_message(m: ApiPath, p: Path)
    requires
        is_message_of(m, p),
    ensures
        hop_of(attribute_views(m.pattrs@)) == Some(p.next_hop),
{
    lemma_hop_kept(reach_attributes(p), p.attrs@);
    crate::ip_laws::lemma_text_reads_back(p.next_hop);
    let r = reach_attributes(p);
    assert(r.last() == r[1]);
}

/// What the daemon reports of a path, or nothing where it has no prefix or no next hop that can
/// be used. The message of a path is read back as that path's prefix, next hop and direction.
pub fn parse_path_event(m: &ApiPath) -> (r: Option<PathEvent>)
    ensures
        r == event_of(
            match m.nlri {
                Some(n) => Some(n@),
                None => None,
            },
            attribute_views(m.pattrs@),
            m.is_withdraw,
        ),
        forall|p: Path| #[trigger]
            is_message_of(*m, p) && p.prefix.wf() ==> r == Some(
                (PathEvent {
                    prefix: p.prefix,
                    next_hop: p.next_hop,
                    withdrawal: p.withdrawal,
                }),
            ),
{
    proof {
        assert forall|p: Path| #[trigger] is_message_of(*m, p) implies hop_of(
            attribute_views(m.pattrs@),
        ) == Some(p.next_hop) by {
            lemma_hop_of_message(*m, p);
        }
    }
    let pfx = match &m.nlri {
        Some(p) => p,
        None => {
            return None;
        },
    };
    let text = cat3(pfx.prefix.as_str(), "/", dec_text(pfx.prefix_len as u64).as_str());
    let net = parse_net(text.as_str());
    proof {
        assert forall|p: Path| #[trigger]
            is_message_of(*m, p) && p.prefix.wf() implies net == Some(p.prefix) by {
            assert(text@ == p.prefix.text());
        }
    }
    let prefix = match net {
        Some(n) => n,
        None => {
            return None;
        },
    };
    let ghost all = attribute_views(m.pattrs@);
    let mut next_hop: Option<IpAddr> = None;
    let mut i: usize = 0;
    while i < m.pattrs.len()
        invariant
            i <= m.pattrs@.len(),
            all == attribute_views(m.pattrs@),
            next_hop == hop_of(all.take(i as int)),
        decreases m.pattrs@.len() - i,
    {
        let ghost now = all.take(i + 1);
        assert(now.drop_last() =~= all.take(i as int));
        assert(now.last() == m.pattrs@[i as int]@);
        let own = match &m.pattrs[i] {
            Attribute::NextHop(h) => IpAddr::parse(h.as_str()),
            Attribute::MpReach { next_hops, .. } => find_ip(next_hops),
            _ => None,
        };
        if own.is_some() {
            next_hop = own;
        }
        i = i + 1;
    }
    assert(all.take(i as int) =~= all);
    match next_hop {
        Some(h) => Some(PathEvent { prefix, next_hop: h, withdrawal: m.is_withdraw }),
        None => None,
    }
}

/// What messages say of learned paths, in order; those that say nothing are left out.
pub open spec fn events_of(paths: Seq<ApiPath>) -> Seq<PathEvent> {
    crate::seqs::flat(
        paths,
        |m: ApiPath|
            match message_event(m) {
                Some(e) => seq![e],
                None => Seq::empty(),
            },
    )
}

/// What a message says of a learned path.
pub open spec fn message_event(m: ApiPath) -> Option<PathEvent> {
    event_of(
        match m.nlri {
            Some(n) => Some(n@),
            None => None,
        },
        attribute_views(m.pattrs@),
        m.is_withdraw,
    )
}

/// What the daemon reports of a table of paths.
pub fn path_events(paths: &[ApiPath]) -> (r: Vec<PathEvent>)
    ensures
        r@ == events_of(paths@),
{
    let ghost f = |m: ApiPath|
        match message_event(m) {
            Some(e) => seq![e],
            None => Seq::empty(),
        };
    let mut out: Vec<PathEvent> = Vec::new();
    let mut i: usize = 0;
    assert(out@ =~= crate::seqs::flat(paths@.take(0), f));
    while i < paths.len()
        invariant
            i <= paths@.len(),
            f == (|m: ApiPath|
                match message_event(m) {
                    Some(e) => seq![e],
                    None => Seq::empty(),
                }),
            out@ == crate::seqs::flat(paths@.take(i as int), f),
        decreases paths@.len() - i,
    {
        proof {
            crate::seqs::lemma_flat_step(paths@, f, i as int);
        }
        match parse_path_event(&paths[i]) {
            Some(e) => {
                out.push(e);
            },
            None => {},
        }
        assert(out@ =~= crate::seqs::flat(paths@.take(i + 1), f));
        i = i + 1;
    }
    assert(paths@.take(i as int) =~= paths@);
    out
}

/// A family offered to a neighbour.
#[derive(Debug, Clone, Copy, PartialEq, Eq, Structural)]
pub struct AfiSafi {
    /// The family.
    pub family: Family,
    /// It is offered.
    pub enabled: bool,
    /// Graceful restart covers it.
    pub mp_graceful_restart: bool,
}

/// Both unicast families, with graceful restart where it is asked for.
pub fn dual_afi_safis(gr: bool) -> (r: Vec<AfiSafi>)
    ensures
        r@ == seq![
            AfiSafi {
                family: Family { afi: AFI_IP, safi: SAFI_UNICAST },
                enabled: true,
                mp_graceful_restart: gr,
            },
            AfiSafi {
                family: Family { afi: AFI_IP6, safi: SAFI_UNICAST },
                enabled: true,
                mp_graceful_restart: gr,
            },
        ],
{
    let r: Vec<AfiSafi> = vec![
        AfiSafi { family: family(AFI_IP), enabled: true, mp_graceful_restart: gr },
        AfiSafi { family: family(AFI_IP6), enabled: true, mp_graceful_restart: gr },
    ];
    assert(r@ =~= seq![
        AfiSafi {
            family: Family { afi: AFI_IP, safi: SAFI_UNICAST },
            enabled: true,
            mp_graceful_restart: gr,
        },
        AfiSafi {
            family: Family { afi: AFI_IP6, safi: SAFI_UNICAST },
            enabled: true,
            mp_graceful_restart: gr,
        },
    ]);
    r
}

/// A neighbour as the daemon takes it.
#[derive(Debug, Clone)]
pub struct PeerMessage {
    /// Its address.
    pub neighbor_address: String,
    /// Its AS number.
    pub peer_asn: u32,
    /// Password, empty for none.
    pub auth_password: String,
    /// Own address of the session, empty for any.
    pub local_address: String,
    /// Its port.
    pub remote_port: u32,
    /// Hops it may be away, where it need not be adjacent.
    pub multihop_ttl: Option<u32>,
    /// Cluster id, where it is a client of this route reflector.
    pub route_reflector_cluster_id: Option<String>,
    /// Restart and deferral time, where graceful restart is on.
    pub graceful_restart: Option<(u32, u32)>,
    /// Families offered.
    pub afi_safis: Vec<AfiSafi>,
}

/// The message of a neighbour.
pub fn peer_message(peer: &PeerConfig) -> (r: PeerMessage)
    ensures
        r.neighbor_address@ == peer.neighbor.text(),
        r.peer_asn == peer.peer_asn,
        r.auth_password@ == crate::objects::text_or_empty(peer.password),
        r.local_address@ == match peer.local_address {
            Some(a) => a.text(),
            None => Seq::empty(),
        },
        r.remote_port == match peer.port {
            Some(p) => p as u32,
            None => DEFAULT_BGP_PORT,
        },
        r.multihop_ttl == match peer.multihop_ttl {
            Some(t) => Some(t as u32),
            None => None,
        },
        match r.route_reflector_cluster_id {
            Some(c) => peer.rr_client && c@ == crate::objects::text_or_empty(peer.rr_cluster_id),
            None => !peer.rr_client,
        },
        r.graceful_restart == match peer.graceful_restart {
            Some(g) => Some((g.restart_time_secs, g.deferral_time_secs)),
            None => None,
        },
        r.afi_safis@.len() == 2,
        forall|i: int| #![trigger r.afi_safis@[i]]
            0 <= i < 2 ==> r.afi_safis@[i].enabled && r.afi_safis@[i].mp_graceful_restart == (
            peer.graceful_restart is Some) && r.afi_safis@[i].family.safi == SAFI_UNICAST
                && r.afi_safis@[i].family.afi == i + 1,
{
    PeerMessage {
        neighbor_address: peer.neighbor.to_text(),
        peer_asn: peer.peer_asn,
        auth_password: own_or_empty(&peer.password),
        local_address: match peer.local_address {
            Some(a) => a.to_text(),
            None => String::new(),
        },
        remote_port: match peer.port {
            Some(p) => p as u32,
            None => DEFAULT_BGP_PORT,
        },
        multihop_ttl: match peer.multihop_ttl {
            Some(t) => Some(t as u32),
            None => None,
        },
        route_reflector_cluster_id: if peer.rr_client {
            Some(own_or_empty(&peer.rr_cluster_id))
        } else {
            None
        },
        graceful_restart: match peer.graceful_restart {
            Some(g) => Some((g.restart_time_secs, g.deferral_time_secs)),
            None => None,
        },
        afi_safis: dual_afi_safis(peer.graceful_restart.is_some()),
    }
}

/// The speaker's own configuration as the daemon takes it.
#[derive(Debug, Clone)]
pub struct GlobalMessage {
    /// Own AS number.
    pub asn: u32,
    /// Router id, empty for none.
    pub router_id: String,
    /// Port to listen on.
    pub listen_port: i32,
    /// Addresses to listen on.
    pub listen_addresses: Vec<String>,
}

/// The texts of addresses.
pub open spec fn ip_texts(ips: Seq<IpAddr>) -> Seq<Seq<char>> {
    ips.map_values(|a: IpAddr| a.text())
}

/// The message of the speaker's own configuration. The port is taken modulo two to the power 32
/// as a signed number.
pub fn global_message(global: &GlobalConfig) -> (r: GlobalMessage)
    ensures
        r.asn == global.asn,
        r.router_id@ == crate::objects::text_or_empty(global.router_id),
        r.listen_port == global.listen_port as i32,
        crate::text::texts(r.listen_addresses@) == ip_texts(global.listen_addresses@),
{
    let ghost all = ip_texts(global.listen_addresses@);
    let mut addresses: Vec<String> = Vec::new();
    let mut i: usize = 0;
    assert(crate::text::texts(addresses@) =~= all.take(0));
    while i < global.listen_addresses.len()
        invariant
            i <= global.listen_addresses@.len(),
            all == ip_texts(global.listen_addresses@),
            crate::text::texts(addresses@) == all.take(i as int),
        decreases global.listen_addresses@.len() - i,
    {
        let ghost before = addresses@;
        addresses.push(global.listen_addresses[i].to_text());
        proof {
            assert(addresses@ =~= before.push(addresses@.last()));
            crate::text::lemma_texts_push(before, addresses@.last());
            assert(all.take(i + 1) =~= all.take(i as int).push(all[i as int]));
        }
        i = i + 1;
    }
    assert(all.take(i as int) =~= all);
    GlobalMessage {
        asn: global.asn,
        router_id: own_or_empty(&global.router_id),
        listen_port: global.listen_port as i32,
        listen_addresses: addresses,
    }
}

} // verus!
