//! Laws of the messages that paths travel in, stated on the fields of the messages.

use vstd::prelude::*;

use crate::bgp::grpc::{
    attribute_views, events_of, extra_attribute, first_ip, hop_of, is_message_of, message_event,
    own_hop, prefix_views, reach_attributes, ApiPath, Attribute, PathEvent,
};
use crate::bgp::path::{afi_of, base_attrs, Afi, Attr, Path};
use crate::ip::IpAddr;
use crate::net::IpNet;

verus! {

/// A path is of the family of its prefix; its attributes are its origin, an interior protocol,
/// and its next hop, with the prefix for IPv6.
pub proof fn lemma_attributes_by_family(prefix: IpNet, next_hop: IpAddr)
    ensures
        prefix.addr is V4 ==> afi_of(prefix) == Afi::Ip && base_attrs(prefix, next_hop) == seq![
            Attr::Origin(0),
            Attr::NextHop(next_hop),
        ],
        prefix.addr is V6 ==> afi_of(prefix) == Afi::Ip6 && base_attrs(prefix, next_hop) == seq![
            Attr::Origin(0),
            Attr::MpReachNlri { next_hop, nlri: prefix },
        ],
{
}

/// The message of a path: its prefix and length, whether it is withdrawn, its family in unicast,
/// its origin, and its next hop, for IPv6 together with the prefix.
pub proof fn lemma_message_by_fields(m: ApiPath, p: Path)
    requires
        is_message_of(m, p),
    ensures
        m.nlri is Some,
        m.nlri->0.prefix_len == p.prefix.prefix_len,
        m.nlri->0.prefix@ == p.prefix.addr.text(),
        m.is_withdraw == p.withdrawal,
        m.family.safi == 1,
        m.family.afi == (if p.afi == Afi::Ip {
            1int
        } else {
            2
        }),
        m.pattrs@.len() >= 2,
        m.pattrs@[0] == Attribute::Origin(0),
        p.afi == Afi::Ip ==> (m.pattrs@[1] matches Attribute::NextHop(h) && h@
            == p.next_hop.text()),
        p.afi == Afi::Ip6 ==> (m.pattrs@[1] matches Attribute::MpReach { family, next_hops, nlris }
            && family.afi == 2 && family.safi == 1 && next_hops@.len() == 1 && next_hops@[0]@
            == p.next_hop.text() && nlris@.len() == 1 && nlris@[0].prefix@
            == p.prefix.addr.text() && nlris@[0].prefix_len == p.prefix.prefix_len),
{
    let views = attribute_views(m.pattrs@);
    assert(views.len() == m.pattrs@.len());
    let base = reach_attributes(p);
    assert(views[0] == base[0]);
    assert(views[1] == base[1]);
    assert(views[0] == m.pattrs@[0]@);
    assert(views[1] == m.pattrs@[1]@);
    if let Attribute::MpReach { family, next_hops, nlris } = m.pattrs@[1] {
        assert(crate::text::texts(next_hops@).len() == next_hops@.len());
        assert(crate::text::texts(next_hops@)[0] == next_hops@[0]@);
        assert(prefix_views(nlris@).len() == nlris@.len());
        assert(prefix_views(nlris@)[0] == nlris@[0]@);
    }
}

/// Whether an attribute of a message is that of an attribute of a path: the same communities, or
/// an AS path that is the number as often as it is to be repeated.
pub open spec fn carries(x: Attribute, a: Attr) -> bool {
    match a {
        Attr::Communities(c) => x matches Attribute::Communities(d) && d@ == c@,
        Attr::AsPathPrepend { asn, repeat } => x matches Attribute::AsPath(v) && v@.len() == repeat
            && forall|i: int| 0 <= i < v@.len() ==> #[trigger] v@[i] == asn,
        _ => false,
    }
}

/// Whether an attribute of a path has one of its own in the message: communities that are not
/// empty, and a number that is repeated at all.
pub open spec fn is_carried(a: Attr) -> bool {
    match a {
        Attr::Communities(c) => c@.len() > 0,
        Attr::AsPathPrepend { repeat, .. } => repeat > 0,
        _ => false,
    }
}

/// Every attribute of a path that has one of its own in the message is carried by it, and behind
/// the first two there is no other.
pub proof fn lemma_attributes_are_carried(m: ApiPath, p: Path, i: int)
    requires
        is_message_of(m, p),
    ensures
        0 <= i < p.attrs@.len() && is_carried(p.attrs@[i]) ==> exists|k: int|
            2 <= k < m.pattrs@.len() && carries(#[trigger] m.pattrs@[k], p.attrs@[i]),
        2 <= i < m.pattrs@.len() ==> exists|k: int|
            0 <= k < p.attrs@.len() && is_carried(#[trigger] p.attrs@[k]) && carries(
                m.pattrs@[i],
                p.attrs@[k],
            ),
{
    let f = |a: Attr| extra_attribute(a);
    let views = attribute_views(m.pattrs@);
    let base = reach_attributes(p);
    let rest = crate::seqs::flat(p.attrs@, f);
    assert(views.len() == m.pattrs@.len());
    if 0 <= i < p.attrs@.len() && is_carried(p.attrs@[i]) {
        let v = extra_attribute(p.attrs@[i])[0];
        assert(f(p.attrs@[i])[0] == v);
        crate::seqs::lemma_flat_has(p.attrs@, f, i, v);
        let j = choose|j: int| 0 <= j < rest.len() && rest[j] == v;
        assert(views[2 + j] == v);
        assert(m.pattrs@[2 + j]@ == v);
        lemma_carries(m.pattrs@[2 + j], p.attrs@[i]);
    }
    if 2 <= i < m.pattrs@.len() {
        let v = views[i];
        assert(v == m.pattrs@[i]@);
        assert(rest[i - 2] == v);
        assert(rest.contains(v));
        let k = crate::seqs::lemma_flat_from(p.attrs@, f, v);
        let own = extra_attribute(p.attrs@[k]);
        let j = choose|j: int| 0 <= j < own.len() && own[j] == v;
        assert(own[0] == v);
        lemma_carries(m.pattrs@[i], p.attrs@[k]);
        assert(is_carried(p.attrs@[k]));
    }
}

proof fn lemma_carries(x: Attribute, a: Attr)
    requires
        is_carried(a),
        x@ == extra_attribute(a)[0],
    ensures
        carries(x, a),
{
}

/// Whether an attribute of a message names the next hop: the one of its text, or the first of
/// its texts that is an address.
pub open spec fn names_hop(a: Attribute, hop: IpAddr) -> bool {
    match a {
        Attribute::NextHop(h) => crate::ip::ip_of(h@) == Some(hop),
        Attribute::MpReach { next_hops, .. } => exists|k: int|
            0 <= k < next_hops@.len() && crate::ip::ip_of((#[trigger] next_hops@[k])@) == Some(hop)
                && forall|j: int|
                0 <= j < k ==> crate::ip::ip_of((#[trigger] next_hops@[j])@) is None,
        _ => false,
    }
}

proof fn lemma_first_ip(texts: Seq<Seq<char>>)
    ensures
        first_ip(texts) matches Some(a) ==> exists|k: int|
            0 <= k < texts.len() && crate::ip::ip_of(#[trigger] texts[k]) == Some(a) && forall|
                j: int,
            |
                0 <= j < k ==> crate::ip::ip_of(#[trigger] texts[j]) is None,
        first_ip(texts) is None ==> forall|k: int|
            0 <= k < texts.len() ==> crate::ip::ip_of(#[trigger] texts[k]) is None,
    decreases texts.len(),
{
    if texts.len() > 0 && crate::ip::ip_of(texts[0]) is None {
        let rest = texts.skip(1);
        lemma_first_ip(rest);
        assert forall|k: int| 0 <= k < rest.len() implies #[trigger] rest[k] == texts[k + 1] by {}
        if first_ip(rest) is Some {
            let a = first_ip(rest)->0;
            let k = choose|k: int|
                0 <= k < rest.len() && crate::ip::ip_of(#[trigger] rest[k]) == Some(a) && forall|
                    j: int,
                |
                    0 <= j < k ==> crate::ip::ip_of(#[trigger] rest[j]) is None;
            assert(crate::ip::ip_of(texts[k + 1]) == Some(a));
            assert forall|j: int| 0 <= j < k + 1 implies crate::ip::ip_of(
                #[trigger] texts[j],
            ) is None by {
                if j > 0 {
                    assert(rest[j - 1] == texts[j]);
                }
            }
        } else {
            assert forall|k: int| 0 <= k < texts.len() implies crate::ip::ip_of(
                #[trigger] texts[k],
            ) is None by {
                if k > 0 {
                    assert(rest[k - 1] == texts[k]);
                }
            }
        }
    }
}

proof fn lemma_own_hop(a: Attribute, hop: IpAddr)
    ensures
        own_hop(a@) == Some(hop) <==> names_hop(a, hop),
{
    if let Attribute::MpReach { family, next_hops, nlris } = a {
        let texts = crate::text::texts(next_hops@);
        assert(texts.len() == next_hops@.len());
        assert forall|k: int| 0 <= k < texts.len() implies #[trigger] texts[k]
            == next_hops@[k]@ by {}
        lemma_first_ip(texts);
        if first_ip(texts) == Some(hop) {
            let k = choose|k: int|
                0 <= k < texts.len() && crate::ip::ip_of(#[trigger] texts[k]) == Some(hop)
                    && forall|j: int|
                    0 <= j < k ==> crate::ip::ip_of(#[trigger] texts[j]) is None;
            assert forall|j: int| 0 <= j < k implies crate::ip::ip_of(
                (#[trigger] next_hops@[j])@,
            ) is None by {
                assert(texts[j] == next_hops@[j]@);
            }
            assert(crate::ip::ip_of(next_hops@[k]@) == Some(hop));
        }
        if names_hop(a, hop) {
            let k = choose|k: int|
                0 <= k < next_hops@.len() && crate::ip::ip_of((#[trigger] next_hops@[k])@)
                    == Some(hop) && forall|j: int|
                    0 <= j < k ==> crate::ip::ip_of((#[trigger] next_hops@[j])@) is None;
            assert(crate::ip::ip_of(texts[k]) == Some(hop));
            let other = first_ip(texts)->0;
            let w = choose|w: int|
                0 <= w < texts.len() && crate::ip::ip_of(#[trigger] texts[w]) == Some(other)
                    && forall|j: int|
                    0 <= j < w ==> crate::ip::ip_of(#[trigger] texts[j]) is None;
            if w < k {
                assert(crate::ip::ip_of(next_hops@[w]@) is None);
            }
            if k < w {
                assert(crate::ip::ip_of(texts[k]) is None);
            }
        }
    }
}

proof fn lemma_hop(attrs: Seq<Attribute>)
    ensures
        hop_of(attribute_views(attrs)) matches Some(hop) ==> exists|i: int|
            0 <= i < attrs.len() && names_hop(#[trigger] attrs[i], hop) && forall|
                j: int,
                other: IpAddr,
            |
                i < j < attrs.len() ==> !(#[trigger] names_hop(attrs[j], other)),
        hop_of(attribute_views(attrs)) is None ==> forall|j: int, other: IpAddr|
            0 <= j < attrs.len() ==> !(#[trigger] names_hop(attrs[j], other)),
    decreases attrs.len(),
{
    if attrs.len() > 0 {
        let front = attrs.drop_last();
        let n = attrs.len() - 1;
        let views = attribute_views(attrs);
        assert(views.drop_last() =~= attribute_views(front));
        assert(views.last() == attrs[n]@);
        lemma_hop(front);
        assert forall|k: int| 0 <= k < front.len() implies #[trigger] front[k] == attrs[k] by {}
        if own_hop(attrs[n]@) is Some {
            lemma_own_hop(attrs[n], own_hop(attrs[n]@)->0);
            assert(names_hop(attrs[n], own_hop(attrs[n]@)->0));
        } else {
            assert forall|other: IpAddr| !(#[trigger] names_hop(attrs[n], other)) by {
                lemma_own_hop(attrs[n], other);
            }
            if hop_of(attribute_views(front)) is Some {
                let hop = hop_of(attribute_views(front))->0;
                let i = choose|i: int|
                    0 <= i < front.len() && names_hop(#[trigger] front[i], hop) && forall|
                        j: int,
                        other: IpAddr,
                    |
                        i < j < front.len() ==> !(#[trigger] names_hop(front[j], other));
                assert(names_hop(attrs[i], hop));
                assert forall|j: int, other: IpAddr| i < j < attrs.len() implies !(
                #[trigger] names_hop(attrs[j], other)) by {
                    if j < n {
                        assert(front[j] == attrs[j]);
                        assert(!names_hop(front[j], other));
                    }
                }
            } else {
                assert forall|j: int, other: IpAddr| 0 <= j < attrs.len() implies !(
                #[trigger] names_hop(attrs[j], other)) by {
                    if j < n {
                        assert(front[j] == attrs[j]);
                        assert(!names_hop(front[j], other));
                    }
                }
            }
        }
    }
}

/// What a message says of a learned path: the network of its prefix and length, the next hop that
/// the last attribute names that names one, and whether it is withdrawn.
pub proof fn lemma_event_by_fields(m: ApiPath, e: PathEvent)
    requires
        message_event(m) == Some(e),
    ensures
        m.nlri is Some,
        crate::net::net_of(
            m.nlri->0.prefix@ + "/"@ + crate::text::dec(m.nlri->0.prefix_len as nat),
        ) == Some(e.prefix),
        e.withdrawal == m.is_withdraw,
        exists|i: int|
            0 <= i < m.pattrs@.len() && names_hop(#[trigger] m.pattrs@[i], e.next_hop) && forall|
                j: int,
                other: IpAddr,
            |
                i < j < m.pattrs@.len() ==> !(#[trigger] names_hop(m.pattrs@[j], other)),
{
    lemma_hop(m.pattrs@);
}

/// A message says something of a learned path wherever its prefix and length spell a network and
/// some attribute names a next hop.
pub proof fn lemma_event_where_readable(m: ApiPath, i: int, hop: IpAddr)
    requires
        m.nlri is Some,
        crate::net::net_of(
            m.nlri->0.prefix@ + "/"@ + crate::text::dec(m.nlri->0.prefix_len as nat),
        ) is Some,
        0 <= i < m.pattrs@.len(),
        names_hop(m.pattrs@[i], hop),
    ensures
        message_event(m) is Some,
{
    lemma_hop(m.pattrs@);
}

/// Messages are read in their order, one event for each that says something.
pub proof fn lemma_events_add_up(a: Seq<ApiPath>, b: Seq<ApiPath>, m: ApiPath)
    ensures
        events_of(Seq::empty()).len() == 0,
        message_event(m) matches Some(e) ==> events_of(seq![m]) == seq![e],
        message_event(m) is None ==> events_of(seq![m]).len() == 0,
        events_of(a + b) == events_of(a) + events_of(b),
{
    let f = |m: ApiPath|
        match message_event(m) {
            Some(e) => seq![e],
            None => Seq::empty(),
        };
    crate::seqs::lemma_flat_parts(a, b, m, f);
}

/// The texts of addresses, one for each.
pub proof fn lemma_address_texts(ips: Seq<IpAddr>, i: int)
    requires
        0 <= i < ips.len(),
    ensures
        crate::bgp::grpc::ip_texts(ips).len() == ips.len(),
        crate::bgp::grpc::ip_texts(ips)[i] == ips[i].text(),
{
}

} // verus!
