//! The peers of a rule as entries of address sets: pod addresses in one list, networks and their
//! exceptions in another, both of one family.

use vstd::prelude::*;

use crate::common::ipfamily::IpFamily;
use crate::ip::IpAddr;
use crate::net::IpNet;
use crate::netpol::model::{selector_matches, LabelSelector, Namespace, Peer, Pod};
use crate::order::insert_sorted;
use crate::text::{cat2, same};

verus! {

/// The entries that the peers of a rule come to in one family.
#[derive(Debug)]
pub struct ResolvedPeers {
    /// Pod addresses, ascending, none twice.
    pub ip_entries: Vec<String>,
    /// Networks, each followed by its exceptions.
    pub net_entries: Vec<String>,
    /// There were no peers, so every source matches.
    pub match_all: bool,
}

/// The texts of the addresses of one family, in order.
pub open spec fn family_texts(ips: Seq<IpAddr>, family: IpFamily) -> Seq<Seq<char>> {
    crate::seqs::flat(
        ips,
        |ip: IpAddr|
            if crate::common::ipfamily::family_of(ip) == family {
                seq![ip.text()]
            } else {
                Seq::empty()
            },
    )
}

/// The texts of the addresses of one family, in order.
pub fn family_ips(ips: &[IpAddr], family: IpFamily) -> (r: Vec<String>)
    ensures
        crate::text::texts(r@) == family_texts(ips@, family),
{
    let ghost f = |ip: IpAddr|
        if crate::common::ipfamily::family_of(ip) == family {
            seq![ip.text()]
        } else {
            Seq::empty()
        };
    let mut out: Vec<String> = Vec::new();
    let mut i: usize = 0;
    assert(crate::text::texts(out@) =~= crate::seqs::flat(ips@.take(0), f));
    while i < ips.len()
        invariant
            i <= ips.len(),
            crate::text::texts(out@) == crate::seqs::flat(ips@.take(i as int), f),
            forall|ip: IpAddr| #[trigger]
                f(ip) == (if crate::common::ipfamily::family_of(ip) == family {
                    seq![ip.text()]
                } else {
                    Seq::empty()
                }),
        decreases ips.len() - i,
    {
        proof {
            crate::seqs::lemma_flat_step(ips@, f, i as int);
        }
        let ghost before = out@;
        if IpFamily::of_addr(&ips[i]) == family {
            out.push(ips[i].to_text());
            proof {
                crate::text::lemma_texts_push(before, out@.last());
                assert(out@ =~= before.push(out@.last()));
            }
        }
        assert(crate::text::texts(out@) =~= crate::seqs::flat(ips@.take(i + 1), f));
        i = i + 1;
    }
    assert(ips@.take(ips@.len() as int) =~= ips@);
    out
}

/// Whether a namespace is admitted: the policy's own where there is no selector, otherwise one
/// that is known and whose labels the selector selects.
pub open spec fn admits_namespace(
    selector: Option<LabelSelector>,
    namespaces: Seq<Namespace>,
    policy_ns: Seq<char>,
    ns: Seq<char>,
) -> bool {
    match selector {
        None => ns == policy_ns,
        Some(sel) => exists|i: int|
            0 <= i < namespaces.len() && (#[trigger] namespaces[i]).name@ == ns && sel.selects(
                namespaces[i].labels@,
            ),
    }
}

/// Whether the peer admits the pod.
pub open spec fn admits_pod(
    peer: Peer,
    pod: Pod,
    namespaces: Seq<Namespace>,
    policy_ns: Seq<char>,
) -> bool {
    match peer {
        Peer::Selector { namespace_selector, pod_selector } => {
            &&& !pod.host_network
            &&& admits_namespace(namespace_selector, namespaces, policy_ns, pod.namespace@)
            &&& pod_selector matches Some(s) ==> s.selects(pod.labels@)
        },
        Peer::IpBlock { .. } => false,
    }
}

/// The addresses of the pods that a peer admits.
pub open spec fn peer_ips(
    peer: Peer,
    pods: Seq<Pod>,
    namespaces: Seq<Namespace>,
    policy_ns: Seq<char>,
    family: IpFamily,
) -> Seq<Seq<char>> {
    crate::seqs::flat(
        pods,
        |p: Pod|
            if admits_pod(peer, p, namespaces, policy_ns) {
                family_texts(p.ips@, family)
            } else {
                Seq::empty()
            },
    )
}

/// The addresses of the pods that any of the peers admits.
pub open spec fn peers_ips(
    peers: Seq<Peer>,
    pods: Seq<Pod>,
    namespaces: Seq<Namespace>,
    policy_ns: Seq<char>,
    family: IpFamily,
) -> Seq<Seq<char>> {
    crate::seqs::flat(peers, |p: Peer| peer_ips(p, pods, namespaces, policy_ns, family))
}

/// The ascending list of the elements of a set of texts.
pub open spec fn sorted(s: Set<Seq<char>>) -> Seq<Seq<char>> {
    choose|v: Seq<Seq<char>>| crate::order::ascending(v) && v.to_set() == s
}

/// An ascending list is the sorted list of its elements.
pub proof fn lemma_sorted(v: Seq<Seq<char>>)
    requires
        crate::order::ascending(v),
    ensures
        sorted(v.to_set()) == v,
{
    let w = sorted(v.to_set());
    assert(crate::order::ascending(v) && v.to_set() == v.to_set());
    assert(crate::order::ascending(w) && w.to_set() == v.to_set());
    crate::order::lemma_ascending_unique(w, v);
}

/// The texts of the exceptions of one family, in order.
pub open spec fn except_texts(except: Seq<IpNet>, family: IpFamily) -> Seq<Seq<char>> {
    crate::seqs::flat(
        except,
        |n: IpNet|
            if crate::common::ipfamily::family_of(n.addr) == family {
                seq![n.text() + " nomatch"@]
            } else {
                Seq::empty()
            },
    )
}

/// The entries of a network peer in one family: the network, where it is of the family, then
/// those of its exceptions that are.
pub open spec fn peer_nets(peer: Peer, family: IpFamily) -> Seq<Seq<char>> {
    match peer {
        Peer::Selector { .. } => Seq::empty(),
        Peer::IpBlock { cidr, except } => if crate::common::ipfamily::family_of(cidr.addr)
            == family {
            seq![cidr.text()] + except_texts(except@, family)
        } else {
            Seq::empty()
        },
    }
}

/// The entries of all network peers, in order.
pub open spec fn peers_nets(peers: Seq<Peer>, family: IpFamily) -> Seq<Seq<char>> {
    crate::seqs::flat(peers, |p: Peer| peer_nets(p, family))
}

fn matched_namespace(
    selector: &Option<LabelSelector>,
    namespaces: &[Namespace],
    policy_ns: &str,
    ns: &str,
) -> (r: bool)
    ensures
        r == admits_namespace(*selector, namespaces@, policy_ns@, ns@),
{
    match selector {
        None => same(ns, policy_ns),
        Some(sel) => {
            let mut i: usize = 0;
            while i < namespaces.len()
                invariant
                    i <= namespaces.len(),
                    *selector == Some(*sel),
                    forall|j: int|
                        0 <= j < i ==> !((#[trigger] namespaces@[j]).name@ == ns@ && sel.selects(
                            namespaces@[j].labels@,
                        )),
                decreases namespaces.len() - i,
            {
                if same(namespaces[i].name.as_str(), ns) && selector_matches(
                    sel,
                    &namespaces[i].labels,
                ) {
                    assert(namespaces@[i as int].name@ == ns@);
                    return true;
                }
                i = i + 1;
            }
            false
        },
    }
}

fn pod_admitted(peer: &Peer, pod: &Pod, namespaces: &[Namespace], policy_ns: &str) -> (r: bool)
    ensures
        r == admits_pod(*peer, *pod, namespaces@, policy_ns@),
{
    match peer {
        Peer::Selector { namespace_selector, pod_selector } => {
            if pod.host_network || !matched_namespace(
                namespace_selector,
                namespaces,
                policy_ns,
                pod.namespace.as_str(),
            ) {
                return false;
            }
            match pod_selector {
                None => true,
                Some(s) => selector_matches(s, &pod.labels),
            }
        },
        Peer::IpBlock { .. } => false,
    }
}

/// Adding to the end of a list adds to its set.
proof fn lemma_set_push(v: Seq<Seq<char>>, x: Seq<char>)
    ensures
        v.push(x).to_set() == v.to_set().insert(x),
{
    assert forall|t: Seq<char>| v.push(x).to_set().contains(t) <==> v.to_set().insert(x).contains(
        t,
    ) by {
        if v.push(x).contains(t) {
            let k = choose|k: int| 0 <= k < v.push(x).len() && v.push(x)[k] == t;
            if k < v.len() {
                assert(v[k] == t);
            }
        }
        if v.contains(t) {
            let k = choose|k: int| 0 <= k < v.len() && v[k] == t;
            assert(v.push(x)[k] == t);
        }
        assert(v.push(x)[v.len() as int] == x);
    }
    assert(v.push(x).to_set() =~= v.to_set().insert(x));
}

/// The set of two lists is the union of their sets.
proof fn lemma_set_sum(a: Seq<Seq<char>>, b: Seq<Seq<char>>)
    ensures
        (a + b).to_set() == a.to_set() + b.to_set(),
{
    assert forall|t: Seq<char>| (a + b).to_set().contains(t) <==> (a.to_set()
        + b.to_set()).contains(t) by {
        crate::seqs::lemma_in_sum(a, b, t);
    }
    assert((a + b).to_set() =~= a.to_set() + b.to_set());
}

fn insert_all(v: &mut Vec<String>, more: Vec<String>)
    requires
        crate::order::ascending(crate::text::texts(old(v)@)),
    ensures
        crate::order::ascending(crate::text::texts(final(v)@)),
        crate::text::texts(final(v)@).to_set() == crate::text::texts(old(v)@).to_set()
            + crate::text::texts(more@).to_set(),
{
    let ghost start = crate::text::texts(v@).to_set();
    let ghost all = crate::text::texts(more@);
    let mut i: usize = 0;
    assert(all.take(0) =~= Seq::<Seq<char>>::empty());
    assert(crate::text::texts(v@).to_set() =~= start + all.take(0).to_set());
    while i < more.len()
        invariant
            i <= more.len(),
            all == crate::text::texts(more@),
            crate::order::ascending(crate::text::texts(v@)),
            crate::text::texts(v@).to_set() == start + all.take(i as int).to_set(),
        decreases more.len() - i,
    {
        insert_sorted(v, more[i].clone());
        proof {
            assert(all.take(i + 1) =~= all.take(i as int).push(all[i as int]));
            lemma_set_push(all.take(i as int), all[i as int]);
            assert(crate::text::texts(v@).to_set() =~= start + all.take(i + 1).to_set());
        }
        i = i + 1;
    }
    assert(all.take(more@.len() as int) =~= all);
}

fn add_peer_ips(
    v: &mut Vec<String>,
    peer: &Peer,
    pods: &[Pod],
    namespaces: &[Namespace],
    policy_ns: &str,
    family: IpFamily,
)
    requires
        crate::order::ascending(crate::text::texts(old(v)@)),
    ensures
        crate::order::ascending(crate::text::texts(final(v)@)),
        crate::text::texts(final(v)@).to_set() == crate::text::texts(old(v)@).to_set() + peer_ips(
            *peer,
            pods@,
            namespaces@,
            policy_ns@,
            family,
        ).to_set(),
{
    let ghost start = crate::text::texts(v@).to_set();
    let ghost f = |p: Pod|
        if admits_pod(*peer, p, namespaces@, policy_ns@) {
            family_texts(p.ips@, family)
        } else {
            Seq::empty()
        };
    let mut i: usize = 0;
    assert(crate::text::texts(v@).to_set() =~= start + crate::seqs::flat(
        pods@.take(0),
        f,
    ).to_set());
    while i < pods.len()
        invariant
            i <= pods.len(),
            crate::order::ascending(crate::text::texts(v@)),
            crate::text::texts(v@).to_set() == start + crate::seqs::flat(
                pods@.take(i as int),
                f,
            ).to_set(),
            forall|p: Pod| #[trigger]
                f(p) == (if admits_pod(*peer, p, namespaces@, policy_ns@) {
                    family_texts(p.ips@, family)
                } else {
                    Seq::empty()
                }),
        decreases pods.len() - i,
    {
        let ghost done = crate::seqs::flat(pods@.take(i as int), f);
        proof {
            crate::seqs::lemma_flat_step(pods@, f, i as int);
            lemma_set_sum(done, f(pods@[i as int]));
        }
        if pod_admitted(peer, &pods[i], namespaces, policy_ns) {
            insert_all(v, family_ips(&pods[i].ips, family));
        }
        assert(crate::text::texts(v@).to_set() =~= start + crate::seqs::flat(
            pods@.take(i + 1),
            f,
        ).to_set());
        i = i + 1;
    }
    assert(pods@.take(pods@.len() as int) =~= pods@);
}

fn add_peer_nets(v: &mut Vec<String>, peer: &Peer, family: IpFamily)
    ensures
        crate::text::texts(final(v)@) == crate::text::texts(old(v)@) + peer_nets(*peer, family),
{
    broadcast use crate::text::lemma_texts_push;

    let ghost start = crate::text::texts(v@);
    match peer {
        Peer::Selector { .. } => {
            assert(crate::text::texts(v@) =~= start + peer_nets(*peer, family));
        },
        Peer::IpBlock { cidr, except } => {
            if IpFamily::of_net(cidr) != family {
                assert(crate::text::texts(v@) =~= start + peer_nets(*peer, family));
                return;
            }
            v.push(cidr.to_text());
            let ghost f = |n: IpNet|
                if crate::common::ipfamily::family_of(n.addr) == family {
                    seq![n.text() + " nomatch"@]
                } else {
                    Seq::empty()
                };
            let mut i: usize = 0;
            assert(crate::text::texts(v@) =~= start + (seq![cidr.text()] + crate::seqs::flat(
                except@.take(0),
                f,
            )));
            while i < except.len()
                invariant
                    i <= except.len(),
                    f == (|n: IpNet|
                        if crate::common::ipfamily::family_of(n.addr) == family {
                            seq![n.text() + " nomatch"@]
                        } else {
                            Seq::empty()
                        }),
                    crate::text::texts(v@) == start + (seq![cidr.text()] + crate::seqs::flat(
                        except@.take(i as int),
                        f,
                    )),
                decreases except.len() - i,
            {
                let ghost before = v@;
                proof {
                    crate::seqs::lemma_flat_step(except@, f, i as int);
                }
                if IpFamily::of_net(&except[i]) == family {
                    v.push(cat2(except[i].to_text().as_str(), " nomatch"));
                    proof {
                        assert(v@ =~= before.push(v@.last()));
                        crate::text::lemma_texts_push(before, v@.last());
                    }
                }
                assert(crate::text::texts(v@) =~= start + (seq![cidr.text()] + crate::seqs::flat(
                    except@.take(i + 1),
                    f,
                )));
                i = i + 1;
            }
            assert(except@.take(except@.len() as int) =~= except@);
        },
    }
}

/// The peers of a rule as entries of address sets, in one family and seen from one namespace.
pub fn resolve_peers(
    peers: &[Peer],
    pods: &[Pod],
    namespaces: &[Namespace],
    policy_ns: &str,
    family: IpFamily,
) -> (r: ResolvedPeers)
    ensures
        r.match_all == (peers@.len() == 0),
        crate::text::texts(r.ip_entries@) == sorted(
            peers_ips(peers@, pods@, namespaces@, policy_ns@, family).to_set(),
        ),
        crate::order::ascending(crate::text::texts(r.ip_entries@)),
        crate::text::texts(r.ip_entries@).to_set() == peers_ips(
            peers@,
            pods@,
            namespaces@,
            policy_ns@,
            family,
        ).to_set(),
        crate::text::texts(r.net_entries@) == peers_nets(peers@, family),
{
    let ghost f = |p: Peer| peer_ips(p, pods@, namespaces@, policy_ns@, family);
    let ghost g = |p: Peer| peer_nets(p, family);
    let mut ip_entries: Vec<String> = Vec::new();
    let mut net_entries: Vec<String> = Vec::new();
    let mut i: usize = 0;
    proof {
        assert(crate::seqs::flat(peers@.take(0), f) =~= Seq::<Seq<char>>::empty());
        assert(crate::text::texts(ip_entries@) =~= Seq::<Seq<char>>::empty());
        assert(crate::text::texts(net_entries@) =~= crate::seqs::flat(peers@.take(0), g));
    }
    while i < peers.len()
        invariant
            i <= peers.len(),
            crate::order::ascending(crate::text::texts(ip_entries@)),
            crate::text::texts(ip_entries@).to_set() == crate::seqs::flat(
                peers@.take(i as int),
                f,
            ).to_set(),
            crate::text::texts(net_entries@) == crate::seqs::flat(peers@.take(i as int), g),
            forall|p: Peer| #[trigger]
                f(p) == peer_ips(p, pods@, namespaces@, policy_ns@, family),
            forall|p: Peer| #[trigger] g(p) == peer_nets(p, family),
        decreases peers.len() - i,
    {
        proof {
            crate::seqs::lemma_flat_step(peers@, f, i as int);
            crate::seqs::lemma_flat_step(peers@, g, i as int);
            lemma_set_sum(crate::seqs::flat(peers@.take(i as int), f), f(peers@[i as int]));
        }
        add_peer_ips(&mut ip_entries, &peers[i], pods, namespaces, policy_ns, family);
        add_peer_nets(&mut net_entries, &peers[i], family);
        i = i + 1;
    }
    proof {
        assert(peers@.take(peers@.len() as int) =~= peers@);
        lemma_sorted(crate::text::texts(ip_entries@));
    }
    ResolvedPeers { ip_entries, net_entries, match_all: peers.len() == 0 }
}

/// A network entry is that of a network peer of the family, or that of an exception of the family
/// to such a peer: nothing of the other family is among the entries.
pub proof fn lemma_net_entry_origin(peers: Seq<Peer>, family: IpFamily, t: Seq<char>)
    requires
        peers_nets(peers, family).contains(t),
    ensures
        exists|i: int|
            0 <= i < peers.len() && (#[trigger] peers[i] matches Peer::IpBlock { cidr, except }
                && crate::common::ipfamily::family_of(cidr.addr) == family && (t == cidr.text()
                || exists|k: int|
                0 <= k < except@.len() && crate::common::ipfamily::family_of(
                    (#[trigger] except@[k]).addr,
                ) == family && t == except@[k].text() + " nomatch"@)),
{
    let i = crate::seqs::lemma_flat_from(peers, |p: Peer| peer_nets(p, family), t);
    let own = peer_nets(peers[i], family);
    assert(own.contains(t));
    match peers[i] {
        Peer::Selector { .. } => {},
        Peer::IpBlock { cidr, except } => {
            if t != cidr.text() {
                crate::seqs::lemma_in_sum(seq![cidr.text()], except_texts(except@, family), t);
                let k = crate::seqs::lemma_flat_from(
                    except@,
                    |n: IpNet|
                        if crate::common::ipfamily::family_of(n.addr) == family {
                            seq![n.text() + " nomatch"@]
                        } else {
                            Seq::empty()
                        },
                    t,
                );
                assert(crate::common::ipfamily::family_of(except@[k].addr) == family);
            }
        },
    }
}

/// An address is among the entries exactly where some peer admits some pod that has it, in the
/// family.
pub proof fn lemma_entry_origin(
    peers: Seq<Peer>,
    pods: Seq<Pod>,
    namespaces: Seq<Namespace>,
    policy_ns: Seq<char>,
    family: IpFamily,
    t: Seq<char>,
)
    ensures
        peers_ips(peers, pods, namespaces, policy_ns, family).contains(t) <==> exists|
            i: int,
            j: int,
            k: int,
        |
            0 <= i < peers.len() && 0 <= j < pods.len() && 0 <= k < pods[j].ips@.len()
                && #[trigger] admits_pod(peers[i], pods[j], namespaces, policy_ns) && (
            #[trigger] pods[j].ips@[k]).text() == t && crate::common::ipfamily::family_of(
                pods[j].ips@[k],
            ) == family,
{
    let fp = |p: Peer| peer_ips(p, pods, namespaces, policy_ns, family);
    let fi = |ip: IpAddr|
        if crate::common::ipfamily::family_of(ip) == family {
            seq![ip.text()]
        } else {
            Seq::empty()
        };
    let all = peers_ips(peers, pods, namespaces, policy_ns, family);
    if all.contains(t) {
        let i = crate::seqs::lemma_flat_from(peers, fp, t);
        let fq = |p: Pod|
            if admits_pod(peers[i], p, namespaces, policy_ns) {
                family_texts(p.ips@, family)
            } else {
                Seq::empty()
            };
        let j = crate::seqs::lemma_flat_from(pods, fq, t);
        let k = crate::seqs::lemma_flat_from(pods[j].ips@, fi, t);
        assert(admits_pod(peers[i], pods[j], namespaces, policy_ns));
        assert(pods[j].ips@[k].text() == t);
    }
    if exists|i: int, j: int, k: int|
        0 <= i < peers.len() && 0 <= j < pods.len() && 0 <= k < pods[j].ips@.len()
            && #[trigger] admits_pod(peers[i], pods[j], namespaces, policy_ns) && (
        #[trigger] pods[j].ips@[k]).text() == t && crate::common::ipfamily::family_of(
            pods[j].ips@[k],
        ) == family {
        let (i, j, k) = choose|i: int, j: int, k: int|
            0 <= i < peers.len() && 0 <= j < pods.len() && 0 <= k < pods[j].ips@.len()
                && #[trigger] admits_pod(peers[i], pods[j], namespaces, policy_ns) && (
            #[trigger] pods[j].ips@[k]).text() == t && crate::common::ipfamily::family_of(
                pods[j].ips@[k],
            ) == family;
        assert(fi(pods[j].ips@[k]) =~= seq![t]);
        assert(fi(pods[j].ips@[k])[0] == t);
        crate::seqs::lemma_flat_has(pods[j].ips@, fi, k, t);
        let fq = |p: Pod|
            if admits_pod(peers[i], p, namespaces, policy_ns) {
                family_texts(p.ips@, family)
            } else {
                Seq::empty()
            };
        crate::seqs::lemma_flat_has(pods, fq, j, t);
        crate::seqs::lemma_flat_has(peers, fp, i, t);
    }
}

} // verus!
