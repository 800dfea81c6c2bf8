//! What holds of the peers of a rule and of what they resolve to, stated on the fields of peers,
//! pods and namespaces.

use vstd::prelude::*;

use crate::common::ipfamily::IpFamily;
use crate::ip::IpAddr;
use crate::netpol::model::{
    LabelSelector, Namespace, NetworkPolicy, Peer, Pod, SelectorOp, SelectorRequirement,
};
use crate::netpol::translate::{
    admits_namespace, admits_pod, except_texts, family_texts, peer_ips, peer_nets, peers_ips,
    peers_nets,
};
use crate::net::IpNet;

verus! {

/// Whether a map gives the key one of the values.
pub open spec fn is_one_of(
    labels: Map<Seq<char>, Seq<char>>,
    key: Seq<char>,
    values: Seq<String>,
) -> bool {
    labels.contains_key(key) && exists|v: int|
        0 <= v < values.len() && (#[trigger] values[v])@ == labels[key]
}

/// Whether labels meet one set-based requirement, by its operator.
pub open spec fn meets_one(req: SelectorRequirement, labels: Map<Seq<char>, Seq<char>>) -> bool {
    match req.operator {
        Some(SelectorOp::In) => is_one_of(labels, req.key@, req.values@),
        Some(SelectorOp::NotIn) => !is_one_of(labels, req.key@, req.values@),
        Some(SelectorOp::Exists) => labels.contains_key(req.key@),
        Some(SelectorOp::DoesNotExist) => !labels.contains_key(req.key@),
        None => false,
    }
}

/// Whether labels meet a selector: they hold each of its pairs, and meet each of its
/// requirements.
pub open spec fn meets(sel: LabelSelector, labels: Map<Seq<char>, Seq<char>>) -> bool {
    &&& forall|k: Seq<char>| #[trigger]
        sel.match_labels@.contains_key(k) ==> labels.contains_key(k) && labels[k]
            == sel.match_labels@[k]
    &&& forall|i: int|
        0 <= i < sel.match_expressions@.len() ==> meets_one(
            #[trigger] sel.match_expressions@[i],
            labels,
        )
}

/// A selector selects labels exactly where they hold each of its pairs and meet each of its
/// requirements by its operator.
pub proof fn lemma_selects_by_labels(sel: LabelSelector, labels: Map<Seq<char>, Seq<char>>)
    ensures
        sel.selects(labels) <==> meets(sel, labels),
{
    assert forall|i: int| 0 <= i < sel.match_expressions@.len() implies (
    #[trigger] sel.match_expressions@[i]).holds(labels) == meets_one(
        sel.match_expressions@[i],
        labels,
    ) by {
        let req = sel.match_expressions@[i];
        let values = crate::text::texts(req.values@);
        if labels.contains_key(req.key@) {
            let x = labels[req.key@];
            if values.contains(x) {
                let v = choose|v: int| 0 <= v < values.len() && values[v] == x;
                assert(req.values@[v]@ == x);
            }
            if is_one_of(labels, req.key@, req.values@) {
                let v = choose|v: int|
                    0 <= v < req.values@.len() && (#[trigger] req.values@[v])@ == x;
                assert(values[v] == x);
            }
        }
    }
}

/// A policy applies to a pod exactly where they are of one namespace and the labels of the pod
/// meet the policy's selector.
pub proof fn lemma_applies_by_labels(pol: NetworkPolicy, pod: Pod)
    ensures
        pol.applies_to(pod) <==> pod.namespace@ == pol.namespace@ && meets(
            pol.pod_selector,
            pod.labels@,
        ),
{
    lemma_selects_by_labels(pol.pod_selector, pod.labels@);
}

/// Whether a peer that selects pods reaches a pod: the pod has addresses of its own; it is in
/// the policy's namespace, or, where the peer selects namespaces, in one whose labels meet that
/// selector; and its labels meet the peer's selector of pods, where there is one.
pub open spec fn reaches(
    namespace_selector: Option<LabelSelector>,
    pod_selector: Option<LabelSelector>,
    pod: Pod,
    namespaces: Seq<Namespace>,
    policy_ns: Seq<char>,
) -> bool {
    &&& !pod.host_network
    &&& namespace_selector is None ==> pod.namespace@ == policy_ns
    &&& namespace_selector matches Some(sel) ==> exists|n: int|
        0 <= n < namespaces.len() && (#[trigger] namespaces[n]).name@ == pod.namespace@ && meets(
            sel,
            namespaces[n].labels@,
        )
    &&& pod_selector matches Some(sel) ==> meets(sel, pod.labels@)
}

proof fn lemma_admits(
    namespace_selector: Option<LabelSelector>,
    pod_selector: Option<LabelSelector>,
    pod: Pod,
    namespaces: Seq<Namespace>,
    policy_ns: Seq<char>,
)
    ensures
        admits_pod(
            Peer::Selector { namespace_selector, pod_selector },
            pod,
            namespaces,
            policy_ns,
        ) == reaches(namespace_selector, pod_selector, pod, namespaces, policy_ns),
{
    if let Some(sel) = pod_selector {
        lemma_selects_by_labels(sel, pod.labels@);
    }
    if let Some(sel) = namespace_selector {
        assert forall|n: int| 0 <= n < namespaces.len() implies sel.selects(
            (#[trigger] namespaces[n]).labels@,
        ) == meets(sel, namespaces[n].labels@) by {
            lemma_selects_by_labels(sel, namespaces[n].labels@);
        }
        let ns = pod.namespace@;
        if admits_namespace(namespace_selector, namespaces, policy_ns, ns) {
            let n = choose|n: int|
                0 <= n < namespaces.len() && (#[trigger] namespaces[n]).name@ == ns
                    && sel.selects(namespaces[n].labels@);
            assert(namespaces[n].name@ == ns && meets(sel, namespaces[n].labels@));
        }
        if exists|n: int|
            0 <= n < namespaces.len() && (#[trigger] namespaces[n]).name@ == ns && meets(
                sel,
                namespaces[n].labels@,
            ) {
            let n = choose|n: int|
                0 <= n < namespaces.len() && (#[trigger] namespaces[n]).name@ == ns && meets(
                    sel,
                    namespaces[n].labels@,
                );
            assert(namespaces[n].name@ == ns && sel.selects(namespaces[n].labels@));
        }
    }
}

/// Of a list of addresses the texts of those of the family come out, in their order: nothing of
/// an empty list, the text or nothing of a single address, and of two lists one after the other
/// what comes out of each, one after the other.
pub proof fn lemma_family_texts_parts(
    a: Seq<IpAddr>,
    b: Seq<IpAddr>,
    ip: IpAddr,
    family: IpFamily,
)
    ensures
        family_texts(Seq::empty(), family) == Seq::<Seq<char>>::empty(),
        ip is V4 == (family == IpFamily::V4) ==> family_texts(seq![ip], family) == seq![ip.text()],
        ip is V4 != (family == IpFamily::V4) ==> family_texts(seq![ip], family) == Seq::<
            Seq<char>,
        >::empty(),
        family_texts(a + b, family) == family_texts(a, family) + family_texts(b, family),
{
    let f = |ip: IpAddr|
        if crate::common::ipfamily::family_of(ip) == family {
            seq![ip.text()]
        } else {
            Seq::empty()
        };
    crate::seqs::lemma_flat_parts(a, b, ip, f);
}

/// A text comes out exactly where it is that of an address of the family in the list.
pub proof fn lemma_family_texts_has(ips: Seq<IpAddr>, family: IpFamily, t: Seq<char>)
    ensures
        family_texts(ips, family).contains(t) <==> exists|k: int|
            0 <= k < ips.len() && (#[trigger] ips[k]) is V4 == (family == IpFamily::V4)
                && ips[k].text() == t,
{
    let f = |ip: IpAddr|
        if crate::common::ipfamily::family_of(ip) == family {
            seq![ip.text()]
        } else {
            Seq::empty()
        };
    if family_texts(ips, family).contains(t) {
        let k = crate::seqs::lemma_flat_from(ips, f, t);
        assert(ips[k] is V4 == (family == IpFamily::V4) && ips[k].text() == t);
    }
    if exists|k: int|
        0 <= k < ips.len() && (#[trigger] ips[k]) is V4 == (family == IpFamily::V4)
            && ips[k].text() == t {
        let k = choose|k: int|
            0 <= k < ips.len() && (#[trigger] ips[k]) is V4 == (family == IpFamily::V4)
                && ips[k].text() == t;
        assert(f(ips[k])[0] == t);
        crate::seqs::lemma_flat_has(ips, f, k, t);
    }
}

/// What one pod adds to a peer that selects pods: its addresses of the family where the peer
/// reaches it, and nothing where it does not.
pub proof fn lemma_pod_adds(
    namespace_selector: Option<LabelSelector>,
    pod_selector: Option<LabelSelector>,
    pod: Pod,
    namespaces: Seq<Namespace>,
    policy_ns: Seq<char>,
    family: IpFamily,
)
    ensures
        reaches(namespace_selector, pod_selector, pod, namespaces, policy_ns) ==> peer_ips(
            Peer::Selector { namespace_selector, pod_selector },
            seq![pod],
            namespaces,
            policy_ns,
            family,
        ) == family_texts(pod.ips@, family),
        !reaches(namespace_selector, pod_selector, pod, namespaces, policy_ns) ==> peer_ips(
            Peer::Selector { namespace_selector, pod_selector },
            seq![pod],
            namespaces,
            policy_ns,
            family,
        ) == Seq::<Seq<char>>::empty(),
{
    lemma_admits(namespace_selector, pod_selector, pod, namespaces, policy_ns);
    let peer = Peer::Selector { namespace_selector, pod_selector };
    let f = |p: Pod|
        if admits_pod(peer, p, namespaces, policy_ns) {
            family_texts(p.ips@, family)
        } else {
            Seq::empty()
        };
    crate::seqs::lemma_flat_parts(Seq::empty(), Seq::empty(), pod, f);
}

/// A peer whose selector of pods the labels of a pod do not meet takes nothing from that pod,
/// whether or not it selects namespaces too.
pub proof fn lemma_unselected_pod_adds_nothing(
    namespace_selector: Option<LabelSelector>,
    sel: LabelSelector,
    pod: Pod,
    namespaces: Seq<Namespace>,
    policy_ns: Seq<char>,
    family: IpFamily,
)
    requires
        !meets(sel, pod.labels@),
    ensures
        peer_ips(
            Peer::Selector { namespace_selector, pod_selector: Some(sel) },
            seq![pod],
            namespaces,
            policy_ns,
            family,
        ).len() == 0,
{
    lemma_pod_adds(namespace_selector, Some(sel), pod, namespaces, policy_ns, family);
}

/// Pods are looked at one after the other, and so are peers: the entries for two lists one after
/// the other are those for the first, then those for the second.
pub proof fn lemma_peers_and_pods_add_up(
    p: Seq<Peer>,
    q: Seq<Peer>,
    peer: Peer,
    a: Seq<Pod>,
    b: Seq<Pod>,
    namespaces: Seq<Namespace>,
    policy_ns: Seq<char>,
    family: IpFamily,
)
    ensures
        peer_ips(peer, Seq::empty(), namespaces, policy_ns, family).len() == 0,
        peer_ips(peer, a + b, namespaces, policy_ns, family) == peer_ips(
            peer,
            a,
            namespaces,
            policy_ns,
            family,
        ) + peer_ips(peer, b, namespaces, policy_ns, family),
        peers_ips(Seq::empty(), a, namespaces, policy_ns, family).len() == 0,
        peers_ips(seq![peer], a, namespaces, policy_ns, family) == peer_ips(
            peer,
            a,
            namespaces,
            policy_ns,
            family,
        ),
        peers_ips(p + q, a, namespaces, policy_ns, family) == peers_ips(
            p,
            a,
            namespaces,
            policy_ns,
            family,
        ) + peers_ips(q, a, namespaces, policy_ns, family),
        peers_nets(Seq::empty(), family).len() == 0,
        peers_nets(p + q, family) == peers_nets(p, family) + peers_nets(q, family),
{
    let f = |p: Pod|
        if admits_pod(peer, p, namespaces, policy_ns) {
            family_texts(p.ips@, family)
        } else {
            Seq::empty()
        };
    let pod: Pod = arbitrary();
    crate::seqs::lemma_flat_parts(a, b, pod, f);
    let g = |p: Peer| peer_ips(p, a, namespaces, policy_ns, family);
    crate::seqs::lemma_flat_parts(p, q, peer, g);
    let h = |p: Peer| peer_nets(p, family);
    crate::seqs::lemma_flat_parts(p, q, peer, h);
}

/// The pod addresses that peers resolve to are exactly the texts of the addresses of the family
/// of the pods that a selecting peer reaches.
pub proof fn lemma_entries_by_fields(
    peers: Seq<Peer>,
    pods: Seq<Pod>,
    namespaces: Seq<Namespace>,
    policy_ns: Seq<char>,
    family: IpFamily,
    t: Seq<char>,
)
    ensures
        peers_ips(peers, pods, namespaces, policy_ns, family).contains(t) <==> exists|
            i: int,
            j: int,
            k: int,
        |
            0 <= i < peers.len() && 0 <= j < pods.len() && 0 <= k < pods[j].ips@.len()
                && #[trigger] entry_from(
                peers[i],
                pods[j],
                pods[j].ips@[k],
                namespaces,
                policy_ns,
                family,
                t,
            ),
{
    let g = |p: Peer| peer_ips(p, pods, namespaces, policy_ns, family);
    if peers_ips(peers, pods, namespaces, policy_ns, family).contains(t) {
        let i = crate::seqs::lemma_flat_from(peers, g, t);
        let peer = peers[i];
        let f = |p: Pod|
            if admits_pod(peer, p, namespaces, policy_ns) {
                family_texts(p.ips@, family)
            } else {
                Seq::empty()
            };
        let j = crate::seqs::lemma_flat_from(pods, f, t);
        let pod = pods[j];
        lemma_family_texts_has(pod.ips@, family, t);
        let k = choose|k: int|
            0 <= k < pod.ips@.len() && (#[trigger] pod.ips@[k]) is V4 == (family
                == IpFamily::V4) && pod.ips@[k].text() == t;
        if let Peer::Selector { namespace_selector, pod_selector } = peer {
            lemma_admits(namespace_selector, pod_selector, pod, namespaces, policy_ns);
        }
        assert(entry_from(peers[i], pods[j], pods[j].ips@[k], namespaces, policy_ns, family, t));
    }
    if exists|i: int, j: int, k: int|
        0 <= i < peers.len() && 0 <= j < pods.len() && 0 <= k < pods[j].ips@.len()
            && #[trigger] entry_from(
            peers[i],
            pods[j],
            pods[j].ips@[k],
            namespaces,
            policy_ns,
            family,
            t,
        ) {
        let (i, j, k) = choose|i: int, j: int, k: int|
            0 <= i < peers.len() && 0 <= j < pods.len() && 0 <= k < pods[j].ips@.len()
                && #[trigger] entry_from(
                peers[i],
                pods[j],
                pods[j].ips@[k],
                namespaces,
                policy_ns,
                family,
                t,
            );
        let peer = peers[i];
        let pod = pods[j];
        if let Peer::Selector { namespace_selector, pod_selector } = peer {
            lemma_admits(namespace_selector, pod_selector, pod, namespaces, policy_ns);
        }
        let f = |p: Pod|
            if admits_pod(peer, p, namespaces, policy_ns) {
                family_texts(p.ips@, family)
            } else {
                Seq::empty()
            };
        assert(pod.ips@[k] is V4 == (family == IpFamily::V4) && pod.ips@[k].text() == t);
        lemma_family_texts_has(pod.ips@, family, t);
        crate::seqs::lemma_flat_has(pods, f, j, t);
        crate::seqs::lemma_flat_has(peers, g, i, t);
    }
}

/// Whether a text is that of an address of the family, of a pod that the peer reaches.
pub open spec fn entry_from(
    peer: Peer,
    pod: Pod,
    ip: IpAddr,
    namespaces: Seq<Namespace>,
    policy_ns: Seq<char>,
    family: IpFamily,
    t: Seq<char>,
) -> bool {
    &&& peer matches Peer::Selector { namespace_selector, pod_selector }
    &&& reaches(namespace_selector, pod_selector, pod, namespaces, policy_ns)
    &&& ip is V4 == (family == IpFamily::V4)
    &&& t == ip.text()
}

/// A selector of pods never adds an entry to what the peer has without it.
pub proof fn lemma_pod_selector_only_narrows(
    namespace_selector: Option<LabelSelector>,
    sel: LabelSelector,
    pods: Seq<Pod>,
    namespaces: Seq<Namespace>,
    policy_ns: Seq<char>,
    family: IpFamily,
    t: Seq<char>,
)
    requires
        peer_ips(
            Peer::Selector { namespace_selector, pod_selector: Some(sel) },
            pods,
            namespaces,
            policy_ns,
            family,
        ).contains(t),
    ensures
        peer_ips(
            Peer::Selector { namespace_selector, pod_selector: None },
            pods,
            namespaces,
            policy_ns,
            family,
        ).contains(t),
{
    let narrow = Peer::Selector { namespace_selector, pod_selector: Some(sel) };
    let wide = Peer::Selector { namespace_selector, pod_selector: None::<LabelSelector> };
    let f = |p: Pod|
        if admits_pod(narrow, p, namespaces, policy_ns) {
            family_texts(p.ips@, family)
        } else {
            Seq::empty()
        };
    let g = |p: Pod|
        if admits_pod(wide, p, namespaces, policy_ns) {
            family_texts(p.ips@, family)
        } else {
            Seq::empty()
        };
    let j = crate::seqs::lemma_flat_from(pods, f, t);
    crate::seqs::lemma_flat_has(pods, g, j, t);
}

/// The entries of a network, of one family: its own text, then its exceptions of the family,
/// each marked as one; nothing where the network is of the other family, and nothing of a peer
/// that selects pods.
pub proof fn lemma_network_entries(
    cidr: IpNet,
    except: Vec<IpNet>,
    namespace_selector: Option<LabelSelector>,
    pod_selector: Option<LabelSelector>,
    family: IpFamily,
)
    ensures
        cidr.addr is V4 == (family == IpFamily::V4) ==> peers_nets(
            seq![Peer::IpBlock { cidr, except }],
            family,
        ) == seq![cidr.text()] + except_texts(except@, family),
        cidr.addr is V4 != (family == IpFamily::V4) ==> peers_nets(
            seq![Peer::IpBlock { cidr, except }],
            family,
        ).len() == 0,
        peers_nets(seq![Peer::Selector { namespace_selector, pod_selector }], family).len() == 0,
{
    let h = |p: Peer| peer_nets(p, family);
    let block = Peer::IpBlock { cidr, except };
    let sel = Peer::Selector { namespace_selector, pod_selector };
    crate::seqs::lemma_flat_parts(Seq::empty(), Seq::empty(), block, h);
    crate::seqs::lemma_flat_parts(Seq::empty(), Seq::empty(), sel, h);
}

/// Of a list of exceptions those of the family come out in their order, each as its text with
/// the word that takes it out of the network.
pub proof fn lemma_exceptions_add_up(
    a: Seq<IpNet>,
    b: Seq<IpNet>,
    n: IpNet,
    family: IpFamily,
)
    ensures
        except_texts(Seq::empty(), family).len() == 0,
        n.addr is V4 == (family == IpFamily::V4) ==> except_texts(seq![n], family) == seq![
            n.text() + " nomatch"@,
        ],
        n.addr is V4 != (family == IpFamily::V4) ==> except_texts(seq![n], family).len() == 0,
        except_texts(a + b, family) == except_texts(a, family) + except_texts(b, family),
{
    let f = |n: IpNet|
        if crate::common::ipfamily::family_of(n.addr) == family {
            seq![n.text() + " nomatch"@]
        } else {
            Seq::empty()
        };
    crate::seqs::lemma_flat_parts(a, b, n, f);
}

/// The strictly ascending list of texts with one more.
pub open spec fn with_text(v: Seq<Seq<char>>, x: Seq<char>) -> Seq<Seq<char>>
    decreases v.len(),
{
    if v.len() == 0 {
        seq![x]
    } else if v.last() == x {
        v
    } else if crate::order::before(v.last(), x) {
        v.push(x)
    } else {
        with_text(v.drop_last(), x).push(v.last())
    }
}

proof fn lemma_with_text(v: Seq<Seq<char>>, x: Seq<char>)
    requires
        crate::order::ascending(v),
    ensures
        crate::order::ascending(with_text(v, x)),
        forall|t: Seq<char>| #[trigger] with_text(v, x).contains(t) <==> v.contains(t) || t == x,
    decreases v.len(),
{
    let r = with_text(v, x);
    if v.len() == 0 {
        assert(r[0] == x);
    } else if v.last() == x {
        assert(v[v.len() - 1] == x);
    } else if crate::order::before(v.last(), x) {
        assert forall|i: int, j: int| 0 <= i < j < r.len() implies crate::order::before(
            #[trigger] r[i],
            #[trigger] r[j],
        ) by {
            if j == v.len() && i < v.len() - 1 {
                assert(crate::order::before(v[i], v[v.len() - 1]));
                crate::order::lemma_transitive(v[i], v.last(), x);
            }
        }
        assert forall|t: Seq<char>| #[trigger] r.contains(t) <==> v.contains(t) || t == x by {
            assert(r =~= v + seq![x]);
            crate::seqs::lemma_in_sum(v, seq![x], t);
            assert(seq![x][0] == x);
        }
    } else {
        let front = v.drop_last();
        let last = v.last();
        lemma_with_text(front, x);
        let w = with_text(front, x);
        crate::order::lemma_total(last, x);
        assert forall|i: int, j: int| 0 <= i < j < r.len() implies crate::order::before(
            #[trigger] r[i],
            #[trigger] r[j],
        ) by {
            if j == w.len() {
                assert(w.contains(w[i]));
                if w[i] != x {
                    let m = choose|m: int| 0 <= m < front.len() && front[m] == w[i];
                    assert(crate::order::before(v[m], v[v.len() - 1]));
                }
            }
        }
        assert forall|t: Seq<char>| #[trigger] r.contains(t) <==> v.contains(t) || t == x by {
            assert(r =~= w + seq![last]);
            assert(v =~= front + seq![last]);
            crate::seqs::lemma_in_sum(w, seq![last], t);
            crate::seqs::lemma_in_sum(front, seq![last], t);
        }
    }
}

proof fn lemma_ascending_list(v: Seq<Seq<char>>) -> (r: Seq<Seq<char>>)
    ensures
        crate::order::ascending(r),
        r.to_set() == v.to_set(),
    decreases v.len(),
{
    if v.len() == 0 {
        assert(v.to_set() =~= v.to_set());
        v
    } else {
        let a = lemma_ascending_list(v.drop_last());
        lemma_with_text(a, v.last());
        let r = with_text(a, v.last());
        assert(v =~= v.drop_last() + seq![v.last()]);
        assert forall|t: Seq<char>| r.to_set().contains(t) <==> v.to_set().contains(t) by {
            crate::seqs::lemma_in_sum(v.drop_last(), seq![v.last()], t);
            assert(seq![v.last()][0] == v.last());
            assert(r.contains(t) <==> a.contains(t) || t == v.last());
            assert(a.to_set().contains(t) == v.drop_last().to_set().contains(t));
        }
        assert(r.to_set() =~= v.to_set());
        r
    }
}

/// The sorted entries are the entries, each once, in the order of strings.
pub proof fn lemma_sorted_entries(entries: Seq<Seq<char>>, t: Seq<char>)
    ensures
        crate::netpol::translate::sorted(entries.to_set()).contains(t) <==> entries.contains(t),
        forall|i: int, j: int|
            0 <= i < j < crate::netpol::translate::sorted(entries.to_set()).len()
                ==> crate::order::before(
                #[trigger] crate::netpol::translate::sorted(entries.to_set())[i],
                #[trigger] crate::netpol::translate::sorted(entries.to_set())[j],
            ),
{
    let r = lemma_ascending_list(entries);
    crate::netpol::translate::lemma_sorted(r);
    assert(r.to_set().contains(t) == entries.to_set().contains(t));
}

} // verus!
