//! Laws of what network policies and pods of the cluster become, stated on the fields of the
//! objects.

use vstd::prelude::*;

use crate::common::ipfamily::IpFamily;
use crate::netpol::model::{LabelSelector, Namespace, NetworkPolicy, Peer, Pod};
use crate::netpol::peer_laws::{entry_from, is_one_of, meets, meets_one, reaches};
use crate::netpol_wire::{
    opt_selector_of, opt_view, peer_of, peers_of, pod_addresses, policy_of, requirement_of,
    rule_of, rules_of, selector_of, PeerView,
};
use crate::object_laws::elements;
use crate::objects::{
    ExpressionObject, IntOrString, PeerObject, PodObject, PolicyObject, SelectorObject,
};

verus! {

/// Whether labels meet one requirement of the cluster, by the name of its operator.
pub open spec fn meets_expression(e: ExpressionObject, labels: Map<Seq<char>, Seq<char>>) -> bool {
    ||| e.operator@ == "In"@ && is_one_of(labels, e.key@, elements(e.values))
    ||| e.operator@ == "NotIn"@ && !is_one_of(labels, e.key@, elements(e.values))
    ||| e.operator@ == "Exists"@ && labels.contains_key(e.key@)
    ||| e.operator@ == "DoesNotExist"@ && !labels.contains_key(e.key@)
}

/// Whether labels meet a selector of the cluster: they hold each of its pairs, and meet each of
/// its requirements.
pub open spec fn meets_object(o: SelectorObject, labels: Map<Seq<char>, Seq<char>>) -> bool {
    &&& o.match_labels matches Some(pairs) ==> forall|k: Seq<char>| #[trigger]
        pairs@.contains_key(k) ==> labels.contains_key(k) && labels[k] == pairs@[k]
    &&& forall|i: int|
        0 <= i < elements(o.match_expressions).len() ==> meets_expression(
            #[trigger] elements(o.match_expressions)[i],
            labels,
        )
}

/// What a selector of the cluster becomes is met by exactly the labels that meet the selector.
pub proof fn lemma_selector_is_kept(
    o: SelectorObject,
    sel: LabelSelector,
    labels: Map<Seq<char>, Seq<char>>,
)
    requires
        sel@ == selector_of(o),
    ensures
        meets(sel, labels) <==> meets_object(o, labels),
        sel.selects(labels) <==> meets_object(o, labels),
{
    crate::netpol::peer_laws::lemma_selects_by_labels(sel, labels);
    let es = elements(o.match_expressions);
    assert(crate::objects::list_or_empty(o.match_expressions) == es);
    let rs = sel.match_expressions@;
    assert(rs.len() == sel@.requirements.len());
    assert(es.len() == rs.len());
    assert forall|i: int| 0 <= i < rs.len() implies meets_one(#[trigger] rs[i], labels)
        == meets_expression(es[i], labels) by {
        assert(sel@.requirements[i] == rs[i]@);
        assert(rs[i]@ == requirement_of(es[i]));
        lemma_operators();
        let mine = rs[i].values@;
        let theirs = elements(es[i].values);
        assert(crate::objects::list_or_empty(es[i].values) == theirs);
        assert(crate::text::texts(mine) == crate::text::texts(theirs));
        assert(mine.len() == crate::text::texts(mine).len());
        assert(theirs.len() == crate::text::texts(theirs).len());
        assert forall|v: int| 0 <= v < mine.len() implies (#[trigger] mine[v])@
            == theirs[v]@ by {
            assert(crate::text::texts(mine)[v] == mine[v]@);
            assert(crate::text::texts(theirs)[v] == theirs[v]@);
        }
        let key = es[i].key@;
        if is_one_of(labels, key, mine) {
            let v = choose|v: int|
                0 <= v < mine.len() && (#[trigger] mine[v])@ == labels[key];
            assert(theirs[v]@ == labels[key]);
        }
        if is_one_of(labels, key, theirs) {
            let v = choose|v: int|
                0 <= v < theirs.len() && (#[trigger] theirs[v])@ == labels[key];
            assert(mine[v]@ == labels[key]);
        }
    }
    if meets(sel, labels) {
        assert forall|i: int| 0 <= i < es.len() implies meets_expression(
            #[trigger] es[i],
            labels,
        ) by {
            assert(meets_one(rs[i], labels));
        }
    }
    if meets_object(o, labels) {
        assert forall|i: int| 0 <= i < rs.len() implies meets_one(#[trigger] rs[i], labels) by {
            assert(meets_expression(es[i], labels));
        }
    }
}

proof fn lemma_operators()
    ensures
        "In"@ != "NotIn"@,
        "In"@ != "Exists"@,
        "In"@ != "DoesNotExist"@,
        "NotIn"@ != "Exists"@,
        "NotIn"@ != "DoesNotExist"@,
        "Exists"@ != "DoesNotExist"@,
{
    reveal_strlit("In");
    reveal_strlit("NotIn");
    reveal_strlit("Exists");
    reveal_strlit("DoesNotExist");
    assert("In"@.len() == 2);
    assert("NotIn"@.len() == 5);
    assert("Exists"@.len() == 6);
    assert("DoesNotExist"@.len() == 12);
}

/// Whether an entry of a list of peers can be read: it has no network, or one whose text spells a
/// network.
pub open spec fn readable(p: PeerObject) -> bool {
    p.ip_block matches Some(b) ==> crate::net::net_of(b.cidr@) is Some
}

/// How many of the first `n` entries can be read.
pub open spec fn readable_among(v: Seq<PeerObject>, n: int) -> nat
    decreases n,
{
    if n <= 0 {
        0
    } else {
        readable_among(v, n - 1) + if readable(v[n - 1]) {
            1nat
        } else {
            0
        }
    }
}

/// Whether a peer is what the entry asks for: the entry's network with its exceptions, where it
/// has one; otherwise selectors that are there exactly where the entry has them and are met by
/// the same labels.
pub open spec fn is_peer_of(x: Peer, p: PeerObject) -> bool {
    match p.ip_block {
        Some(b) => x matches Peer::IpBlock { cidr, except } && crate::net::net_of(b.cidr@) == Some(
            cidr,
        ) && except@ == crate::objects::nets_of(crate::text::texts(elements(b.except))),
        None => x matches Peer::Selector { namespace_selector, pod_selector } && same_selector(
            namespace_selector,
            p.namespace_selector,
        ) && same_selector(pod_selector, p.pod_selector),
    }
}

/// Whether a selector is there exactly where the other one is, and the same labels meet it.
pub open spec fn same_selector(s: Option<LabelSelector>, o: Option<SelectorObject>) -> bool {
    match (s, o) {
        (Some(sel), Some(obj)) => forall|labels: Map<Seq<char>, Seq<char>>| #[trigger]
            meets(sel, labels) <==> meets_object(obj, labels),
        (None, None) => true,
        _ => false,
    }
}

proof fn lemma_same_selector(s: Option<LabelSelector>, o: Option<SelectorObject>)
    requires
        opt_view(s) == opt_selector_of(o),
    ensures
        same_selector(s, o),
{
    if s is Some && o is Some {
        assert forall|labels: Map<Seq<char>, Seq<char>>| #[trigger] meets(
            s->0,
            labels,
        ) <==> meets_object(o->0, labels) by {
            lemma_selector_is_kept(o->0, s->0, labels);
        }
    }
}

/// An entry becomes a peer exactly where it can be read, and the peer is what it asks for.
pub proof fn lemma_peer_is_kept(p: PeerObject, x: Peer)
    ensures
        peer_of(p) is Some <==> readable(p),
        peer_of(p) == Some(x@) ==> is_peer_of(x, p),
{
    if peer_of(p) == Some(x@) {
        match x {
            Peer::Selector { namespace_selector, pod_selector } => {
                lemma_same_selector(namespace_selector, p.namespace_selector);
                lemma_same_selector(pod_selector, p.pod_selector);
            },
            Peer::IpBlock { cidr, except } => {
                let b = p.ip_block->0;
                assert(crate::objects::list_or_empty(b.except) == elements(b.except));
            },
        }
    }
}

proof fn lemma_kept_at(v: Seq<PeerObject>, n: int, j: int)
    requires
        0 <= n <= v.len(),
    ensures
        peers_of(v.take(n)).len() == readable_among(v, n),
        0 <= j < n && readable(v[j]) ==> readable_among(v, j) < readable_among(v, n)
            && peers_of(v.take(n))[readable_among(v, j) as int] == peer_of(v[j])->0,
    decreases n,
{
    let f = |p: PeerObject|
        match peer_of(p) {
            Some(x) => seq![x],
            None => Seq::empty(),
        };
    if n > 0 {
        lemma_kept_at(v, n - 1, j);
        crate::seqs::lemma_flat_step(v, f, n - 1);
    }
}

/// The peers of a rule are those of the entries of its list that can be read, in the order of the
/// list: as many as there are, and that of the entry at `j` behind those of the readable entries
/// before it.
pub proof fn lemma_every_peer_is_kept(
    np: PolicyObject,
    pol: NetworkPolicy,
    i: int,
    j: int,
)
    requires
        policy_of(np) == Some(pol@),
        0 <= i < elements(np.spec->0.ingress).len(),
        0 <= j < elements(elements(np.spec->0.ingress)[i].peers).len(),
        readable(elements(elements(np.spec->0.ingress)[i].peers)[j]),
    ensures
        ({
            let list = elements(elements(np.spec->0.ingress)[i].peers);
            let peers = pol.ingress@[i].peers@;
            &&& pol.ingress@.len() == elements(np.spec->0.ingress).len()
            &&& peers.len() == readable_among(list, list.len() as int)
            &&& readable_among(list, j) < peers.len()
            &&& is_peer_of(peers[readable_among(list, j) as int], list[j])
        }),
{
    lemma_ingress_rule(np, pol, i);
    let list = elements(elements(np.spec->0.ingress)[i].peers);
    let peers = pol.ingress@[i].peers@;
    let n = list.len() as int;
    assert(list.take(n) =~= list);
    lemma_kept_at(list, n, j);
    let views = crate::netpol_wire::peer_views(peers);
    assert(views == peers_of(list));
    assert(views.len() == peers.len());
    let m = readable_among(list, j) as int;
    assert(views[m] == peers[m]@);
    lemma_peer_is_kept(list[j], peers[m]);
}

/// A list of which no entry can be read leaves a rule without peers.
pub proof fn lemma_peer_count(np: PolicyObject, pol: NetworkPolicy, i: int)
    requires
        policy_of(np) == Some(pol@),
        0 <= i < elements(np.spec->0.ingress).len(),
    ensures
        ({
            let list = elements(elements(np.spec->0.ingress)[i].peers);
            pol.ingress@[i].peers@.len() == readable_among(list, list.len() as int)
        }),
{
    lemma_ingress_rule(np, pol, i);
    let list = elements(elements(np.spec->0.ingress)[i].peers);
    assert(list.take(list.len() as int) =~= list);
    lemma_kept_at(list, list.len() as int, 0);
    assert(crate::netpol_wire::peer_views(pol.ingress@[i].peers@).len()
        == pol.ingress@[i].peers@.len());
}

proof fn lemma_ingress_rule(np: PolicyObject, pol: NetworkPolicy, i: int)
    requires
        policy_of(np) == Some(pol@),
        0 <= i < elements(np.spec->0.ingress).len(),
    ensures
        pol.ingress@.len() == elements(np.spec->0.ingress).len(),
        pol.ingress@[i]@ == rule_of(elements(np.spec->0.ingress)[i]),
        crate::netpol_wire::peer_views(pol.ingress@[i].peers@) == peers_of(
            elements(elements(np.spec->0.ingress)[i].peers),
        ),
{
    let rules = elements(np.spec->0.ingress);
    assert(crate::objects::list_or_empty(np.spec->0.ingress) == rules);
    let views = crate::netpol_wire::rule_views(pol.ingress@);
    assert(views == pol@.ingress);
    assert(views == rules_of(rules));
    assert(views.len() == pol.ingress@.len());
    assert(rules_of(rules).len() == rules.len());
    assert(views[i] == pol.ingress@[i]@);
    assert(rules_of(rules)[i] == rule_of(rules[i]));
    assert(crate::objects::list_or_empty(rules[i].peers) == elements(rules[i].peers));
}

/// Whether an entry that selects pods reaches a pod, on the fields of the entry.
pub open spec fn object_reaches(
    p: PeerObject,
    pod: Pod,
    namespaces: Seq<Namespace>,
    policy_ns: Seq<char>,
) -> bool {
    &&& p.ip_block is None
    &&& !pod.host_network
    &&& p.namespace_selector is None ==> pod.namespace@ == policy_ns
    &&& p.namespace_selector matches Some(sel) ==> exists|n: int|
        0 <= n < namespaces.len() && (#[trigger] namespaces[n]).name@ == pod.namespace@
            && meets_object(sel, namespaces[n].labels@)
    &&& p.pod_selector matches Some(sel) ==> meets_object(sel, pod.labels@)
}

/// A pod that some entry of the list of a rule reaches is admitted by what the rule becomes: each
/// of its addresses of the family is among the addresses that the rule's peers resolve to.
pub proof fn lemma_reached_pod_is_admitted(
    np: PolicyObject,
    pol: NetworkPolicy,
    i: int,
    j: int,
    pods: Seq<Pod>,
    namespaces: Seq<Namespace>,
    family: IpFamily,
    d: int,
    k: int,
)
    requires
        policy_of(np) == Some(pol@),
        0 <= i < elements(np.spec->0.ingress).len(),
        0 <= j < elements(elements(np.spec->0.ingress)[i].peers).len(),
        0 <= d < pods.len(),
        object_reaches(
            elements(elements(np.spec->0.ingress)[i].peers)[j],
            pods[d],
            namespaces,
            np.metadata.namespace->0@,
        ),
        0 <= k < pods[d].ips@.len(),
        pods[d].ips@[k] is V4 == (family == IpFamily::V4),
    ensures
        crate::netpol::translate::peers_ips(
            pol.ingress@[i].peers@,
            pods,
            namespaces,
            pol.namespace@,
            family,
        ).contains(pods[d].ips@[k].text()),
{
    let list = elements(elements(np.spec->0.ingress)[i].peers);
    let p = list[j];
    lemma_every_peer_is_kept(np, pol, i, j);
    let peers = pol.ingress@[i].peers@;
    let m = readable_among(list, j) as int;
    let x = peers[m];
    let pod = pods[d];
    assert(pol.namespace@ == np.metadata.namespace->0@);
    let t = pod.ips@[k].text();
    if let Peer::Selector { namespace_selector, pod_selector } = x {
        if p.namespace_selector is Some {
            let n = choose|n: int|
                0 <= n < namespaces.len() && (#[trigger] namespaces[n]).name@ == pod.namespace@
                    && meets_object(p.namespace_selector->0, namespaces[n].labels@);
            assert(namespace_selector is Some);
            assert(meets(namespace_selector->0, namespaces[n].labels@));
            assert(namespaces[n].name@ == pod.namespace@);
        }
        if p.pod_selector is Some {
            assert(pod_selector is Some);
            assert(meets(pod_selector->0, pod.labels@));
        }
        assert(reaches(namespace_selector, pod_selector, pod, namespaces, pol.namespace@));
    }
    crate::netpol::peer_laws::lemma_entries_by_fields(
        peers,
        pods,
        namespaces,
        pol.namespace@,
        family,
        t,
    );
    assert(entry_from(
        peers[m],
        pods[d],
        pods[d].ips@[k],
        namespaces,
        pol.namespace@,
        family,
        t,
    ));
}

/// Lists of entries, rules and ports keep their order: what becomes of two lists of entries one
/// after the other is what becomes of the first, then of the second; an entry becomes its peer or
/// nothing.
pub proof fn lemma_peers_add_up(a: Seq<PeerObject>, b: Seq<PeerObject>, p: PeerObject)
    ensures
        peers_of(Seq::empty()).len() == 0,
        readable(p) ==> peers_of(seq![p]) == seq![peer_of(p)->0],
        !readable(p) ==> peers_of(seq![p]).len() == 0,
        peers_of(a + b) == peers_of(a) + peers_of(b),
{
    let f = |p: PeerObject|
        match peer_of(p) {
            Some(x) => seq![x],
            None => Seq::empty(),
        };
    crate::seqs::lemma_flat_parts(a, b, p, f);
}

/// Each port of a rule is kept, in the order of its list: its protocol in lower case, that of
/// TCP where it has none, and its number where it is given by one that is a port's.
pub proof fn lemma_every_port_is_kept(np: PolicyObject, pol: NetworkPolicy, i: int, q: int)
    requires
        policy_of(np) == Some(pol@),
        0 <= i < elements(np.spec->0.ingress).len(),
        0 <= q < elements(elements(np.spec->0.ingress)[i].ports).len(),
    ensures
        ({
            let list = elements(elements(np.spec->0.ingress)[i].ports);
            let ports = pol.ingress@[i].ports@;
            &&& ports.len() == list.len()
            &&& list[q].protocol is Some ==> ports[q].protocol@ == crate::text::lowercase_of(
                list[q].protocol->0@,
            )
            &&& list[q].protocol is None ==> ports[q].protocol@ == crate::text::lowercase_of(
                "TCP"@,
            )
            &&& ports[q].port is Some <==> (list[q].port matches Some(IntOrString::Int(n)) && 0
                <= n <= 65535)
            &&& ports[q].port matches Some(x) ==> list[q].port == Some(IntOrString::Int(x as i32))
        }),
{
    lemma_ingress_rule(np, pol, i);
    let rule = elements(np.spec->0.ingress)[i];
    let list = elements(rule.ports);
    assert(crate::objects::list_or_empty(rule.ports) == list);
    let ports = pol.ingress@[i].ports@;
    let views = crate::netpol_wire::port_views(ports);
    assert(views == rule_of(rule).ports);
    assert(views.len() == ports.len());
    assert(views[q] == ports[q]@);
}

/// A rule without ports keeps none.
pub proof fn lemma_no_ports_are_added(np: PolicyObject, pol: NetworkPolicy, i: int)
    requires
        policy_of(np) == Some(pol@),
        0 <= i < elements(np.spec->0.ingress).len(),
    ensures
        pol.ingress@[i].ports@.len() == elements(elements(np.spec->0.ingress)[i].ports).len(),
{
    lemma_ingress_rule(np, pol, i);
    let rule = elements(np.spec->0.ingress)[i];
    assert(crate::objects::list_or_empty(rule.ports) == elements(rule.ports));
    assert(crate::netpol_wire::port_views(pol.ingress@[i].ports@).len()
        == pol.ingress@[i].ports@.len());
}

/// Whether a list of names holds a name.
pub open spec fn names(list: Option<Vec<String>>, name: Seq<char>) -> bool {
    exists|i: int| 0 <= i < elements(list).len() && (#[trigger] elements(list)[i])@ == name
}

/// A policy of the cluster becomes one exactly where it has a namespace and a name and says what
/// it asks for. It keeps the names, the pods that it selects (all, where it has no selector) and
/// all its rules; it restricts the directions that it names, and where it names none, traffic to
/// its pods, and traffic from them where it has rules for that.
pub proof fn lemma_policy_is_kept(
    np: PolicyObject,
    pol: NetworkPolicy,
    labels: Map<Seq<char>, Seq<char>>,
)
    ensures
        policy_of(np) is Some <==> np.metadata.namespace is Some && np.metadata.name is Some
            && np.spec is Some,
        policy_of(np) == Some(pol@) ==> {
            let spec = np.spec->0;
            let unnamed = elements(spec.policy_types).len() == 0;
            &&& pol.namespace@ == np.metadata.namespace->0@
            &&& pol.name@ == np.metadata.name->0@
            &&& spec.pod_selector matches Some(o) ==> (meets(pol.pod_selector, labels)
                <==> meets_object(o, labels))
            &&& spec.pod_selector is None ==> meets(pol.pod_selector, labels)
            &&& pol.policy_types.ingress <==> names(spec.policy_types, "Ingress"@) || unnamed
            &&& pol.policy_types.egress <==> names(spec.policy_types, "Egress"@) || (unnamed
                && elements(spec.egress).len() > 0)
            &&& pol.ingress@.len() == elements(spec.ingress).len()
            &&& pol.egress@.len() == elements(spec.egress).len()
            &&& crate::netpol_wire::rule_views(pol.ingress@) == rules_of(elements(spec.ingress))
            &&& crate::netpol_wire::rule_views(pol.egress@) == rules_of(elements(spec.egress))
        },
{
    if policy_of(np) == Some(pol@) {
        let spec = np.spec->0;
        if spec.pod_selector is Some {
            lemma_selector_is_kept(spec.pod_selector->0, pol.pod_selector, labels);
        } else {
            assert(pol.pod_selector@.requirements.len()
                == pol.pod_selector.match_expressions@.len());
        }
        lemma_named(spec.policy_types, "Ingress"@);
        lemma_named(spec.policy_types, "Egress"@);
        assert(crate::objects::list_or_empty(spec.egress) == elements(spec.egress));
        assert(crate::objects::list_or_empty(spec.ingress) == elements(spec.ingress));
        assert(crate::netpol_wire::rule_views(pol.ingress@).len() == pol.ingress@.len());
        assert(crate::netpol_wire::rule_views(pol.egress@).len() == pol.egress@.len());
        assert(pol@.ingress == rules_of(elements(spec.ingress)));
        assert(pol@.egress == rules_of(elements(spec.egress)));
    }
}

proof fn lemma_named(list: Option<Vec<String>>, name: Seq<char>)
    ensures
        crate::text::texts(crate::objects::list_or_empty(list)).contains(name) <==> names(
            list,
            name,
        ),
        crate::text::texts(crate::objects::list_or_empty(list)).len() == elements(list).len(),
{
    let all = elements(list);
    assert(crate::objects::list_or_empty(list) == all);
    let t = crate::text::texts(all);
    if t.contains(name) {
        let i = choose|i: int| 0 <= i < t.len() && t[i] == name;
        assert(all[i]@ == name);
    }
    if names(list, name) {
        let i = choose|i: int| 0 <= i < all.len() && (#[trigger] all[i])@ == name;
        assert(t[i] == name);
    }
}

/// The addresses of a pod are those that its list spells, in order; where it has no list, the one
/// that its single text spells; otherwise it has none.
pub proof fn lemma_pod_addresses_by_fields(p: PodObject)
    ensures
        p.pod_ips matches Some(l) ==> pod_addresses(p) == crate::objects::ips_of(
            crate::text::texts(l@),
        ),
        p.pod_ips is None && p.pod_ip is None ==> pod_addresses(p).len() == 0,
        p.pod_ips is None && p.pod_ip is Some ==> pod_addresses(p) == crate::objects::ips_of(
            seq![p.pod_ip->0@],
        ),
{
    if p.pod_ips is None && p.pod_ip is Some {
        crate::object_laws::lemma_addresses_add_up(Seq::empty(), Seq::empty(), p.pod_ip->0@);
    }
}

/// Policies, rules, peers and ports are shown with all their fields, lists one by one.
pub proof fn lemma_policy_is_shown(pol: NetworkPolicy, i: int, j: int)
    ensures
        pol@.namespace == pol.namespace@,
        pol@.name == pol.name@,
        pol@.types == pol.policy_types,
        pol@.pods.labels == pol.pod_selector.match_labels@,
        pol@.ingress.len() == pol.ingress@.len(),
        pol@.egress.len() == pol.egress@.len(),
        0 <= i < pol.ingress@.len() ==> pol@.ingress[i].peers.len() == pol.ingress@[i].peers@.len()
            && pol@.ingress[i].ports.len() == pol.ingress@[i].ports@.len(),
        0 <= i < pol.ingress@.len() && 0 <= j < pol.ingress@[i].ports@.len() ==> {
            let p = pol.ingress@[i].ports@[j];
            pol@.ingress[i].ports[j].protocol == p.protocol@ && pol@.ingress[i].ports[j].port
                == p.port
        },
        0 <= i < pol.ingress@.len() && 0 <= j < pol.ingress@[i].peers@.len() ==> {
            match pol.ingress@[i].peers@[j] {
                Peer::IpBlock { cidr, except } => pol@.ingress[i].peers[j] == (PeerView::IpBlock {
                    cidr,
                    except: except@,
                }),
                Peer::Selector { .. } => pol@.ingress[i].peers[j] is Selector,
            }
        },
{
}

} // verus!
