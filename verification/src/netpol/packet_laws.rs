//! What the firewall plan does to a packet.
//!
//! The rules of a plan are read as steps: conditions and what is done where all of them hold. The
//! text of every rule is that of its step, and running the steps on a packet says whether it is
//! let through.

use vstd::prelude::*;

use crate::common::ipfamily::IpFamily;
use crate::netpol::model::{NetworkPolicy, Pod, PortSpec};
use crate::netpol::plan_laws::{fenced, guards, refusal};
use crate::netpol::synth::Scene;

verus! {

/// A condition of a rule.
pub enum Cond {
    /// The packet goes to the address.
    To(Seq<char>),
    /// The packet comes from the address.
    From(Seq<char>),
    /// The packet goes to an address in the set.
    ToSet(Seq<char>),
    /// The packet comes from an address in the set.
    FromSet(Seq<char>),
    /// The packet is of the protocol.
    Protocol(Seq<char>),
    /// The packet goes to the port.
    Port(nat),
    /// The packet comes from the node itself.
    FromNode,
    /// The packet is marked as permitted.
    Marked,
    /// The packet is not marked as permitted.
    Unmarked,
}

/// What a rule does to a packet.
pub enum Deed {
    /// Asks another chain.
    Ask(Seq<char>),
    /// Lets it through.
    Accept,
    /// Refuses it.
    Refuse,
    /// Logs it.
    Log,
    /// Ends the chain.
    Return,
    /// Marks it as permitted.
    Mark,
    /// Takes that mark away.
    Unmark,
    /// Marks it as accepted.
    MarkAccepted,
}

/// A rule: what it does where all its conditions hold.
pub struct Step {
    pub conds: Seq<Cond>,
    pub deed: Deed,
}

/// The text of a condition.
pub open spec fn cond_text(c: Cond) -> Seq<char> {
    match c {
        Cond::To(ip) => " -d "@ + ip,
        Cond::From(ip) => " -s "@ + ip,
        Cond::ToSet(s) => " -m set --match-set "@ + s + " dst"@,
        Cond::FromSet(s) => " -m set --match-set "@ + s + " src"@,
        Cond::Protocol(p) => " -p "@ + p,
        Cond::Port(n) => " --dport "@ + crate::text::dec(n),
        Cond::FromNode => " -m addrtype --src-type LOCAL"@,
        Cond::Marked => " -m mark --mark "@ + "0x10000/0x10000"@,
        Cond::Unmarked => " -m mark ! --mark "@ + "0x10000/0x10000"@,
    }
}

/// The text of what a rule does.
pub open spec fn deed_text(d: Deed, family: IpFamily) -> Seq<char> {
    match d {
        Deed::Ask(chain) => " -j "@ + chain,
        Deed::Accept => " -j ACCEPT"@,
        Deed::Refuse => " -j "@ + refusal(family),
        Deed::Log => " -j NFLOG --nflog-group 100 -m limit --limit 10/minute --limit-burst 10"@,
        Deed::Return => " -j RETURN"@,
        Deed::Mark => " -j MARK --set-xmark "@ + "0x10000/0x10000"@,
        Deed::Unmark => " -j MARK --set-mark 0/0x10000"@,
        Deed::MarkAccepted => " -j MARK --set-mark "@ + "0x20000/0x20000"@,
    }
}

/// The texts of conditions, one after the other.
pub open spec fn conds_text(conds: Seq<Cond>) -> Seq<char>
    decreases conds.len(),
{
    if conds.len() == 0 {
        Seq::empty()
    } else {
        conds_text(conds.drop_last()) + cond_text(conds.last())
    }
}

/// The text of a rule of a chain.
pub open spec fn rule_text(chain: Seq<char>, t: Step, family: IpFamily) -> Seq<char> {
    "-A "@ + chain + conds_text(t.conds) + deed_text(t.deed, family)
}

/// A packet.
pub struct Packet {
    pub from: Seq<char>,
    pub to: Seq<char>,
    pub protocol: Seq<char>,
    pub port: nat,
}

/// What the rules refer to: which addresses are in a set, which are the node's own, and which
/// chains mark the packet as permitted when they are asked.
pub struct World {
    pub in_set: spec_fn(Seq<char>, Seq<char>) -> bool,
    pub is_node: spec_fn(Seq<char>) -> bool,
    pub marks: spec_fn(Seq<char>) -> bool,
}

/// How a chain ends for a packet before its last rule.
pub enum End {
    Accepted,
    Refused,
    Returned,
}

/// The packet on its way through a chain.
pub struct Way {
    /// It is marked as permitted.
    pub marked: bool,
    /// It is marked as accepted.
    pub accepted: bool,
    /// The chain has ended for it.
    pub end: Option<End>,
}

/// Whether a condition holds of a packet.
pub open spec fn holds(c: Cond, k: Packet, marked: bool, w: World) -> bool {
    match c {
        Cond::To(ip) => k.to == ip,
        Cond::From(ip) => k.from == ip,
        Cond::ToSet(s) => (w.in_set)(s, k.to),
        Cond::FromSet(s) => (w.in_set)(s, k.from),
        Cond::Protocol(p) => k.protocol == p,
        Cond::Port(n) => k.port == n,
        Cond::FromNode => (w.is_node)(k.from),
        Cond::Marked => marked,
        Cond::Unmarked => !marked,
    }
}

/// Whether all conditions hold of a packet.
pub open spec fn all_hold(conds: Seq<Cond>, k: Packet, marked: bool, w: World) -> bool {
    forall|i: int| 0 <= i < conds.len() ==> holds(#[trigger] conds[i], k, marked, w)
}

/// The packet after one rule.
pub open spec fn after(way: Way, t: Step, k: Packet, w: World) -> Way {
    if way.end is Some || !all_hold(t.conds, k, way.marked, w) {
        way
    } else {
        match t.deed {
            Deed::Ask(chain) => Way { marked: way.marked || (w.marks)(chain), ..way },
            Deed::Accept => Way { end: Some(End::Accepted), ..way },
            Deed::Refuse => Way { end: Some(End::Refused), ..way },
            Deed::Log => way,
            Deed::Return => Way { end: Some(End::Returned), ..way },
            Deed::Mark => Way { marked: true, ..way },
            Deed::Unmark => Way { marked: false, ..way },
            Deed::MarkAccepted => Way { accepted: true, ..way },
        }
    }
}

/// The packet after the rules of a chain.
pub open spec fn run(way: Way, steps: Seq<Step>, k: Packet, w: World) -> Way
    decreases steps.len(),
{
    if steps.len() == 0 {
        way
    } else {
        after(run(way, steps.drop_last(), k, w), steps.last(), k, w)
    }
}

/// A packet that comes into a chain, marked or not.
pub open spec fn entering(marked: bool) -> Way {
    Way { marked, accepted: false, end: None }
}

proof fn lemma_run_sum(way: Way, a: Seq<Step>, b: Seq<Step>, k: Packet, w: World)
    ensures
        run(way, a + b, k, w) == run(run(way, a, k, w), b, k, w),
    decreases b.len(),
{
    if b.len() == 0 {
        assert(a + b =~= a);
    } else {
        lemma_run_sum(way, a, b.drop_last(), k, w);
        assert((a + b).drop_last() =~= a + b.drop_last());
        assert((a + b).last() == b.last());
    }
}

proof fn lemma_run_one(way: Way, t: Step, k: Packet, w: World)
    ensures
        run(way, seq![t], k, w) == after(way, t, k, w),
{
    let one = seq![t];
    assert(one.drop_last().len() == 0);
    assert(run(way, one.drop_last(), k, w) == way);
    assert(one.last() == t);
}

proof fn lemma_conds_text_sum(a: Seq<Cond>, b: Seq<Cond>)
    ensures
        conds_text(a + b) == conds_text(a) + conds_text(b),
    decreases b.len(),
{
    if b.len() == 0 {
        assert(a + b =~= a);
        assert(conds_text(a) + conds_text(b) =~= conds_text(a));
    } else {
        lemma_conds_text_sum(a, b.drop_last());
        assert((a + b).drop_last() =~= a + b.drop_last());
        assert((a + b).last() == b.last());
        assert(conds_text(a + b) =~= conds_text(a) + conds_text(b));
    }
}

proof fn lemma_conds_text_one(c: Cond)
    ensures
        conds_text(seq![c]) == cond_text(c),
        conds_text(Seq::empty()) == Seq::<char>::empty(),
{
    let one = seq![c];
    assert(one.drop_last().len() == 0);
    assert(conds_text(one.drop_last()) =~= Seq::<char>::empty());
    assert(one.last() == c);
    assert(conds_text(one) =~= cond_text(c));
}

proof fn lemma_conds_text_two(a: Cond, b: Cond)
    ensures
        conds_text(seq![a, b]) == cond_text(a) + cond_text(b),
{
    assert(seq![a, b] =~= seq![a] + seq![b]);
    lemma_conds_text_sum(seq![a], seq![b]);
    lemma_conds_text_one(a);
    lemma_conds_text_one(b);
}

proof fn lemma_flat_map<A, B, C>(
    s: Seq<A>,
    f: spec_fn(A) -> Seq<B>,
    g: spec_fn(B) -> C,
    h: spec_fn(A) -> Seq<C>,
)
    requires
        forall|i: int| 0 <= i < s.len() ==> f(#[trigger] s[i]).map_values(g) == h(s[i]),
    ensures
        crate::seqs::flat(s, f).map_values(g) == crate::seqs::flat(s, h),
    decreases s.len(),
{
    if s.len() == 0 {
        assert(crate::seqs::flat(s, f).map_values(g) =~= crate::seqs::flat(s, h));
    } else {
        let front = s.drop_last();
        assert forall|i: int| 0 <= i < front.len() implies f(#[trigger] front[i]).map_values(g)
            == h(front[i]) by {
            assert(front[i] == s[i]);
        }
        lemma_flat_map(front, f, g, h);
        assert(s[s.len() - 1] == s.last());
        assert((crate::seqs::flat(front, f) + f(s.last())).map_values(g)
            =~= crate::seqs::flat(front, f).map_values(g) + f(s.last()).map_values(g));
    }
}

// ---------------------------------------------------------------------------------------------
// The chain of a pod
// ---------------------------------------------------------------------------------------------

/// The steps for one address of a pod: for packets to it every policy is asked, packets from it
/// are marked by the chain for what is not restricted.
pub open spec fn address_steps(chains: Seq<Seq<char>>, ip: Seq<char>) -> Seq<Step> {
    chains.map_values(
        |c: Seq<char>| Step { conds: seq![Cond::To(ip)], deed: Deed::Ask(c) },
    ).push(Step { conds: seq![Cond::From(ip)], deed: Deed::Ask("KUBE-NWPLCY-DEFAULT"@) })
}

/// The steps of the chain of a pod.
pub open spec fn pod_steps(sc: Scene, pod: Pod) -> Seq<Step> {
    let ips = crate::netpol::translate::family_texts(pod.ips@, sc.family);
    let chains = sc.chains_for(pod);
    seq![Step { conds: Seq::empty(), deed: Deed::Ask("KUBE-NWPLCY-COMMON"@) }] + ips.map_values(
        |ip: Seq<char>|
            Step { conds: seq![Cond::FromNode, Cond::To(ip)], deed: Deed::Accept },
    ) + crate::seqs::flat(ips, |ip: Seq<char>| address_steps(chains, ip)) + seq![
        Step { conds: seq![Cond::Unmarked], deed: Deed::Log },
        Step { conds: seq![Cond::Unmarked], deed: Deed::Refuse },
        Step { conds: Seq::empty(), deed: Deed::Unmark },
        Step { conds: Seq::empty(), deed: Deed::MarkAccepted },
    ]
}

/// The rules of a pod that has a chain begin with exactly the texts of its steps, in order; what
/// follows leads packets to the chain from the three ways in.
pub proof fn lemma_pod_rules_are_steps(sc: Scene, pod: Pod)
    requires
        fenced(sc, pod),
    ensures
        ({
            let steps = pod_steps(sc, pod);
            &&& sc.pod_rules(pod).len() >= steps.len()
            &&& sc.pod_rules(pod).take(steps.len() as int) == steps.map_values(
                |t: Step| rule_text(sc.chain_of_pod(pod), t, sc.family),
            )
        }),
{
    crate::netpol::plan_laws::lemma_rules_for_fenced_pods_only(sc, pod);
    let chain = sc.chain_of_pod(pod);
    let g = |t: Step| rule_text(chain, t, sc.family);
    let ips = sc.ips_of(pod);
    let chains = sc.chains_for(pod);
    let first = seq![Step { conds: Seq::empty(), deed: Deed::Ask("KUBE-NWPLCY-COMMON"@) }];
    let fl = |ip: Seq<char>|
        Step { conds: seq![Cond::FromNode, Cond::To(ip)], deed: Deed::Accept };
    let locals = ips.map_values(fl);
    let fa = |ip: Seq<char>| address_steps(chains, ip);
    let asks = crate::seqs::flat(ips, fa);
    let ends = seq![
        Step { conds: seq![Cond::Unmarked], deed: Deed::Log },
        Step { conds: seq![Cond::Unmarked], deed: Deed::Refuse },
        Step { conds: Seq::empty(), deed: Deed::Unmark },
        Step { conds: Seq::empty(), deed: Deed::MarkAccepted },
    ];
    let steps = pod_steps(sc, pod);
    assert(steps == first + locals + asks + ends);
    let fj = |ip: Seq<char>| sc.jump_rules(pod, ip);
    lemma_conds_text_one(Cond::Unmarked);
    assert(first.map_values(g) =~= seq![sc.first_rule(pod)]) by {
        assert(g(first[0]) =~= sc.first_rule(pod));
    }
    assert(locals.map_values(g) =~= ips.map_values(|ip: Seq<char>| sc.local_rule(pod, ip))) by {
        assert forall|i: int| 0 <= i < ips.len() implies g(#[trigger] locals[i]) == sc.local_rule(
            pod,
            ips[i],
        ) by {
            lemma_conds_text_two(Cond::FromNode, Cond::To(ips[i]));
            reveal_strlit(" -m addrtype --src-type LOCAL -d ");
            reveal_strlit(" -m addrtype --src-type LOCAL");
            reveal_strlit(" -d ");
            assert(" -m addrtype --src-type LOCAL -d "@ =~= " -m addrtype --src-type LOCAL"@
                + " -d "@);
            assert(g(locals[i]) =~= sc.local_rule(pod, ips[i]));
        }
    }
    assert forall|i: int| 0 <= i < ips.len() implies fa(#[trigger] ips[i]).map_values(g) == fj(
        ips[i],
    ) by {
        lemma_address_steps_text(sc, pod, ips[i]);
    }
    lemma_flat_map(ips, fa, g, fj);
    assert(ends.map_values(g) =~= sc.end_rules(pod)) by {
        assert(g(ends[0]) =~= sc.end_rules(pod)[0]);
        assert(g(ends[1]) =~= sc.end_rules(pod)[1]);
        assert(g(ends[2]) =~= sc.end_rules(pod)[2]);
        assert(g(ends[3]) =~= sc.end_rules(pod)[3]);
    }
    assert(steps.map_values(g) =~= first.map_values(g) + locals.map_values(g) + asks.map_values(g)
        + ends.map_values(g));
    assert(sc.pod_rules(pod).take(steps.len() as int) =~= steps.map_values(g));
}

proof fn lemma_address_steps_text(sc: Scene, pod: Pod, ip: Seq<char>)
    ensures
        address_steps(sc.chains_for(pod), ip).map_values(
            |t: Step| rule_text(sc.chain_of_pod(pod), t, sc.family),
        ) == sc.jump_rules(pod, ip),
{
    let chain = sc.chain_of_pod(pod);
    let g = |t: Step| rule_text(chain, t, sc.family);
    let chains = sc.chains_for(pod);
    let steps = address_steps(chains, ip);
    let rules = sc.jump_rules(pod, ip);
    lemma_conds_text_one(Cond::To(ip));
    lemma_conds_text_one(Cond::From(ip));
    assert forall|i: int| 0 <= i < steps.len() implies g(#[trigger] steps[i]) == rules[i] by {
        assert(g(steps[i]) =~= rules[i]);
    }
    assert(steps.map_values(g) =~= rules);
}

proof fn lemma_address_run(
    way: Way,
    chains: Seq<Seq<char>>,
    n: int,
    ip: Seq<char>,
    k: Packet,
    w: World,
)
    requires
        way.end is None,
        0 <= n <= chains.len(),
    ensures
        run(way, address_steps(chains, ip).take(n), k, w) == (Way {
            marked: way.marked || (k.to == ip && exists|c: int|
                0 <= c < n && (w.marks)(#[trigger] chains[c])),
            ..way
        }),
    decreases n,
{
    let steps = address_steps(chains, ip);
    if n > 0 {
        lemma_address_run(way, chains, n - 1, ip, k, w);
        assert(steps.take(n).drop_last() =~= steps.take(n - 1));
        let t = steps.take(n).last();
        assert(t == steps[n - 1]);
        assert(t.conds =~= seq![Cond::To(ip)]);
        assert(t.conds[0] == Cond::To(ip));
        let before = run(way, steps.take(n - 1), k, w);
        assert(all_hold(t.conds, k, before.marked, w) == (k.to == ip)) by {
            if k.to == ip {
                assert forall|i: int| 0 <= i < t.conds.len() implies holds(
                    #[trigger] t.conds[i],
                    k,
                    before.marked,
                    w,
                ) by {}
            }
        }
        if exists|c: int| 0 <= c < n && (w.marks)(#[trigger] chains[c]) {
            let c = choose|c: int| 0 <= c < n && (w.marks)(#[trigger] chains[c]);
            if c < n - 1 {
                assert(exists|c: int| 0 <= c < n - 1 && (w.marks)(#[trigger] chains[c]));
            }
        }
        if (w.marks)(chains[n - 1]) {
            assert(exists|c: int| 0 <= c < n && (w.marks)(#[trigger] chains[c]));
        }
        if exists|c: int| 0 <= c < n - 1 && (w.marks)(#[trigger] chains[c]) {
            let c = choose|c: int| 0 <= c < n - 1 && (w.marks)(#[trigger] chains[c]);
            assert(0 <= c < n && (w.marks)(chains[c]));
        }
    }
}

proof fn lemma_addresses_run(
    way: Way,
    ips: Seq<Seq<char>>,
    chains: Seq<Seq<char>>,
    k: Packet,
    w: World,
)
    requires
        way.end is None,
    ensures
        run(way, crate::seqs::flat(ips, |ip: Seq<char>| address_steps(chains, ip)), k, w) == (Way {
            marked: way.marked || (ips.contains(k.to) && exists|c: int|
                0 <= c < chains.len() && (w.marks)(#[trigger] chains[c])) || (ips.contains(k.from)
                && (w.marks)("KUBE-NWPLCY-DEFAULT"@)),
            ..way
        }),
    decreases ips.len(),
{
    let f = |ip: Seq<char>| address_steps(chains, ip);
    if ips.len() > 0 {
        let front = ips.drop_last();
        let ip = ips.last();
        lemma_addresses_run(way, front, chains, k, w);
        let mid = run(way, crate::seqs::flat(front, f), k, w);
        let steps = address_steps(chains, ip);
        lemma_run_sum(way, crate::seqs::flat(front, f), steps, k, w);
        let n = chains.len() as int;
        lemma_address_run(mid, chains, n, ip, k, w);
        let late = run(mid, steps.take(n), k, w);
        assert(steps =~= steps.take(n) + seq![steps[n]]);
        lemma_run_sum(mid, steps.take(n), seq![steps[n]], k, w);
        lemma_run_one(late, steps[n], k, w);
        let t = steps[n];
        assert(t.conds =~= seq![Cond::From(ip)]);
        assert(t.conds[0] == Cond::From(ip));
        assert(all_hold(t.conds, k, late.marked, w) == (k.from == ip));
        assert(ips =~= front + seq![ip]);
        crate::seqs::lemma_in_sum(front, seq![ip], k.to);
        crate::seqs::lemma_in_sum(front, seq![ip], k.from);
        assert(seq![ip][0] == ip);
    }
}

proof fn lemma_locals_run(way: Way, ips: Seq<Seq<char>>, k: Packet, w: World)
    requires
        way.end is None,
    ensures
        ({
            let locals = ips.map_values(
                |ip: Seq<char>|
                    Step { conds: seq![Cond::FromNode, Cond::To(ip)], deed: Deed::Accept },
            );
            run(way, locals, k, w) == if (w.is_node)(k.from) && ips.contains(k.to) {
                Way { end: Some(End::Accepted), ..way }
            } else {
                way
            }
        }),
    decreases ips.len(),
{
    let fl = |ip: Seq<char>|
        Step { conds: seq![Cond::FromNode, Cond::To(ip)], deed: Deed::Accept };
    if ips.len() > 0 {
        let front = ips.drop_last();
        let ip = ips.last();
        lemma_locals_run(way, front, k, w);
        assert(ips.map_values(fl).drop_last() =~= front.map_values(fl));
        let t = ips.map_values(fl).last();
        assert(t.conds =~= seq![Cond::FromNode, Cond::To(ip)]);
        assert(t.conds[0] == Cond::FromNode);
        assert(t.conds[1] == Cond::To(ip));
        assert(all_hold(t.conds, k, way.marked, w) == ((w.is_node)(k.from) && k.to == ip));
        assert(ips =~= front + seq![ip]);
        crate::seqs::lemma_in_sum(front, seq![ip], k.to);
        assert(seq![ip][0] == ip);
    }
}

/// What the chain of a pod does to a packet to one of the pod's addresses that belongs to no
/// connection and is no control message, so that the common rules leave it alone, and that comes
/// neither from the node nor from the pod itself: it is marked accepted, and loses the other mark,
/// exactly where the chain of some policy that restricts traffic to the pod marks it; otherwise
/// it is refused.
pub proof fn lemma_pod_chain_decides(sc: Scene, pod: Pod, k: Packet, w: World)
    requires
        fenced(sc, pod),
        crate::netpol::translate::family_texts(pod.ips@, sc.family).contains(k.to),
        !crate::netpol::translate::family_texts(pod.ips@, sc.family).contains(k.from),
        !(w.is_node)(k.from),
        !(w.marks)("KUBE-NWPLCY-COMMON"@),
    ensures
        run(entering(false), pod_steps(sc, pod), k, w) == (if exists|p: int|
            0 <= p < sc.policies.len() && guards(#[trigger] sc.policies[p], pod) && (w.marks)(
                sc.chain_of(sc.policies[p]),
            ) {
            Way { marked: false, accepted: true, end: None }
        } else {
            Way { marked: false, accepted: false, end: Some(End::Refused) }
        }),
{
    let ips = crate::netpol::translate::family_texts(pod.ips@, sc.family);
    let chains = sc.chains_for(pod);
    let permitted = exists|p: int|
        0 <= p < sc.policies.len() && guards(#[trigger] sc.policies[p], pod) && (w.marks)(
            sc.chain_of(sc.policies[p]),
        );
    let any = exists|c: int| 0 <= c < chains.len() && (w.marks)(#[trigger] chains[c]);
    assert(permitted == any) by {
        if permitted {
            let p = choose|p: int|
                0 <= p < sc.policies.len() && guards(#[trigger] sc.policies[p], pod) && (w.marks)(
                    sc.chain_of(sc.policies[p]),
                );
            let name = sc.chain_of(sc.policies[p]);
            crate::netpol::plan_laws::lemma_chains_of_guards(sc, pod, name);
            let c = choose|c: int| 0 <= c < chains.len() && chains[c] == name;
            assert((w.marks)(chains[c]));
        }
        if any {
            let c = choose|c: int| 0 <= c < chains.len() && (w.marks)(#[trigger] chains[c]);
            assert(chains.contains(chains[c]));
            crate::netpol::plan_laws::lemma_chains_of_guards(sc, pod, chains[c]);
            let p = choose|p: int|
                0 <= p < sc.policies.len() && guards(#[trigger] sc.policies[p], pod) && chains[c]
                    == sc.chain_of(sc.policies[p]);
            assert(guards(sc.policies[p], pod));
        }
    }
    let start = entering(false);
    let t0 = Step { conds: Seq::<Cond>::empty(), deed: Deed::Ask("KUBE-NWPLCY-COMMON"@) };
    let first = seq![t0];
    let fl = |ip: Seq<char>|
        Step { conds: seq![Cond::FromNode, Cond::To(ip)], deed: Deed::Accept };
    let locals = ips.map_values(fl);
    let fa = |ip: Seq<char>| address_steps(chains, ip);
    let asks = crate::seqs::flat(ips, fa);
    let e0 = Step { conds: seq![Cond::Unmarked], deed: Deed::Log };
    let e1 = Step { conds: seq![Cond::Unmarked], deed: Deed::Refuse };
    let e2 = Step { conds: Seq::<Cond>::empty(), deed: Deed::Unmark };
    let e3 = Step { conds: Seq::<Cond>::empty(), deed: Deed::MarkAccepted };
    let ends = seq![e0, e1, e2, e3];
    let steps = pod_steps(sc, pod);
    assert(steps == first + locals + asks + ends);
    lemma_run_sum(start, first + locals + asks, ends, k, w);
    lemma_run_sum(start, first + locals, asks, k, w);
    lemma_run_sum(start, first, locals, k, w);
    lemma_run_one(start, t0, k, w);
    assert(run(start, first, k, w) == start);
    lemma_locals_run(start, ips, k, w);
    lemma_addresses_run(start, ips, chains, k, w);
    let mid = Way { marked: permitted, accepted: false, end: None };
    assert(run(start, first + locals + asks, k, w) == mid);
    assert(ends =~= seq![e0] + seq![e1] + seq![e2] + seq![e3]);
    lemma_run_sum(mid, seq![e0] + seq![e1] + seq![e2], seq![e3], k, w);
    lemma_run_sum(mid, seq![e0] + seq![e1], seq![e2], k, w);
    lemma_run_sum(mid, seq![e0], seq![e1], k, w);
    lemma_run_one(mid, e0, k, w);
    lemma_run_one(mid, e1, k, w);
    assert(e1.conds[0] == Cond::Unmarked);
    assert(all_hold(e1.conds, k, mid.marked, w) == !permitted);
    let m1 = after(mid, e1, k, w);
    lemma_run_one(m1, e2, k, w);
    let m2 = after(m1, e2, k, w);
    lemma_run_one(m2, e3, k, w);
}

/// What the node itself sends to an address of a pod is accepted, whatever policies there are.
pub proof fn lemma_node_reaches_pods(sc: Scene, pod: Pod, k: Packet, w: World)
    requires
        fenced(sc, pod),
        crate::netpol::translate::family_texts(pod.ips@, sc.family).contains(k.to),
        (w.is_node)(k.from),
    ensures
        run(entering(false), pod_steps(sc, pod), k, w).end == Some(End::Accepted),
{
    let ips = crate::netpol::translate::family_texts(pod.ips@, sc.family);
    let chains = sc.chains_for(pod);
    let start = entering(false);
    let t0 = Step { conds: Seq::<Cond>::empty(), deed: Deed::Ask("KUBE-NWPLCY-COMMON"@) };
    let first = seq![t0];
    let fl = |ip: Seq<char>|
        Step { conds: seq![Cond::FromNode, Cond::To(ip)], deed: Deed::Accept };
    let locals = ips.map_values(fl);
    let fa = |ip: Seq<char>| address_steps(chains, ip);
    let asks = crate::seqs::flat(ips, fa);
    let ends = seq![
        Step { conds: seq![Cond::Unmarked], deed: Deed::Log },
        Step { conds: seq![Cond::Unmarked], deed: Deed::Refuse },
        Step { conds: Seq::empty(), deed: Deed::Unmark },
        Step { conds: Seq::empty(), deed: Deed::MarkAccepted },
    ];
    let steps = pod_steps(sc, pod);
    assert(steps == first + locals + asks + ends);
    assert(first + locals + asks + ends =~= first + locals + (asks + ends));
    lemma_run_sum(start, first + locals, asks + ends, k, w);
    lemma_run_sum(start, first, locals, k, w);
    lemma_run_one(start, t0, k, w);
    let begun = run(start, first, k, w);
    lemma_locals_run(begun, ips, k, w);
    let done = run(begun, locals, k, w);
    lemma_ended(done, asks + ends, k, w);
}

proof fn lemma_ended(way: Way, steps: Seq<Step>, k: Packet, w: World)
    requires
        way.end is Some,
    ensures
        run(way, steps, k, w) == way,
    decreases steps.len(),
{
    if steps.len() > 0 {
        lemma_ended(way, steps.drop_last(), k, w);
    }
}

// ---------------------------------------------------------------------------------------------
// The chain of a policy
// ---------------------------------------------------------------------------------------------

/// The steps that permit what meets the conditions: mark it, and end the chain for it.
pub open spec fn permit_steps(conds: Seq<Cond>) -> Seq<Step> {
    seq![
        Step { conds, deed: Deed::Mark },
        Step { conds: conds + seq![Cond::Marked], deed: Deed::Return },
    ]
}

/// The conditions on the source of a packet of a rule of a policy: none where it has no peers,
/// otherwise membership in the set of pods or in that of networks, each where it has entries.
pub open spec fn source_conds(sc: Scene, pol: NetworkPolicy, i: int) -> Seq<Seq<Cond>> {
    if pol.ingress@[i].peers@.len() == 0 {
        seq![Seq::empty()]
    } else {
        sc.rule_sets(pol, i).map_values(
            |s: crate::netpol::synth::SetView| seq![Cond::FromSet(s.name)],
        )
    }
}

/// The conditions on the port of a packet of a rule of a policy: none where it has no ports,
/// otherwise the protocol of one, and its number where it has one.
pub open spec fn port_conds(ports: Seq<PortSpec>) -> Seq<Seq<Cond>> {
    if ports.len() == 0 {
        seq![Seq::empty()]
    } else {
        ports.map_values(
            |p: PortSpec|
                match p.port {
                    Some(n) => seq![Cond::Protocol(p.protocol@), Cond::Port(n as nat)],
                    None => seq![Cond::Protocol(p.protocol@)],
                },
        )
    }
}

/// The steps of one rule of a policy.
pub open spec fn rule_steps(sc: Scene, pol: NetworkPolicy, i: int) -> Seq<Step> {
    let to = Cond::ToSet(sc.target_set(pol));
    let ports = port_conds(pol.ingress@[i].ports@);
    crate::seqs::flat(
        source_conds(sc, pol, i),
        |s: Seq<Cond>| crate::seqs::flat(ports, |q: Seq<Cond>| permit_steps(s + seq![to] + q)),
    )
}

/// The steps of the chain of a policy.
pub open spec fn policy_steps(sc: Scene, pol: NetworkPolicy) -> Seq<Step> {
    crate::seqs::flat(
        crate::netpol::synth::indices(pol.ingress@.len()),
        |i: int| rule_steps(sc, pol, i),
    )
}

/// The rules of a policy are exactly the texts of its steps, in order.
pub proof fn lemma_policy_rules_are_steps(sc: Scene, pol: NetworkPolicy)
    requires
        pol.policy_types.ingress,
    ensures
        sc.policy_rules(pol) == policy_steps(sc, pol).map_values(
            |t: Step| rule_text(sc.chain_of(pol), t, sc.family),
        ),
{
    let g = |t: Step| rule_text(sc.chain_of(pol), t, sc.family);
    let f = |i: int| rule_steps(sc, pol, i);
    let h = |i: int| sc.rule_rules(pol, i);
    let idx = crate::netpol::synth::indices(pol.ingress@.len());
    assert forall|j: int| 0 <= j < idx.len() implies f(#[trigger] idx[j]).map_values(g) == h(
        idx[j],
    ) by {
        lemma_rule_rules_are_steps(sc, pol, idx[j]);
    }
    lemma_flat_map(idx, f, g, h);
}

proof fn lemma_rule_rules_are_steps(sc: Scene, pol: NetworkPolicy, i: int)
    ensures
        sc.rule_rules(pol, i) == rule_steps(sc, pol, i).map_values(
            |t: Step| rule_text(sc.chain_of(pol), t, sc.family),
        ),
{
    let chain = sc.chain_of(pol);
    let g = |t: Step| rule_text(chain, t, sc.family);
    let to = Cond::ToSet(sc.target_set(pol));
    let target = crate::netpol::synth::set_match(sc.target_set(pol), " dst"@);
    let pc = port_conds(pol.ingress@[i].ports@);
    let pt = crate::netpol::synth::port_matches(pol.ingress@[i].ports@);
    let sco = source_conds(sc, pol, i);
    let st = sc.rule_sources(pol, i);
    let fs = |s: Seq<Cond>|
        crate::seqs::flat(pc, |q: Seq<Cond>| permit_steps(s + seq![to] + q));
    let fx = |s: Seq<char>|
        crate::seqs::flat(pt, |p: Seq<char>| crate::netpol::synth::verdict(chain, s, target, p));
    assert(sco.len() == st.len());
    assert(pc.len() == pt.len());
    assert forall|a: int| 0 <= a < sco.len() implies conds_text(#[trigger] sco[a]) == st[a] by {
        if pol.ingress@[i].peers@.len() == 0 {
            lemma_conds_text_one(to);
        } else {
            let name = sc.rule_sets(pol, i)[a].name;
            lemma_conds_text_one(Cond::FromSet(name));
        }
    }
    assert forall|b: int| 0 <= b < pc.len() implies conds_text(#[trigger] pc[b]) == pt[b] by {
        let ports = pol.ingress@[i].ports@;
        if ports.len() == 0 {
            lemma_conds_text_one(to);
        } else {
            let p = ports[b];
            lemma_conds_text_one(Cond::Protocol(p.protocol@));
            if p.port is Some {
                lemma_conds_text_two(
                    Cond::Protocol(p.protocol@),
                    Cond::Port(p.port->0 as nat),
                );
                assert(conds_text(pc[b]) =~= pt[b]);
            }
        }
    }
    assert forall|a: int| 0 <= a < sco.len() implies fs(#[trigger] sco[a]).map_values(g) == fx(
        st[a],
    ) by {
        let s = sco[a];
        let x = st[a];
        let fq = |q: Seq<Cond>| permit_steps(s + seq![to] + q);
        let fp = |p: Seq<char>| crate::netpol::synth::verdict(chain, x, target, p);
        assert forall|b: int| 0 <= b < pc.len() implies fq(#[trigger] pc[b]).map_values(g) == fp(
            pt[b],
        ) by {
            lemma_permit_text(chain, s, to, pc[b], x, target, pt[b], sc.family);
        }
        lemma_flat_map2(pc, fq, g, pt, fp);
    }
    lemma_flat_map2(sco, fs, g, st, fx);
}

proof fn lemma_flat_map2<A, B, C, D>(
    s: Seq<A>,
    f: spec_fn(A) -> Seq<B>,
    g: spec_fn(B) -> C,
    t: Seq<D>,
    h: spec_fn(D) -> Seq<C>,
)
    requires
        s.len() == t.len(),
        forall|i: int| 0 <= i < s.len() ==> f(#[trigger] s[i]).map_values(g) == h(t[i]),
    ensures
        crate::seqs::flat(s, f).map_values(g) == crate::seqs::flat(t, h),
    decreases s.len(),
{
    if s.len() == 0 {
        assert(crate::seqs::flat(s, f).map_values(g) =~= crate::seqs::flat(t, h));
    } else {
        let a = s.drop_last();
        let b = t.drop_last();
        assert forall|i: int| 0 <= i < a.len() implies f(#[trigger] a[i]).map_values(g) == h(
            b[i],
        ) by {
            assert(a[i] == s[i]);
        }
        lemma_flat_map2(a, f, g, b, h);
        assert(s[s.len() - 1] == s.last());
        assert((crate::seqs::flat(a, f) + f(s.last())).map_values(g)
            =~= crate::seqs::flat(a, f).map_values(g) + f(s.last()).map_values(g));
    }
}

proof fn lemma_permit_text(
    chain: Seq<char>,
    s: Seq<Cond>,
    to: Cond,
    q: Seq<Cond>,
    source: Seq<char>,
    target: Seq<char>,
    port: Seq<char>,
    family: IpFamily,
)
    requires
        conds_text(s) == source,
        cond_text(to) == target,
        conds_text(q) == port,
    ensures
        permit_steps(s + seq![to] + q).map_values(|t: Step| rule_text(chain, t, family))
            == crate::netpol::synth::verdict(chain, source, target, port),
{
    let g = |t: Step| rule_text(chain, t, family);
    let conds = s + seq![to] + q;
    lemma_conds_text_sum(s + seq![to], q);
    lemma_conds_text_sum(s, seq![to]);
    lemma_conds_text_one(to);
    lemma_conds_text_sum(conds, seq![Cond::Marked]);
    lemma_conds_text_one(Cond::Marked);
    let steps = permit_steps(conds);
    let v = crate::netpol::synth::verdict(chain, source, target, port);
    assert(g(steps[0]) =~= v[0]);
    assert(g(steps[1]) =~= v[1]);
    assert(steps.map_values(g) =~= v);
}

/// Whether no condition is on marks.
pub open spec fn is_markless(conds: Seq<Cond>) -> bool {
    forall|i: int|
        0 <= i < conds.len() ==> !(#[trigger] conds[i] is Marked) && !(conds[i] is Unmarked)
}

proof fn lemma_permit_run(way: Way, conds: Seq<Cond>, k: Packet, w: World)
    requires
        is_markless(conds),
    ensures
        run(way, permit_steps(conds), k, w) == (if way.end is None && all_hold(conds, k, false, w) {
            Way { marked: true, end: Some(End::Returned), ..way }
        } else {
            way
        }),
{
    let t0 = Step { conds, deed: Deed::Mark };
    let more = conds + seq![Cond::Marked];
    let t1 = Step { conds: more, deed: Deed::Return };
    assert(permit_steps(conds) =~= seq![t0] + seq![t1]);
    lemma_run_sum(way, seq![t0], seq![t1], k, w);
    lemma_run_one(way, t0, k, w);
    lemma_marks_do_not_matter(conds, k, way.marked, w);
    let mid = after(way, t0, k, w);
    lemma_run_one(mid, t1, k, w);
    if way.end is None {
        lemma_marks_do_not_matter(conds, k, mid.marked, w);
        if all_hold(conds, k, false, w) {
            assert forall|i: int| 0 <= i < more.len() implies holds(
                #[trigger] more[i],
                k,
                mid.marked,
                w,
            ) by {
                if i < conds.len() {
                    assert(more[i] == conds[i]);
                }
            }
        } else {
            if all_hold(more, k, mid.marked, w) {
                assert forall|i: int| 0 <= i < conds.len() implies holds(
                    #[trigger] conds[i],
                    k,
                    mid.marked,
                    w,
                ) by {
                    assert(more[i] == conds[i]);
                }
            }
        }
    }
}

proof fn lemma_marks_do_not_matter(conds: Seq<Cond>, k: Packet, marked: bool, w: World)
    requires
        is_markless(conds),
    ensures
        all_hold(conds, k, marked, w) == all_hold(conds, k, false, w),
{
    if all_hold(conds, k, marked, w) {
        assert forall|i: int| 0 <= i < conds.len() implies holds(
            #[trigger] conds[i],
            k,
            false,
            w,
        ) by {
            assert(holds(conds[i], k, marked, w));
        }
    }
    if all_hold(conds, k, false, w) {
        assert forall|i: int| 0 <= i < conds.len() implies holds(
            #[trigger] conds[i],
            k,
            marked,
            w,
        ) by {
            assert(holds(conds[i], k, false, w));
        }
    }
}

/// What a list of blocks of steps does where each block either permits the packet or leaves it
/// alone: the first that permits it decides.
proof fn lemma_blocks_run<A>(
    way: Way,
    s: Seq<A>,
    f: spec_fn(A) -> Seq<Step>,
    permits: spec_fn(A) -> bool,
    k: Packet,
    w: World,
)
    requires
        forall|i: int, x: Way|
            0 <= i < s.len() ==> #[trigger] run(x, f(s[i]), k, w) == (if x.end is None && permits(
                s[i],
            ) {
                Way { marked: true, end: Some(End::Returned), ..x }
            } else {
                x
            }),
    ensures
        run(way, crate::seqs::flat(s, f), k, w) == (if way.end is None && exists|i: int|
            0 <= i < s.len() && permits(#[trigger] s[i]) {
            Way { marked: true, end: Some(End::Returned), ..way }
        } else {
            way
        }),
    decreases s.len(),
{
    if s.len() > 0 {
        let front = s.drop_last();
        let n = s.len() - 1;
        assert forall|i: int, x: Way| 0 <= i < front.len() implies #[trigger] run(
            x,
            f(front[i]),
            k,
            w,
        ) == (if x.end is None && permits(front[i]) {
            Way { marked: true, end: Some(End::Returned), ..x }
        } else {
            x
        }) by {
            assert(front[i] == s[i]);
            assert(run(x, f(s[i]), k, w) == run(x, f(front[i]), k, w));
        }
        lemma_blocks_run(way, front, f, permits, k, w);
        let mid = run(way, crate::seqs::flat(front, f), k, w);
        lemma_run_sum(way, crate::seqs::flat(front, f), f(s[n]), k, w);
        assert(s.last() == s[n]);
        let end = run(mid, f(s[n]), k, w);
        if exists|i: int| 0 <= i < s.len() && permits(#[trigger] s[i]) {
            let i = choose|i: int| 0 <= i < s.len() && permits(#[trigger] s[i]);
            if i < n {
                assert(permits(front[i]));
            }
        }
        if exists|i: int| 0 <= i < front.len() && permits(#[trigger] front[i]) {
            let i = choose|i: int| 0 <= i < front.len() && permits(#[trigger] front[i]);
            assert(permits(s[i]));
        }
    }
}

/// Whether the ports of a rule admit a packet: it has none, or one is of the packet's protocol
/// and, where it has a number, of its number.
pub open spec fn port_admits(ports: Seq<PortSpec>, k: Packet) -> bool {
    ports.len() == 0 || exists|q: int|
        0 <= q < ports.len() && k.protocol == (#[trigger] ports[q]).protocol@ && (
        ports[q].port is None || ports[q].port->0 == k.port)
}

/// Whether the sources of a rule admit a packet: it has no peers, or one of its sets has the
/// packet's source.
pub open spec fn source_admits(
    sc: Scene,
    pol: NetworkPolicy,
    i: int,
    k: Packet,
    w: World,
) -> bool {
    pol.ingress@[i].peers@.len() == 0 || exists|x: int|
        0 <= x < sc.rule_sets(pol, i).len() && (w.in_set)(
            (#[trigger] sc.rule_sets(pol, i)[x]).name,
            k.from,
        )
}

/// Whether a rule of a policy permits a packet.
pub open spec fn rule_permits(
    sc: Scene,
    pol: NetworkPolicy,
    i: int,
    k: Packet,
    w: World,
) -> bool {
    &&& source_admits(sc, pol, i, k, w)
    &&& (w.in_set)(sc.target_set(pol), k.to)
    &&& port_admits(pol.ingress@[i].ports@, k)
}

proof fn lemma_rule_run(sc: Scene, pol: NetworkPolicy, i: int, way: Way, k: Packet, w: World)
    requires
        0 <= i < pol.ingress@.len(),
    ensures
        run(way, rule_steps(sc, pol, i), k, w) == (if way.end is None && rule_permits(
            sc,
            pol,
            i,
            k,
            w,
        ) {
            Way { marked: true, end: Some(End::Returned), ..way }
        } else {
            way
        }),
{
    let to = Cond::ToSet(sc.target_set(pol));
    let ports = pol.ingress@[i].ports@;
    let pc = port_conds(ports);
    let sco = source_conds(sc, pol, i);
    let fs = |s: Seq<Cond>|
        crate::seqs::flat(pc, |q: Seq<Cond>| permit_steps(s + seq![to] + q));
    let hit = (w.in_set)(sc.target_set(pol), k.to);
    let pq = |q: Seq<Cond>| all_hold(q, k, false, w);
    let port_ok = exists|b: int| 0 <= b < pc.len() && pq(#[trigger] pc[b]);
    let ps = |s: Seq<Cond>| all_hold(s, k, false, w) && hit && port_ok;
    assert forall|b: int| 0 <= b < pc.len() implies is_markless(#[trigger] pc[b]) by {}
    assert forall|a: int, x: Way| 0 <= a < sco.len() implies #[trigger] run(
        x,
        fs(sco[a]),
        k,
        w,
    ) == (if x.end is None && ps(sco[a]) {
        Way { marked: true, end: Some(End::Returned), ..x }
    } else {
        x
    }) by {
        let s = sco[a];
        assert(is_markless(s));
        let fq = |q: Seq<Cond>| permit_steps(s + seq![to] + q);
        let pp = |q: Seq<Cond>| all_hold(s, k, false, w) && hit && all_hold(q, k, false, w);
        assert forall|b: int, y: Way| 0 <= b < pc.len() implies #[trigger] run(
            y,
            fq(pc[b]),
            k,
            w,
        ) == (if y.end is None && pp(pc[b]) {
            Way { marked: true, end: Some(End::Returned), ..y }
        } else {
            y
        }) by {
            let conds = s + seq![to] + pc[b];
            lemma_three_conds(s, to, pc[b], k, w);
            lemma_permit_run(y, conds, k, w);
        }
        lemma_blocks_run(x, pc, fq, pp, k, w);
        if exists|b: int| 0 <= b < pc.len() && pp(#[trigger] pc[b]) {
            let b = choose|b: int| 0 <= b < pc.len() && pp(#[trigger] pc[b]);
            assert(pq(pc[b]));
        }
        if ps(s) {
            let b = choose|b: int| 0 <= b < pc.len() && pq(#[trigger] pc[b]);
            assert(pp(pc[b]));
        }
    }
    lemma_blocks_run(way, sco, fs, ps, k, w);
    lemma_port_ok(ports, k, w);
    lemma_source_ok(sc, pol, i, k, w);
    assert(port_ok == port_admits(ports, k)) by {
        if port_ok {
            let b = choose|b: int| 0 <= b < pc.len() && pq(#[trigger] pc[b]);
            assert(all_hold(pc[b], k, false, w));
        }
        if port_admits(ports, k) {
            let b = choose|b: int| 0 <= b < pc.len() && all_hold(#[trigger] pc[b], k, false, w);
            assert(pq(pc[b]));
        }
    }
    if exists|a: int| 0 <= a < sco.len() && ps(#[trigger] sco[a]) {
        let a = choose|a: int| 0 <= a < sco.len() && ps(#[trigger] sco[a]);
        assert(all_hold(sco[a], k, false, w));
    }
    if rule_permits(sc, pol, i, k, w) {
        let a = choose|a: int| 0 <= a < sco.len() && all_hold(#[trigger] sco[a], k, false, w);
        assert(ps(sco[a]));
    }
}

proof fn lemma_three_conds(s: Seq<Cond>, to: Cond, q: Seq<Cond>, k: Packet, w: World)
    requires
        is_markless(s),
        is_markless(q),
        to is ToSet,
    ensures
        is_markless(s + seq![to] + q),
        all_hold(s + seq![to] + q, k, false, w) == (all_hold(s, k, false, w) && holds(
            to,
            k,
            false,
            w,
        ) && all_hold(q, k, false, w)),
{
    let all = s + seq![to] + q;
    let n = s.len() as int;
    assert forall|i: int| 0 <= i < all.len() implies !(#[trigger] all[i] is Marked) && !(
    all[i] is Unmarked) by {
        if i < n {
            assert(all[i] == s[i]);
        } else if i == n {
            assert(all[i] == to);
        } else {
            assert(all[i] == q[i - n - 1]);
        }
    }
    if all_hold(all, k, false, w) {
        assert forall|i: int| 0 <= i < s.len() implies holds(#[trigger] s[i], k, false, w) by {
            assert(all[i] == s[i]);
        }
        assert(all[n] == to);
        assert forall|i: int| 0 <= i < q.len() implies holds(#[trigger] q[i], k, false, w) by {
            assert(all[n + 1 + i] == q[i]);
        }
    }
    if all_hold(s, k, false, w) && holds(to, k, false, w) && all_hold(q, k, false, w) {
        assert forall|i: int| 0 <= i < all.len() implies holds(#[trigger] all[i], k, false, w) by {
            if i < n {
                assert(all[i] == s[i]);
            } else if i == n {
                assert(all[i] == to);
            } else {
                assert(all[i] == q[i - n - 1]);
            }
        }
    }
}

proof fn lemma_port_ok(ports: Seq<PortSpec>, k: Packet, w: World)
    ensures
        port_admits(ports, k) <==> exists|b: int|
            0 <= b < port_conds(ports).len() && all_hold(
                #[trigger] port_conds(ports)[b],
                k,
                false,
                w,
            ),
{
    let pc = port_conds(ports);
    if ports.len() == 0 {
        assert(all_hold(pc[0], k, false, w));
    } else {
        assert forall|b: int| 0 <= b < ports.len() implies all_hold(
            #[trigger] pc[b],
            k,
            false,
            w,
        ) == (k.protocol == ports[b].protocol@ && (ports[b].port is None || ports[b].port->0
            == k.port)) by {
            let p = ports[b];
            assert(pc[b][0] == Cond::Protocol(p.protocol@));
            if p.port is Some {
                assert(pc[b][1] == Cond::Port(p.port->0 as nat));
            }
        }
        if port_admits(ports, k) {
            let q = choose|q: int|
                0 <= q < ports.len() && k.protocol == (#[trigger] ports[q]).protocol@ && (
                ports[q].port is None || ports[q].port->0 == k.port);
            assert(all_hold(pc[q], k, false, w));
        }
        if exists|b: int| 0 <= b < pc.len() && all_hold(#[trigger] pc[b], k, false, w) {
            let b = choose|b: int| 0 <= b < pc.len() && all_hold(#[trigger] pc[b], k, false, w);
            assert(k.protocol == ports[b].protocol@);
        }
    }
}

proof fn lemma_source_ok(sc: Scene, pol: NetworkPolicy, i: int, k: Packet, w: World)
    ensures
        source_admits(sc, pol, i, k, w) <==> exists|a: int|
            0 <= a < source_conds(sc, pol, i).len() && all_hold(
                #[trigger] source_conds(sc, pol, i)[a],
                k,
                false,
                w,
            ),
{
    let sco = source_conds(sc, pol, i);
    let sets = sc.rule_sets(pol, i);
    if pol.ingress@[i].peers@.len() == 0 {
        assert(all_hold(sco[0], k, false, w));
    } else {
        assert forall|a: int| 0 <= a < sets.len() implies all_hold(#[trigger] sco[a], k, false, w)
            == (w.in_set)(sets[a].name, k.from) by {
            assert(sco[a][0] == Cond::FromSet(sets[a].name));
        }
        if source_admits(sc, pol, i, k, w) {
            let x = choose|x: int|
                0 <= x < sets.len() && (w.in_set)((#[trigger] sets[x]).name, k.from);
            assert(all_hold(sco[x], k, false, w));
        }
        if exists|a: int| 0 <= a < sco.len() && all_hold(#[trigger] sco[a], k, false, w) {
            let a = choose|a: int| 0 <= a < sco.len() && all_hold(#[trigger] sco[a], k, false, w);
            assert((w.in_set)(sets[a].name, k.from));
        }
    }
}

/// The chain of a policy marks a packet exactly where some rule of the policy permits it; it
/// neither accepts nor refuses it.
pub proof fn lemma_policy_chain_marks(
    sc: Scene,
    pol: NetworkPolicy,
    marked: bool,
    k: Packet,
    w: World,
)
    ensures
        run(entering(marked), policy_steps(sc, pol), k, w).marked <==> marked || exists|i: int|
            0 <= i < pol.ingress@.len() && #[trigger] rule_permits(sc, pol, i, k, w),
        run(entering(marked), policy_steps(sc, pol), k, w).end is None || run(
            entering(marked),
            policy_steps(sc, pol),
            k,
            w,
        ).end == Some(End::Returned),
        !run(entering(marked), policy_steps(sc, pol), k, w).accepted,
{
    let idx = crate::netpol::synth::indices(pol.ingress@.len());
    let f = |i: int| rule_steps(sc, pol, i);
    let permits = |i: int| rule_permits(sc, pol, i, k, w);
    assert forall|j: int, x: Way| 0 <= j < idx.len() implies #[trigger] run(
        x,
        f(idx[j]),
        k,
        w,
    ) == (if x.end is None && permits(idx[j]) {
        Way { marked: true, end: Some(End::Returned), ..x }
    } else {
        x
    }) by {
        lemma_rule_run(sc, pol, idx[j], x, k, w);
    }
    lemma_blocks_run(entering(marked), idx, f, permits, k, w);
    if exists|j: int| 0 <= j < idx.len() && permits(#[trigger] idx[j]) {
        let j = choose|j: int| 0 <= j < idx.len() && permits(#[trigger] idx[j]);
        assert(rule_permits(sc, pol, idx[j], k, w));
    }
    if exists|i: int| 0 <= i < pol.ingress@.len() && #[trigger] rule_permits(sc, pol, i, k, w) {
        let i = choose|i: int|
            0 <= i < pol.ingress@.len() && #[trigger] rule_permits(sc, pol, i, k, w);
        assert(idx[i] == i);
        assert(permits(idx[i]));
    }
}

// ---------------------------------------------------------------------------------------------
// The plan as a whole
// ---------------------------------------------------------------------------------------------

/// Sets and chains are as the plan makes them: a set of single addresses has exactly its entries,
/// and the chain of a policy for traffic to its pods marks the packet exactly where running its
/// steps does.
pub open spec fn is_in_force(sc: Scene, k: Packet, w: World) -> bool {
    &&& forall|x: int, a: Seq<char>| #![trigger (w.in_set)(sc.sets()[x].name, a)]
        0 <= x < sc.sets().len() && sc.sets()[x].set_type
            == crate::netpol::ipset::SetType::HashIp ==> (w.in_set)(sc.sets()[x].name, a)
            == sc.sets()[x].entries.contains(a)
    &&& forall|p: int|
        0 <= p < sc.policies.len() && (#[trigger] sc.policies[p]).policy_types.ingress ==> (
        w.marks)(sc.chain_of(sc.policies[p])) == run(
            entering(false),
            policy_steps(sc, sc.policies[p]),
            k,
            w,
        ).marked
}

/// Whether a rule of a policy admits the source of a packet: it has no peers; or the source is an
/// address of a pod that one of its peers reaches; or it is in the set of the rule's networks.
pub open spec fn admits_source(
    sc: Scene,
    pol: NetworkPolicy,
    i: int,
    from: Seq<char>,
    w: World,
) -> bool {
    let peers = pol.ingress@[i].peers@;
    ||| peers.len() == 0
    ||| crate::netpol::translate::peers_ips(
        peers,
        sc.pods,
        sc.namespaces,
        pol.namespace@,
        sc.family,
    ).contains(from)
    ||| crate::netpol::translate::peers_nets(peers, sc.family).len() > 0 && (w.in_set)(
        crate::netpol::naming::indexed_src_ipblock_set_name(
            pol.namespace@,
            pol.name@,
            i,
            sc.family,
        ),
        from,
    )
}

/// With the plan in force, a packet to an address of a pod that has a chain, which belongs to no
/// connection and comes neither from the node nor from the pod itself, is accepted exactly where
/// some rule of a policy that restricts traffic to the pod admits its source and its port, and is
/// refused otherwise.
pub proof fn lemma_plan_enforces_policies(
    sc: Scene,
    j: int,
    k: Packet,
    w: World,
)
    requires
        0 <= j < sc.pods.len(),
        fenced(sc, sc.pods[j]),
        crate::netpol::translate::family_texts(sc.pods[j].ips@, sc.family).contains(k.to),
        !crate::netpol::translate::family_texts(sc.pods[j].ips@, sc.family).contains(k.from),
        !(w.is_node)(k.from),
        !(w.marks)("KUBE-NWPLCY-COMMON"@),
        is_in_force(sc, k, w),
    ensures
        ({
            let way = run(entering(false), pod_steps(sc, sc.pods[j]), k, w);
            let admitted = exists|p: int, i: int|
                0 <= p < sc.policies.len() && guards(sc.policies[p], sc.pods[j]) && 0 <= i
                    < sc.policies[p].ingress@.len() && #[trigger] admits_source(
                    sc,
                    sc.policies[p],
                    i,
                    k.from,
                    w,
                ) && port_admits(sc.policies[p].ingress@[i].ports@, k);
            &&& admitted ==> way.accepted && way.end is None
            &&& !admitted ==> !way.accepted && way.end == Some(End::Refused)
        }),
{
    let pod = sc.pods[j];
    lemma_pod_chain_decides(sc, pod, k, w);
    let admitted = exists|p: int, i: int|
        0 <= p < sc.policies.len() && guards(sc.policies[p], pod) && 0 <= i
            < sc.policies[p].ingress@.len() && #[trigger] admits_source(
            sc,
            sc.policies[p],
            i,
            k.from,
            w,
        ) && port_admits(sc.policies[p].ingress@[i].ports@, k);
    let permitted = exists|p: int|
        0 <= p < sc.policies.len() && guards(#[trigger] sc.policies[p], pod) && (w.marks)(
            sc.chain_of(sc.policies[p]),
        );
    if permitted {
        let p = choose|p: int|
            0 <= p < sc.policies.len() && guards(#[trigger] sc.policies[p], pod) && (w.marks)(
                sc.chain_of(sc.policies[p]),
            );
        let pol = sc.policies[p];
        lemma_policy_chain_marks(sc, pol, false, k, w);
        let i = choose|i: int|
            0 <= i < pol.ingress@.len() && #[trigger] rule_permits(sc, pol, i, k, w);
        lemma_permits_where_admitted(sc, j, p, i, k, w);
        assert(admits_source(sc, sc.policies[p], i, k.from, w));
    }
    if admitted {
        let (p, i) = choose|p: int, i: int|
            0 <= p < sc.policies.len() && guards(sc.policies[p], pod) && 0 <= i
                < sc.policies[p].ingress@.len() && #[trigger] admits_source(
                sc,
                sc.policies[p],
                i,
                k.from,
                w,
            ) && port_admits(sc.policies[p].ingress@[i].ports@, k);
        let pol = sc.policies[p];
        lemma_permits_where_admitted(sc, j, p, i, k, w);
        lemma_policy_chain_marks(sc, pol, false, k, w);
        assert(rule_permits(sc, pol, i, k, w));
        assert((w.marks)(sc.chain_of(sc.policies[p])));
    }
}

proof fn lemma_permits_where_admitted(
    sc: Scene,
    j: int,
    p: int,
    i: int,
    k: Packet,
    w: World,
)
    requires
        0 <= j < sc.pods.len(),
        0 <= p < sc.policies.len(),
        guards(sc.policies[p], sc.pods[j]),
        0 <= i < sc.policies[p].ingress@.len(),
        crate::netpol::translate::family_texts(sc.pods[j].ips@, sc.family).contains(k.to),
        is_in_force(sc, k, w),
    ensures
        rule_permits(sc, sc.policies[p], i, k, w) <==> admits_source(
            sc,
            sc.policies[p],
            i,
            k.from,
            w,
        ) && port_admits(sc.policies[p].ingress@[i].ports@, k),
{
    let pol = sc.policies[p];
    let pod = sc.pods[j];
    let target = crate::netpol::laws::target_view(sc, pol);
    lemma_policy_set_is_made(sc, p, target);
    let x = choose|x: int| 0 <= x < sc.sets().len() && sc.sets()[x] == target;
    assert((w.in_set)(sc.sets()[x].name, k.to) == sc.sets()[x].entries.contains(k.to));
    crate::netpol::peer_laws::lemma_family_texts_has(pod.ips@, sc.family, k.to);
    let a = choose|a: int|
        0 <= a < pod.ips@.len() && (#[trigger] pod.ips@[a]) is V4 == (sc.family
            == IpFamily::V4) && pod.ips@[a].text() == k.to;
    crate::netpol::plan_laws::lemma_protected_addresses(sc, pol, k.to);
    assert(sc.pods[j].ips@[a].text() == k.to);
    assert(sc.target_ips(pol).contains(k.to));
    assert((w.in_set)(sc.target_set(pol), k.to));
    let rule = pol.ingress@[i];
    let sets = sc.rule_sets(pol, i);
    let ips = sc.rule_ips(pol, rule);
    let nets = sc.rule_nets(rule);
    crate::netpol::peer_laws::lemma_sorted_entries(
        crate::netpol::translate::peers_ips(
            rule.peers@,
            sc.pods,
            sc.namespaces,
            pol.namespace@,
            sc.family,
        ),
        k.from,
    );
    if rule.peers@.len() > 0 {
        assert forall|y: int| 0 <= y < sets.len() implies sc.policy_sets(pol).contains(
            #[trigger] sets[y],
        ) by {
            lemma_rule_set_in_policy(sc, pol, i, y);
        }
        if ips.len() > 0 {
            let s = sets[0];
            lemma_policy_set_is_made(sc, p, s);
            let z = choose|z: int| 0 <= z < sc.sets().len() && sc.sets()[z] == s;
            assert((w.in_set)(sc.sets()[z].name, k.from) == sc.sets()[z].entries.contains(k.from));
            assert((w.in_set)(sets[0].name, k.from) == ips.contains(k.from));
        }
        if nets.len() > 0 {
            let s = sets[sets.len() - 1];
            assert(s.name == crate::netpol::naming::indexed_src_ipblock_set_name(
                pol.namespace@,
                pol.name@,
                i,
                sc.family,
            ));
        }
        if source_admits(sc, pol, i, k, w) {
            let y = choose|y: int|
                0 <= y < sets.len() && (w.in_set)((#[trigger] sets[y]).name, k.from);
            assert(y == 0 || y == 1);
        }
        if ips.contains(k.from) {
            assert((w.in_set)(sets[0].name, k.from));
        }
    }
}

proof fn lemma_policy_set_is_made(sc: Scene, p: int, s: crate::netpol::synth::SetView)
    requires
        0 <= p < sc.policies.len(),
        sc.policies[p].policy_types.ingress,
        s == crate::netpol::laws::target_view(sc, sc.policies[p]) || sc.policy_sets(
            sc.policies[p],
        ).contains(s),
    ensures
        sc.sets().contains(s),
{
    let pol = sc.policies[p];
    let f = |p: NetworkPolicy| sc.policy_sets(p);
    let own = sc.policy_sets(pol);
    if s == crate::netpol::laws::target_view(sc, pol) {
        assert(own[0] == s);
    }
    assert(own.contains(s));
    crate::seqs::lemma_flat_has(sc.policies, f, p, s);
    crate::seqs::lemma_in_sum(crate::seqs::flat(sc.policies, f), sc.local_sets(), s);
}

proof fn lemma_rule_set_in_policy(sc: Scene, pol: NetworkPolicy, i: int, y: int)
    requires
        pol.policy_types.ingress,
        0 <= i < pol.ingress@.len(),
        0 <= y < sc.rule_sets(pol, i).len(),
    ensures
        sc.policy_sets(pol).contains(sc.rule_sets(pol, i)[y]),
{
    let g = |i: int| sc.rule_sets(pol, i);
    let idx = crate::netpol::synth::indices(pol.ingress@.len());
    let s = sc.rule_sets(pol, i)[y];
    assert(idx[i] == i);
    assert(g(idx[i])[y] == s);
    crate::seqs::lemma_flat_has(idx, g, i, s);
    let first = seq![crate::netpol::laws::target_view(sc, pol)];
    assert(sc.policy_sets(pol) =~= first + crate::seqs::flat(idx, g));
    crate::seqs::lemma_in_sum(first, crate::seqs::flat(idx, g), s);
}

} // verus!
