//! Laws of what is read from the fields of objects: lists of texts as addresses and networks,
//! the addresses of a service.

use vstd::prelude::*;

use crate::ip::IpAddr;
use crate::labels::Labels;
use crate::net::IpNet;
use crate::objects::{ingress_ips, ips_of, nets_of, ServiceSpec};

verus! {

/// The texts of a list of strings are those of its strings, one for each.
pub proof fn lemma_texts_one_by_one(v: Seq<String>)
    ensures
        crate::text::texts(v).len() == v.len(),
        forall|i: int| 0 <= i < v.len() ==> #[trigger] crate::text::texts(v)[i] == v[i]@,
{
}

/// Whether a map that may be missing gives the key the value.
pub open spec fn gives(m: Option<Labels>, key: Seq<char>, value: Seq<char>) -> bool {
    m matches Some(l) && l@.contains_key(key) && l@[key] == value
}

/// Whether a map that may be missing has the key.
pub open spec fn has_key(m: Option<Labels>, key: Seq<char>) -> bool {
    m matches Some(l) && l@.contains_key(key)
}

/// The list that may be missing: its elements, or none.
pub open spec fn elements<A>(v: Option<Vec<A>>) -> Seq<A> {
    if v is Some {
        v->0@
    } else {
        Seq::empty()
    }
}

/// Of a list of texts the addresses come out that they spell, in their order, and nothing of a
/// text that spells none.
pub proof fn lemma_addresses_add_up(a: Seq<Seq<char>>, b: Seq<Seq<char>>, t: Seq<char>)
    ensures
        ips_of(Seq::empty()) == Seq::<IpAddr>::empty(),
        crate::ip::ip_of(t) matches Some(ip) ==> ips_of(seq![t]) == seq![ip],
        crate::ip::ip_of(t) is None ==> ips_of(seq![t]) == Seq::<IpAddr>::empty(),
        ips_of(a + b) == ips_of(a) + ips_of(b),
{
    let f = |t: Seq<char>|
        match crate::ip::ip_of(t) {
            Some(a) => seq![a],
            None => Seq::empty(),
        };
    crate::seqs::lemma_flat_parts(a, b, t, f);
}

/// An address comes out exactly where some text of the list spells it.
pub proof fn lemma_addresses_spelled(texts: Seq<Seq<char>>, ip: IpAddr)
    ensures
        ips_of(texts).contains(ip) <==> exists|i: int|
            0 <= i < texts.len() && crate::ip::ip_of(#[trigger] texts[i]) == Some(ip),
{
    let f = |t: Seq<char>|
        match crate::ip::ip_of(t) {
            Some(a) => seq![a],
            None => Seq::empty(),
        };
    if ips_of(texts).contains(ip) {
        let i = crate::seqs::lemma_flat_from(texts, f, ip);
        assert(crate::ip::ip_of(texts[i]) == Some(ip));
    }
    if exists|i: int| 0 <= i < texts.len() && crate::ip::ip_of(#[trigger] texts[i]) == Some(ip) {
        let i = choose|i: int|
            0 <= i < texts.len() && crate::ip::ip_of(#[trigger] texts[i]) == Some(ip);
        assert(f(texts[i])[0] == ip);
        crate::seqs::lemma_flat_has(texts, f, i, ip);
    }
}

/// Of a list of texts the networks come out that they spell, in their order, and nothing of a
/// text that spells none.
pub proof fn lemma_networks_add_up(a: Seq<Seq<char>>, b: Seq<Seq<char>>, t: Seq<char>)
    ensures
        nets_of(Seq::empty()) == Seq::<IpNet>::empty(),
        crate::net::net_of(t) matches Some(n) ==> nets_of(seq![t]) == seq![n],
        crate::net::net_of(t) is None ==> nets_of(seq![t]) == Seq::<IpNet>::empty(),
        nets_of(a + b) == nets_of(a) + nets_of(b),
{
    let f = |t: Seq<char>|
        match crate::net::net_of(t) {
            Some(n) => seq![n],
            None => Seq::empty(),
        };
    crate::seqs::lemma_flat_parts(a, b, t, f);
}

/// Of the entries of load balancers the addresses come out that they spell, in their order;
/// nothing of an entry without an address, or whose text spells none.
pub proof fn lemma_balancer_addresses_add_up(
    a: Seq<Option<String>>,
    b: Seq<Option<String>>,
    o: Option<String>,
)
    ensures
        ingress_ips(Seq::empty()) == Seq::<IpAddr>::empty(),
        o is None ==> ingress_ips(seq![o]) == Seq::<IpAddr>::empty(),
        o is Some && crate::ip::ip_of(o->0@) is None ==> ingress_ips(seq![o]) == Seq::<
            IpAddr,
        >::empty(),
        o is Some && crate::ip::ip_of(o->0@) is Some ==> ingress_ips(seq![o]) == seq![
            crate::ip::ip_of(o->0@)->0,
        ],
        ingress_ips(a + b) == ingress_ips(a) + ingress_ips(b),
{
    let f = |o: Option<String>|
        match o {
            Some(t) => ips_of(seq![t@]),
            None => Seq::empty(),
        };
    crate::seqs::lemma_flat_parts(a, b, o, f);
    if let Some(t) = o {
        lemma_addresses_add_up(Seq::empty(), Seq::empty(), t@);
    }
}

/// A text among those of the addresses in the cluster: one of the list, or, where there is no
/// list, the single one.
pub open spec fn cluster_text(spec: ServiceSpec, t: Seq<char>) -> bool {
    if spec.cluster_ips is Some {
        exists|i: int|
            0 <= i < spec.cluster_ips->0@.len() && (#[trigger] spec.cluster_ips->0@[i])@ == t
    } else {
        spec.cluster_ip matches Some(x) && x@ == t
    }
}

/// An address is one of the service's in the cluster exactly where one of its texts, neither
/// empty nor `None`, spells it.
pub proof fn lemma_cluster_addresses_spelled(spec: ServiceSpec, ip: IpAddr)
    ensures
        spec.cluster_addresses().contains(ip) <==> exists|t: Seq<char>|
            #[trigger] cluster_text(spec, t) && t != "None"@ && t.len() > 0 && crate::ip::ip_of(t)
                == Some(ip),
{
    let f = |t: Seq<char>|
        if t != "None"@ && t.len() > 0 {
            seq![t]
        } else {
            Seq::empty()
        };
    let all = spec.cluster_texts();
    let kept = crate::seqs::flat(all, f);
    lemma_addresses_spelled(kept, ip);
    if spec.cluster_addresses().contains(ip) {
        let i = choose|i: int|
            0 <= i < kept.len() && crate::ip::ip_of(#[trigger] kept[i]) == Some(ip);
        let t = kept[i];
        assert(kept.contains(t));
        let j = crate::seqs::lemma_flat_from(all, f, t);
        assert(all[j] == t);
        if spec.cluster_ips is Some {
            assert(spec.cluster_ips->0@[j]@ == t);
        }
        assert(cluster_text(spec, t));
    }
    if exists|t: Seq<char>|
        #[trigger] cluster_text(spec, t) && t != "None"@ && t.len() > 0 && crate::ip::ip_of(t)
            == Some(ip) {
        let t = choose|t: Seq<char>|
            #[trigger] cluster_text(spec, t) && t != "None"@ && t.len() > 0 && crate::ip::ip_of(t)
                == Some(ip);
        let j = if spec.cluster_ips is Some {
            choose|i: int|
                0 <= i < spec.cluster_ips->0@.len() && (#[trigger] spec.cluster_ips->0@[i])@ == t
        } else {
            0
        };
        assert(all[j] == t);
        assert(f(t)[0] == t);
        crate::seqs::lemma_flat_has(all, f, j, t);
        let i = choose|i: int| 0 <= i < kept.len() && kept[i] == t;
        assert(crate::ip::ip_of(kept[i]) == Some(ip));
    }
}

/// The addresses in the cluster keep the order of the list: those of two lists one after the
/// other are those of the first, then those of the second; a list of one text has its address or
/// none; and without a list the single text counts as a list of one.
pub proof fn lemma_cluster_addresses_add_up(
    a: ServiceSpec,
    b: ServiceSpec,
    both: ServiceSpec,
    single: ServiceSpec,
)
    requires
        a.cluster_ips is Some,
        b.cluster_ips is Some,
        both.cluster_ips is Some,
        both.cluster_ips->0@ == a.cluster_ips->0@ + b.cluster_ips->0@,
        single.cluster_ips is None,
    ensures
        both.cluster_addresses() == a.cluster_addresses() + b.cluster_addresses(),
        a.cluster_ips->0@.len() == 0 ==> a.cluster_addresses().len() == 0,
        a.cluster_ips->0@.len() == 1 && single.cluster_ip is Some && single.cluster_ip->0@
            == a.cluster_ips->0@[0]@ ==> single.cluster_addresses() == a.cluster_addresses(),
        single.cluster_ip is None ==> single.cluster_addresses().len() == 0,
        a.cluster_ips->0@.len() == 1 ==> a.cluster_addresses().len() <= 1,
{
    let f = |t: Seq<char>|
        if t != "None"@ && t.len() > 0 {
            seq![t]
        } else {
            Seq::empty()
        };
    let x = a.cluster_texts();
    let y = b.cluster_texts();
    assert(both.cluster_texts() =~= x + y);
    let t: Seq<char> = arbitrary();
    crate::seqs::lemma_flat_parts(x, y, t, f);
    lemma_addresses_add_up(crate::seqs::flat(x, f), crate::seqs::flat(y, f), t);
    if x.len() == 0 {
        assert(crate::seqs::flat(x, f) =~= Seq::empty());
    }
    if x.len() == 1 {
        assert(x =~= seq![x[0]]);
        crate::seqs::lemma_flat_parts(x, y, x[0], f);
        lemma_addresses_add_up(x, y, x[0]);
        if single.cluster_ip is Some && single.cluster_ip->0@ == a.cluster_ips->0@[0]@ {
            assert(single.cluster_texts() =~= x);
        }
    }
    if single.cluster_ip is None {
        assert(single.cluster_texts() =~= Seq::empty());
        assert(crate::seqs::flat(single.cluster_texts(), f) =~= Seq::empty());
    }
}

/// A text, a map and a list that may be missing: what is there is kept, what is missing counts
/// as empty.
pub proof fn lemma_missing_is_empty<A>(
    t: Option<String>,
    m: Option<Labels>,
    v: Option<Vec<A>>,
    key: Seq<char>,
    value: Seq<char>,
)
    ensures
        t is None ==> crate::objects::text_of(t) is None && crate::objects::text_or_empty(t).len()
            == 0,
        t is Some ==> crate::objects::text_of(t) == Some(t->0@) && crate::objects::text_or_empty(t)
            == t->0@,
        m is None ==> crate::objects::map_or_empty(m) == Map::<Seq<char>, Seq<char>>::empty(),
        m is Some ==> crate::objects::map_or_empty(m) == m->0@,
        crate::objects::list_or_empty(v) == elements(v),
        crate::labels::lookup(crate::objects::map_or_empty(m), key) == Some(value) <==> gives(
            m,
            key,
            value,
        ),
        crate::labels::lookup(crate::objects::map_or_empty(m), key) is Some <==> has_key(m, key),
{
}

/// A number is one of a port exactly where it has 16 bits, and then it is kept.
pub proof fn lemma_port_numbers(n: i32)
    ensures
        crate::objects::as_port(n) is Some <==> 0 <= n <= 65535,
        crate::objects::as_port(n) matches Some(p) ==> p == n,
        crate::objects::as_port_opt(Some(n)) == crate::objects::as_port(n),
        crate::objects::as_port_opt(None) is None,
{
}

} // verus!
