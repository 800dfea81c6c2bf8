//! Routes and bound addresses, as the agent keeps them.

use vstd::prelude::*;

use crate::ip::IpAddr;
use crate::net::IpNet;
use crate::text::{cat2, same};

verus! {

/// A failure of a kernel operation.
#[derive(Debug)]
pub enum NetlinkError {
    /// The operation failed.
    Op(String),
}

impl NetlinkError {
    /// The text shown to a user.
    pub open spec fn text(self) -> Seq<char> {
        match self {
            NetlinkError::Op(m) => "netlink operation failed: "@ + m@,
        }
    }

    /// The text shown to a user.
    pub fn message(&self) -> (r: String)
        ensures
            r@ == self.text(),
    {
        match self {
            NetlinkError::Op(m) => cat2("netlink operation failed: ", m.as_str()),
        }
    }
}

/// A route.
#[derive(Debug, Clone, Copy, PartialEq, Eq, Structural)]
pub struct Route {
    /// Destination.
    pub dst: IpNet,
    /// Gateway; none for a direct route.
    pub gateway: Option<IpAddr>,
    /// Routing table.
    pub table: u32,
}

/// Whether two routes are for the same destination in the same table.
pub open spec fn same_slot(a: Route, b: Route) -> bool {
    a.dst == b.dst && a.table == b.table
}

/// The routes without those in the slot of `r`.
pub open spec fn without(routes: Seq<Route>, r: Route) -> Seq<Route> {
    crate::seqs::flat(
        routes,
        |e: Route|
            if same_slot(e, r) {
                Seq::empty()
            } else {
                seq![e]
            },
    )
}

/// The routes of a table.
pub open spec fn in_table(routes: Seq<Route>, table: u32) -> Seq<Route> {
    crate::seqs::flat(
        routes,
        |e: Route|
            if e.table == table {
                seq![e]
            } else {
                Seq::empty()
            },
    )
}

/// Routes that are installed.
#[derive(Debug, Clone)]
pub struct RouteTable {
    routes: Vec<Route>,
}

impl View for RouteTable {
    type V = Seq<Route>;

    closed spec fn view(&self) -> Seq<Route> {
        self.routes@
    }
}

impl RouteTable {
    /// No routes.
    pub fn new() -> (r: RouteTable)
        ensures
            r@ == Seq::<Route>::empty(),
    {
        RouteTable { routes: Vec::new() }
    }

    fn drop_slot(&mut self, route: &Route)
        ensures
            final(self)@ == without(old(self)@, *route),
    {
        let ghost all = self.routes@;
        let ghost f = |e: Route|
            if same_slot(e, *route) {
                Seq::empty()
            } else {
                seq![e]
            };
        let mut out: Vec<Route> = Vec::new();
        let mut i: usize = 0;
        assert(out@ =~= crate::seqs::flat(all.take(0), f));
        while i < self.routes.len()
            invariant
                i <= self.routes@.len(),
                all == self.routes@,
                f == (|e: Route|
                    if same_slot(e, *route) {
                        Seq::empty()
                    } else {
                        seq![e]
                    }),
                out@ == crate::seqs::flat(all.take(i as int), f),
            decreases self.routes@.len() - i,
        {
            let e = self.routes[i];
            proof {
                crate::seqs::lemma_flat_step(all, f, i as int);
            }
            if !(e.dst == route.dst && e.table == route.table) {
                out.push(e);
            }
            assert(out@ =~= crate::seqs::flat(all.take(i + 1), f));
            i = i + 1;
        }
        assert(all.take(i as int) =~= all);
        self.routes = out;
    }

    /// Installs a route in the place of what was in its slot.
    pub fn route_replace(&mut self, route: &Route)
        ensures
            final(self)@ == without(old(self)@, *route).push(*route),
    {
        self.drop_slot(route);
        self.routes.push(*route);
    }

    /// Removes what is in the slot of a route.
    pub fn route_del(&mut self, route: &Route)
        ensures
            final(self)@ == without(old(self)@, *route),
    {
        self.drop_slot(route);
    }

    /// The routes of a table.
    pub fn route_list(&self, table: u32) -> (r: Vec<Route>)
        ensures
            r@ == in_table(self@, table),
    {
        let ghost all = self.routes@;
        let ghost f = |e: Route|
            if e.table == table {
                seq![e]
            } else {
                Seq::empty()
            };
        let mut out: Vec<Route> = Vec::new();
        let mut i: usize = 0;
        assert(out@ =~= crate::seqs::flat(all.take(0), f));
        while i < self.routes.len()
            invariant
                i <= self.routes@.len(),
                all == self.routes@,
                f == (|e: Route|
                    if e.table == table {
                        seq![e]
                    } else {
                        Seq::empty()
                    }),
                out@ == crate::seqs::flat(all.take(i as int), f),
            decreases self.routes@.len() - i,
        {
            proof {
                crate::seqs::lemma_flat_step(all, f, i as int);
            }
            if self.routes[i].table == table {
                out.push(self.routes[i]);
            }
            assert(out@ =~= crate::seqs::flat(all.take(i + 1), f));
            i = i + 1;
        }
        assert(all.take(i as int) =~= all);
        out
    }
}

/// Nothing in the slot of a route is left, and everything else is.
proof fn lemma_without(routes: Seq<Route>, r: Route, x: Route)
    ensures
        without(routes, r).contains(x) <==> routes.contains(x) && !same_slot(x, r),
{
    let f = |e: Route|
        if same_slot(e, r) {
            Seq::empty()
        } else {
            seq![e]
        };
    if without(routes, r).contains(x) {
        let i = crate::seqs::lemma_flat_from(routes, f, x);
        assert(f(routes[i])[0] == x);
    }
    if routes.contains(x) && !same_slot(x, r) {
        let i = choose|i: int| 0 <= i < routes.len() && routes[i] == x;
        assert(f(x)[0] == x);
        crate::seqs::lemma_flat_has(routes, f, i, x);
    }
}

/// After a route is installed it is the only one in its slot, and all others are as before.
pub proof fn lemma_replace_fills_slot(routes: Seq<Route>, r: Route, x: Route)
    ensures
        without(routes, r).push(r).contains(x) <==> x == r || (routes.contains(x) && !same_slot(
            x,
            r,
        )),
{
    lemma_without(routes, r, x);
    let w = without(routes, r);
    assert(w.push(r) =~= w + seq![r]);
    crate::seqs::lemma_in_sum(w, seq![r], x);
    assert(seq![r][0] == r);
}

/// Removing what is not there changes nothing; removing twice is removing once.
pub proof fn lemma_removal_is_idempotent(routes: Seq<Route>, r: Route)
    ensures
        without(without(routes, r), r) == without(routes, r),
    decreases routes.len(),
{
    let f = |e: Route|
        if same_slot(e, r) {
            Seq::empty()
        } else {
            seq![e]
        };
    if routes.len() > 0 {
        let front = without(routes.drop_last(), r);
        lemma_removal_is_idempotent(routes.drop_last(), r);
        let e = routes.last();
        if same_slot(e, r) {
            assert(without(routes, r) =~= front);
        } else {
            let w = without(routes, r);
            assert(w =~= front.push(e));
            assert(w.drop_last() =~= front);
            assert(w.last() == e);
            assert(without(w, r) =~= w);
        }
    }
}

/// Installing a second route in a slot has the same effect as installing it alone.
pub proof fn lemma_last_replacement_wins(routes: Seq<Route>, a: Route, b: Route)
    requires
        same_slot(a, b),
    ensures
        without(without(routes, a).push(a), b).push(b) == without(routes, b).push(b),
{
    let fa = |e: Route|
        if same_slot(e, a) {
            Seq::empty()
        } else {
            seq![e]
        };
    let fb = |e: Route|
        if same_slot(e, b) {
            Seq::empty()
        } else {
            seq![e]
        };
    crate::seqs::lemma_flat_same(routes, fa, fb);
    let w = without(routes, a);
    assert(w == without(routes, b));
    lemma_removal_is_idempotent(routes, b);
    let p = w.push(a);
    assert(p.drop_last() =~= w);
    assert(without(p, b) =~= without(w, b));
}

/// Addresses bound to links.
#[derive(Debug, Clone)]
pub struct AddressBook {
    entries: Vec<(String, IpAddr, u8)>,
}

/// Bound addresses as values.
pub open spec fn bindings(v: Seq<(String, IpAddr, u8)>) -> Seq<(Seq<char>, IpAddr, u8)> {
    v.map_values(|e: (String, IpAddr, u8)| (e.0@, e.1, e.2))
}

impl View for AddressBook {
    type V = Set<(Seq<char>, IpAddr, u8)>;

    closed spec fn view(&self) -> Set<(Seq<char>, IpAddr, u8)> {
        bindings(self.entries@).to_set()
    }
}

impl AddressBook {
    /// No addresses.
    pub fn new() -> (r: AddressBook)
        ensures
            r@ == Set::<(Seq<char>, IpAddr, u8)>::empty(),
    {
        let r = AddressBook { entries: Vec::new() };
        assert(r@ =~= Set::<(Seq<char>, IpAddr, u8)>::empty());
        r
    }

    /// Whether an address is bound to a link.
    pub fn has_addr(&self, link: &str, addr: IpAddr, prefix_len: u8) -> (r: bool)
        ensures
            r == self@.contains((link@, addr, prefix_len)),
    {
        let ghost all = bindings(self.entries@);
        let mut i: usize = 0;
        while i < self.entries.len()
            invariant
                i <= self.entries@.len(),
                all == bindings(self.entries@),
                forall|j: int| 0 <= j < i ==> #[trigger] all[j] != (link@, addr, prefix_len),
            decreases self.entries@.len() - i,
        {
            let e = &self.entries[i];
            if same(e.0.as_str(), link) && e.1 == addr && e.2 == prefix_len {
                assert(all[i as int] == (link@, addr, prefix_len));
                return true;
            }
            i = i + 1;
        }
        false
    }

    /// Binds an address to a link; one that is bound stays bound.
    pub fn addr_add(&mut self, link: &str, addr: IpAddr, prefix_len: u8)
        ensures
            final(self)@ == old(self)@.insert((link@, addr, prefix_len)),
    {
        let ghost before = bindings(self.entries@);
        let ghost x = (link@, addr, prefix_len);
        self.entries.push((link.to_owned(), addr, prefix_len));
        proof {
            let after = bindings(self.entries@);
            assert(after =~= before.push(x));
            assert forall|t: (Seq<char>, IpAddr, u8)| after.to_set().contains(t)
                <==> before.to_set().insert(x).contains(t) by {
                assert(before.push(x) =~= before + seq![x]);
                crate::seqs::lemma_in_sum(before, seq![x], t);
                assert(seq![x][0] == x);
            }
            assert(after.to_set() =~= before.to_set().insert(x));
        }
    }

    /// Unbinds an address from a link; one that is not bound stays so.
    pub fn addr_del(&mut self, link: &str, addr: IpAddr, prefix_len: u8)
        ensures
            final(self)@ == old(self)@.remove((link@, addr, prefix_len)),
    {
        let ghost x = (link@, addr, prefix_len);
        let ghost all = bindings(self.entries@);
        let mut out: Vec<(String, IpAddr, u8)> = Vec::new();
        let mut i: usize = 0;
        assert(bindings(out@).to_set() =~= all.take(0).to_set().remove(x));
        while i < self.entries.len()
            invariant
                i <= self.entries@.len(),
                all == bindings(self.entries@),
                x == (link@, addr, prefix_len),
                bindings(out@).to_set() == all.take(i as int).to_set().remove(x),
            decreases self.entries@.len() - i,
        {
            let e = &self.entries[i];
            let ghost y = all[i as int];
            let ghost before = bindings(out@);
            let ghost front = all.take(i as int);
            assert(all.take(i + 1) =~= front + seq![y]);
            if !(same(e.0.as_str(), link) && e.1 == addr && e.2 == prefix_len) {
                out.push((e.0.clone(), e.1, e.2));
                assert(bindings(out@) =~= before + seq![y]);
            }
            proof {
                let after = bindings(out@);
                assert forall|t: (Seq<char>, IpAddr, u8)| after.to_set().contains(t) <==> all.take(
                    i + 1,
                ).to_set().remove(x).contains(t) by {
                    crate::seqs::lemma_in_sum(before, seq![y], t);
                    crate::seqs::lemma_in_sum(front, seq![y], t);
                    assert(seq![y][0] == y);
                    assert(before.to_set().contains(t) <==> front.to_set().remove(x).contains(t));
                }
                assert(after.to_set() =~= all.take(i + 1).to_set().remove(x));
            }
            i = i + 1;
        }
        assert(all.take(i as int) =~= all);
        self.entries = out;
    }
}

} // verus!
