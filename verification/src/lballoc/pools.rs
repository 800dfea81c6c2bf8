//! Pools of addresses: networks whose addresses are handed out one after the other, from the
//! first network to the last and round again.

use vstd::prelude::*;

use crate::ip::IpAddr;
use crate::net::IpNet;

verus! {

/// A cursor over the networks of one family.
#[derive(Debug, Clone)]
pub struct IpRanges {
    ranges: Vec<IpNet>,
    range_index: usize,
    current_ip: Option<IpAddr>,
}

/// The address `off` places behind the first one of the network.
pub open spec fn address(net: IpNet, off: nat) -> IpAddr {
    match net.addr {
        IpAddr::V4(_) => IpAddr::V4((net.base() + off) as u32),
        IpAddr::V6(_) => IpAddr::V6((net.base() + off) as u128),
    }
}

/// How many addresses the networks have in all.
pub open spec fn total(ranges: Seq<IpNet>) -> nat
    decreases ranges.len(),
{
    if ranges.len() == 0 {
        0
    } else {
        total(ranges.drop_last()) + ranges.last().size()
    }
}

/// The `k`-th address of the networks, counted from the first address of the first network.
pub open spec fn slot(ranges: Seq<IpNet>, k: nat) -> IpAddr
    decreases ranges.len(),
{
    if ranges.len() == 0 {
        arbitrary()
    } else if k >= total(ranges.drop_last()) {
        address(ranges.last(), (k - total(ranges.drop_last())) as nat)
    } else {
        slot(ranges.drop_last(), k)
    }
}

/// `k` places on from `at` in a ring of `n`.
pub open spec fn around(at: nat, k: nat, n: nat) -> nat {
    if at + k < n {
        at + k
    } else {
        (at + k - n) as nat
    }
}

/// How many places on from `at` the first address that is not allocated lies, from the `k`-th
/// place on; nothing where once round all are allocated.
pub open spec fn first_free(
    ranges: Seq<IpNet>,
    at: nat,
    allocated: Seq<IpAddr>,
    k: nat,
) -> Option<nat>
    decreases total(ranges) - k,
{
    if k >= total(ranges) {
        None
    } else if !allocated.contains(slot(ranges, around(at, k, total(ranges)))) {
        Some(k)
    } else {
        first_free(ranges, at, allocated, k + 1)
    }
}

/// Every network is well formed.
pub open spec fn all_wf(ranges: Seq<IpNet>) -> bool {
    forall|i: int| 0 <= i < ranges.len() ==> (#[trigger] ranges[i]).wf()
}

/// Some network covers the address.
pub open spec fn covered(ranges: Seq<IpNet>, a: IpAddr) -> bool {
    exists|i: int| 0 <= i < ranges.len() && (#[trigger] ranges[i]).covers(a)
}

/// The pool with the cursor at a place.
pub struct Pool {
    pub ranges: Seq<IpNet>,
    pub at: nat,
}

impl Pool {
    /// The next address that is not allocated.
    pub open spec fn next(self, allocated: Seq<IpAddr>) -> Option<IpAddr> {
        match first_free(self.ranges, self.at, allocated, 0) {
            Some(k) => Some(slot(self.ranges, around(self.at, k, total(self.ranges)))),
            None => None,
        }
    }

    /// The pool after the next address was looked for: the cursor stands at what was found, and
    /// where it stood if nothing was.
    pub open spec fn after(self, allocated: Seq<IpAddr>) -> Pool {
        match first_free(self.ranges, self.at, allocated, 0) {
            Some(k) => Pool {
                ranges: self.ranges,
                at: around(self.at, k, total(self.ranges)),
            },
            None => self,
        }
    }

    /// The cursor is within the pool.
    pub open spec fn wf(self) -> bool {
        all_wf(self.ranges) && (self.ranges.len() > 0 ==> self.at < total(self.ranges)) && (
        self.ranges.len() == 0 ==> self.at == 0)
    }
}

// ---------------------------------------------------------------------------------------------
// Places and addresses
// ---------------------------------------------------------------------------------------------

/// The networks before index `i` and the one at `i` have no more addresses than those before a
/// later index.
proof fn lemma_totals(ranges: Seq<IpNet>, i: int, j: int)
    requires
        all_wf(ranges),
        0 <= i < j <= ranges.len(),
    ensures
        total(ranges.take(i)) + ranges[i].size() <= total(ranges.take(j)),
        ranges[i].size() >= 1,
    decreases j,
{
    crate::net::lemma_base(ranges[i]);
    assert(ranges.take(j).drop_last() =~= ranges.take(j - 1));
    assert(ranges.take(j).last() == ranges[j - 1]);
    if i < j - 1 {
        lemma_totals(ranges, i, j - 1);
    }
}

/// The place `off` into the network at index `i` holds that network's address.
pub proof fn lemma_slot(ranges: Seq<IpNet>, i: int, off: nat)
    requires
        all_wf(ranges),
        0 <= i < ranges.len(),
        off < ranges[i].size(),
    ensures
        slot(ranges, total(ranges.take(i)) + off) == address(ranges[i], off),
        total(ranges.take(i)) + off < total(ranges),
    decreases ranges.len(),
{
    let front = ranges.drop_last();
    assert(front =~= ranges.take(ranges.len() - 1));
    assert(ranges.take(ranges.len() as int) =~= ranges);
    lemma_totals(ranges, i, ranges.len() as int);
    if i == ranges.len() - 1 {
    } else {
        lemma_totals(ranges, i, ranges.len() - 1);
        assert forall|k: int| 0 <= k < front.len() implies (#[trigger] front[k]).wf() by {
            assert(front[k] == ranges[k]);
        }
        assert(front.take(i) =~= ranges.take(i));
        lemma_slot(front, i, off);
    }
}

/// Every place is some number of addresses into some network.
proof fn lemma_locate(ranges: Seq<IpNet>, k: nat) -> (r: (int, nat))
    requires
        all_wf(ranges),
        k < total(ranges),
    ensures
        0 <= r.0 < ranges.len(),
        r.1 < ranges[r.0].size(),
        k == total(ranges.take(r.0)) + r.1,
    decreases ranges.len(),
{
    let front = ranges.drop_last();
    assert(front =~= ranges.take(ranges.len() - 1));
    if k >= total(front) {
        (ranges.len() - 1, (k - total(front)) as nat)
    } else {
        assert forall|i: int| 0 <= i < front.len() implies (#[trigger] front[i]).wf() by {
            assert(front[i] == ranges[i]);
        }
        let r = lemma_locate(front, k);
        assert(front.take(r.0) =~= ranges.take(r.0));
        assert(front[r.0] == ranges[r.0]);
        r
    }
}

/// The network's address `off` places in is covered by it, and has that value.
proof fn lemma_address(net: IpNet, off: nat)
    requires
        net.wf(),
        off < net.size(),
    ensures
        net.covers(address(net, off)),
        crate::net::value(address(net, off)) == net.base() + off,
        crate::net::same_family(address(net, off), net.addr),
{
    crate::net::lemma_base(net);
}

/// An address that a network covers is the network's address at its distance from the first.
proof fn lemma_covered_address(net: IpNet, a: IpAddr)
    requires
        net.wf(),
        net.covers(a),
    ensures
        address(net, (crate::net::value(a) - net.base()) as nat) == a,
{
    crate::net::lemma_base(net);
}

/// Every place holds a covered address, of the family of some network.
pub proof fn lemma_slot_covered(ranges: Seq<IpNet>, k: nat) -> (i: int)
    requires
        all_wf(ranges),
        k < total(ranges),
    ensures
        0 <= i < ranges.len(),
        ranges[i].covers(slot(ranges, k)),
        covered(ranges, slot(ranges, k)),
{
    let r = lemma_locate(ranges, k);
    lemma_slot(ranges, r.0, r.1);
    lemma_address(ranges[r.0], r.1);
    r.0
}

/// Every covered address stands at some place.
pub proof fn lemma_covered_slot(ranges: Seq<IpNet>, a: IpAddr) -> (k: nat)
    requires
        all_wf(ranges),
        covered(ranges, a),
    ensures
        k < total(ranges),
        slot(ranges, k) == a,
{
    let i = choose|i: int| 0 <= i < ranges.len() && (#[trigger] ranges[i]).covers(a);
    crate::net::lemma_base(ranges[i]);
    lemma_covered_address(ranges[i], a);
    let off = (crate::net::value(a) - ranges[i].base()) as nat;
    lemma_slot(ranges, i, off);
    total(ranges.take(i)) + off
}

/// What `first_free` finds is free and nothing before it is; it finds nothing only where all
/// places are allocated.
proof fn lemma_first_free(ranges: Seq<IpNet>, at: nat, allocated: Seq<IpAddr>, k: nat)
    ensures
        match first_free(ranges, at, allocated, k) {
            Some(j) => k <= j < total(ranges) && !allocated.contains(
                slot(ranges, around(at, j, total(ranges))),
            ) && forall|x: nat|
                k <= x < j ==> allocated.contains(
                    #[trigger] slot(ranges, around(at, x, total(ranges))),
                ),
            None => forall|x: nat|
                k <= x < total(ranges) ==> allocated.contains(
                    #[trigger] slot(ranges, around(at, x, total(ranges))),
                ),
        },
    decreases total(ranges) - k,
{
    if k < total(ranges) && allocated.contains(slot(ranges, around(at, k, total(ranges)))) {
        lemma_first_free(ranges, at, allocated, k + 1);
    }
}

/// The next address is never one that is allocated, and always one of the pool.
pub proof fn lemma_next_is_free(pool: Pool, allocated: Seq<IpAddr>)
    requires
        pool.wf(),
    ensures
        pool.next(allocated) matches Some(a) ==> !allocated.contains(a) && covered(pool.ranges, a),
        pool.after(allocated).wf(),
        pool.after(allocated).ranges == pool.ranges,
{
    lemma_first_free(pool.ranges, pool.at, allocated, 0);
    match first_free(pool.ranges, pool.at, allocated, 0) {
        Some(k) => {
            let p = around(pool.at, k, total(pool.ranges));
            let i = lemma_slot_covered(pool.ranges, p);
        },
        None => {},
    }
}

/// There is no next address exactly where every address of the pool is allocated.
pub proof fn lemma_none_iff_exhausted(pool: Pool, allocated: Seq<IpAddr>)
    requires
        pool.wf(),
    ensures
        pool.next(allocated) is None <==> forall|a: IpAddr| #[trigger]
            covered(pool.ranges, a) ==> allocated.contains(a),
{
    lemma_next_is_free(pool, allocated);
    lemma_first_free(pool.ranges, pool.at, allocated, 0);
    let n = total(pool.ranges);
    if pool.next(allocated) is None {
        assert forall|a: IpAddr| #[trigger] covered(pool.ranges, a) implies allocated.contains(
            a,
        ) by {
            let k = lemma_covered_slot(pool.ranges, a);
            let x: nat = if k >= pool.at {
                (k - pool.at) as nat
            } else {
                (k + n - pool.at) as nat
            };
            assert(around(pool.at, x, n) == k);
            assert(allocated.contains(slot(pool.ranges, around(pool.at, x, n))));
        }
    }
}

/// An address that was handed out and then counted as allocated is not handed out again.
pub proof fn lemma_next_never_repeats(pool: Pool, allocated: Seq<IpAddr>)
    requires
        pool.wf(),
    ensures
        pool.next(allocated) matches Some(a) ==> pool.after(allocated).next(allocated.push(a))
            != Some(a),
{
    lemma_next_is_free(pool, allocated);
    match pool.next(allocated) {
        Some(a) => {
            lemma_next_is_free(pool.after(allocated), allocated.push(a));
            assert(allocated.push(a)[allocated.len() as int] == a);
        },
        None => {},
    }
}

// ---------------------------------------------------------------------------------------------
// The cursor
// ---------------------------------------------------------------------------------------------

/// The address one further, as octets with carry; the last one is followed by the first.
pub open spec fn succ(ip: IpAddr) -> IpAddr {
    match ip {
        IpAddr::V4(x) => IpAddr::V4(
            if x == u32::MAX {
                0
            } else {
                (x + 1) as u32
            },
        ),
        IpAddr::V6(x) => IpAddr::V6(
            if x == u128::MAX {
                0
            } else {
                (x + 1) as u128
            },
        ),
    }
}

/// The address one further.
pub fn inc_ip(ip: IpAddr) -> (r: IpAddr)
    ensures
        r == succ(ip),
{
    match ip {
        IpAddr::V4(x) => IpAddr::V4(
            if x == u32::MAX {
                0
            } else {
                x + 1
            },
        ),
        IpAddr::V6(x) => IpAddr::V6(
            if x == u128::MAX {
                0
            } else {
                x + 1
            },
        ),
    }
}

/// Whether the list holds the address.
pub fn holds_ip(v: &[IpAddr], a: IpAddr) -> (r: bool)
    ensures
        r == v@.contains(a),
{
    let mut i: usize = 0;
    while i < v.len()
        invariant
            i <= v@.len(),
            forall|j: int| 0 <= j < i ==> v@[j] != a,
        decreases v@.len() - i,
    {
        if v[i] == a {
            assert(v@[i as int] == a);
            return true;
        }
        i = i + 1;
    }
    false
}

impl View for IpRanges {
    type V = Pool;

    closed spec fn view(&self) -> Pool {
        Pool {
            ranges: self.ranges@,
            at: match self.current_ip {
                Some(a) => (total(self.ranges@.take(self.range_index as int)) + crate::net::value(
                    a,
                ) - self.ranges@[self.range_index as int].base()) as nat,
                None => 0,
            },
        }
    }
}

impl IpRanges {
    /// The cursor stands at an address of the network that it is in.
    pub closed spec fn wf(self) -> bool {
        &&& all_wf(self.ranges@)
        &&& match self.current_ip {
            Some(a) => self.range_index < self.ranges@.len()
                && self.ranges@[self.range_index as int].covers(a),
            None => self.ranges@.len() == 0 && self.range_index == 0,
        }
    }

    /// A well-formed cursor is a well-formed pool.
    pub proof fn lemma_wf(self)
        requires
            self.wf(),
        ensures
            self@.wf(),
    {
        match self.current_ip {
            Some(a) => {
                let i = self.range_index as int;
                let off = (crate::net::value(a) - self.ranges@[i].base()) as nat;
                crate::net::lemma_base(self.ranges@[i]);
                lemma_slot(self.ranges@, i, off);
            },
            None => {},
        }
    }

    /// The place of the cursor holds the address it stands at.
    proof fn lemma_current(self)
        requires
            self.wf(),
            self.current_ip is Some,
        ensures
            self@.at < total(self.ranges@),
            slot(self.ranges@, self@.at) == self.current_ip.unwrap(),
    {
        let a = self.current_ip.unwrap();
        let i = self.range_index as int;
        let off = (crate::net::value(a) - self.ranges@[i].base()) as nat;
        crate::net::lemma_base(self.ranges@[i]);
        lemma_slot(self.ranges@, i, off);
        lemma_covered_address(self.ranges@[i], a);
    }

    /// Cursors over the same networks at the same place are in the same network at the same
    /// address.
    proof fn lemma_same_place(self, other: IpRanges)
        requires
            self.wf(),
            other.wf(),
            self.ranges@ == other.ranges@,
            self.current_ip is Some,
            self@.at == other@.at,
        ensures
            self.range_index == other.range_index,
            self.current_ip == other.current_ip,
    {
        self.lemma_current();
        other.lemma_current();
        let i = self.range_index as int;
        let j = other.range_index as int;
        crate::net::lemma_base(self.ranges@[i]);
        crate::net::lemma_base(self.ranges@[j]);
        if i < j {
            lemma_totals(self.ranges@, i, j);
        } else if j < i {
            lemma_totals(self.ranges@, j, i);
        }
    }

    /// A cursor at the first address of the first network.
    pub fn new(ranges: Vec<IpNet>) -> (r: IpRanges)
        requires
            all_wf(ranges@),
        ensures
            r.wf(),
            r@.ranges == ranges@,
            r@.at == 0,
    {
        let current_ip: Option<IpAddr> = if ranges.len() > 0 {
            let n = ranges[0];
            proof {
                assert(ranges@[0].wf());
                crate::net::lemma_base(n);
                assert(ranges@.take(0) =~= Seq::<IpNet>::empty());
            }
            Some(n.network())
        } else {
            None
        };
        IpRanges { ranges, range_index: 0, current_ip }
    }

    /// The number of networks.
    pub fn len(&self) -> (r: usize)
        ensures
            r == self@.ranges.len(),
    {
        self.ranges.len()
    }

    /// Whether there is no network.
    pub fn is_empty(&self) -> (r: bool)
        ensures
            r == (self@.ranges.len() == 0),
    {
        self.ranges.len() == 0
    }

    /// Whether some network covers the address.
    pub fn contains(&self, ip: IpAddr) -> (r: bool)
        requires
            self.wf(),
        ensures
            r == covered(self@.ranges, ip),
    {
        let mut i: usize = 0;
        while i < self.ranges.len()
            invariant
                i <= self.ranges@.len(),
                all_wf(self.ranges@),
                forall|j: int| 0 <= j < i ==> !(#[trigger] self.ranges@[j]).covers(ip),
            decreases self.ranges@.len() - i,
        {
            assert(self.ranges@[i as int].wf());
            if self.ranges[i].contains(ip) {
                return true;
            }
            i = i + 1;
        }
        false
    }

    /// Moves the cursor one address on: within its network, else to the first address of the
    /// next network, and from the last network to the first.
    fn inc(&mut self)
        requires
            old(self).wf(),
            old(self).current_ip is Some,
        ensures
            final(self).wf(),
            final(self).current_ip is Some,
            final(self).ranges@ == old(self).ranges@,
            final(self)@.at == around(old(self)@.at, 1, total(old(self).ranges@)),
    {
        let ghost before = *self;
        proof {
            before.lemma_current();
        }
        match self.current_ip {
            Some(cur) => {
                let i: usize = self.range_index;
                let net = self.ranges[i];
                proof {
                    assert(self.ranges@[i as int].wf());
                    crate::net::lemma_base(net);
                    lemma_totals(self.ranges@, i as int, self.ranges@.len() as int);
                    assert(self.ranges@.take(self.ranges@.len() as int) =~= self.ranges@);
                }
                let next = inc_ip(cur);
                let first = net.network();
                if net.contains(next) && next != first {
                    self.current_ip = Some(next);
                    proof {
                        let off = (crate::net::value(next) - net.base()) as nat;
                        lemma_slot(self.ranges@, i as int, off);
                    }
                } else {
                    // The cursor stood at the last address of its network.
                    assert(crate::net::value(cur) + 1 == net.base() + net.size());
                    let j: usize = if i == self.ranges.len() - 1 {
                        0
                    } else {
                        i + 1
                    };
                    let to = self.ranges[j];
                    proof {
                        assert(self.ranges@[j as int].wf());
                        crate::net::lemma_base(to);
                        assert(self.ranges@.take(0) =~= Seq::<IpNet>::empty());
                        assert(self.ranges@.take(i + 1).drop_last() =~= self.ranges@.take(
                            i as int,
                        ));
                        assert(self.ranges@.take(i + 1).last() == net);
                        lemma_totals(self.ranges@, j as int, self.ranges@.len() as int);
                    }
                    self.range_index = j;
                    self.current_ip = Some(to.network());
                }
            },
            None => {},
        }
    }

    /// The next address that is not allocated, looked for from the cursor on and once round. The
    /// cursor is left at what was found.
    pub fn next_free_ip(&mut self, allocated: &[IpAddr]) -> (r: Option<IpAddr>)
        requires
            old(self).wf(),
        ensures
            final(self).wf(),
            r == old(self)@.next(allocated@),
            final(self)@ == old(self)@.after(allocated@),
            r matches Some(a) ==> !allocated@.contains(a) && covered(old(self)@.ranges, a),
            r is None <==> forall|a: IpAddr| #[trigger]
                covered(old(self)@.ranges, a) ==> allocated@.contains(a),
    {
        let ghost start = *self;
        let ghost pool = start@;
        let ghost n = total(pool.ranges);
        proof {
            start.lemma_wf();
            lemma_next_is_free(pool, allocated@);
            lemma_none_iff_exhausted(pool, allocated@);
        }
        let start_index: usize = self.range_index;
        let start_ip = match self.current_ip {
            Some(ip) => ip,
            None => {
                return None;
            },
        };
        let mut ip = start_ip;
        let ghost mut k: nat = 0;
        proof {
            start.lemma_current();
        }
        loop
            invariant
                self.wf(),
                start.wf(),
                pool == start@,
                pool == old(self)@,
                n == total(pool.ranges),
                pool.at < n,
                self.ranges@ == pool.ranges,
                start.ranges@ == pool.ranges,
                start.range_index == start_index,
                start.current_ip == Some(start_ip),
                self.current_ip == Some(ip),
                k < n,
                self@.at == around(pool.at, k, n),
                first_free(pool.ranges, pool.at, allocated@, 0) == first_free(
                    pool.ranges,
                    pool.at,
                    allocated@,
                    k,
                ),
                pool.next(allocated@) matches Some(a) ==> !allocated@.contains(a) && covered(
                    pool.ranges,
                    a,
                ),
                pool.next(allocated@) is None <==> forall|a: IpAddr| #[trigger]
                    covered(pool.ranges, a) ==> allocated@.contains(a),
            decreases n - k,
        {
            proof {
                self.lemma_current();
            }
            if !holds_ip(allocated, ip) {
                return Some(ip);
            }
            self.inc();
            proof {
                k = k + 1;
                if k == n {
                    assert(self@.at == pool.at);
                    self.lemma_same_place(start);
                }
            }
            match self.current_ip {
                Some(x) => {
                    ip = x;
                },
                None => {
                    return None;
                },
            }
            if self.range_index == start_index && ip == start_ip {
                assert(self@.at == pool.at);
                assert(k == n);
                return None;
            }
        }
    }
}

} // verus!
