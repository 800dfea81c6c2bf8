//! IP networks in CIDR notation: an address with a prefix length.

use vstd::prelude::*;

use crate::ip::IpAddr;
use crate::text::{cat3, dec_text};

verus! {

/// A network: an address, host bits kept as written, and the length of its prefix.
#[derive(Clone, Copy, Debug, PartialEq, Eq, Structural, Hash)]
pub struct IpNet {
    /// The address as written.
    pub addr: IpAddr,
    /// How many leading bits name the network.
    pub prefix_len: u8,
}

/// The value of an address.
pub open spec fn value(a: IpAddr) -> nat {
    match a {
        IpAddr::V4(x) => x as nat,
        IpAddr::V6(x) => x as nat,
    }
}

/// The width of an address in bits.
pub open spec fn width(a: IpAddr) -> nat {
    match a {
        IpAddr::V4(_) => 32,
        IpAddr::V6(_) => 128,
    }
}

/// Whether both addresses are of one family.
pub open spec fn same_family(a: IpAddr, b: IpAddr) -> bool {
    (a is V4) == (b is V4)
}

impl IpNet {
    /// The prefix fits the address.
    pub open spec fn wf(self) -> bool {
        self.prefix_len <= width(self.addr)
    }

    /// How many addresses the network covers.
    pub open spec fn size(self) -> nat {
        vstd::arithmetic::power2::pow2((width(self.addr) - self.prefix_len) as nat)
    }

    /// The value of the first address of the network: the address with its host bits cleared.
    pub open spec fn base(self) -> nat {
        value(self.addr) / self.size() * self.size()
    }

    /// Whether the network covers the address: same family, between its first and last address.
    pub open spec fn covers(self, a: IpAddr) -> bool {
        same_family(self.addr, a) && self.base() <= value(a) < self.base() + self.size()
    }

    /// The text of the network: the address, a slash, the prefix length.
    pub open spec fn text(self) -> Seq<char> {
        self.addr.text() + "/"@ + crate::text::dec(self.prefix_len as nat)
    }

    /// The text of the network.
    pub fn to_text(self) -> (r: String)
        ensures
            r@ == self.text(),
    {
        cat3(self.addr.to_text().as_str(), "/", dec_text(self.prefix_len as u64).as_str())
    }

    /// The first address of the network.
    pub fn network(self) -> (r: IpAddr)
        requires
            self.wf(),
        ensures
            same_family(r, self.addr),
            value(r) == self.base(),
    {
        proof {
            lemma_base(self);
        }
        match self.addr {
            IpAddr::V4(x) => {
                let host: u8 = 32 - self.prefix_len;
                if host == 32 {
                    IpAddr::V4(0)
                } else {
                    let size: u32 = block32(host);
                    assert(x / size * size <= x) by (nonlinear_arith)
                        requires
                            size > 0,
                    ;
                    IpAddr::V4(x / size * size)
                }
            },
            IpAddr::V6(x) => {
                let host: u8 = 128 - self.prefix_len;
                if host == 128 {
                    IpAddr::V6(0)
                } else {
                    let size: u128 = block128(host);
                    assert(x / size * size <= x) by (nonlinear_arith)
                        requires
                            size > 0,
                    ;
                    IpAddr::V6(x / size * size)
                }
            },
        }
    }

    /// Whether the network covers the address.
    pub fn contains(self, a: IpAddr) -> (r: bool)
        requires
            self.wf(),
        ensures
            r == self.covers(a),
    {
        proof {
            lemma_base(self);
        }
        let first = self.network();
        match (self.addr, first, a) {
            (IpAddr::V4(_), IpAddr::V4(f), IpAddr::V4(x)) => {
                let host: u8 = 32 - self.prefix_len;
                host == 32 || (f <= x && x - f < block32(host))
            },
            (IpAddr::V6(_), IpAddr::V6(f), IpAddr::V6(x)) => {
                let host: u8 = 128 - self.prefix_len;
                host == 128 || (f <= x && x - f < block128(host))
            },
            _ => false,
        }
    }
}

/// The widths of the two address spaces as powers of two.
proof fn lemma_spaces()
    ensures
        vstd::arithmetic::power2::pow2(32) == 0x1_0000_0000,
        vstd::arithmetic::power2::pow2(128) == 0x1_0000_0000_0000_0000_0000_0000_0000_0000,
{
    vstd::arithmetic::power2::lemma2_to64();
    vstd::arithmetic::power2::lemma_pow2_adds(64, 64);
}

/// The size of a network is positive and at most its address space, which the network lies in;
/// its own address is covered.
pub proof fn lemma_base(n: IpNet)
    requires
        n.wf(),
    ensures
        n.size() >= 1,
        n.size() <= vstd::arithmetic::power2::pow2(width(n.addr)),
        n.base() + n.size() <= vstd::arithmetic::power2::pow2(width(n.addr)),
        n.base() <= value(n.addr) < n.base() + n.size(),
        n.base() % n.size() == 0,
        n.prefix_len == 0 ==> n.base() == 0 && n.size() == vstd::arithmetic::power2::pow2(
            width(n.addr),
        ),
        vstd::arithmetic::power2::pow2(32) == 0x1_0000_0000,
        vstd::arithmetic::power2::pow2(128) == 0x1_0000_0000_0000_0000_0000_0000_0000_0000,
{
    lemma_spaces();
    let w = width(n.addr);
    let h = (w - n.prefix_len) as nat;
    let p = n.prefix_len as nat;
    vstd::arithmetic::power2::lemma_pow2_pos(h);
    vstd::arithmetic::power2::lemma_pow2_pos(p);
    vstd::arithmetic::power2::lemma_pow2_adds(h, p);
    let size = n.size();
    let top = vstd::arithmetic::power2::pow2(w);
    let blocks = vstd::arithmetic::power2::pow2(p);
    let v = value(n.addr);
    assert(size * blocks == top);
    assert(size <= top) by (nonlinear_arith)
        requires
            size * blocks == top,
            blocks >= 1,
            size >= 1,
    ;
    let q = v / size;
    assert(q * size <= v && v < q * size + size) by (nonlinear_arith)
        requires
            q == v / size,
            size >= 1,
    ;
    assert(q < blocks) by (nonlinear_arith)
        requires
            q * size <= v,
            v < top,
            size * blocks == top,
            size >= 1,
    ;
    assert(q * size + size <= top) by (nonlinear_arith)
        requires
            q < blocks,
            size * blocks == top,
            size >= 1,
    ;
    assert((q * size) % size == 0) by {
        vstd::arithmetic::div_mod::lemma_mod_multiples_basic(q as int, size as int);
    }
    if p == 0 {
        assert(v / size == 0) by (nonlinear_arith)
            requires
                v < size,
        ;
        assert(0 * size == 0) by (nonlinear_arith);
    }
}

/// Two to the power `n`, below the width of a 32-bit address.
fn block32(n: u8) -> (r: u32)
    requires
        n < 32,
    ensures
        r == vstd::arithmetic::power2::pow2(n as nat),
        r >= 1,
{
    let mut r: u32 = 1;
    let mut i: u8 = 0;
    assert(vstd::arithmetic::power2::pow2(0) == 1) by {
        vstd::arithmetic::power2::lemma2_to64();
    }
    while i < n
        invariant
            i <= n < 32,
            r == vstd::arithmetic::power2::pow2(i as nat),
            r >= 1,
        decreases n - i,
    {
        proof {
            lemma_spaces();
            vstd::arithmetic::power2::lemma_pow2_unfold((i + 1) as nat);
            if i + 1 < 32 {
                vstd::arithmetic::power2::lemma_pow2_strictly_increases((i + 1) as nat, 32);
            }
        }
        r = r * 2;
        i = i + 1;
    }
    r
}

/// Two to the power `n`, below the width of a 128-bit address.
fn block128(n: u8) -> (r: u128)
    requires
        n < 128,
    ensures
        r == vstd::arithmetic::power2::pow2(n as nat),
        r >= 1,
{
    let mut r: u128 = 1;
    let mut i: u8 = 0;
    assert(vstd::arithmetic::power2::pow2(0) == 1) by {
        vstd::arithmetic::power2::lemma2_to64();
    }
    while i < n
        invariant
            i <= n < 128,
            r == vstd::arithmetic::power2::pow2(i as nat),
            r >= 1,
        decreases n - i,
    {
        proof {
            lemma_spaces();
            vstd::arithmetic::power2::lemma_pow2_unfold((i + 1) as nat);
            if i + 1 < 128 {
                vstd::arithmetic::power2::lemma_pow2_strictly_increases((i + 1) as nat, 128);
            }
        }
        r = r * 2;
        i = i + 1;
    }
    r
}

/// The network that `ipnet` reads a text as, with the address as the number its octets spell.
pub uninterp spec fn net_of(s: Seq<char>) -> Option<IpNet>;

/// `ipnet::IpNet::from_str`: reads CIDR notation. The result is named by `net_of`; of it is
/// claimed that the prefix length is at most the width of the address, as the parser's upper
/// bounds on the number after the slash give, and that the text of a network reads as that
/// network.
#[verifier::external_body]
pub(crate) fn read_net(s: &str) -> (r: Option<IpNet>)
    ensures
        r == net_of(s@),
        r matches Some(n) ==> n.wf(),
        forall|n: IpNet| n.wf() && #[trigger] n.text() == s@ ==> r == Some(n),
{
    match <ipnet::IpNet as std::str::FromStr>::from_str(s) {
        Ok(ipnet::IpNet::V4(n)) => {
            Some(IpNet { addr: IpAddr::V4(u32::from(n.addr())), prefix_len: n.prefix_len() })
        },
        Ok(ipnet::IpNet::V6(n)) => {
            Some(IpNet { addr: IpAddr::V6(u128::from(n.addr())), prefix_len: n.prefix_len() })
        },
        Err(_) => None,
    }
}

/// Reads a network in CIDR notation.
pub fn parse_net(s: &str) -> (r: Option<IpNet>)
    ensures
        r == net_of(s@),
        r matches Some(n) ==> n.wf(),
        forall|n: IpNet| n.wf() && #[trigger] n.text() == s@ ==> r == Some(n),
{
    read_net(s)
}

} // verus!
