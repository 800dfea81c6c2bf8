//! IP addresses and networks: their values, their text forms and the addresses a network covers.

use vstd::prelude::*;

use crate::text;
use crate::text::{chars_of, dec_text, hex_text, join_with, read_digits, split_on, string_of};

verus! {

/// An IP address as the number its octets spell, most significant octet first.
#[derive(Clone, Copy, Debug, PartialEq, Eq, Structural, Hash, PartialOrd, Ord)]
pub enum IpAddr {
    V4(u32),
    V6(u128),
}

// ---------------------------------------------------------------------------------------------
// Positional digits
// ---------------------------------------------------------------------------------------------

/// The last `n` digits of `x` in the base, most significant first.
pub open spec fn digits(x: nat, base: nat, n: nat) -> Seq<nat>
    decreases n,
{
    if n == 0 {
        Seq::empty()
    } else {
        digits(x / base, base, (n - 1) as nat).push(x % base)
    }
}

/// The number that digits in the base denote.
pub open spec fn from_digits(g: Seq<nat>, base: nat) -> nat
    decreases g.len(),
{
    if g.len() == 0 {
        0
    } else {
        from_digits(g.drop_last(), base) * base + g.last()
    }
}

/// `base` to the power `n`.
pub open spec fn power(base: nat, n: nat) -> nat
    decreases n,
{
    if n == 0 {
        1
    } else {
        power(base, (n - 1) as nat) * base
    }
}

/// Reading `n` digits of a number below `base^n` gives the number back; there are `n` of them,
/// each below the base.
pub proof fn lemma_digits(x: nat, base: nat, n: nat)
    requires
        base >= 2,
        x < power(base, n),
    ensures
        digits(x, base, n).len() == n,
        from_digits(digits(x, base, n), base) == x,
        forall|i: int| 0 <= i < n ==> #[trigger] digits(x, base, n)[i] < base,
    decreases n,
{
    if n > 0 {
        let m = (n - 1) as nat;
        let p = power(base, m);
        assert(x / base < p) by (nonlinear_arith)
            requires
                x < p * base,
                base >= 2,
        ;
        lemma_digits(x / base, base, m);
        assert(digits(x, base, n).drop_last() =~= digits(x / base, base, m));
        assert((x / base) * base + x % base == x) by (nonlinear_arith)
            requires
                base >= 2,
        ;
        assert(x % base < base) by (nonlinear_arith)
            requires
                base >= 2,
        ;
    }
}

/// `n` digits below the base denote a number below `base^n`, whose digits they are.
pub proof fn lemma_from_digits(g: Seq<nat>, base: nat)
    requires
        base >= 2,
        forall|i: int| 0 <= i < g.len() ==> #[trigger] g[i] < base,
    ensures
        from_digits(g, base) < power(base, g.len()),
        digits(from_digits(g, base), base, g.len()) == g,
    decreases g.len(),
{
    if g.len() > 0 {
        let f = g.drop_last();
        assert forall|i: int| 0 <= i < f.len() implies #[trigger] f[i] < base by {
            assert(f[i] == g[i]);
        }
        lemma_from_digits(f, base);
        let a = from_digits(f, base);
        let l = g.last();
        let p = power(base, f.len());
        assert(l < base);
        assert(a * base + l < p * base) by (nonlinear_arith)
            requires
                a < p,
                l < base,
        ;
        assert((a * base + l) / base == a && (a * base + l) % base == l) by (nonlinear_arith)
            requires
                l < base,
                base >= 2,
        ;
        assert(f.push(l) =~= g);
    } else {
        assert(g =~= Seq::<nat>::empty());
    }
}

/// 256^4 and 65536^8 are the sizes of the two address spaces.
proof fn lemma_space_sizes()
    ensures
        power(256, 4) == 0x1_0000_0000,
        power(65536, 8) == 0x1_0000_0000_0000_0000_0000_0000_0000_0000,
{
    reveal_with_fuel(power, 9);
}

/// The values as mathematical numbers.
pub open spec fn nats(v: Seq<u16>) -> Seq<nat> {
    Seq::new(v.len(), |i: int| v[i] as nat)
}

/// The numerals of the digits.
pub open spec fn numerals(g: Seq<nat>, base: nat) -> Seq<Seq<char>> {
    Seq::new(g.len(), |i: int| text::numeral(g[i], base))
}

fn groups16(x: u128, n: usize) -> (r: Vec<u16>)
    ensures
        nats(r@) == digits(x as nat, 65536, n as nat),
        r.len() == n,
    decreases n,
{
    if n == 0 {
        let r: Vec<u16> = Vec::new();
        assert(nats(r@) =~= Seq::<nat>::empty());
        r
    } else {
        let mut r = groups16(x / 65536, n - 1);
        let ghost old_r = r@;
        r.push((x % 65536) as u16);
        assert(nats(r@) =~= nats(old_r).push(x as nat % 65536));
        r
    }
}

fn number16(g: &Vec<u16>) -> (x: u128)
    requires
        g.len() == 8,
    ensures
        x == from_digits(nats(g@), 65536),
{
    let ghost ns = nats(g@);
    let mut x: u128 = 0;
    let mut i: usize = 0;
    while i < g.len()
        invariant
            i <= g.len(),
            g.len() == 8,
            ns == nats(g@),
            x == from_digits(ns.take(i as int), 65536),
            x < power(65536, i as nat),
        decreases g.len() - i,
    {
        proof {
            lemma_space_sizes();
            reveal_with_fuel(power, 9);
            assert(x < 0x1_0000_0000_0000_0000_0000_0000_0000);
            assert(ns.take(i + 1).drop_last() =~= ns.take(i as int));
        }
        x = x * 65536 + g[i] as u128;
        i = i + 1;
    }
    assert(ns.take(8) =~= ns);
    x
}

// ---------------------------------------------------------------------------------------------
// Text
// ---------------------------------------------------------------------------------------------

/// The dotted-decimal text of a 32-bit address.
pub open spec fn v4_text(x: nat) -> Seq<char> {
    text::join(numerals(digits(x, 256, 4), 10), seq!['.'])
}

/// How many groups from index `i` on are zero without interruption.
pub open spec fn zero_run(g: Seq<nat>, i: int) -> nat
    decreases g.len() - i,
{
    if i < 0 || i >= g.len() || g[i] != 0 {
        0
    } else {
        1 + zero_run(g, i + 1)
    }
}

/// The first of the longest runs of zero groups that start at index `i` or later, as its start
/// and its length.
pub open spec fn longest_run(g: Seq<nat>, i: int) -> (int, nat)
    decreases g.len() - i,
{
    if i >= g.len() {
        (i, 0)
    } else {
        let rest = longest_run(g, i + 1);
        if zero_run(g, i) >= rest.1 {
            (i, zero_run(g, i))
        } else {
            rest
        }
    }
}

/// Groups in hexadecimal, with colons between them.
pub open spec fn hex_groups(g: Seq<nat>) -> Seq<char> {
    text::join(numerals(g, 16), seq![':'])
}

/// The text of a 128-bit address: an IPv4-mapped one ends in dotted decimal; otherwise eight
/// hexadecimal groups, of which the first longest run of two or more zero groups is written `::`.
pub open spec fn v6_text(x: nat) -> Seq<char> {
    if x / 0x1_0000_0000 == 0xffff {
        seq![':', ':', 'f', 'f', 'f', 'f', ':'] + v4_text(x % 0x1_0000_0000)
    } else {
        let g = digits(x, 65536, 8);
        let (start, len) = longest_run(g, 0);
        if len > 1 {
            hex_groups(g.take(start)) + seq![':', ':'] + hex_groups(g.skip(start + len))
        } else {
            hex_groups(g)
        }
    }
}

impl IpAddr {
    /// The text of the address.
    pub open spec fn text(self) -> Seq<char> {
        match self {
            IpAddr::V4(x) => v4_text(x as nat),
            IpAddr::V6(x) => v6_text(x as nat),
        }
    }

    /// The text of the address.
    pub fn to_text(self) -> (r: String)
        ensures
            r@ == self.text(),
    {
        match self {
            IpAddr::V4(x) => v4_to_text(x),
            IpAddr::V6(x) => v6_to_text(x),
        }
    }
}

fn v4_to_text(x: u32) -> (r: String)
    ensures
        r@ == v4_text(x as nat),
{
    let a: u32 = x / 16777216;
    let b: u32 = x / 65536 % 256;
    let c: u32 = x / 256 % 256;
    let d: u32 = x % 256;
    let mut parts: Vec<String> = Vec::new();
    parts.push(dec_text(a as u64));
    parts.push(dec_text(b as u64));
    parts.push(dec_text(c as u64));
    parts.push(dec_text(d as u64));
    proof {
        let n = x as nat;
        reveal_with_fuel(digits, 5);
        assert(n / 256 / 256 == n / 65536);
        assert(n / 65536 / 256 == n / 16777216);
        assert(n / 16777216 % 256 == n / 16777216);
        assert(digits(n, 256, 4) =~= seq![a as nat, b as nat, c as nat, d as nat]);
        assert(text::texts(parts@) =~= numerals(digits(n, 256, 4), 10));
        reveal_strlit(".");
        assert("."@ =~= seq!['.']);
    }
    join_with(&parts, ".")
}

fn hex_join(g: &Vec<u16>, from: usize, to: usize) -> (r: String)
    requires
        from <= to <= g.len(),
    ensures
        r@ == hex_groups(nats(g@).subrange(from as int, to as int)),
{
    let ghost part = nats(g@).subrange(from as int, to as int);
    let mut parts: Vec<String> = Vec::new();
    let mut i: usize = from;
    while i < to
        invariant
            from <= i <= to <= g.len(),
            part == nats(g@).subrange(from as int, to as int),
            text::texts(parts@) == numerals(part, 16).take(i - from),
        decreases to - i,
    {
        let ghost old_parts = parts@;
        parts.push(hex_text(g[i]));
        i = i + 1;
        proof {
            text::lemma_texts_push(old_parts, parts@.last());
            assert(parts@ =~= old_parts.push(parts@.last()));
            assert(text::texts(parts@) =~= numerals(part, 16).take(i - from));
        }
    }
    proof {
        assert(numerals(part, 16).take(to - from) =~= numerals(part, 16));
        reveal_strlit(":");
        assert(":"@ =~= seq![':']);
    }
    join_with(&parts, ":")
}

fn find_longest_run(g: &Vec<u16>) -> (r: (usize, usize))
    requires
        g.len() == 8,
    ensures
        (r.0 as int, r.1 as nat) == longest_run(nats(g@), 0),
        r.0 + r.1 <= 8,
{
    let ghost ns = nats(g@);
    let mut i: usize = 8;
    let mut run: usize = 0;
    let mut best: (usize, usize) = (8, 0);
    while i > 0
        invariant
            i <= 8,
            g.len() == 8,
            ns == nats(g@),
            run == zero_run(ns, i as int),
            i + run <= 8,
            (best.0 as int, best.1 as nat) == longest_run(ns, i as int),
            best.0 + best.1 <= 8,
        decreases i,
    {
        i = i - 1;
        if g[i] == 0 {
            run = run + 1;
        } else {
            run = 0;
        }
        if run >= best.1 {
            best = (i, run);
        }
    }
    best
}

fn v6_to_text(x: u128) -> (r: String)
    ensures
        r@ == v6_text(x as nat),
{
    if x / 0x1_0000_0000 == 0xffff {
        let mut r = String::from_str("::ffff:");
        proof {
            reveal_strlit("::ffff:");
            assert(r@ =~= seq![':', ':', 'f', 'f', 'f', 'f', ':']);
        }
        r.append(v4_to_text((x % 0x1_0000_0000) as u32).as_str());
        r
    } else {
        let g = groups16(x, 8);
        let (start, len) = find_longest_run(&g);
        let ghost ns = nats(g@);
        if len > 1 {
            let mut r = hex_join(&g, 0, start);
            proof {
                reveal_strlit("::");
                assert("::"@ =~= seq![':', ':']);
                assert(ns.subrange(0, start as int) =~= ns.take(start as int));
                assert(ns.subrange(start + len, 8) =~= ns.skip(start + len));
            }
            r.append("::");
            r.append(hex_join(&g, start + len, 8).as_str());
            r
        } else {
            assert(ns.subrange(0, 8) =~= ns);
            hex_join(&g, 0, 8)
        }
    }
}

// ---------------------------------------------------------------------------------------------
// Reading text
// ---------------------------------------------------------------------------------------------

/// One octet in decimal: up to three digits, no leading zero, at most 255.
pub open spec fn octet_of(p: Seq<char>) -> Option<nat> {
    if 1 <= p.len() <= 3 && text::all_digits(p, 10) && (p.len() == 1 || p[0] != '0')
        && text::number_of(p, 10) <= 255 {
        Some(text::number_of(p, 10))
    } else {
        None
    }
}

/// The 32-bit address that four octets between dots spell.
pub open spec fn v4_of(s: Seq<char>) -> Option<nat> {
    let p = text::split(s, '.');
    if p.len() == 4 && octet_of(p[0]) is Some && octet_of(p[1]) is Some && octet_of(p[2]) is Some
        && octet_of(p[3]) is Some {
        Some(
            from_digits(
                seq![
                    octet_of(p[0]).unwrap(),
                    octet_of(p[1]).unwrap(),
                    octet_of(p[2]).unwrap(),
                    octet_of(p[3]).unwrap(),
                ],
                256,
            ),
        )
    } else {
        None
    }
}

/// One group in hexadecimal: one to four digits, either case.
pub open spec fn group_of(p: Seq<char>) -> Option<nat> {
    if 1 <= p.len() <= 4 && text::all_digits(p, 16) {
        Some(text::number_of(p, 16))
    } else {
        None
    }
}

/// Every piece is a group.
pub open spec fn all_groups(p: Seq<Seq<char>>) -> bool {
    forall|i: int| 0 <= i < p.len() ==> group_of(#[trigger] p[i]) is Some
}

/// The groups that the pieces spell.
pub open spec fn group_values(p: Seq<Seq<char>>) -> Seq<nat> {
    Seq::new(p.len(), |i: int| group_of(p[i]).unwrap())
}

/// The groups that a text between colons spells; with `tail`, the last piece may be a dotted
/// 32-bit address, which counts for two groups. Empty text holds no group.
pub open spec fn groups_of(s: Seq<char>, tail: bool) -> Option<Seq<nat>> {
    let p = text::split(s, ':');
    if s.len() == 0 {
        Some(Seq::empty())
    } else if all_groups(p) {
        Some(group_values(p))
    } else if tail && all_groups(p.drop_last()) && v4_of(p.last()) is Some {
        Some(group_values(p.drop_last()) + digits(v4_of(p.last()).unwrap(), 65536, 2))
    } else {
        None
    }
}

/// Whether `::` stands at index `i`.
pub open spec fn gap_at(s: Seq<char>, i: int) -> bool {
    0 <= i < s.len() - 1 && s[i] == ':' && s[i + 1] == ':'
}

/// The index of the first `::` at or after `i`.
pub open spec fn first_gap(s: Seq<char>, i: int) -> Option<int>
    decreases s.len() - i,
{
    if i < 0 || i >= s.len() {
        None
    } else if gap_at(s, i) {
        Some(i)
    } else {
        first_gap(s, i + 1)
    }
}

/// The 128-bit address that a text spells: eight groups, or fewer on both sides of one `::`,
/// which stands for the zero groups left out, at least one.
pub open spec fn v6_of(s: Seq<char>) -> Option<nat> {
    match first_gap(s, 0) {
        None => match groups_of(s, true) {
            Some(g) => if g.len() == 8 {
                Some(from_digits(g, 65536))
            } else {
                None
            },
            None => None,
        },
        Some(i) => match (groups_of(s.take(i), false), groups_of(s.skip(i + 2), true)) {
            (Some(h), Some(t)) => if h.len() + t.len() <= 7 {
                Some(from_digits(h + zeros((8 - h.len() - t.len()) as nat) + t, 65536))
            } else {
                None
            },
            _ => None,
        },
    }
}

/// `n` zero groups.
pub open spec fn zeros(n: nat) -> Seq<nat> {
    Seq::new(n, |i: int| 0nat)
}

/// The address that a text spells.
pub open spec fn ip_of(s: Seq<char>) -> Option<IpAddr> {
    match v4_of(s) {
        Some(x) => Some(IpAddr::V4(x as u32)),
        None => match v6_of(s) {
            Some(x) => Some(IpAddr::V6(x as u128)),
            None => None,
        },
    }
}

fn read_octet(p: &str) -> (r: Option<u8>)
    ensures
        match r {
            Some(n) => octet_of(p@) == Some(n as nat),
            None => octet_of(p@) is None,
        },
{
    let cs = chars_of(p);
    if cs.len() < 1 || cs.len() > 3 {
        return None;
    }
    if cs.len() > 1 && cs[0] == '0' {
        return None;
    }
    assert(p@.subrange(0, p@.len() as int) =~= p@);
    match read_digits(&cs, 0, cs.len(), 10, 255) {
        Some(n) => Some(n as u8),
        None => None,
    }
}

fn read_v4(s: &str) -> (r: Option<u32>)
    ensures
        match r {
            Some(n) => v4_of(s@) == Some(n as nat),
            None => v4_of(s@) is None,
        },
{
    let parts = split_on(s, '.');
    let ghost p = text::split(s@, '.');
    if parts.len() != 4 {
        assert(text::texts(parts@).len() != 4);
        return None;
    }
    assert(p[0] == parts@[0]@ && p[1] == parts@[1]@ && p[2] == parts@[2]@ && p[3] == parts@[3]@);
    match (
        read_octet(parts[0].as_str()),
        read_octet(parts[1].as_str()),
        read_octet(parts[2].as_str()),
        read_octet(parts[3].as_str()),
    ) {
        (Some(a), Some(b), Some(c), Some(d)) => {
            let x: u32 = (a as u32) * 16777216 + (b as u32) * 65536 + (c as u32) * 256 + (d as u32);
            proof {
                let g = seq![a as nat, b as nat, c as nat, d as nat];
                reveal_with_fuel(from_digits, 5);
                assert(g.drop_last() =~= seq![a as nat, b as nat, c as nat]);
                assert(g.drop_last().drop_last() =~= seq![a as nat, b as nat]);
                assert(g.drop_last().drop_last().drop_last() =~= seq![a as nat]);
                assert(g.drop_last().drop_last().drop_last().drop_last() =~= Seq::<nat>::empty());
                assert(from_digits(g, 256) == x);
            }
            Some(x)
        },
        _ => None,
    }
}

fn read_group(p: &str) -> (r: Option<u16>)
    ensures
        match r {
            Some(n) => group_of(p@) == Some(n as nat),
            None => group_of(p@) is None,
        },
{
    let cs = chars_of(p);
    if cs.len() < 1 || cs.len() > 4 {
        return None;
    }
    assert(p@.subrange(0, p@.len() as int) =~= p@);
    proof {
        if text::all_digits(p@, 16) {
            lemma_four_hex_digits(p@);
        }
    }
    match read_digits(&cs, 0, cs.len(), 16, 65535) {
        Some(n) => Some(n as u16),
        None => None,
    }
}

/// Up to four hexadecimal digits denote a number below 65536.
proof fn lemma_four_hex_digits(p: Seq<char>)
    requires
        p.len() <= 4,
        text::all_digits(p, 16),
    ensures
        text::number_of(p, 16) < 65536,
{
    reveal_with_fuel(text::number_of, 5);
    let a = p.drop_last();
    let b = a.drop_last();
    let c = b.drop_last();
    if p.len() > 0 {
        assert(text::is_digit_of(p[p.len() - 1], 16));
    }
    if p.len() > 1 {
        assert(text::is_digit_of(p[p.len() - 2], 16));
        assert(a.last() == p[p.len() - 2]);
    }
    if p.len() > 2 {
        assert(text::is_digit_of(p[p.len() - 3], 16));
        assert(b.last() == p[p.len() - 3]);
    }
    if p.len() > 3 {
        assert(text::is_digit_of(p[p.len() - 4], 16));
        assert(c.last() == p[p.len() - 4]);
    }
}

fn read_groups(s: &str, tail: bool) -> (r: Option<Vec<u16>>)
    ensures
        match r {
            Some(v) => groups_of(s@, tail) == Some(nats(v@)),
            None => groups_of(s@, tail) is None,
        },
{
    let mut out: Vec<u16> = Vec::new();
    if s.is_empty() {
        assert(nats(out@) =~= Seq::<nat>::empty());
        return Some(out);
    }
    let parts = split_on(s, ':');
    let ghost p = text::split(s@, ':');
    proof {
        text::lemma_split_nonempty(s@, ':');
        assert(text::texts(parts@).len() == parts@.len());
    }
    let n: usize = parts.len();
    let mut i: usize = 0;
    while i < n - 1
        invariant
            n == parts.len(),
            n >= 1,
            i <= n - 1,
            p == text::texts(parts@),
            s@.len() > 0,
            p == text::split(s@, ':'),
            all_groups(p.take(i as int)),
            nats(out@) == group_values(p.take(i as int)),
        decreases n - i,
    {
        assert(p[i as int] == parts@[i as int]@);
        match read_group(parts[i].as_str()) {
            Some(g) => {
                let ghost old_out = out@;
                out.push(g);
                assert(nats(out@) =~= nats(old_out).push(g as nat));
                assert(group_values(p.take(i + 1)) =~= group_values(p.take(i as int)).push(
                    g as nat,
                ));
            },
            None => {
                assert(p.drop_last()[i as int] == p[i as int]);
                return None;
            },
        }
        i = i + 1;
    }
    let last = parts[n - 1].as_str();
    assert(p.last() == last@);
    assert(p.take(n - 1) =~= p.drop_last());
    match read_group(last) {
        Some(g) => {
            let ghost old_out = out@;
            out.push(g);
            proof {
                assert(nats(out@) =~= nats(old_out).push(g as nat));
                assert(group_values(p) =~= group_values(p.drop_last()).push(g as nat));
                assert forall|k: int| 0 <= k < p.len() implies group_of(
                    #[trigger] p[k],
                ) is Some by {
                    if k < n - 1 {
                        assert(p.drop_last()[k] == p[k]);
                    }
                }
            }
            Some(out)
        },
        None => {
            assert(!all_groups(p)) by {
                assert(group_of(p[n - 1]) is None);
            }
            if !tail {
                return None;
            }
            match read_v4(last) {
                Some(x) => {
                    let ghost old_out = out@;
                    out.push((x / 65536) as u16);
                    out.push((x % 65536) as u16);
                    proof {
                        reveal_with_fuel(digits, 3);
                        let y = x as nat;
                        assert(y / 65536 % 65536 == y / 65536);
                        assert(digits(y, 65536, 2) =~= seq![y / 65536, y % 65536]);
                        assert(nats(out@) =~= nats(old_out) + digits(y, 65536, 2));
                    }
                    Some(out)
                },
                None => None,
            }
        },
    }
}

fn find_gap(cs: &Vec<char>) -> (r: Option<usize>)
    ensures
        match r {
            Some(i) => first_gap(cs@, 0) == Some(i as int) && i + 2 <= cs.len(),
            None => first_gap(cs@, 0) is None,
        },
{
    let mut i: usize = 0;
    while i < cs.len()
        invariant
            i <= cs.len(),
            first_gap(cs@, i as int) == first_gap(cs@, 0),
        decreases cs.len() - i,
    {
        if i < cs.len() - 1 && cs[i] == ':' && cs[i + 1] == ':' {
            assert(gap_at(cs@, i as int));
            return Some(i);
        }
        i = i + 1;
    }
    None
}

fn read_v6(s: &str) -> (r: Option<u128>)
    ensures
        match r {
            Some(n) => v6_of(s@) == Some(n as nat),
            None => v6_of(s@) is None,
        },
{
    let cs = chars_of(s);
    match find_gap(&cs) {
        None => match read_groups(s, true) {
            Some(g) => {
                if g.len() == 8 {
                    Some(number16(&g))
                } else {
                    assert(nats(g@).len() != 8);
                    None
                }
            },
            None => None,
        },
        Some(i) => {
            let head = string_of(&cs, 0, i);
            let tail = string_of(&cs, i + 2, cs.len());
            assert(head@ =~= s@.take(i as int));
            assert(tail@ =~= s@.skip(i + 2));
            match (read_groups(head.as_str(), false), read_groups(tail.as_str(), true)) {
                (Some(h), Some(t)) => {
                    assert(nats(h@).len() == h@.len() && nats(t@).len() == t@.len());
                    if h.len() > 7 || t.len() > 7 - h.len() {
                        return None;
                    }
                    let mut g: Vec<u16> = Vec::new();
                    let gap: usize = 8 - h.len() - t.len();
                    let mut k: usize = 0;
                    while k < h.len()
                        invariant
                            k <= h.len(),
                            g@ == h@.take(k as int),
                        decreases h.len() - k,
                    {
                        g.push(h[k]);
                        k = k + 1;
                        assert(h@.take(k as int) =~= h@.take(k - 1).push(h@[k - 1]));
                    }
                    assert(nats(g@) =~= nats(h@) + zeros(0));
                    k = 0;
                    while k < gap
                        invariant
                            k <= gap,
                            nats(g@) == nats(h@) + zeros(k as nat),
                            g.len() == h.len() + k,
                        decreases gap - k,
                    {
                        let ghost old_g = g@;
                        g.push(0);
                        k = k + 1;
                        assert(nats(g@) =~= nats(old_g).push(0));
                        assert(zeros(k as nat) =~= zeros((k - 1) as nat).push(0));
                        assert(nats(g@) =~= nats(h@) + zeros(k as nat));
                    }
                    k = 0;
                    assert(nats(g@) =~= nats(h@) + zeros(gap as nat) + nats(t@).take(0));
                    while k < t.len()
                        invariant
                            k <= t.len(),
                            nats(g@) == nats(h@) + zeros(gap as nat) + nats(t@).take(k as int),
                            g.len() == h.len() + gap + k,
                        decreases t.len() - k,
                    {
                        let ghost old_g = g@;
                        g.push(t[k]);
                        k = k + 1;
                        assert(nats(g@) =~= nats(old_g).push(t@[k - 1] as nat));
                        assert(nats(t@).take(k as int) =~= nats(t@).take(k - 1).push(
                            t@[k - 1] as nat,
                        ));
                        assert(nats(g@) =~= nats(h@) + zeros(gap as nat) + nats(t@).take(k as int));
                    }
                    assert(nats(t@).take(t@.len() as int) =~= nats(t@));
                    Some(number16(&g))
                },
                _ => None,
            }
        },
    }
}

impl IpAddr {
    /// Reads the text of an address.
    pub fn parse(s: &str) -> (r: Option<IpAddr>)
        ensures
            r == ip_of(s@),
    {
        match read_v4(s) {
            Some(x) => Some(IpAddr::V4(x)),
            None => match read_v6(s) {
                Some(x) => Some(IpAddr::V6(x)),
                None => None,
            },
        }
    }
}

} // verus!
