//! Laws of address text: what is written reads back as the same address.

use vstd::prelude::*;

use crate::ip;
use crate::ip::IpAddr;
use crate::text;

verus! {

/// A numeral is not empty and holds neither a colon nor a dot.
proof fn lemma_numeral_plain(n: nat, base: nat)
    requires
        2 <= base <= 16,
    ensures
        text::numeral(n, base).len() >= 1,
        !text::numeral(n, base).contains(':'),
        !text::numeral(n, base).contains('.'),
{
    let s = text::numeral(n, base);
    text::lemma_numeral(n, base);
    if s.contains(':') {
        let k = choose|k: int| 0 <= k < s.len() && s[k] == ':';
        assert(text::is_digit_of(s[k], base));
    }
    if s.contains('.') {
        let k = choose|k: int| 0 <= k < s.len() && s[k] == '.';
        assert(text::is_digit_of(s[k], base));
    }
}

/// Joined parts hold only characters of the parts and of the separator.
proof fn lemma_join_absent(parts: Seq<Seq<char>>, sep: char, c: char)
    requires
        sep != c,
        forall|i: int| 0 <= i < parts.len() ==> !(#[trigger] parts[i]).contains(c),
    ensures
        !text::join(parts, seq![sep]).contains(c),
    decreases parts.len(),
{
    let j = text::join(parts, seq![sep]);
    if parts.len() > 1 {
        let f = parts.drop_last();
        lemma_join_absent(f, sep, c);
        let jf = text::join(f, seq![sep]);
        assert(!parts[parts.len() - 1].contains(c));
        if j.contains(c) {
            let k = choose|k: int| 0 <= k < j.len() && j[k] == c;
            if k < jf.len() {
                assert(jf[k] == c);
            } else if k > jf.len() {
                assert(parts.last()[k - jf.len() - 1] == c);
            }
        }
    } else if parts.len() == 1 {
        assert(!parts[0].contains(c));
    }
}

/// Parts that are not empty and hold no colon, joined by colons: no `::` stands in the result,
/// which neither starts nor ends with a colon.
proof fn lemma_join_no_gap(parts: Seq<Seq<char>>)
    requires
        parts.len() >= 1,
        forall|i: int| #![trigger parts[i]]
            0 <= i < parts.len() ==> parts[i].len() >= 1 && !parts[i].contains(':'),
    ensures
        text::join(parts, seq![':']).len() >= 1,
        text::join(parts, seq![':'])[0] != ':',
        text::join(parts, seq![':']).last() != ':',
        forall|k: int| !ip::gap_at(text::join(parts, seq![':']), k),
    decreases parts.len(),
{
    let j = text::join(parts, seq![':']);
    let p = parts.last();
    assert(p == parts[parts.len() - 1]);
    assert(p.contains(p[0]));
    assert(p.contains(p.last()));
    if parts.len() == 1 {
        assert forall|k: int| !ip::gap_at(j, k) by {
            if ip::gap_at(j, k) {
                assert(p.contains(p[k]));
            }
        }
    } else {
        let f = parts.drop_last();
        lemma_join_no_gap(f);
        let jf = text::join(f, seq![':']);
        assert(j == jf + seq![':'] + p);
        assert forall|k: int| !ip::gap_at(j, k) by {
            if ip::gap_at(j, k) {
                if k + 1 < jf.len() {
                    assert(ip::gap_at(jf, k));
                } else if k + 1 == jf.len() {
                    assert(j[k] == jf.last());
                } else if k == jf.len() {
                    assert(j[k + 1] == p[0]);
                } else {
                    assert(j[k] == p[k - jf.len() - 1]);
                    assert(p.contains(p[k - jf.len() - 1]));
                }
            }
        }
    }
}

/// The first `::` is the one before which there is none.
proof fn lemma_first_gap(s: Seq<char>, from: int, i: int)
    requires
        0 <= from <= i,
        ip::gap_at(s, i),
        forall|k: int| from <= k < i ==> !ip::gap_at(s, k),
    ensures
        ip::first_gap(s, from) == Some(i),
    decreases i - from,
{
    if from < i {
        lemma_first_gap(s, from + 1, i);
    }
}

/// Text without `::` has no first one.
proof fn lemma_no_gap(s: Seq<char>, from: int)
    requires
        0 <= from,
        forall|k: int| !ip::gap_at(s, k),
    ensures
        ip::first_gap(s, from) is None,
    decreases s.len() - from,
{
    if from < s.len() {
        lemma_no_gap(s, from + 1);
    }
}

/// The dotted text of a 32-bit address reads back, and holds no colon.
proof fn lemma_v4_reads_back(x: nat)
    requires
        x < 0x1_0000_0000,
    ensures
        ip::v4_of(ip::v4_text(x)) == Some(x),
        !ip::v4_text(x).contains(':'),
        ip::v4_text(x).contains('.'),
{
    let g = ip::digits(x, 256, 4);
    assert(ip::power(256, 4) == 0x1_0000_0000) by {
        reveal_with_fuel(ip::power, 5);
    }
    ip::lemma_digits(x, 256, 4);
    let parts = ip::numerals(g, 10);
    assert forall|i: int| 0 <= i < parts.len() implies !(#[trigger] parts[i]).contains('.')
        && !parts[i].contains(':') && ip::octet_of(parts[i]) == Some(g[i]) by {
        lemma_numeral_plain(g[i], 10);
        text::lemma_numeral(g[i], 10);
        text::lemma_numeral_len(g[i]);
        assert(g[i] < 256);
    }
    text::lemma_split_join(parts, '.');
    lemma_join_absent(parts, '.', ':');
    assert(seq![g[0], g[1], g[2], g[3]] =~= g);
    let t = ip::v4_text(x);
    let f = parts.drop_last();
    assert(t == text::join(f, seq!['.']) + seq!['.'] + parts.last());
    assert(t[text::join(f, seq!['.']).len() as int] == '.');
}

/// Groups below 65536 in hexadecimal read back.
proof fn lemma_hex_groups_read_back(g: Seq<nat>, tail: bool)
    requires
        forall|i: int| 0 <= i < g.len() ==> #[trigger] g[i] < 65536,
    ensures
        ip::groups_of(ip::hex_groups(g), tail) == Some(g),
        !ip::hex_groups(g).contains('.'),
        forall|k: int| !ip::gap_at(ip::hex_groups(g), k),
        g.len() >= 1 ==> ip::hex_groups(g).len() >= 1 && ip::hex_groups(g)[0] != ':'
            && ip::hex_groups(g).last() != ':',
        g.len() == 0 ==> ip::hex_groups(g).len() == 0,
{
    let parts = ip::numerals(g, 16);
    assert forall|i: int| 0 <= i < parts.len() implies (#[trigger] parts[i]).len() >= 1
        && !parts[i].contains('.') && !parts[i].contains(':') && ip::group_of(parts[i]) == Some(
        g[i],
    ) by {
        lemma_numeral_plain(g[i], 16);
        text::lemma_numeral(g[i], 16);
        text::lemma_numeral_len(g[i]);
    }
    lemma_join_absent(parts, ':', '.');
    if g.len() >= 1 {
        lemma_join_no_gap(parts);
        text::lemma_split_join(parts, ':');
        assert(ip::group_values(parts) =~= g);
    } else {
        assert(g =~= Seq::<nat>::empty());
    }
}

/// A zero run holds zeros and ends within the groups.
proof fn lemma_zero_run(g: Seq<nat>, i: int)
    requires
        0 <= i <= g.len(),
    ensures
        i + ip::zero_run(g, i) <= g.len(),
        forall|k: int| i <= k < i + ip::zero_run(g, i) ==> g[k] == 0,
    decreases g.len() - i,
{
    if i < g.len() && g[i] == 0 {
        lemma_zero_run(g, i + 1);
    }
}

/// The longest run holds zeros and lies within the groups.
proof fn lemma_longest_run(g: Seq<nat>, i: int)
    requires
        0 <= i <= g.len(),
    ensures
        ({
            let r = ip::longest_run(g, i);
            &&& i <= r.0
            &&& r.0 + r.1 <= g.len()
            &&& forall|k: int| r.0 <= k < r.0 + r.1 ==> g[k] == 0
        }),
    decreases g.len() - i,
{
    if i < g.len() {
        lemma_zero_run(g, i);
        lemma_longest_run(g, i + 1);
    }
}

/// The text of a 128-bit address reads back, and is not read as a 32-bit one.
proof fn lemma_v6_reads_back(x: nat)
    requires
        x < 0x1_0000_0000_0000_0000_0000_0000_0000_0000,
    ensures
        ip::v6_of(ip::v6_text(x)) == Some(x),
        ip::v4_of(ip::v6_text(x)) is None,
{
    let t = ip::v6_text(x);
    if x / 0x1_0000_0000 == 0xffff {
        lemma_v6_mapped_reads_back(x);
    } else {
        let g = ip::digits(x, 65536, 8);
        assert(ip::power(65536, 8) == 0x1_0000_0000_0000_0000_0000_0000_0000_0000) by {
            reveal_with_fuel(ip::power, 9);
        }
        ip::lemma_digits(x, 65536, 8);
        lemma_longest_run(g, 0);
        let (start, len) = ip::longest_run(g, 0);
        if len > 1 {
            let gh = g.take(start);
            let gt = g.skip(start + len);
            assert forall|i: int| 0 <= i < gh.len() implies #[trigger] gh[i] < 65536 by {
                assert(gh[i] == g[i]);
            }
            assert forall|i: int| 0 <= i < gt.len() implies #[trigger] gt[i] < 65536 by {
                assert(gt[i] == g[i + start + len]);
            }
            lemma_hex_groups_read_back(gh, false);
            lemma_hex_groups_read_back(gt, true);
            let h = ip::hex_groups(gh);
            let l = ip::hex_groups(gt);
            assert(t == h + seq![':', ':'] + l);
            let n = h.len() as int;
            assert(ip::gap_at(t, n));
            assert forall|k: int| 0 <= k < n implies !ip::gap_at(t, k) by {
                if ip::gap_at(t, k) {
                    if k + 1 < n {
                        assert(ip::gap_at(h, k));
                    } else {
                        assert(t[k] == h.last());
                    }
                }
            }
            lemma_first_gap(t, 0, n);
            assert(t.take(n) =~= h);
            assert(t.skip(n + 2) =~= l);
            assert(gh + ip::zeros((8 - gh.len() - gt.len()) as nat) + gt =~= g);
            assert(!t.contains('.')) by {
                if t.contains('.') {
                    let k = choose|k: int| 0 <= k < t.len() && t[k] == '.';
                    if k < n {
                        assert(h[k] == '.');
                    } else if k >= n + 2 {
                        assert(l[k - n - 2] == '.');
                    }
                }
            }
            text::lemma_split_single(t, '.');
        } else {
            lemma_hex_groups_read_back(g, true);
            lemma_no_gap(t, 0);
            text::lemma_split_single(t, '.');
        }
    }
}

/// The number of an IPv4-mapped address from its eight groups.
proof fn lemma_mapped_number(y: nat)
    requires
        y < 0x1_0000_0000,
    ensures
        ip::from_digits(
            seq![0nat, 0nat, 0nat, 0nat, 0nat, 0xffffnat, y / 65536, y % 65536],
            65536,
        ) == 0xffff_0000_0000 + y,
{
    let g = seq![0nat, 0nat, 0nat, 0nat, 0nat, 0xffffnat, y / 65536, y % 65536];
    reveal_with_fuel(ip::from_digits, 9);
    let g7 = g.drop_last();
    let g6 = g7.drop_last();
    let g5 = g6.drop_last();
    let g4 = g5.drop_last();
    let g3 = g4.drop_last();
    let g2 = g3.drop_last();
    let g1 = g2.drop_last();
    assert(g1.drop_last().len() == 0);
    assert(ip::from_digits(g1, 65536) == 0);
    assert(ip::from_digits(g2, 65536) == 0);
    assert(ip::from_digits(g3, 65536) == 0);
    assert(ip::from_digits(g4, 65536) == 0);
    assert(ip::from_digits(g5, 65536) == 0);
    assert(ip::from_digits(g6, 65536) == 0xffff);
    assert(ip::from_digits(g7, 65536) == 0xffff * 65536 + y / 65536);
}

/// The text `ffff:` and a dotted address after it reads as three groups.
#[verifier::spinoff_prover]
#[verifier::rlimit(60)]
proof fn lemma_mapped_tail(y: nat)
    requires
        y < 0x1_0000_0000,
    ensures
        ip::groups_of(seq!['f', 'f', 'f', 'f', ':'] + ip::v4_text(y), true) == Some(
            seq![0xffffnat, y / 65536, y % 65536],
        ),
{
    let v = ip::v4_text(y);
    let f = seq!['f', 'f', 'f', 'f'];
    lemma_v4_reads_back(y);
    let parts = seq![f, v];
    assert(!f.contains(':'));
    text::lemma_split_join(parts, ':');
    assert(parts.drop_last() =~= seq![f]);
    assert(text::join(parts.drop_last(), seq![':']) == f);
    assert(seq!['f', 'f', 'f', 'f', ':'] + v =~= text::join(parts, seq![':']));
    assert(ip::group_of(f) == Some(0xffffnat)) by {
        reveal_with_fuel(text::number_of, 5);
        assert(f.drop_last() =~= seq!['f', 'f', 'f']);
        assert(f.drop_last().drop_last() =~= seq!['f', 'f']);
        assert(f.drop_last().drop_last().drop_last() =~= seq!['f']);
        assert(f.drop_last().drop_last().drop_last().drop_last() =~= Seq::<char>::empty());
    }
    assert(!ip::all_groups(parts)) by {
        let k = choose|k: int| 0 <= k < v.len() && v[k] == '.';
        assert(!text::is_digit_of(v[k], 16));
        assert(ip::group_of(parts[1]) is None);
    }
    let d = ip::digits(y, 65536, 2);
    assert(d =~= seq![y / 65536, y % 65536]) by {
        reveal_with_fuel(ip::digits, 3);
        assert(y / 65536 % 65536 == y / 65536);
    }
    assert(ip::group_values(parts.drop_last()) + d =~= seq![0xffffnat, y / 65536, y % 65536]);
}

/// With the colons of a mapped address before it, dotted text is no 32-bit address.
proof fn lemma_mapped_not_v4(y: nat)
    requires
        y < 0x1_0000_0000,
    ensures
        ip::v4_of(seq![':', ':', 'f', 'f', 'f', 'f', ':'] + ip::v4_text(y)) is None,
{
    let d4 = ip::digits(y, 256, 4);
    assert(ip::power(256, 4) == 0x1_0000_0000) by {
        reveal_with_fuel(ip::power, 5);
    }
    ip::lemma_digits(y, 256, 4);
    let vp = ip::numerals(d4, 10);
    assert forall|i: int| 0 <= i < vp.len() implies !(#[trigger] vp[i]).contains('.') by {
        lemma_numeral_plain(d4[i], 10);
    }
    let pre = seq![':', ':', 'f', 'f', 'f', 'f', ':'];
    let first = pre + vp[0];
    assert(!first.contains('.')) by {
        if first.contains('.') {
            let k = choose|k: int| 0 <= k < first.len() && first[k] == '.';
            if k >= 7 {
                assert(vp[0][k - 7] == '.');
            }
        }
    }
    let tp = seq![first, vp[1], vp[2], vp[3]];
    text::lemma_split_join(tp, '.');
    assert(text::join(tp, seq!['.']) == pre + text::join(vp, seq!['.'])) by {
        reveal_with_fuel(text::join, 5);
        assert(tp.drop_last() =~= seq![first, vp[1], vp[2]]);
        assert(tp.drop_last().drop_last() =~= seq![first, vp[1]]);
        assert(tp.drop_last().drop_last().drop_last() =~= seq![first]);
        assert(vp.drop_last() =~= seq![vp[0], vp[1], vp[2]]);
        assert(vp.drop_last().drop_last() =~= seq![vp[0], vp[1]]);
        assert(vp.drop_last().drop_last().drop_last() =~= seq![vp[0]]);
        assert(text::join(tp, seq!['.']) =~= pre + text::join(vp, seq!['.']));
    }
    assert(ip::octet_of(first) is None) by {
        assert(!text::is_digit_of(first[0], 10));
    }
}

proof fn lemma_v6_mapped_reads_back(x: nat)
    requires
        x / 0x1_0000_0000 == 0xffff,
    ensures
        ip::v6_of(ip::v6_text(x)) == Some(x),
        ip::v4_of(ip::v6_text(x)) is None,
{
    let t = ip::v6_text(x);
    let y = x % 0x1_0000_0000;
    lemma_mapped_tail(y);
    lemma_mapped_not_v4(y);
    lemma_mapped_number(y);
    assert(ip::gap_at(t, 0));
    lemma_first_gap(t, 0, 0);
    assert(t.take(0) =~= Seq::<char>::empty());
    assert(t.skip(2) =~= seq!['f', 'f', 'f', 'f', ':'] + ip::v4_text(y));
    let tail = seq![0xffffnat, y / 65536, y % 65536];
    assert(Seq::<nat>::empty() + ip::zeros(5) + tail =~= seq![
        0nat,
        0nat,
        0nat,
        0nat,
        0nat,
        0xffffnat,
        y / 65536,
        y % 65536,
    ]);
}

/// The text of an address reads back as that address.
pub proof fn lemma_text_reads_back(a: IpAddr)
    ensures
        ip::ip_of(a.text()) == Some(a),
{
    match a {
        IpAddr::V4(x) => {
            lemma_v4_reads_back(x as nat);
        },
        IpAddr::V6(x) => {
            lemma_v6_reads_back(x as nat);
        },
    }
}

/// Two addresses with the same text are the same address.
pub proof fn lemma_text_injective(a: IpAddr, b: IpAddr)
    requires
        a.text() == b.text(),
    ensures
        a == b,
{
    lemma_text_reads_back(a);
    lemma_text_reads_back(b);
}

/// The text of a 32-bit address is its four octets in decimal, highest first, with dots between
/// them.
pub proof fn lemma_dotted_text(x: u32)
    ensures
        IpAddr::V4(x).text() == text::dec((x / 0x100_0000) as nat) + seq!['.'] + text::dec(
            (x / 0x1_0000 % 256) as nat,
        ) + seq!['.'] + text::dec((x / 0x100 % 256) as nat) + seq!['.'] + text::dec(
            (x % 256) as nat,
        ),
{
    let n = x as nat;
    let g = ip::digits(n, 256, 4);
    reveal_with_fuel(ip::digits, 5);
    let a = n / 256 / 256 / 256 % 256;
    let b = n / 256 / 256 % 256;
    let c = n / 256 % 256;
    let d = n % 256;
    assert(g =~= seq![a, b, c, d]);
    assert(n / 256 / 256 == n / 0x1_0000 && n / 256 / 256 / 256 == n / 0x100_0000);
    assert(n / 0x100_0000 < 256);
    let p = ip::numerals(g, 10);
    let sep = seq!['.'];
    assert(p =~= seq![text::dec(a), text::dec(b), text::dec(c), text::dec(d)]);
    let p3 = p.drop_last();
    let p2 = p3.drop_last();
    let p1 = p2.drop_last();
    assert(p1 =~= seq![text::dec(a)]);
    assert(text::join(p1, sep) == text::dec(a));
    assert(text::join(p2, sep) == text::join(p1, sep) + sep + text::dec(b));
    assert(text::join(p3, sep) == text::join(p2, sep) + sep + text::dec(c));
    assert(text::join(p, sep) == text::join(p3, sep) + sep + text::dec(d));
}

/// Digits without a leading zero are the numeral of the number that they denote.
proof fn lemma_plain_digits(p: Seq<char>)
    requires
        p.len() >= 1,
        text::all_digits(p, 10),
        p.len() == 1 || p[0] != '0',
    ensures
        text::dec(text::number_of(p, 10)) == p,
        p[0] != '0' ==> text::number_of(p, 10) > 0,
    decreases p.len(),
{
    let last = p[p.len() - 1];
    assert(text::is_digit_of(last, 10));
    let d = text::digit_value(last)->0;
    let front = p.drop_last();
    assert(p.last() == last);
    if p.len() == 1 {
        assert(front.len() == 0);
        assert(text::number_of(front, 10) == 0);
        assert(text::number_of(p, 10) == d);
        assert(text::digit_char(d) == last);
        assert(text::dec(d) =~= p);
    } else {
        assert forall|i: int| 0 <= i < front.len() implies text::is_digit_of(
            #[trigger] front[i],
            10,
        ) by {
            assert(front[i] == p[i]);
        }
        assert(front[0] == p[0]);
        lemma_plain_digits(front);
        let m = text::number_of(front, 10);
        let n = text::number_of(p, 10);
        assert(n == m * 10 + d);
        assert(n / 10 == m && n % 10 == d && n >= 10);
        assert(text::digit_char(d) == last);
        assert(text::dec(n) == text::dec(m).push(text::digit_char(d)));
        assert(front.push(last) =~= p);
    }
}

/// No other text spells a 32-bit address than its own: four octets in decimal without leading
/// zeros, none above 255.
pub proof fn lemma_only_own_text_spells_v4(s: Seq<char>, x: u32)
    requires
        ip::ip_of(s) == Some(IpAddr::V4(x)),
    ensures
        s == IpAddr::V4(x).text(),
{
    let p = text::split(s, '.');
    let g = seq![
        ip::octet_of(p[0]).unwrap(),
        ip::octet_of(p[1]).unwrap(),
        ip::octet_of(p[2]).unwrap(),
        ip::octet_of(p[3]).unwrap(),
    ];
    assert(ip::v4_of(s) is Some);
    assert forall|i: int| 0 <= i < 4 implies text::dec(#[trigger] g[i]) == p[i] && g[i] < 256 by {
        lemma_plain_digits(p[i]);
    }
    ip::lemma_from_digits(g, 256);
    let n = ip::from_digits(g, 256);
    assert(ip::power(256, 4) == 0x1_0000_0000) by {
        reveal_with_fuel(ip::power, 5);
    }
    assert(x == n);
    assert(ip::digits(n, 256, 4) == g);
    assert(ip::numerals(g, 10) =~= p);
    crate::text_laws::lemma_split_joins_back(s, '.');
}

/// The text of a network is that of its address, a slash, and the length of its prefix; the value
/// of an address is its number, and its width that of its family.
pub proof fn lemma_network_text(n: crate::net::IpNet, x: u32, y: u128)
    ensures
        n.text() == n.addr.text() + "/"@ + text::dec(n.prefix_len as nat),
        crate::net::value(IpAddr::V4(x)) == x,
        crate::net::value(IpAddr::V6(y)) == y,
        n.size() == vstd::arithmetic::power2::pow2(
            (crate::net::width(n.addr) - n.prefix_len) as nat,
        ),
        n.wf() <==> n.prefix_len <= (if n.addr is V4 {
            32int
        } else {
            128
        }),
{
}

/// Digits up to sixteen have their values in either case, and nothing else is a digit; a digit
/// more counts the digits before it once more for each of the base.
pub proof fn lemma_digit_values(c: char, d: Seq<char>, base: nat)
    ensures
        '0' <= c <= '9' ==> text::digit_value(c) == Some((c as nat - '0' as nat) as nat),
        'a' <= c <= 'f' ==> text::digit_value(c) == Some((c as nat - 'a' as nat + 10) as nat),
        'A' <= c <= 'F' ==> text::digit_value(c) == Some((c as nat - 'A' as nat + 10) as nat),
        !('0' <= c <= '9') && !('a' <= c <= 'f') && !('A' <= c <= 'F') ==> text::digit_value(
            c,
        ) is None,
        text::number_of(Seq::empty(), base) == 0,
        text::digit_value(c) matches Some(v) ==> text::number_of(d.push(c), base)
            == text::number_of(d, base) * base + v,
{
    assert(d.push(c).drop_last() =~= d);
}

/// Whether a text is a group of a 128-bit address with that value: one to four hexadecimal
/// digits, in either case.
pub open spec fn is_group(p: Seq<char>, n: nat) -> bool {
    &&& 1 <= p.len() <= 4
    &&& forall|i: int|
        0 <= i < p.len() ==> text::digit_value(#[trigger] p[i]) is Some
    &&& text::number_of(p, 16) == n
}

proof fn lemma_groups(p: Seq<Seq<char>>, g: Seq<nat>, tail: bool)
    requires
        p.len() == g.len(),
        forall|i: int| 0 <= i < p.len() ==> is_group(#[trigger] p[i], g[i]),
    ensures
        ip::groups_of(text::join(p, seq![':']), tail) == Some(g),
        !text::join(p, seq![':']).contains('.'),
        forall|k: int| !ip::gap_at(text::join(p, seq![':']), k),
        p.len() >= 1 ==> text::join(p, seq![':']).len() >= 1 && text::join(p, seq![':'])[0] != ':'
            && text::join(p, seq![':']).last() != ':',
        p.len() == 0 ==> text::join(p, seq![':']).len() == 0,
        forall|i: int| 0 <= i < g.len() ==> #[trigger] g[i] < 65536,
{
    assert forall|i: int| 0 <= i < p.len() implies (#[trigger] p[i]).len() >= 1
        && !p[i].contains('.') && !p[i].contains(':') && ip::group_of(p[i]) == Some(g[i])
        && g[i] < 65536 by {
        let x = p[i];
        assert(is_group(x, g[i]));
        assert forall|k: int| 0 <= k < x.len() implies text::is_digit_of(#[trigger] x[k], 16) by {
            assert(text::digit_value(x[k]) is Some);
        }
        if x.contains('.') {
            let k = choose|k: int| 0 <= k < x.len() && x[k] == '.';
            assert(text::is_digit_of(x[k], 16));
        }
        if x.contains(':') {
            let k = choose|k: int| 0 <= k < x.len() && x[k] == ':';
            assert(text::is_digit_of(x[k], 16));
        }
        lemma_four_digits_bound(x);
    }
    lemma_join_absent(p, ':', '.');
    if p.len() >= 1 {
        lemma_join_no_gap(p);
        text::lemma_split_join(p, ':');
        assert(ip::group_values(p) =~= g);
        assert forall|i: int| 0 <= i < g.len() implies #[trigger] g[i] < 65536 by {
            assert(is_group(p[i], g[i]));
        }
    } else {
        assert(g =~= Seq::<nat>::empty());
    }
}

proof fn lemma_four_digits_bound(p: Seq<char>)
    requires
        p.len() <= 4,
        forall|i: int| 0 <= i < p.len() ==> text::is_digit_of(#[trigger] p[i], 16),
    ensures
        p.len() == 0 ==> text::number_of(p, 16) == 0,
        p.len() == 1 ==> text::number_of(p, 16) < 16,
        p.len() == 2 ==> text::number_of(p, 16) < 256,
        p.len() == 3 ==> text::number_of(p, 16) < 4096,
        p.len() == 4 ==> text::number_of(p, 16) < 65536,
    decreases p.len(),
{
    if p.len() > 0 {
        let f = p.drop_last();
        assert forall|i: int| 0 <= i < f.len() implies text::is_digit_of(#[trigger] f[i], 16) by {
            assert(f[i] == p[i]);
        }
        lemma_four_digits_bound(f);
        assert(text::is_digit_of(p[p.len() - 1], 16));
        assert(p.last() == p[p.len() - 1]);
    }
}

/// Eight groups with colons between them spell the 128-bit address of those groups, whatever the
/// case of their digits and with leading zeros or without.
pub proof fn lemma_eight_groups_spell_v6(p: Seq<Seq<char>>, g: Seq<nat>)
    requires
        p.len() == 8,
        g.len() == 8,
        forall|i: int| 0 <= i < 8 ==> is_group(#[trigger] p[i], g[i]),
    ensures
        ip::ip_of(text::join(p, seq![':'])) == Some(
            IpAddr::V6(ip::from_digits(g, 65536) as u128),
        ),
{
    lemma_groups(p, g, true);
    let t = text::join(p, seq![':']);
    lemma_no_gap(t, 0);
    text::lemma_split_single(t, '.');
}

/// A double colon stands for the zero groups that are left out, at least one: groups before it
/// and groups behind it spell the 128-bit address of the first ones, zeros up to eight groups in
/// all, and the last ones.
pub proof fn lemma_double_colon_spells_v6(
    p: Seq<Seq<char>>,
    g: Seq<nat>,
    q: Seq<Seq<char>>,
    h: Seq<nat>,
)
    requires
        p.len() == g.len(),
        q.len() == h.len(),
        p.len() + q.len() <= 7,
        forall|i: int| 0 <= i < p.len() ==> is_group(#[trigger] p[i], g[i]),
        forall|i: int| 0 <= i < q.len() ==> is_group(#[trigger] q[i], h[i]),
    ensures
        ip::ip_of(text::join(p, seq![':']) + seq![':', ':'] + text::join(q, seq![':'])) == Some(
            IpAddr::V6(
                ip::from_digits(
                    g + Seq::new((8 - g.len() - h.len()) as nat, |i: int| 0nat) + h,
                    65536,
                ) as u128,
            ),
        ),
{
    lemma_groups(p, g, false);
    lemma_groups(q, h, true);
    let a = text::join(p, seq![':']);
    let b = text::join(q, seq![':']);
    let t = a + seq![':', ':'] + b;
    let n = a.len() as int;
    assert(ip::gap_at(t, n));
    assert forall|k: int| 0 <= k < n implies !ip::gap_at(t, k) by {
        if ip::gap_at(t, k) {
            if k + 1 < n {
                assert(ip::gap_at(a, k));
            } else {
                assert(t[k] == a.last());
            }
        }
    }
    lemma_first_gap(t, 0, n);
    assert(t.take(n) =~= a);
    assert(t.skip(n + 2) =~= b);
    assert(!t.contains('.')) by {
        if t.contains('.') {
            let k = choose|k: int| 0 <= k < t.len() && t[k] == '.';
            if k < n {
                assert(a[k] == '.');
            } else if k >= n + 2 {
                assert(b[k - n - 2] == '.');
            }
        }
    }
    text::lemma_split_single(t, '.');
}

/// Whether the groups from `i` on, `n` of them, are zero.
pub open spec fn zeros_from(g: Seq<nat>, i: int, n: int) -> bool {
    &&& 0 <= i
    &&& 0 <= n
    &&& i + n <= g.len()
    &&& forall|k: int| i <= k < i + n ==> #[trigger] g[k] == 0
}

proof fn lemma_zero_run_is_longest(g: Seq<nat>, i: int, n: int)
    requires
        zeros_from(g, i, n),
    ensures
        n <= ip::zero_run(g, i),
    decreases n,
{
    if n > 0 {
        assert(g[i] == 0);
        assert(zeros_from(g, i + 1, n - 1));
        lemma_zero_run_is_longest(g, i + 1, n - 1);
    }
}

proof fn lemma_longest_run_is_first(g: Seq<nat>, from: int, i: int, n: int)
    requires
        0 <= from <= i <= g.len(),
        zeros_from(g, i, n),
    ensures
        n <= ip::longest_run(g, from).1,
        n == ip::longest_run(g, from).1 ==> ip::longest_run(g, from).0 <= i,
    decreases g.len() - from,
{
    if from < g.len() {
        if i == from {
            lemma_zero_run_is_longest(g, i, n);
        } else {
            lemma_longest_run_is_first(g, from + 1, i, n);
        }
    }
}

/// The text of a 128-bit address that is not a mapped one: of its eight groups in hexadecimal,
/// with colons between them, the first of the longest runs of two or more zeros is left out, and
/// two colons stand for it; without such a run all eight are written.
pub proof fn lemma_colon_text(x: u128, start: int, n: int)
    requires
        x / 0x1_0000_0000 != 0xffff,
    ensures
        ({
            let g = ip::digits(x as nat, 65536, 8);
            let sep = seq![':'];
            &&& n >= 2 && zeros_from(g, start, n) && (forall|i: int, l: int| #[trigger]
                zeros_from(g, i, l) ==> l < n || (l == n && start <= i)) ==> IpAddr::V6(x).text()
                == text::join(ip::numerals(g.take(start), 16), sep) + seq![':', ':'] + text::join(
                ip::numerals(g.skip(start + n), 16),
                sep,
            )
            &&& (forall|i: int| !#[trigger] zeros_from(g, i, 2)) ==> IpAddr::V6(x).text()
                == text::join(ip::numerals(g, 16), sep)
        }),
{
    let g = ip::digits(x as nat, 65536, 8);
    assert(ip::power(65536, 8) == 0x1_0000_0000_0000_0000_0000_0000_0000_0000) by {
        reveal_with_fuel(ip::power, 9);
    }
    ip::lemma_digits(x as nat, 65536, 8);
    let r = ip::longest_run(g, 0);
    lemma_longest_run(g, 0);
    assert(zeros_from(g, r.0, r.1 as int));
    if n >= 2 && zeros_from(g, start, n) && (forall|i: int, l: int| #[trigger]
        zeros_from(g, i, l) ==> l < n || (l == n && start <= i)) {
        lemma_longest_run_is_first(g, 0, start, n);
        assert(r.1 == n && r.0 == start);
    }
    if forall|i: int| !#[trigger] zeros_from(g, i, 2) {
        if r.1 >= 2 {
            assert(zeros_from(g, r.0, 2));
        }
    }
}

/// The text of a mapped address ends in the dotted text of its last 32 bits; numerals are those
/// of the groups, one for each.
pub proof fn lemma_mapped_text(x: u128, y: u32, g: Seq<nat>, i: int)
    requires
        x == 0xffff_0000_0000 + y,
        0 <= i < g.len(),
    ensures
        IpAddr::V6(x).text() == seq![':', ':', 'f', 'f', 'f', 'f', ':'] + IpAddr::V4(y).text(),
        ip::numerals(g, 16).len() == g.len(),
        ip::numerals(g, 16)[i] == text::numeral(g[i], 16),
        0xa <= g[i] <= 0xf ==> text::numeral(g[i], 16) == seq![
            (('a' as nat + g[i] - 10) as nat) as char,
        ],
{
    assert(x as nat / 0x1_0000_0000 == 0xffff);
    assert(x as nat % 0x1_0000_0000 == y as nat);
}

} // verus!
