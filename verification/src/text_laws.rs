//! Laws of the text primitives.

use vstd::prelude::*;

use crate::text::{
    dec, has_infix, has_prefix, is_whitespace, join, occurs_at, split, trim_end, trim_start,
    trimmed, unsigned_of,
};

verus! {

/// Dropping leading white space drops exactly the white space in front.
pub proof fn lemma_trim_start(s: Seq<char>) -> (a: int)
    ensures
        0 <= a <= s.len(),
        trim_start(s) == s.skip(a),
        forall|k: int| 0 <= k < a ==> is_whitespace(#[trigger] s[k]),
        a < s.len() ==> !is_whitespace(s[a]),
    decreases s.len(),
{
    if s.len() > 0 && is_whitespace(s[0]) {
        let rest = s.skip(1);
        let b = lemma_trim_start(rest);
        assert(rest.skip(b) =~= s.skip(b + 1));
        assert forall|k: int| 0 <= k < b + 1 implies is_whitespace(#[trigger] s[k]) by {
            if k > 0 {
                assert(rest[k - 1] == s[k]);
            }
        }
        if b < rest.len() {
            assert(rest[b] == s[b + 1]);
        }
        b + 1
    } else {
        assert(s.skip(0) =~= s);
        0
    }
}

/// Dropping trailing white space drops exactly the white space at the end.
pub proof fn lemma_trim_end(s: Seq<char>) -> (b: int)
    ensures
        0 <= b <= s.len(),
        trim_end(s) == s.take(b),
        forall|k: int| b <= k < s.len() ==> is_whitespace(#[trigger] s[k]),
        b > 0 ==> !is_whitespace(s[b - 1]),
    decreases s.len(),
{
    if s.len() > 0 && is_whitespace(s.last()) {
        let front = s.drop_last();
        let b = lemma_trim_end(front);
        assert(front.take(b) =~= s.take(b));
        assert forall|k: int| b <= k < s.len() implies is_whitespace(#[trigger] s[k]) by {
            if k < front.len() {
                assert(front[k] == s[k]);
            }
        }
        b
    } else {
        assert(s.take(s.len() as int) =~= s);
        s.len() as int
    }
}

/// Trimming takes away white space at both ends and nothing else: what is left is a stretch of
/// the text that neither starts nor ends with white space, and all outside it is white space.
pub proof fn lemma_trimmed(s: Seq<char>) -> (r: (int, int))
    ensures
        0 <= r.0 <= r.1 <= s.len(),
        trimmed(s) == s.subrange(r.0, r.1),
        forall|k: int| 0 <= k < s.len() && (k < r.0 || k >= r.1) ==> is_whitespace(
            #[trigger] s[k],
        ),
        r.0 < r.1 ==> !is_whitespace(s[r.0]) && !is_whitespace(s[r.1 - 1]),
{
    let a = lemma_trim_start(s);
    let t = s.skip(a);
    let b = lemma_trim_end(t);
    assert(t.take(b) =~= s.subrange(a, a + b));
    assert forall|k: int| 0 <= k < s.len() && (k < a || k >= a + b) implies is_whitespace(
        #[trigger] s[k],
    ) by {
        if k >= a + b {
            assert(t[k - a] == s[k]);
        }
    }
    if b > 0 {
        assert(t[b - 1] == s[a + b - 1]);
        assert(a < s.len());
    }
    (a, a + b)
}

/// Blanks, tabs and line ends are white space; visible characters of ASCII are not.
pub proof fn lemma_white_space(c: char)
    ensures
        is_whitespace(' '),
        is_whitespace('\t'),
        is_whitespace('\n'),
        is_whitespace('\r'),
        '!' <= c <= '~' ==> !is_whitespace(c),
{
}

/// A text has a prefix exactly where it is the prefix followed by something.
pub proof fn lemma_prefix(s: Seq<char>, p: Seq<char>, rest: Seq<char>)
    ensures
        has_prefix(p + rest, p),
        has_prefix(s, p) ==> s == p + s.skip(p.len() as int),
{
    assert((p + rest).take(p.len() as int) =~= p);
    if has_prefix(s, p) {
        assert(s =~= p + s.skip(p.len() as int));
    }
}

/// A text holds another exactly where it is something, the other, and something.
pub proof fn lemma_infix(s: Seq<char>, p: Seq<char>, a: Seq<char>, b: Seq<char>)
    ensures
        has_infix(a + p + b, p),
        has_infix(s, p) ==> exists|i: int|
            0 <= i && i + p.len() <= s.len() && #[trigger] s.subrange(i, i + p.len()) == p,
{
    let w = a + p + b;
    let i = a.len() as int;
    assert(w.subrange(i, i + p.len()) =~= p);
    assert(occurs_at(w, p, i));
    if has_infix(s, p) {
        let i = choose|i: int| #[trigger] occurs_at(s, p, i);
        assert(s.subrange(i, i + p.len()) == p);
    }
}

/// A decimal numeral is read back as its number, with or without a plus sign, wherever the
/// number is not too large.
pub proof fn lemma_number_reads_back(n: nat, max: nat)
    ensures
        n <= max ==> unsigned_of(dec(n), max) == Some(n) && unsigned_of(seq!['+'] + dec(n), max)
            == Some(n),
        n > max ==> unsigned_of(dec(n), max) is None,
        unsigned_of(Seq::empty(), max) is None,
{
    crate::text::lemma_numeral(n, 10);
    let d = dec(n);
    let p = seq!['+'] + d;
    assert(p.skip(1) =~= d);
    assert(crate::text::is_digit_of(d[0], 10));
    assert(d[0] != '+');
}

/// A decimal numeral: a digit below ten is its character; a digit more stands at the end.
pub proof fn lemma_decimal_digits(n: nat)
    ensures
        n == 0 ==> dec(n) == seq!['0'],
        n == 1 ==> dec(n) == seq!['1'],
        n == 2 ==> dec(n) == seq!['2'],
        n == 3 ==> dec(n) == seq!['3'],
        n == 4 ==> dec(n) == seq!['4'],
        n == 5 ==> dec(n) == seq!['5'],
        n == 6 ==> dec(n) == seq!['6'],
        n == 7 ==> dec(n) == seq!['7'],
        n == 8 ==> dec(n) == seq!['8'],
        n == 9 ==> dec(n) == seq!['9'],
        n >= 10 ==> dec(n) == dec(n / 10) + dec(n % 10),
{
    if n >= 10 {
        assert(dec(n) =~= dec(n / 10) + dec(n % 10));
    }
}

/// Texts are joined with the separator between each two.
pub proof fn lemma_joined(parts: Seq<Seq<char>>, x: Seq<char>, sep: Seq<char>)
    ensures
        join(Seq::empty(), sep) == Seq::<char>::empty(),
        join(seq![x], sep) == x,
        parts.len() > 0 ==> join(parts.push(x), sep) == join(parts, sep) + sep + x,
{
    assert(parts.push(x).drop_last() =~= parts);
}

/// Splitting and joining again gives the text back.
pub proof fn lemma_split_joins_back(s: Seq<char>, c: char)
    ensures
        join(split(s, c), seq![c]) == s,
    decreases s.len(),
{
    crate::text::lemma_split_nonempty(s, c);
    if s.len() == 0 {
        assert(join(split(s, c), seq![c]) =~= s);
    } else {
        let front = split(s.drop_last(), c);
        crate::text::lemma_split_nonempty(s.drop_last(), c);
        lemma_split_joins_back(s.drop_last(), c);
        if s.last() == c {
            lemma_joined(front, Seq::empty(), seq![c]);
            assert(join(front, seq![c]) + seq![c] + Seq::<char>::empty() =~= s);
        } else {
            let x = s.last();
            let heads = front.drop_last();
            assert(heads.push(front.last()) =~= front);
            if heads.len() > 0 {
                lemma_joined(heads, front.last(), seq![c]);
                lemma_joined(heads, front.last().push(x), seq![c]);
                assert(join(heads, seq![c]) + seq![c] + front.last().push(x) =~= (join(
                    heads,
                    seq![c],
                ) + seq![c] + front.last()).push(x));
            } else {
                assert(front =~= seq![front.last()]);
                lemma_joined(heads, front.last(), seq![c]);
                lemma_joined(heads, front.last().push(x), seq![c]);
                assert(heads.push(front.last().push(x)) =~= seq![front.last().push(x)]);
            }
            assert(s.drop_last().push(x) =~= s);
        }
    }
}

/// A piece holds no separator.
pub proof fn lemma_pieces_are_free(s: Seq<char>, c: char)
    ensures
        forall|i: int| 0 <= i < split(s, c).len() ==> !(#[trigger] split(s, c)[i]).contains(c),
    decreases s.len(),
{
    if s.len() > 0 {
        let front = split(s.drop_last(), c);
        crate::text::lemma_split_nonempty(s.drop_last(), c);
        lemma_pieces_are_free(s.drop_last(), c);
        let all = split(s, c);
        assert forall|i: int| 0 <= i < all.len() implies !(#[trigger] all[i]).contains(c) by {
            if s.last() == c {
                if i < front.len() {
                    assert(all[i] == front[i]);
                }
            } else if i < front.len() - 1 {
                assert(all[i] == front[i]);
            } else {
                let p = front[front.len() - 1];
                assert(front.last() == p);
                assert(all[i] == p.push(s.last()));
                if all[i].contains(c) {
                    let k = choose|k: int| 0 <= k < all[i].len() && all[i][k] == c;
                    assert(p[k] == c);
                }
            }
        }
    }
}

/// One text comes before another exactly where it is the beginning of it, or where at the first
/// place at which they differ its character is the lesser.
pub proof fn lemma_order_by_first_difference(a: Seq<char>, b: Seq<char>)
    ensures
        crate::order::before(a, b) <==> exists|i: int| #[trigger] differs_at(a, b, i),
    decreases a.len(),
{
    if b.len() == 0 {
    } else if a.len() == 0 {
        assert(differs_at(a, b, 0));
    } else if a[0] != b[0] {
        if a[0] < b[0] {
            assert(differs_at(a, b, 0));
        }
        if exists|i: int| #[trigger] differs_at(a, b, i) {
            let i = choose|i: int| #[trigger] differs_at(a, b, i);
            if i > 0 {
                assert(a[0] == b[0]);
            }
        }
    } else {
        let x = a.skip(1);
        let y = b.skip(1);
        lemma_order_by_first_difference(x, y);
        if exists|i: int| #[trigger] differs_at(x, y, i) {
            let i = choose|i: int| #[trigger] differs_at(x, y, i);
            assert forall|k: int| 0 <= k < i + 1 implies #[trigger] a[k] == b[k] by {
                if k > 0 {
                    assert(x[k - 1] == y[k - 1]);
                }
            }
            assert(differs_at(a, b, i + 1));
        }
        if exists|i: int| #[trigger] differs_at(a, b, i) {
            let i = choose|i: int| #[trigger] differs_at(a, b, i);
            assert(i > 0);
            assert forall|k: int| 0 <= k < i - 1 implies #[trigger] x[k] == y[k] by {
                assert(a[k + 1] == b[k + 1]);
            }
            assert(differs_at(x, y, i - 1));
        }
    }
}

/// Whether two texts agree up to a place where the first has ended, and the second has not, or
/// has the lesser character.
pub open spec fn differs_at(a: Seq<char>, b: Seq<char>, i: int) -> bool {
    &&& 0 <= i <= a.len()
    &&& i < b.len()
    &&& forall|k: int| 0 <= k < i ==> #[trigger] a[k] == b[k]
    &&& i < a.len() ==> a[i] < b[i]
}

} // verus!
