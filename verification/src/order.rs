//! The order of strings, and lists of strings kept sorted and free of duplicates.

use vstd::prelude::*;

use crate::text;
use crate::text::chars_of;

verus! {

/// The order of strings: by the first character in which they differ, a prefix before what it
/// is a prefix of. On UTF-8 text this is the order of the encoded bytes.
pub open spec fn before(a: Seq<char>, b: Seq<char>) -> bool
    decreases a.len(),
{
    if b.len() == 0 {
        false
    } else if a.len() == 0 {
        true
    } else if a[0] != b[0] {
        a[0] < b[0]
    } else {
        before(a.skip(1), b.skip(1))
    }
}

/// No string comes before itself.
pub proof fn lemma_irreflexive(a: Seq<char>)
    ensures
        !before(a, a),
    decreases a.len(),
{
    if a.len() > 0 {
        lemma_irreflexive(a.skip(1));
    }
}

/// The order is transitive.
pub proof fn lemma_transitive(a: Seq<char>, b: Seq<char>, c: Seq<char>)
    requires
        before(a, b),
        before(b, c),
    ensures
        before(a, c),
    decreases a.len(),
{
    if a.len() > 0 && b.len() > 0 && c.len() > 0 && a[0] == b[0] && b[0] == c[0] {
        lemma_transitive(a.skip(1), b.skip(1), c.skip(1));
    }
}

/// Of two strings one comes before the other unless they are the same.
pub proof fn lemma_total(a: Seq<char>, b: Seq<char>)
    ensures
        before(a, b) || before(b, a) || a == b,
    decreases a.len(),
{
    if a.len() == 0 && b.len() == 0 {
        assert(a =~= b);
    } else if a.len() > 0 && b.len() > 0 && a[0] == b[0] {
        lemma_total(a.skip(1), b.skip(1));
        if a.skip(1) == b.skip(1) {
            assert(a =~= seq![a[0]] + a.skip(1));
            assert(b =~= seq![b[0]] + b.skip(1));
        }
    }
}

/// Strictly ascending: sorted, and nothing occurs twice.
pub open spec fn ascending(v: Seq<Seq<char>>) -> bool {
    forall|i: int, j: int| 0 <= i < j < v.len() ==> before(#[trigger] v[i], #[trigger] v[j])
}

/// An ascending sequence is determined by the set of its elements.
pub proof fn lemma_ascending_unique(a: Seq<Seq<char>>, b: Seq<Seq<char>>)
    requires
        ascending(a),
        ascending(b),
        a.to_set() == b.to_set(),
    ensures
        a == b,
    decreases a.len(),
{
    if a.len() == 0 {
        if b.len() > 0 {
            assert(b.to_set().contains(b[0]));
            assert(a.to_set().contains(b[0]));
        }
        assert(a =~= b);
    } else {
        assert(a.to_set().contains(a[0]));
        assert(b.contains(a[0]));
        let j = choose|j: int| 0 <= j < b.len() && b[j] == a[0];
        assert(b.to_set().contains(b[0]));
        assert(a.contains(b[0]));
        let i = choose|i: int| 0 <= i < a.len() && a[i] == b[0];
        if i > 0 && j > 0 {
            lemma_transitive(a[0], b[0], a[0]);
            lemma_irreflexive(a[0]);
        }
        assert(a[0] == b[0]);
        let x = a.skip(1);
        let y = b.skip(1);
        assert forall|t: Seq<char>| x.to_set().contains(t) <==> y.to_set().contains(t) by {
            if x.contains(t) {
                let k = choose|k: int| 0 <= k < x.len() && x[k] == t;
                assert(a[k + 1] == t);
                assert(a.to_set().contains(t));
                assert(b.contains(t));
                let m = choose|m: int| 0 <= m < b.len() && b[m] == t;
                if m == 0 {
                    lemma_irreflexive(t);
                    assert(before(a[0], a[k + 1]));
                }
                assert(y[m - 1] == t);
            }
            if y.contains(t) {
                let k = choose|k: int| 0 <= k < y.len() && y[k] == t;
                assert(b[k + 1] == t);
                assert(b.to_set().contains(t));
                assert(a.contains(t));
                let m = choose|m: int| 0 <= m < a.len() && a[m] == t;
                if m == 0 {
                    lemma_irreflexive(t);
                    assert(before(b[0], b[k + 1]));
                }
                assert(x[m - 1] == t);
            }
        }
        assert(x.to_set() =~= y.to_set());
        lemma_ascending_unique(x, y);
        assert(a =~= seq![a[0]] + x);
        assert(b =~= seq![b[0]] + y);
    }
}

/// Whether `a` comes before `b`.
pub fn is_before(a: &str, b: &str) -> (r: bool)
    ensures
        r == before(a@, b@),
{
    let x = chars_of(a);
    let y = chars_of(b);
    let mut i: usize = 0;
    assert(a@.skip(0) =~= a@);
    assert(b@.skip(0) =~= b@);
    loop
        invariant
            x@ == a@,
            y@ == b@,
            i <= x.len(),
            i <= y.len(),
            before(a@.skip(i as int), b@.skip(i as int)) == before(a@, b@),
        decreases x.len() - i,
    {
        if i == y.len() {
            return false;
        }
        if i == x.len() {
            return true;
        }
        assert(a@.skip(i as int)[0] == x[i as int]);
        assert(b@.skip(i as int)[0] == y[i as int]);
        if x[i] != y[i] {
            return x[i] < y[i];
        }
        assert(a@.skip(i as int).skip(1) =~= a@.skip(i + 1));
        assert(b@.skip(i as int).skip(1) =~= b@.skip(i + 1));
        i = i + 1;
    }
}

/// Adds `s` at its place in an ascending list, unless the list holds it already.
pub fn insert_sorted(v: &mut Vec<String>, s: String)
    requires
        ascending(text::texts(old(v)@)),
    ensures
        ascending(text::texts(final(v)@)),
        text::texts(final(v)@).to_set() == text::texts(old(v)@).to_set().insert(s@),
{
    let ghost before_texts = text::texts(v@);
    let mut i: usize = 0;
    while i < v.len() && is_before(v[i].as_str(), s.as_str())
        invariant
            i <= v.len(),
            text::texts(v@) == before_texts,
            ascending(before_texts),
            forall|k: int| 0 <= k < i ==> before(#[trigger] before_texts[k], s@),
        decreases v.len() - i,
    {
        i = i + 1;
    }
    if i < v.len() && text::same(v[i].as_str(), s.as_str()) {
        assert(before_texts[i as int] == s@);
        assert(before_texts.to_set().insert(s@) =~= before_texts.to_set());
        return;
    }
    let ghost t = s@;
    let ghost n = i as int;
    let ghost old_v = v@;
    v.insert(i, s);
    let ghost after = text::texts(v@);
    proof {
        assert(after =~= before_texts.insert(n, t));
        if n < before_texts.len() {
            lemma_total(before_texts[n], t);
        }
        assert forall|a: int, b: int| 0 <= a < b < after.len() implies before(
            #[trigger] after[a],
            #[trigger] after[b],
        ) by {
            if a < n && b == n {
                assert(before(before_texts[a], t));
            } else if a == n {
                let o = before_texts[b - 1];
                assert(after[b] == o);
                if b - 1 > n {
                    assert(before(before_texts[n], o));
                    lemma_transitive(t, before_texts[n], o);
                }
            } else {
                let x = if a < n { a } else { a - 1 };
                let y = if b < n { b } else { b - 1 };
                assert(before(before_texts[x], before_texts[y]));
            }
        }
        assert forall|x: Seq<char>| after.to_set().contains(x)
            <==> before_texts.to_set().insert(t).contains(x) by {
            if after.contains(x) {
                let k = choose|k: int| 0 <= k < after.len() && after[k] == x;
                if k < n {
                    assert(before_texts[k] == x);
                } else if k > n {
                    assert(before_texts[k - 1] == x);
                }
            }
            if before_texts.contains(x) {
                let k = choose|k: int| 0 <= k < before_texts.len() && before_texts[k] == x;
                if k < n {
                    assert(after[k] == x);
                } else {
                    assert(after[k + 1] == x);
                }
            }
            assert(after[n] == t);
        }
        assert(after.to_set() =~= before_texts.to_set().insert(t));
    }
}

} // verus!
