//! Sequences built element by element.

use vstd::prelude::*;

verus! {

/// What `f` makes of each element, one after the other.
pub open spec fn flat<A, B>(s: Seq<A>, f: spec_fn(A) -> Seq<B>) -> Seq<B>
    decreases s.len(),
{
    if s.len() == 0 {
        Seq::empty()
    } else {
        flat(s.drop_last(), f) + f(s.last())
    }
}

/// One element more adds what `f` makes of it.
pub proof fn lemma_flat_step<A, B>(s: Seq<A>, f: spec_fn(A) -> Seq<B>, i: int)
    requires
        0 <= i < s.len(),
    ensures
        flat(s.take(i + 1), f) == flat(s.take(i), f) + f(s[i]),
{
    assert(s.take(i + 1).drop_last() =~= s.take(i));
}

/// What `f` makes of an element is in the result.
pub proof fn lemma_flat_has<A, B>(s: Seq<A>, f: spec_fn(A) -> Seq<B>, i: int, x: B)
    requires
        0 <= i < s.len(),
        f(s[i]).contains(x),
    ensures
        flat(s, f).contains(x),
    decreases s.len(),
{
    let front = flat(s.drop_last(), f);
    let back = f(s.last());
    if i == s.len() - 1 {
        let k = choose|k: int| 0 <= k < back.len() && back[k] == x;
        assert((front + back)[front.len() + k] == x);
    } else {
        assert(s.drop_last()[i] == s[i]);
        lemma_flat_has(s.drop_last(), f, i, x);
        let k = choose|k: int| 0 <= k < front.len() && front[k] == x;
        assert((front + back)[k] == x);
    }
}

/// What is in the result was made of some element.
pub proof fn lemma_flat_from<A, B>(s: Seq<A>, f: spec_fn(A) -> Seq<B>, x: B) -> (i: int)
    requires
        flat(s, f).contains(x),
    ensures
        0 <= i < s.len(),
        f(s[i]).contains(x),
    decreases s.len(),
{
    let front = flat(s.drop_last(), f);
    let back = f(s.last());
    let k = choose|k: int| 0 <= k < flat(s, f).len() && flat(s, f)[k] == x;
    if k >= front.len() {
        assert(back[k - front.len()] == x);
        s.len() - 1
    } else {
        assert(front[k] == x);
        let i = lemma_flat_from(s.drop_last(), f, x);
        assert(s.drop_last()[i] == s[i]);
        i
    }
}

/// Equal on every element, equal as a whole.
pub proof fn lemma_flat_same<A, B>(s: Seq<A>, f: spec_fn(A) -> Seq<B>, g: spec_fn(A) -> Seq<B>)
    requires
        forall|i: int| 0 <= i < s.len() ==> f(#[trigger] s[i]) == g(s[i]),
    ensures
        flat(s, f) == flat(s, g),
    decreases s.len(),
{
    if s.len() > 0 {
        assert forall|i: int| 0 <= i < s.drop_last().len() implies f(#[trigger] s.drop_last()[i])
            == g(s.drop_last()[i]) by {
            assert(s.drop_last()[i] == s[i]);
        }
        lemma_flat_same(s.drop_last(), f, g);
        assert(s[s.len() - 1] == s.last());
    }
}

/// Nothing made of any element: nothing in all.
pub proof fn lemma_flat_empty<A, B>(s: Seq<A>, f: spec_fn(A) -> Seq<B>)
    requires
        forall|i: int| 0 <= i < s.len() ==> f(#[trigger] s[i]).len() == 0,
    ensures
        flat(s, f).len() == 0,
    decreases s.len(),
{
    if s.len() > 0 {
        assert forall|i: int| 0 <= i < s.drop_last().len() implies f(
            #[trigger] s.drop_last()[i],
        ).len() == 0 by {
            assert(s.drop_last()[i] == s[i]);
        }
        lemma_flat_empty(s.drop_last(), f);
        assert(s[s.len() - 1] == s.last());
    }
}

/// An element of a part is an element of the whole.
pub proof fn lemma_in_sum<A>(a: Seq<A>, b: Seq<A>, x: A)
    ensures
        (a + b).contains(x) <==> a.contains(x) || b.contains(x),
{
    if a.contains(x) {
        let k = choose|k: int| 0 <= k < a.len() && a[k] == x;
        assert((a + b)[k] == x);
    }
    if b.contains(x) {
        let k = choose|k: int| 0 <= k < b.len() && b[k] == x;
        assert((a + b)[a.len() + k] == x);
    }
    if (a + b).contains(x) {
        let k = choose|k: int| 0 <= k < (a + b).len() && (a + b)[k] == x;
        if k < a.len() {
            assert(a[k] == x);
        } else {
            assert(b[k - a.len()] == x);
        }
    }
}

/// No element, no result; one element, what `f` makes of it; two lists one after the other, their
/// results one after the other.
pub proof fn lemma_flat_parts<A, B>(a: Seq<A>, b: Seq<A>, x: A, f: spec_fn(A) -> Seq<B>)
    ensures
        flat(Seq::<A>::empty(), f) == Seq::<B>::empty(),
        flat(seq![x], f) == f(x),
        flat(a + b, f) == flat(a, f) + flat(b, f),
    decreases b.len(),
{
    let one = seq![x];
    assert(one.drop_last().len() == 0);
    assert(flat(one.drop_last(), f) =~= Seq::<B>::empty());
    assert(one.last() == x);
    assert(flat(one, f) =~= f(x));
    if b.len() == 0 {
        assert(a + b =~= a);
        assert(flat(a, f) + flat(b, f) =~= flat(a, f));
    } else {
        lemma_flat_parts(a, b.drop_last(), x, f);
        assert((a + b).drop_last() =~= a + b.drop_last());
        assert((a + b).last() == b.last());
        assert(flat(a + b, f) =~= flat(a, f) + flat(b, f));
    }
}

/// Where every element makes `n` elements, those of the element at `i` stand from `i * n` on.
pub proof fn lemma_flat_at<A, B>(s: Seq<A>, f: spec_fn(A) -> Seq<B>, n: int, i: int, k: int)
    requires
        0 <= n,
        forall|j: int| 0 <= j < s.len() ==> f(#[trigger] s[j]).len() == n,
        0 <= i < s.len(),
        0 <= k < n,
    ensures
        flat(s, f).len() == s.len() * n,
        0 <= i * n + k < s.len() * n,
        flat(s, f)[i * n + k] == f(s[i])[k],
    decreases s.len(),
{
    let front = s.drop_last();
    assert forall|j: int| 0 <= j < front.len() implies f(#[trigger] front[j]).len() == n by {
        assert(front[j] == s[j]);
    }
    let m = front.len() as int;
    assert(s[m] == s.last());
    lemma_flat_width(front, f, n);
    assert(m * n + n == (m + 1) * n) by (nonlinear_arith);
    if i == m {
    } else {
        assert(front[i] == s[i]);
        lemma_flat_at(front, f, n, i, k);
    }
}

/// Where every element makes `n` elements, all make `n` times their number.
pub proof fn lemma_flat_width<A, B>(s: Seq<A>, f: spec_fn(A) -> Seq<B>, n: int)
    requires
        0 <= n,
        forall|j: int| 0 <= j < s.len() ==> f(#[trigger] s[j]).len() == n,
    ensures
        flat(s, f).len() == s.len() * n,
    decreases s.len(),
{
    if s.len() > 0 {
        let front = s.drop_last();
        assert forall|j: int| 0 <= j < front.len() implies f(#[trigger] front[j]).len() == n by {
            assert(front[j] == s[j]);
        }
        lemma_flat_width(front, f, n);
        let m = front.len() as int;
        assert(s[m] == s.last());
        assert(m * n + n == (m + 1) * n) by (nonlinear_arith);
    } else {
        assert(0 * n == 0) by (nonlinear_arith);
    }
}

} // verus!
