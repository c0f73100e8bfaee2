//! A stable sort for values ordered by a total preorder.
//!
//! The result is sorted, and the values that rank equally keep the order they
//! had in the input: for every value `e`, the values that tie with `e` form
//! the same subsequence before and after sorting. Those two facts pin the
//! result down completely (`lemma_stable_sort_unique`), so they say exactly
//! what `slice::sort_by` and `slice::sort_by_key` (both stable) return.
use vstd::prelude::*;

verus! {

broadcast use vstd::seq_lib::group_seq_properties;

/// A total preorder: every two values compare, and the order is transitive.
/// Values may tie (each ranks before the other) without being equal.
pub trait TotalPreorder: Sized {
    /// `self` may come before `other` in a sorted sequence.
    spec fn ranks_before(self, other: Self) -> bool;

    proof fn lemma_total(a: Self, b: Self)
        ensures
            a.ranks_before(b) || b.ranks_before(a),
    ;

    proof fn lemma_transitive(a: Self, b: Self, c: Self)
        requires
            a.ranks_before(b),
            b.ranks_before(c),
        ensures
            a.ranks_before(c),
    ;

    /// Executable comparison.
    fn before(&self, other: &Self) -> (r: bool)
        ensures
            r == self.ranks_before(*other),
    ;
}

/// `a` and `b` rank equally.
pub open spec fn ties<T: TotalPreorder>(a: T, b: T) -> bool {
    a.ranks_before(b) && b.ranks_before(a)
}

/// The values of `s` that rank equally with `e`, in their order in `s`.
pub open spec fn tie_class<T: TotalPreorder>(s: Seq<T>, e: T) -> Seq<T> {
    s.filter(|x: T| ties(x, e))
}

/// `s` is sorted.
pub open spec fn sorted<T: TotalPreorder>(s: Seq<T>) -> bool {
    forall|i: int, j: int| 0 <= i < j < s.len() ==> (#[trigger] s[i]).ranks_before(#[trigger] s[j])
}

/// `r` is the stable sort of `v`.
pub open spec fn stable_sort_of<T: TotalPreorder>(r: Seq<T>, v: Seq<T>) -> bool {
    &&& r.len() == v.len()
    &&& sorted(r)
    &&& forall|e: T| #[trigger] tie_class(r, e) == tie_class(v, e)
}

proof fn lemma_filter_single<T>(x: T, f: spec_fn(T) -> bool)
    ensures
        seq![x].filter(f) == (if f(x) {
            seq![x]
        } else {
            Seq::<T>::empty()
        }),
{
    reveal(Seq::filter);
    assert(seq![x].drop_last() =~= Seq::<T>::empty());
    assert(Seq::<T>::empty().filter(f) =~= Seq::<T>::empty());
}

proof fn lemma_filter_none<T>(s: Seq<T>, f: spec_fn(T) -> bool)
    requires
        forall|i: int| 0 <= i < s.len() ==> !f(#[trigger] s[i]),
    ensures
        s.filter(f) == Seq::<T>::empty(),
    decreases s.len(),
{
    reveal(Seq::filter);
    if s.len() > 0 {
        lemma_filter_none(s.drop_last(), f);
    }
}

/// Two sorted sequences whose tie classes agree are equal.
proof fn lemma_same_classes_equal<T: TotalPreorder>(r1: Seq<T>, r2: Seq<T>)
    requires
        sorted(r1),
        sorted(r2),
        forall|e: T| #[trigger] tie_class(r1, e) == tie_class(r2, e),
    ensures
        r1 == r2,
    decreases r1.len(),
{
    if r1.len() == 0 || r2.len() == 0 {
        if r1.len() > 0 {
            let a = r1[0];
            T::lemma_total(a, a);
            r1.lemma_filter_contains(|x: T| ties(x, a), 0);
            assert(tie_class(r1, a).len() > 0);
            assert(tie_class(r2, a).len() == 0);
        } else if r2.len() > 0 {
            let b = r2[0];
            T::lemma_total(b, b);
            r2.lemma_filter_contains(|x: T| ties(x, b), 0);
            assert(tie_class(r2, b).len() > 0);
            assert(tie_class(r1, b).len() == 0);
        }
        assert(r1 =~= r2);
    } else {
        let a = r1[0];
        let b = r2[0];
        let t1 = r1.drop_first();
        let t2 = r2.drop_first();
        assert(r1 =~= seq![a] + t1);
        assert(r2 =~= seq![b] + t2);
        T::lemma_total(a, a);
        T::lemma_total(b, b);
        // `b` occurs in `r1`, so `a` ranks before it; and the other way round.
        r2.lemma_filter_contains(|x: T| ties(x, b), 0);
        assert(tie_class(r1, b).contains(b));
        r1.lemma_filter_contains_rev(|x: T| ties(x, b), b);
        let k = choose|k: int| 0 <= k < r1.len() && r1[k] == b;
        if k > 0 {
            assert(r1[0].ranks_before(r1[k]));
        }
        assert(a.ranks_before(b));
        r1.lemma_filter_contains(|x: T| ties(x, a), 0);
        assert(tie_class(r1, a).contains(a));
        assert(tie_class(r2, a).contains(a));
        r2.lemma_filter_contains_rev(|x: T| ties(x, a), a);
        let m = choose|m: int| 0 <= m < r2.len() && r2[m] == a;
        if m > 0 {
            assert(r2[0].ranks_before(r2[m]));
        }
        assert(b.ranks_before(a));
        // The classes of `a` both start with their first element.
        t1.lemma_filter_prepend(a, |x: T| ties(x, a));
        t2.lemma_filter_prepend(b, |x: T| ties(x, a));
        assert(tie_class(r1, a)[0] == a);
        assert(tie_class(r2, a)[0] == b);
        assert(a == b);
        assert forall|e: T| #[trigger] tie_class(t1, e) == tie_class(t2, e) by {
            t1.lemma_filter_prepend(a, |x: T| ties(x, e));
            t2.lemma_filter_prepend(b, |x: T| ties(x, e));
            assert(tie_class(r1, e) == tie_class(r2, e));
            if ties(a, e) {
                assert(tie_class(t1, e) =~= tie_class(r1, e).drop_first());
                assert(tie_class(t2, e) =~= tie_class(r2, e).drop_first());
            } else {
                assert(tie_class(t1, e) =~= tie_class(r1, e));
                assert(tie_class(t2, e) =~= tie_class(r2, e));
            }
        }
        assert forall|i: int, j: int| 0 <= i < j < t1.len() implies (#[trigger] t1[i]).ranks_before(
            #[trigger] t1[j],
        ) by {
            assert(r1[i + 1].ranks_before(r1[j + 1]));
        }
        assert forall|i: int, j: int| 0 <= i < j < t2.len() implies (#[trigger] t2[i]).ranks_before(
            #[trigger] t2[j],
        ) by {
            assert(r2[i + 1].ranks_before(r2[j + 1]));
        }
        lemma_same_classes_equal(t1, t2);
    }
}

/// The stable sort of a sequence is unique: any two sequences that are both
/// its stable sort are equal, so `stable_sort_of` determines the result.
pub proof fn lemma_stable_sort_unique<T: TotalPreorder>(r1: Seq<T>, r2: Seq<T>, v: Seq<T>)
    requires
        stable_sort_of(r1, v),
        stable_sort_of(r2, v),
    ensures
        r1 == r2,
{
    assert forall|e: T| #[trigger] tie_class(r1, e) == tie_class(r2, e) by {
        assert(tie_class(r1, e) == tie_class(v, e));
        assert(tie_class(r2, e) == tie_class(v, e));
    }
    lemma_same_classes_equal(r1, r2);
}

/// Every value of a stable sort is a value of the sorted sequence.
pub proof fn lemma_stable_sort_elements<T: TotalPreorder>(r: Seq<T>, v: Seq<T>)
    requires
        stable_sort_of(r, v),
    ensures
        forall|i: int| 0 <= i < r.len() ==> v.contains(#[trigger] r[i]),
{
    assert forall|i: int| 0 <= i < r.len() implies v.contains(#[trigger] r[i]) by {
        let e = r[i];
        T::lemma_total(e, e);
        r.lemma_filter_contains(|x: T| ties(x, e), i);
        assert(tie_class(r, e).contains(e));
        assert(tie_class(v, e).contains(e));
        v.lemma_filter_contains_rev(|x: T| ties(x, e), e);
    }
}

/// Every value of the sorted sequence is a value of its stable sort.
pub proof fn lemma_stable_sort_keeps<T: TotalPreorder>(r: Seq<T>, v: Seq<T>)
    requires
        stable_sort_of(r, v),
    ensures
        forall|i: int| 0 <= i < v.len() ==> r.contains(#[trigger] v[i]),
{
    assert forall|i: int| 0 <= i < v.len() implies r.contains(#[trigger] v[i]) by {
        let e = v[i];
        T::lemma_total(e, e);
        v.lemma_filter_contains(|x: T| ties(x, e), i);
        assert(tie_class(v, e).contains(e));
        assert(tie_class(r, e).contains(e));
        r.lemma_filter_contains_rev(|x: T| ties(x, e), e);
    }
}

/// Sorts `v` stably.
pub fn stable_sort<T: TotalPreorder>(v: Vec<T>) -> (r: Vec<T>)
    ensures
        stable_sort_of(r@, v@),
{
    let ghost orig = v@;
    let mut rest = v;
    let mut out: Vec<T> = Vec::new();
    let ghost mut done: int = 0;
    while rest.len() > 0
        invariant
            0 <= done <= orig.len(),
            rest@ == orig.subrange(done, orig.len() as int),
            out@.len() == done,
            sorted(out@),
            forall|e: T| #[trigger] tie_class(out@, e) == tie_class(orig.take(done), e),
        decreases rest.len(),
    {
        let x = rest.remove(0);
        proof {
            assert(x == orig[done]);
        }
        // position after the last element that may come before x
        let mut p: usize = out.len();
        while p > 0 && !out[p - 1].before(&x)
            invariant
                p <= out.len(),
                forall|q: int| p <= q < out.len() ==> !(#[trigger] out@[q]).ranks_before(x),
            decreases p,
        {
            p = p - 1;
        }
        let ghost old_out = out@;
        proof {
            // everything before p may come before x
            assert forall|q: int| 0 <= q < p implies (#[trigger] old_out[q]).ranks_before(x) by {
                if p > 0 {
                    assert(old_out[p - 1].ranks_before(x));
                    if q < p - 1 {
                        T::lemma_transitive(old_out[q], old_out[p - 1], x);
                    }
                }
            }
            // everything from p on comes strictly after x
            assert forall|q: int| p <= q < old_out.len() implies x.ranks_before(
                #[trigger] old_out[q],
            ) && !old_out[q].ranks_before(x) by {
                T::lemma_total(x, old_out[q]);
            }
        }
        out.insert(p, x);
        proof {
            let new_out = out@;
            assert(new_out =~= old_out.subrange(0, p as int) + seq![x] + old_out.subrange(
                p as int,
                old_out.len() as int,
            ));
            assert forall|i: int, j: int| 0 <= i < j < new_out.len() implies (
            #[trigger] new_out[i]).ranks_before(#[trigger] new_out[j]) by {
                if j < p {
                } else if j == p {
                    assert(new_out[i] == old_out[i]);
                } else if i < p {
                    assert(new_out[i] == old_out[i]);
                    assert(new_out[j] == old_out[j - 1]);
                    T::lemma_transitive(old_out[i], x, old_out[j - 1]);
                } else if i == p {
                    assert(new_out[j] == old_out[j - 1]);
                } else {
                    assert(new_out[i] == old_out[i - 1]);
                    assert(new_out[j] == old_out[j - 1]);
                }
            }
            let pre = old_out.subrange(0, p as int);
            let post = old_out.subrange(p as int, old_out.len() as int);
            assert(old_out =~= pre + post);
            assert(orig.take(done + 1) =~= orig.take(done) + seq![x]);
            assert forall|e: T| #[trigger] tie_class(new_out, e) == tie_class(
                orig.take(done + 1),
                e,
            ) by {
                let f = |y: T| ties(y, e);
                Seq::filter_distributes_over_add(pre + seq![x], post, f);
                Seq::filter_distributes_over_add(pre, seq![x], f);
                Seq::filter_distributes_over_add(pre, post, f);
                Seq::filter_distributes_over_add(orig.take(done), seq![x], f);
                lemma_filter_single(x, f);
                if ties(x, e) {
                    assert forall|i: int| 0 <= i < post.len() implies !f(#[trigger] post[i]) by {
                        assert(post[i] == old_out[p + i]);
                        if ties(post[i], e) {
                            T::lemma_transitive(post[i], e, x);
                        }
                    }
                    lemma_filter_none(post, f);
                    assert(tie_class(new_out, e) =~= tie_class(old_out, e) + seq![x]);
                } else {
                    assert(tie_class(new_out, e) =~= tie_class(old_out, e));
                }
            }
            done = done + 1;
            assert(rest@ =~= orig.subrange(done, orig.len() as int));
        }
    }
    proof {
        assert(orig.take(done) =~= orig);
    }
    out
}

} // verus!
