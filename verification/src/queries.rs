//! Orderings, pages and sums over sequences of records, as query results use them.
use vstd::prelude::*;
use crate::records::Record;

verus! {

/// A strict "comes before" relation used to order query results.
pub trait Order<T> {
    /// Whether `a` must be listed before `b`.
    spec fn before(a: T, b: T) -> bool;

    /// Whether `a` must be listed before `b`.
    fn precedes(a: &T, b: &T) -> (r: bool)
        ensures
            r == Self::before(*a, *b);
}

/// The relation of the order `O`, as a function.
pub open spec fn relation<T, O: Order<T>>() -> spec_fn(T, T) -> bool {
    |a: T, b: T| O::before(a, b)
}

/// The position where `x` is placed in `s`: just before the first element that `x`
/// comes before (at the end if there is none).
pub open spec fn slot<T>(s: Seq<T>, x: T, before: spec_fn(T, T) -> bool) -> int
    decreases s.len(),
{
    if s.len() == 0 {
        0
    } else if before(x, s[0]) {
        0
    } else {
        1 + slot(s.drop_first(), x, before)
    }
}

/// `s` in the order of `before`, keeping elements in their original order where
/// neither comes before the other (a stable insertion sort).
pub open spec fn stable_sort<T>(s: Seq<T>, before: spec_fn(T, T) -> bool) -> Seq<T>
    decreases s.len(),
{
    if s.len() == 0 {
        s
    } else {
        let r = stable_sort(s.drop_last(), before);
        r.insert(slot(r, s.last(), before), s.last())
    }
}

/// The slot lies within the sequence.
pub proof fn lemma_slot_bounds<T>(s: Seq<T>, x: T, before: spec_fn(T, T) -> bool)
    ensures
        0 <= slot(s, x, before) <= s.len(),
    decreases s.len(),
{
    if s.len() > 0 && !before(x, s[0]) {
        lemma_slot_bounds(s.drop_first(), x, before);
    }
}

/// Skipping a prefix whose elements `x` does not come before moves the slot by its length.
pub proof fn lemma_slot_skip<T>(s: Seq<T>, x: T, before: spec_fn(T, T) -> bool, p: int)
    requires
        0 <= p <= s.len(),
        forall|j: int| 0 <= j < p ==> !before(x, #[trigger] s[j]),
    ensures
        slot(s, x, before) == p + slot(s.skip(p), x, before),
    decreases p,
{
    if p > 0 {
        assert(!before(x, s[0]));
        let t = s.drop_first();
        assert forall|j: int| 0 <= j < p - 1 implies !before(x, #[trigger] t[j]) by {
            assert(t[j] == s[j + 1]);
        }
        lemma_slot_skip(t, x, before, p - 1);
        assert(t.skip(p - 1) =~= s.skip(p));
    } else {
        assert(s.skip(0) =~= s);
    }
}

/// Inserts `x` into `v` at its slot under the order `O`.
pub fn insert_in_order<T, O: Order<T>>(v: &mut Vec<T>, x: T)
    ensures
        final(v)@ == old(v)@.insert(slot(old(v)@, x, relation::<T, O>()), x),
{
    let ghost before = relation::<T, O>();
    let n = v.len();
    let mut p: usize = 0;
    while p < n && !O::precedes(&x, &v[p])
        invariant
            n == v@.len(),
            v@ == old(v)@,
            p <= n,
            forall|j: int| 0 <= j < p ==> !O::before(x, #[trigger] v@[j]),
        decreases n - p,
    {
        p += 1;
    }
    proof {
        assert forall|j: int| 0 <= j < p implies !before(x, #[trigger] v@[j]) by {
            assert(!O::before(x, v@[j]));
        }
        lemma_slot_skip(v@, x, before, p as int);
        lemma_slot_bounds(v@, x, before);
        if p < n {
            assert(v@.skip(p as int)[0] == v@[p as int]);
            assert(before(x, v@.skip(p as int)[0]));
        } else {
            assert(v@.skip(p as int).len() == 0);
        }
    }
    v.insert(p, x);
}

/// Appending an element to a sequence places it at its slot in the sorted result.
pub proof fn lemma_stable_sort_push<T>(s: Seq<T>, x: T, before: spec_fn(T, T) -> bool)
    ensures
        stable_sort(s.push(x), before) == stable_sort(s, before).insert(
            slot(stable_sort(s, before), x, before),
            x,
        ),
{
    assert(s.push(x).drop_last() =~= s);
}

/// The elements of `s` from position `offset`, at most `limit` of them.
pub open spec fn page_of<T>(s: Seq<T>, offset: int, limit: int) -> Seq<T> {
    let start = if offset < s.len() { offset } else { s.len() as int };
    let end = if start + limit < s.len() { start + limit } else { s.len() as int };
    s.subrange(start, end)
}

/// Copies of the records of `s` from position `offset`, at most `limit` of them.
pub fn copy_page<T: Record>(s: &Vec<T>, offset: usize, limit: usize) -> (r: Vec<T>)
    ensures
        r@ == page_of(s@, offset as int, limit as int),
{
    let n = s.len();
    let start = if offset < n { offset } else { n };
    let end = if limit < n - start { start + limit } else { n };
    let mut r: Vec<T> = Vec::new();
    let mut i = start;
    while i < end
        invariant
            n == s@.len(),
            start <= i <= end <= n,
            r@ == s@.subrange(start as int, i as int),
        decreases end - i,
    {
        r.push(s[i].copy_record());
        assert(s@.subrange(start as int, i + 1) =~= s@.subrange(start as int, i as int).push(s@[i as int]));
        i += 1;
    }
    r
}

/// Sum of `f` over the elements of `s`.
pub open spec fn sum_by<T>(s: Seq<T>, f: spec_fn(T) -> int) -> int
    decreases s.len(),
{
    if s.len() == 0 {
        0
    } else {
        sum_by(s.drop_last(), f) + f(s.last())
    }
}

/// Number of elements of `s` that satisfy `p`.
pub open spec fn count_by<T>(s: Seq<T>, p: spec_fn(T) -> bool) -> nat
    decreases s.len(),
{
    if s.len() == 0 {
        0
    } else {
        count_by(s.drop_last(), p) + if p(s.last()) { 1nat } else { 0nat }
    }
}

/// Extending a prefix by one element adds that element's term to the sum and count.
pub proof fn lemma_prefix_step<T>(s: Seq<T>, i: int, f: spec_fn(T) -> int, p: spec_fn(T) -> bool)
    requires
        0 <= i < s.len(),
    ensures
        sum_by(s.take(i + 1), f) == sum_by(s.take(i), f) + f(s[i]),
        count_by(s.take(i + 1), p) == count_by(s.take(i), p) + if p(s[i]) { 1nat } else { 0nat },
        s.take(i + 1).filter(p) == if p(s[i]) { s.take(i).filter(p).push(s[i]) } else { s.take(i).filter(p) },
{
    reveal_with_fuel(Seq::filter, 1);
    assert(s.take(i + 1).drop_last() =~= s.take(i));
}

/// A sum of zero terms is zero; a count of nothing that holds is zero.
pub proof fn lemma_sum_zero<T>(s: Seq<T>, f: spec_fn(T) -> int, p: spec_fn(T) -> bool)
    requires
        forall|k: int| 0 <= k < s.len() ==> #[trigger] f(s[k]) == 0 && !p(s[k]),
    ensures
        sum_by(s, f) == 0,
        count_by(s, p) == 0,
    decreases s.len(),
{
    if s.len() > 0 {
        assert forall|k: int| 0 <= k < s.drop_last().len() implies #[trigger] f(s.drop_last()[k]) == 0
            && !p(s.drop_last()[k]) by {
            assert(s.drop_last()[k] == s[k]);
            assert(f(s[k]) == 0);
        }
        lemma_sum_zero(s.drop_last(), f, p);
        assert(f(s[s.len() - 1]) == 0);
    }
}

/// A sum of terms each at most `bound` in magnitude is at most `len * bound` in magnitude.
pub proof fn lemma_sum_bound<T>(s: Seq<T>, f: spec_fn(T) -> int, bound: int)
    requires
        bound >= 0,
        forall|k: int| 0 <= k < s.len() ==> -bound <= #[trigger] f(s[k]) <= bound,
    ensures
        -bound * s.len() <= sum_by(s, f) <= bound * s.len(),
    decreases s.len(),
{
    if s.len() > 0 {
        assert forall|k: int| 0 <= k < s.drop_last().len() implies -bound <= #[trigger] f(s.drop_last()[k]) <= bound by {
            assert(s.drop_last()[k] == s[k]);
        }
        lemma_sum_bound(s.drop_last(), f, bound);
        assert(-bound <= f(s[s.len() - 1]) <= bound);
        let n = s.len() as int;
        assert(bound * n == bound * (n - 1) + bound) by (nonlinear_arith);
        assert(-bound * n == -bound * (n - 1) - bound) by (nonlinear_arith);
    }
}

/// The kept elements of a sequence are elements of it that satisfy the predicate.
pub proof fn lemma_filter_members<T>(s: Seq<T>, p: spec_fn(T) -> bool)
    ensures
        forall|k: int| 0 <= k < s.filter(p).len() ==> s.contains(#[trigger] s.filter(p)[k]) && p(s.filter(p)[k]),
    decreases s.len(),
{
    reveal_with_fuel(Seq::filter, 1);
    if s.len() > 0 {
        let t = s.drop_last();
        lemma_filter_members(t, p);
        assert forall|k: int| 0 <= k < s.filter(p).len() implies s.contains(#[trigger] s.filter(p)[k]) && p(s.filter(p)[k]) by {
            if k < t.filter(p).len() {
                assert(s.filter(p)[k] == t.filter(p)[k]);
                let m = choose|m: int| 0 <= m < t.len() && t[m] == t.filter(p)[k];
                assert(s[m] == t[m]);
            } else {
                assert(s.filter(p)[k] == s.last());
                assert(s[s.len() - 1] == s.last());
            }
        }
    }
}

/// Keeping the elements that satisfy `p`, then those that satisfy `q`, keeps those that
/// satisfy both.
pub proof fn lemma_filter_twice<T>(s: Seq<T>, p: spec_fn(T) -> bool, q: spec_fn(T) -> bool)
    ensures
        s.filter(p).filter(q) == s.filter(|x: T| p(x) && q(x)),
    decreases s.len(),
{
    reveal_with_fuel(Seq::filter, 1);
    if s.len() > 0 {
        lemma_filter_twice(s.drop_last(), p, q);
        let both = |x: T| p(x) && q(x);
        if p(s.last()) {
            assert(s.filter(p) == s.drop_last().filter(p).push(s.last()));
            assert(s.filter(p).drop_last() =~= s.drop_last().filter(p));
        } else {
            assert(s.filter(p) == s.drop_last().filter(p));
        }
    }
}

} // verus!
