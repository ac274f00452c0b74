//! Sums over the positions of a stream, and how they move when one position
//! or the stream's index changes.

use vstd::prelude::*;

verus! {

/// The sum of a sequence of integers.
pub open spec fn sum(s: Seq<int>) -> int
    decreases s.len(),
{
    if s.len() == 0 {
        0
    } else {
        sum(s.drop_last()) + s.last()
    }
}

/// Appending an element adds it to the sum.
pub proof fn lemma_sum_push(s: Seq<int>, v: int)
    ensures
        sum(s.push(v)) == sum(s) + v,
{
    assert(s.push(v).drop_last() =~= s);
}

/// Replacing an element moves the sum by the difference.
pub proof fn lemma_sum_update(s: Seq<int>, i: int, v: int)
    requires
        0 <= i < s.len(),
    ensures
        sum(s.update(i, v)) == sum(s) - s[i] + v,
    decreases s.len(),
{
    if i == s.len() - 1 {
        assert(s.update(i, v).drop_last() =~= s.drop_last());
    } else {
        lemma_sum_update(s.drop_last(), i, v);
        assert(s.update(i, v).drop_last() =~= s.drop_last().update(i, v));
    }
}

/// Adding `k` times a second sequence, element by element, adds `k` times its sum.
pub proof fn lemma_sum_affine(a: Seq<int>, b: Seq<int>, c: Seq<int>, k: int)
    requires
        a.len() == c.len(),
        b.len() == c.len(),
        forall|i: int| 0 <= i < c.len() ==> c[i] == a[i] + k * #[trigger] b[i],
    ensures
        sum(c) == sum(a) + k * sum(b),
    decreases c.len(),
{
    if c.len() > 0 {
        lemma_sum_affine(a.drop_last(), b.drop_last(), c.drop_last(), k);
        let x = sum(b.drop_last());
        let y = b.last();
        assert(k * (x + y) == k * x + k * y) by (nonlinear_arith);
    } else {
        assert(k * 0 == 0) by (nonlinear_arith);
    }
}

/// In a sequence without negative elements no element exceeds the sum.
pub proof fn lemma_sum_bounds_element(s: Seq<int>, i: int)
    requires
        0 <= i < s.len(),
        forall|j: int| 0 <= j < s.len() ==> 0 <= #[trigger] s[j],
    ensures
        0 <= s[i] <= sum(s),
    decreases s.len(),
{
    lemma_sum_nonnegative(s.drop_last());
    if i < s.len() - 1 {
        lemma_sum_bounds_element(s.drop_last(), i);
    }
}

/// A sequence without negative elements has no negative sum.
pub proof fn lemma_sum_nonnegative(s: Seq<int>)
    requires
        forall|j: int| 0 <= j < s.len() ==> 0 <= #[trigger] s[j],
    ensures
        0 <= sum(s),
    decreases s.len(),
{
    if s.len() > 0 {
        lemma_sum_nonnegative(s.drop_last());
    }
}

/// The sum of a prefix and the next element is the sum of the longer prefix.
pub proof fn lemma_sum_take_next(s: Seq<int>, i: int)
    requires
        0 <= i < s.len(),
    ensures
        sum(s.take(i + 1)) == sum(s.take(i)) + s[i],
{
    assert(s.take(i + 1).drop_last() =~= s.take(i));
}

/// In a sequence without negative elements no prefix sums to more than the whole.
pub proof fn lemma_sum_prefix(s: Seq<int>, i: int)
    requires
        0 <= i <= s.len(),
        forall|j: int| 0 <= j < s.len() ==> 0 <= #[trigger] s[j],
    ensures
        0 <= sum(s.take(i)) <= sum(s),
    decreases s.len() - i,
{
    if i == s.len() {
        assert(s.take(i) =~= s);
        lemma_sum_nonnegative(s);
    } else {
        lemma_sum_prefix(s, i + 1);
        lemma_sum_take_next(s, i);
        lemma_sum_nonnegative(s.take(i));
    }
}

} // verus!
