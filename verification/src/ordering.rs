//! A stable insertion sort at spec level, generic in the comparator, with
//! the lemmas the sorting modules share: the result is sorted, it is a
//! permutation of the input, and sorting sorted input changes nothing.

use vstd::prelude::*;
use vstd::seq_lib::lemma_multiset_commutative;

verus! {

/// Adjacent-pair sortedness under `le`.
pub open spec fn sorted_le<A>(s: Seq<A>, le: spec_fn(A, A) -> bool) -> bool {
    forall|i: int| 0 <= i < s.len() - 1 ==> #[trigger] le(s[i], s[i + 1])
}

/// Totality: any two values are comparable.
pub open spec fn total_le<A>(le: spec_fn(A, A) -> bool) -> bool {
    forall|a: A, b: A| #[trigger] le(a, b) || #[trigger] le(b, a)
}

/// Inserts `x` in front of the first element it compares no greater than.
pub open spec fn insert_le<A>(x: A, l: Seq<A>, le: spec_fn(A, A) -> bool) -> Seq<A>
    decreases l.len(),
{
    if l.len() == 0 {
        seq![x]
    } else if le(x, l[0]) {
        seq![x] + l
    } else {
        seq![l[0]] + insert_le(x, l.skip(1), le)
    }
}

/// Insertion sort: stable, since each element goes in front of its equals.
pub open spec fn sort_le<A>(s: Seq<A>, le: spec_fn(A, A) -> bool) -> Seq<A>
    decreases s.len(),
{
    if s.len() == 0 {
        s
    } else {
        insert_le(s[0], sort_le(s.skip(1), le), le)
    }
}

/// The first element of an insertion is the new value or the old head.
proof fn lemma_insert_le_first<A>(x: A, l: Seq<A>, le: spec_fn(A, A) -> bool)
    ensures
        insert_le(x, l, le).len() == l.len() + 1,
        insert_le(x, l, le)[0] == x || (l.len() > 0 && insert_le(x, l, le)[0] == l[0]),
    decreases l.len(),
{
    if l.len() == 0 || le(x, l[0]) {
    } else {
        lemma_insert_le_first(x, l.skip(1), le);
    }
}

/// Inserting into a sorted sequence keeps it sorted.
pub proof fn lemma_insert_le_sorted<A>(x: A, l: Seq<A>, le: spec_fn(A, A) -> bool)
    requires
        sorted_le(l, le),
        total_le(le),
    ensures
        sorted_le(insert_le(x, l, le), le),
    decreases l.len(),
{
    lemma_insert_le_first(x, l, le);
    if l.len() == 0 {
    } else if le(x, l[0]) {
        let r = seq![x] + l;
        assert forall|i: int| 0 <= i < r.len() - 1 implies #[trigger] le(r[i], r[i + 1]) by {
            if i == 0 {
            } else {
                assert(r[i] == l[i - 1] && r[i + 1] == l[i]);
                assert(le(l[i - 1], l[i - 1 + 1]));
            }
        }
    } else {
        let tail = l.skip(1);
        assert forall|i: int| 0 <= i < tail.len() - 1 implies #[trigger] le(tail[i], tail[i + 1]) by {
            assert(le(l[i + 1], l[i + 1 + 1]));
        }
        lemma_insert_le_sorted(x, tail, le);
        lemma_insert_le_first(x, tail, le);
        let ins = insert_le(x, tail, le);
        let r = seq![l[0]] + ins;
        assert(r == insert_le(x, l, le));
        assert forall|i: int| 0 <= i < r.len() - 1 implies #[trigger] le(r[i], r[i + 1]) by {
            if i == 0 {
                // head versus the first of the insertion: the new value (by
                // totality) or the old second element (by sortedness)
                if ins[0] == x {
                    assert(le(x, l[0]) || le(l[0], x));
                } else {
                    assert(ins[0] == tail[0]);
                    assert(le(l[0], l[0int + 1]));
                }
            } else {
                assert(r[i] == ins[i - 1] && r[i + 1] == ins[i]);
                assert(le(ins[i - 1], ins[i - 1 + 1]));
            }
        }
    }
}

/// An insertion adds exactly the new value to the multiset of elements.
pub proof fn lemma_insert_le_multiset<A>(x: A, l: Seq<A>, le: spec_fn(A, A) -> bool)
    ensures
        insert_le(x, l, le).to_multiset() =~= l.to_multiset().insert(x),
    decreases l.len(),
{
    broadcast use vstd::seq_lib::group_to_multiset_ensures;

    if l.len() == 0 {
        assert(seq![x] =~= Seq::<A>::empty().push(x));
    } else if le(x, l[0]) {
        lemma_multiset_commutative(seq![x], l);
        assert(seq![x] =~= Seq::<A>::empty().push(x));
    } else {
        let tail = l.skip(1);
        lemma_insert_le_multiset(x, tail, le);
        let ins = insert_le(x, tail, le);
        lemma_multiset_commutative(seq![l[0]], ins);
        lemma_multiset_commutative(seq![l[0]], tail);
        assert(seq![l[0]] =~= Seq::<A>::empty().push(l[0]));
        assert(seq![l[0]] + tail =~= l);
    }
}

/// The sort's result is sorted.
pub proof fn lemma_sort_le_sorted<A>(s: Seq<A>, le: spec_fn(A, A) -> bool)
    requires
        total_le(le),
    ensures
        sorted_le(sort_le(s, le), le),
    decreases s.len(),
{
    if s.len() == 0 {
    } else {
        lemma_sort_le_sorted(s.skip(1), le);
        lemma_insert_le_sorted(s[0], sort_le(s.skip(1), le), le);
    }
}

/// The sort's result is a permutation of the input.
pub proof fn lemma_sort_le_multiset<A>(s: Seq<A>, le: spec_fn(A, A) -> bool)
    ensures
        sort_le(s, le).to_multiset() =~= s.to_multiset(),
        sort_le(s, le).len() == s.len(),
    decreases s.len(),
{
    broadcast use vstd::seq_lib::group_to_multiset_ensures;

    if s.len() == 0 {
    } else {
        lemma_sort_le_multiset(s.skip(1), le);
        lemma_insert_le_multiset(s[0], sort_le(s.skip(1), le), le);
        lemma_multiset_commutative(seq![s[0]], s.skip(1));
        assert(seq![s[0]] =~= Seq::<A>::empty().push(s[0]));
        assert(seq![s[0]] + s.skip(1) =~= s);
        lemma_insert_le_first(s[0], sort_le(s.skip(1), le), le);
    }
}

/// Sorting a sorted sequence gives it back unchanged.
pub proof fn lemma_sort_le_id_on_sorted<A>(s: Seq<A>, le: spec_fn(A, A) -> bool)
    requires
        sorted_le(s, le),
    ensures
        sort_le(s, le) == s,
    decreases s.len(),
{
    if s.len() == 0 {
    } else {
        let tail = s.skip(1);
        assert forall|i: int| 0 <= i < tail.len() - 1 implies #[trigger] le(tail[i], tail[i + 1]) by {
            assert(le(s[i + 1], s[i + 1 + 1]));
        }
        lemma_sort_le_id_on_sorted(tail, le);
        if tail.len() == 0 {
            assert(insert_le(s[0], tail, le) =~= s);
        } else {
            assert(le(s[0], s[0int + 1]));
            assert(le(s[0], tail[0]));
            assert(seq![s[0]] + tail =~= s);
        }
    }
}

/// Sorting is idempotent: a second pass over already-sorted output is the
/// identity.
pub proof fn lemma_sort_le_idempotent<A>(s: Seq<A>, le: spec_fn(A, A) -> bool)
    requires
        total_le(le),
    ensures
        sort_le(sort_le(s, le), le) == sort_le(s, le),
{
    lemma_sort_le_sorted(s, le);
    lemma_sort_le_id_on_sorted(sort_le(s, le), le);
}

/// Where the exec search stops is where the spec insertion lands.
pub proof fn lemma_insert_le_at<A>(x: A, l: Seq<A>, le: spec_fn(A, A) -> bool, i: int)
    requires
        0 <= i <= l.len(),
        forall|k: int| 0 <= k < i ==> !le(x, #[trigger] l[k]),
        i < l.len() ==> le(x, l[i]),
    ensures
        insert_le(x, l, le) == l.subrange(0, i) + seq![x] + l.subrange(i, l.len() as int),
    decreases i,
{
    if i == 0 {
        if l.len() == 0 {
            assert(insert_le(x, l, le) =~= l.subrange(0, 0) + seq![x] + l.subrange(
                0,
                l.len() as int,
            ));
        } else {
            assert(insert_le(x, l, le) =~= l.subrange(0, 0) + seq![x] + l.subrange(
                0,
                l.len() as int,
            ));
        }
    } else {
        let tail = l.skip(1);
        assert(!le(x, l[0]));
        assert forall|k: int| 0 <= k < i - 1 implies !le(x, #[trigger] tail[k]) by {
            assert(tail[k] == l[k + 1]);
        }
        assert(i - 1 < tail.len() ==> le(x, tail[i - 1]));
        lemma_insert_le_at(x, tail, le, i - 1);
        assert(seq![l[0]] + (tail.subrange(0, i - 1) + seq![x] + tail.subrange(
            i - 1,
            tail.len() as int,
        )) =~= l.subrange(0, i) + seq![x] + l.subrange(i, l.len() as int));
    }
}


/// A weighted sum over the elements of a sequence.
pub open spec fn sum_by<A>(s: Seq<A>, w: spec_fn(A) -> int) -> int
    decreases s.len(),
{
    if s.len() == 0 {
        0
    } else {
        sum_by(s.drop_last(), w) + w(s.last())
    }
}

/// The weighted sum of a single element is its weight.
pub proof fn lemma_sum_by_singleton<A>(x: A, w: spec_fn(A) -> int)
    ensures
        sum_by(seq![x], w) == w(x),
{
    let s = seq![x];
    assert(s.len() == 1);
    assert(s.last() == x);
    assert(s.drop_last() =~= Seq::<A>::empty());
    assert(sum_by(s, w) == sum_by(s.drop_last(), w) + w(s.last()));
}

/// The weighted sum splits over concatenation.
pub proof fn lemma_sum_by_concat<A>(a: Seq<A>, b: Seq<A>, w: spec_fn(A) -> int)
    ensures
        sum_by(a + b, w) == sum_by(a, w) + sum_by(b, w),
    decreases b.len(),
{
    if b.len() == 0 {
        assert(a + b =~= a);
    } else {
        lemma_sum_by_concat(a, b.drop_last(), w);
        assert((a + b).drop_last() =~= a + b.drop_last());
        assert((a + b).last() == b.last());
    }
}

/// An insertion adds exactly the new element's weight.
pub proof fn lemma_sum_by_insert_le<A>(x: A, l: Seq<A>, le: spec_fn(A, A) -> bool, w: spec_fn(
    A,
) -> int)
    ensures
        sum_by(insert_le(x, l, le), w) == sum_by(l, w) + w(x),
    decreases l.len(),
{
    if l.len() == 0 {
        lemma_sum_by_singleton(x, w);
    } else if le(x, l[0]) {
        lemma_sum_by_concat(seq![x], l, w);
        lemma_sum_by_singleton(x, w);
    } else {
        let tail = l.skip(1);
        lemma_sum_by_insert_le(x, tail, le, w);
        lemma_sum_by_concat(seq![l[0]], insert_le(x, tail, le), w);
        lemma_sum_by_concat(seq![l[0]], tail, w);
        lemma_sum_by_singleton(l[0], w);
        assert(seq![l[0]] + tail =~= l);
    }
}

/// Sorting does not change the weighted sum.
pub proof fn lemma_sum_by_sort_le<A>(s: Seq<A>, le: spec_fn(A, A) -> bool, w: spec_fn(A) -> int)
    ensures
        sum_by(sort_le(s, le), w) == sum_by(s, w),
    decreases s.len(),
{
    if s.len() == 0 {
    } else {
        lemma_sum_by_sort_le(s.skip(1), le, w);
        lemma_sum_by_insert_le(s[0], sort_le(s.skip(1), le), le, w);
        lemma_sum_by_concat(seq![s[0]], s.skip(1), w);
        lemma_sum_by_singleton(s[0], w);
        assert(seq![s[0]] + s.skip(1) =~= s);
    }
}

/// Removing elements never raises a sum of non-negative weights.
pub proof fn lemma_sum_by_filter_le<A>(s: Seq<A>, pred: spec_fn(A) -> bool, w: spec_fn(A) -> int)
    requires
        forall|a: A| #[trigger] w(a) >= 0,
    ensures
        sum_by(s.filter(pred), w) <= sum_by(s, w),
    decreases s.len(),
{
    reveal(Seq::filter);
    if s.len() == 0 {
    } else {
        lemma_sum_by_filter_le(s.drop_last(), pred, w);
        if pred(s.last()) {
            let f = s.drop_last().filter(pred);
            assert(s.filter(pred) == f.push(s.last()));
            assert(f.push(s.last()).drop_last() =~= f);
        }
    }
}

/// A prefix never outweighs the whole under non-negative weights.
pub proof fn lemma_sum_by_prefix_le<A>(s: Seq<A>, i: int, w: spec_fn(A) -> int)
    requires
        0 <= i <= s.len(),
        forall|a: A| #[trigger] w(a) >= 0,
    ensures
        sum_by(s.take(i), w) <= sum_by(s, w),
    decreases s.len() - i,
{
    if i == s.len() {
        assert(s.take(i) =~= s);
    } else {
        lemma_sum_by_prefix_le(s, i + 1, w);
        assert(s.take(i + 1).drop_last() =~= s.take(i));
        assert(s.take(i + 1).last() == s[i]);
    }
}


/// Pushing adds the new element's weight.
pub proof fn lemma_sum_by_push<A>(s: Seq<A>, x: A, w: spec_fn(A) -> int)
    ensures
        sum_by(s.push(x), w) == sum_by(s, w) + w(x),
{
    assert(s.push(x).drop_last() =~= s);
    assert(s.push(x).last() == x);
}

/// Updating one element shifts the sum by the weight difference.
pub proof fn lemma_sum_by_update<A>(s: Seq<A>, i: int, x: A, w: spec_fn(A) -> int)
    requires
        0 <= i < s.len(),
    ensures
        sum_by(s.update(i, x), w) == sum_by(s, w) - w(s[i]) + w(x),
    decreases s.len(),
{
    if i == s.len() - 1 {
        assert(s.update(i, x).drop_last() =~= s.drop_last());
        assert(s.update(i, x).last() == x);
    } else {
        assert(s.update(i, x).drop_last() =~= s.drop_last().update(i, x));
        assert(s.update(i, x).last() == s.last());
        lemma_sum_by_update(s.drop_last(), i, x, w);
    }
}


/// Filtering distributes over concatenation.
pub proof fn lemma_filter_concat<A>(a: Seq<A>, b: Seq<A>, pred: spec_fn(A) -> bool)
    ensures
        (a + b).filter(pred) == a.filter(pred) + b.filter(pred),
    decreases b.len(),
{
    reveal(Seq::filter);
    if b.len() == 0 {
        assert(a + b =~= a);
        assert(a.filter(pred) + b.filter(pred) =~= a.filter(pred));
    } else {
        lemma_filter_concat(a, b.drop_last(), pred);
        assert((a + b).drop_last() =~= a + b.drop_last());
        assert((a + b).last() == b.last());
        if pred(b.last()) {
            assert((a + b).filter(pred) == (a + b.drop_last()).filter(pred).push(b.last()));
            assert(a.filter(pred) + b.filter(pred) =~= (a.filter(pred) + b.drop_last().filter(
                pred,
            )).push(b.last()));
        }
    }
}


/// A non-negative weighted sum is at least any single element's weight.
pub proof fn lemma_sum_by_at_least<A>(s: Seq<A>, i: int, w: spec_fn(A) -> int)
    requires
        0 <= i < s.len(),
        forall|a: A| #[trigger] w(a) >= 0,
    ensures
        sum_by(s, w) >= w(s[i]),
    decreases s.len(),
{
    if i == s.len() - 1 {
        lemma_sum_by_nonneg(s.drop_last(), w);
    } else {
        lemma_sum_by_at_least(s.drop_last(), i, w);
        assert(s.drop_last()[i] == s[i]);
    }
}

/// A sum of non-negative weights is non-negative.
pub proof fn lemma_sum_by_nonneg<A>(s: Seq<A>, w: spec_fn(A) -> int)
    requires
        forall|a: A| #[trigger] w(a) >= 0,
    ensures
        sum_by(s, w) >= 0,
    decreases s.len(),
{
    if s.len() > 0 {
        lemma_sum_by_nonneg(s.drop_last(), w);
    }
}


/// Along a sorted sequence, any measure that the comparator bounds is
/// non-decreasing, also between distant positions.
pub proof fn lemma_sorted_le_measure<A>(
    s: Seq<A>,
    le: spec_fn(A, A) -> bool,
    f: spec_fn(A) -> int,
)
    requires
        sorted_le(s, le),
        forall|a: A, b: A| #[trigger] le(a, b) ==> f(a) <= f(b),
    ensures
        forall|i: int, j: int|
            0 <= i <= j < s.len() ==> f(#[trigger] s[i]) <= f(#[trigger] s[j]),
{
    assert forall|i: int, j: int| 0 <= i <= j < s.len() implies f(#[trigger] s[i]) <= f(
        #[trigger] s[j],
    ) by {
        lemma_sorted_le_measure_step(s, le, f, i, j);
    }
}

/// The pairwise step of `lemma_sorted_le_measure`, by induction on the
/// distance.
proof fn lemma_sorted_le_measure_step<A>(
    s: Seq<A>,
    le: spec_fn(A, A) -> bool,
    f: spec_fn(A) -> int,
    i: int,
    j: int,
)
    requires
        sorted_le(s, le),
        forall|a: A, b: A| #[trigger] le(a, b) ==> f(a) <= f(b),
        0 <= i <= j < s.len(),
    ensures
        f(s[i]) <= f(s[j]),
    decreases j - i,
{
    if i < j {
        lemma_sorted_le_measure_step(s, le, f, i, j - 1);
        assert(le(s[j - 1], s[j - 1 + 1]));
    }
}

} // verus!
