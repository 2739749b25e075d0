//! What a sum computed a vector at a time is, as a function of the scalars.

use crate::traits::Simd;
use vstd::prelude::*;

verus! {

/// The scalars of `s` added to `acc` one after the other, from the left.
pub open spec fn fold_add<T: Simd<V>, V>(acc: T, s: Seq<T>) -> T
    decreases s.len(),
{
    if s.len() == 0 {
        acc
    } else {
        fold_add::<T, V>(acc, s.drop_last()).add_spec(s.last())
    }
}

/// The plain sum of `s`: its scalars added to zero one after the other.
pub open spec fn plain_sum<T: Simd<V>, V>(s: Seq<T>) -> T {
    fold_add::<T, V>(T::zero_spec(), s)
}

/// The sums of the scalars of `a` and `b`, lane by lane.
pub open spec fn lanewise_add<T: Simd<V>, V>(a: Seq<T>, b: Seq<T>) -> Seq<T> {
    Seq::new(a.len(), |i: int| a[i].add_spec(b[i]))
}

/// The differences of the scalars of `a` and `b`, lane by lane.
pub open spec fn lanewise_sub<T: Simd<V>, V>(a: Seq<T>, b: Seq<T>) -> Seq<T> {
    Seq::new(a.len(), |i: int| a[i].sub_spec(b[i]))
}

/// The products of the scalars of `a` and `b`, lane by lane.
pub open spec fn lanewise_mul<T: Simd<V>, V>(a: Seq<T>, b: Seq<T>) -> Seq<T> {
    Seq::new(a.len(), |i: int| a[i].mul_spec(b[i]))
}

/// The quotients of the scalars of `a` and `b`, lane by lane.
pub open spec fn lanewise_div<T: Simd<V>, V>(a: Seq<T>, b: Seq<T>) -> Seq<T> {
    Seq::new(a.len(), |i: int| a[i].div_spec(b[i]))
}

/// The lanes of a vector added up from the first to the last.
pub open spec fn horizontal_sum<T: Simd<V>, V>(lanes: Seq<T>) -> T {
    if lanes.len() == 0 {
        T::zero_spec()
    } else {
        fold_add::<T, V>(lanes[0], lanes.subrange(1, lanes.len() as int))
    }
}

/// The scalars of vector `i` of a run of vectors of `width` lanes.
pub open spec fn vector_at<T>(run: Seq<T>, width: int, i: int) -> Seq<T> {
    run.subrange(i * width, i * width + width)
}

/// The scalars that lane `j` meets in the first `count` vectors of a run of
/// vectors of `width` lanes.
pub open spec fn column<T>(run: Seq<T>, width: int, j: int, count: int) -> Seq<T> {
    Seq::new(count as nat, |i: int| run[i * width + j])
}

/// The lanes of the accumulator after the first `count` vectors of `run` were
/// added to a zeroed vector, one after the other.
pub open spec fn accumulated<T: Simd<V>, V>(run: Seq<T>, width: int, count: int) -> Seq<T> {
    Seq::new(width as nat, |j: int| fold_add::<T, V>(T::zero_spec(), column(run, width, j, count)))
}

/// The sum over the three parts of a slice: the `count` vectors of `width`
/// lanes in `run` are added up lane by lane, the lanes of that are added up,
/// then `head` is added to it scalar by scalar, then `tail`.
pub open spec fn sum_of_parts<T: Simd<V>, V>(
    head: Seq<T>,
    run: Seq<T>,
    tail: Seq<T>,
    width: int,
    count: int,
) -> T {
    let middle = horizontal_sum::<T, V>(accumulated::<T, V>(run, width, count));
    fold_add::<T, V>(fold_add::<T, V>(middle, head), tail)
}

/// The sum of `s` computed a vector at a time, with `body` vectors of `width`
/// lanes after the first `head` scalars.
pub open spec fn grouped_sum<T: Simd<V>, V>(s: Seq<T>, head: int, body: int, width: int) -> T {
    sum_of_parts::<T, V>(
        s.subrange(0, head),
        s.subrange(head, head + body * width),
        s.subrange(head + body * width, s.len() as int),
        width,
        body,
    )
}

/// One more scalar at the end is one more addition at the end.
pub proof fn lemma_fold_add_push<T: Simd<V>, V>(acc: T, s: Seq<T>, x: T)
    ensures
        fold_add::<T, V>(acc, s.push(x)) == fold_add::<T, V>(acc, s).add_spec(x),
{
    assert(s.push(x).drop_last() =~= s);
}

/// Folding over two sequences one after the other is folding over both.
pub proof fn lemma_fold_add_concat<T: Simd<V>, V>(acc: T, s: Seq<T>, t: Seq<T>)
    ensures
        fold_add::<T, V>(acc, s + t) == fold_add::<T, V>(fold_add::<T, V>(acc, s), t),
    decreases t.len(),
{
    if t.len() == 0 {
        assert(s + t =~= s);
    } else {
        lemma_fold_add_concat::<T, V>(acc, s, t.drop_last());
        assert((s + t).drop_last() =~= s + t.drop_last());
    }
}

/// Before any vector was added the accumulator holds zero in each lane.
pub proof fn lemma_accumulated_none<T: Simd<V>, V>(run: Seq<T>, width: int)
    requires
        0 <= width,
    ensures
        accumulated::<T, V>(run, width, 0) == Seq::new(width as nat, |j: int| T::zero_spec()),
{
    assert(accumulated::<T, V>(run, width, 0) =~= Seq::new(width as nat, |j: int| T::zero_spec()));
}

/// Adding the next vector adds its scalars to the lanes.
pub proof fn lemma_accumulated_next<T: Simd<V>, V>(run: Seq<T>, width: int, count: int)
    requires
        0 <= width,
        0 <= count,
        (count + 1) * width <= run.len(),
    ensures
        accumulated::<T, V>(run, width, count + 1) == lanewise_add::<T, V>(
            accumulated::<T, V>(run, width, count),
            vector_at(run, width, count),
        ),
{
    assert(count * width + width == (count + 1) * width && 0 <= count * width)
        by (nonlinear_arith)
        requires
            0 <= count,
            0 <= width,
    ;
    let next = vector_at(run, width, count);
    let before = accumulated::<T, V>(run, width, count);
    let after = accumulated::<T, V>(run, width, count + 1);
    assert forall|j: int| 0 <= j < width implies after[j] == #[trigger] before[j].add_spec(
        next[j],
    ) by {
        let met = column(run, width, j, count);
        assert(column(run, width, j, count + 1) =~= met.push(next[j]));
        lemma_fold_add_push::<T, V>(T::zero_spec(), met, next[j]);
    }
    assert(after =~= lanewise_add::<T, V>(before, next));
}

/// Whether addition is exact enough to be regrouped: it is associative and
/// commutative, and adding to zero changes nothing.
#[verifier::opaque]
pub open spec fn adds_exactly<T: Simd<V>, V>() -> bool {
    &&& forall|a: T, b: T| #[trigger] a.add_spec(b) == b.add_spec(a)
    &&& forall|a: T, b: T, c: T| #[trigger] a.add_spec(b).add_spec(c) == a.add_spec(b.add_spec(c))
    &&& forall|a: T| #[trigger] T::zero_spec().add_spec(a) == a
}

/// The laws of exact addition, for given scalars.
pub proof fn lemma_exact_addition<T: Simd<V>, V>(a: T, b: T, c: T)
    requires
        adds_exactly::<T, V>(),
    ensures
        a.add_spec(b) == b.add_spec(a),
        a.add_spec(b).add_spec(c) == a.add_spec(b.add_spec(c)),
        T::zero_spec().add_spec(a) == a,
        a.add_spec(T::zero_spec()) == a,
{
    reveal(adds_exactly);
    assert(a.add_spec(T::zero_spec()) == T::zero_spec().add_spec(a));
}

/// With exact addition, folding from `acc` is adding the plain sum to `acc`.
pub proof fn lemma_fold_add_from<T: Simd<V>, V>(acc: T, s: Seq<T>)
    requires
        adds_exactly::<T, V>(),
    ensures
        fold_add::<T, V>(acc, s) == acc.add_spec(plain_sum::<T, V>(s)),
    decreases s.len(),
{
    if s.len() == 0 {
        lemma_exact_addition::<T, V>(acc, acc, acc);
    } else {
        lemma_fold_add_from::<T, V>(acc, s.drop_last());
        lemma_exact_addition::<T, V>(acc, plain_sum::<T, V>(s.drop_last()), s.last());
    }
}

/// With exact addition, the plain sum of two sequences one after the other is
/// the sum of their plain sums.
pub proof fn lemma_plain_sum_concat<T: Simd<V>, V>(s: Seq<T>, t: Seq<T>)
    requires
        adds_exactly::<T, V>(),
    ensures
        plain_sum::<T, V>(s + t) == plain_sum::<T, V>(s).add_spec(plain_sum::<T, V>(t)),
{
    lemma_fold_add_concat::<T, V>(T::zero_spec(), s, t);
    lemma_fold_add_from::<T, V>(plain_sum::<T, V>(s), t);
}

/// With exact addition, the lanes added up from the first to the last are
/// their plain sum.
pub proof fn lemma_horizontal_sum_is_plain<T: Simd<V>, V>(lanes: Seq<T>)
    requires
        adds_exactly::<T, V>(),
    ensures
        horizontal_sum::<T, V>(lanes) == plain_sum::<T, V>(lanes),
{
    if lanes.len() > 0 {
        let first = lanes.subrange(0, 1);
        let rest = lanes.subrange(1, lanes.len() as int);
        assert(first + rest =~= lanes);
        assert(first =~= Seq::<T>::empty().push(lanes[0]));
        lemma_fold_add_push::<T, V>(T::zero_spec(), Seq::<T>::empty(), lanes[0]);
        lemma_exact_addition::<T, V>(lanes[0], lanes[0], lanes[0]);
        lemma_fold_add_concat::<T, V>(T::zero_spec(), first, rest);
    }
}

/// With exact addition, the plain sum of sums taken lane by lane is the sum
/// of the two plain sums.
pub proof fn lemma_plain_sum_lanewise<T: Simd<V>, V>(a: Seq<T>, b: Seq<T>)
    requires
        adds_exactly::<T, V>(),
        a.len() == b.len(),
    ensures
        plain_sum::<T, V>(lanewise_add::<T, V>(a, b)) == plain_sum::<T, V>(a).add_spec(
            plain_sum::<T, V>(b),
        ),
    decreases a.len(),
{
    let both = lanewise_add::<T, V>(a, b);
    if a.len() == 0 {
        lemma_exact_addition::<T, V>(T::zero_spec(), T::zero_spec(), T::zero_spec());
    } else {
        lemma_plain_sum_lanewise::<T, V>(a.drop_last(), b.drop_last());
        assert(both.drop_last() =~= lanewise_add::<T, V>(a.drop_last(), b.drop_last()));
        let p = plain_sum::<T, V>(a.drop_last());
        let q = plain_sum::<T, V>(b.drop_last());
        let x = a.last();
        let y = b.last();
        // (p + q) + (x + y) == (p + x) + (q + y)
        lemma_exact_addition::<T, V>(p, q, x.add_spec(y));
        lemma_exact_addition::<T, V>(q, x, y);
        lemma_exact_addition::<T, V>(x, q, y);
        lemma_exact_addition::<T, V>(p, x, q.add_spec(y));
    }
}

/// Where zero added to zero is zero, zeros add up to zero.
pub proof fn lemma_sum_of_zeros<T: Simd<V>, V>(n: nat)
    requires
        T::zero_spec().add_spec(T::zero_spec()) == T::zero_spec(),
    ensures
        plain_sum::<T, V>(Seq::new(n, |j: int| T::zero_spec())) == T::zero_spec(),
        horizontal_sum::<T, V>(Seq::new(n, |j: int| T::zero_spec())) == T::zero_spec(),
    decreases n,
{
    let zeros = Seq::new(n, |j: int| T::zero_spec());
    if n > 0 {
        let fewer = Seq::new((n - 1) as nat, |j: int| T::zero_spec());
        lemma_sum_of_zeros::<T, V>((n - 1) as nat);
        assert(zeros.drop_last() =~= fewer);
        assert(zeros.subrange(1, n as int) =~= fewer);
    }
}

/// With exact addition, the accumulator's lanes add up to the plain sum of
/// the scalars of the vectors that were added.
pub proof fn lemma_accumulated_is_plain<T: Simd<V>, V>(run: Seq<T>, width: int, count: int)
    requires
        adds_exactly::<T, V>(),
        0 <= width,
        0 <= count,
        count * width <= run.len(),
    ensures
        plain_sum::<T, V>(accumulated::<T, V>(run, width, count)) == plain_sum::<T, V>(
            run.subrange(0, count * width),
        ),
    decreases count,
{
    if count == 0 {
        lemma_accumulated_none::<T, V>(run, width);
        lemma_exact_addition::<T, V>(T::zero_spec(), T::zero_spec(), T::zero_spec());
        lemma_sum_of_zeros::<T, V>(width as nat);
        assert(run.subrange(0, 0 * width) =~= Seq::<T>::empty());
    } else {
        let before = count - 1;
        assert(before * width + width == count * width && 0 <= before * width)
            by (nonlinear_arith)
            requires
                before == count - 1,
                0 <= before,
                0 <= width,
        ;
        lemma_accumulated_is_plain::<T, V>(run, width, before);
        lemma_accumulated_next::<T, V>(run, width, before);
        let seen = run.subrange(0, before * width);
        let next = vector_at(run, width, before);
        lemma_plain_sum_lanewise::<T, V>(accumulated::<T, V>(run, width, before), next);
        lemma_plain_sum_concat::<T, V>(seen, next);
        assert(seen + next =~= run.subrange(0, count * width));
    }
}

/// Where addition is exact, the sum over the parts is the plain sum of the
/// scalars in their order: the grouping changes nothing.
pub proof fn lemma_sum_of_parts_is_plain<T: Simd<V>, V>(
    head: Seq<T>,
    run: Seq<T>,
    tail: Seq<T>,
    width: int,
    count: int,
)
    requires
        adds_exactly::<T, V>(),
        0 <= width,
        0 <= count,
        run.len() == count * width,
    ensures
        sum_of_parts::<T, V>(head, run, tail, width, count) == plain_sum::<T, V>(head + run + tail),
{
    let lanes = accumulated::<T, V>(run, width, count);
    let middle = horizontal_sum::<T, V>(lanes);
    lemma_horizontal_sum_is_plain::<T, V>(lanes);
    lemma_accumulated_is_plain::<T, V>(run, width, count);
    assert(run.subrange(0, count * width) =~= run);
    lemma_fold_add_from::<T, V>(middle, head);
    lemma_exact_addition::<T, V>(middle, plain_sum::<T, V>(head), middle);
    lemma_plain_sum_concat::<T, V>(head, run);
    lemma_fold_add_concat::<T, V>(T::zero_spec(), head + run, tail);
}

/// Where zero added to zero is zero, the sum over no scalars at all is zero.
pub proof fn lemma_sum_of_no_parts<T: Simd<V>, V>(width: int)
    requires
        T::zero_spec().add_spec(T::zero_spec()) == T::zero_spec(),
        0 <= width,
    ensures
        sum_of_parts::<T, V>(Seq::empty(), Seq::empty(), Seq::empty(), width, 0) == T::zero_spec(),
{
    lemma_accumulated_none::<T, V>(Seq::<T>::empty(), width);
    lemma_sum_of_zeros::<T, V>(width as nat);
}

} // verus!
