//! Generic programming with SIMD: sums of slices, computed a vector at a time.
//!
//! A slice is split where its memory crosses the boundaries at which whole
//! vectors can lie: a head before the first boundary, a run of vectors, and a
//! tail after the last boundary. The vectors are added up lane by lane, the
//! lanes are added up, and the head and the tail are added to that scalar by
//! scalar.

use crate::align::{
    body_len, end_of, head_len, is_multiple, is_partition, split, tail_len, Partition,
};
use crate::body::Body;
use crate::model::{
    accumulated, adds_exactly, fold_add, grouped_sum, lemma_accumulated_next,
    lemma_accumulated_none, lemma_fold_add_push, lemma_sum_of_no_parts,
    lemma_sum_of_parts_is_plain, plain_sum, sum_of_parts,
};
use crate::traits::{Simd, Vector};
use vstd::arithmetic::div_mod::{lemma_div_multiples_vanish, lemma_mod_multiples_basic};
use vstd::layout::{align_of, size_of};
use vstd::prelude::*;

pub mod align;
pub mod body;
pub mod model;
pub mod traits;

verus! {

/// Whether a vector of `width` scalars of `elem_size` bytes has a size.
pub open spec fn has_layout(elem_size: int, width: int) -> bool {
    &&& elem_size > 0
    &&& width > 0
    &&& width * elem_size <= usize::MAX
}

/// Whether `len` scalars of `elem_size` bytes can lie at address `start`: the
/// address is a multiple of their size, and the last of them ends inside the
/// address space.
pub open spec fn is_region(start: int, len: int, elem_size: int) -> bool {
    &&& end_of(start, len, elem_size) <= usize::MAX
    &&& elem_size > 0 ==> start % elem_size == 0
}

/// Whether `start` can be the address of a slice of `len` scalars of
/// `elem_size` bytes that are aligned to `elem_align` bytes: it is a multiple
/// of the alignment, and the last scalar ends inside the address space.
pub open spec fn is_address(start: int, len: int, elem_size: int, elem_align: int) -> bool {
    &&& 0 <= start
    &&& start % elem_align == 0
    &&& end_of(start, len, elem_size) <= usize::MAX
}

/// Whether `len` scalars of `elem_size` bytes hold a vector of `width` of them
/// wherever they lie: the vector has a layout, and there are as many scalars
/// as in two vectors less one.
pub open spec fn holds_a_vector(len: int, elem_size: int, width: int) -> bool {
    &&& has_layout(elem_size, width)
    &&& len >= 2 * width - 1
}

/// The scalars before the first vector of `width` scalars, at its natural
/// alignment, in a buffer at address `start`: all of them where the vector has
/// no layout or the scalars cannot lie at `start`.
pub open spec fn head_at(start: int, len: int, elem_size: int, width: int) -> int {
    if has_layout(elem_size, width) && is_region(start, len, elem_size) {
        head_len(start, len, elem_size, width * elem_size)
    } else {
        len
    }
}

/// The vectors of `width` scalars, at their natural alignment, in a buffer at
/// address `start`: none where the vector has no layout or the scalars cannot
/// lie at `start`.
pub open spec fn body_at(start: int, len: int, elem_size: int, width: int) -> int {
    if has_layout(elem_size, width) && is_region(start, len, elem_size) {
        body_len(start, len, elem_size, width * elem_size, width * elem_size)
    } else {
        0
    }
}

/// The scalars after the last vector of `width` scalars, at its natural
/// alignment, in a buffer at address `start`: none where the vector has no
/// layout or the scalars cannot lie at `start`.
pub open spec fn tail_at(start: int, len: int, elem_size: int, width: int) -> int {
    if has_layout(elem_size, width) && is_region(start, len, elem_size) {
        tail_len(start, len, elem_size, width * elem_size)
    } else {
        0
    }
}

/// Calls `<[T]>::as_ptr` and turns the pointer into the number that is its
/// address. Which number that is is for the allocator and the caller to
/// decide, and may differ from one run to the next. Two things are taken from
/// the standard library's documentation of references and slices: the address
/// is a multiple of the alignment of `T`, and the bytes of the slice end
/// inside the address space.
#[verifier::external_body]
fn address<T>(slice: &[T]) -> (start: usize)
    ensures
        start as int % align_of::<T>() as int == 0,
        start + slice@.len() * size_of::<T>() <= usize::MAX,
{
    slice.as_ptr() as usize
}

/// Tells whether `len` scalars of `elem_size` bytes can lie at `start`.
pub fn can_hold(start: usize, len: usize, elem_size: usize) -> (b: bool)
    ensures
        b == is_region(start as int, len as int, elem_size as int),
{
    if elem_size == 0 {
        assert(len * 0 == 0);
        return true;
    }
    if start % elem_size != 0 {
        return false;
    }
    match len.checked_mul(elem_size) {
        None => false,
        Some(bytes) => start.checked_add(bytes).is_some(),
    }
}

/// The lengths of the three parts of a slice of `len` scalars of type `T` at
/// address `start`, for vectors of type `V` at their natural alignment. Where
/// `V` has no lanes, `T` has no size, a vector would be larger than the
/// address space, or the scalars cannot lie at `start`, all is head.
pub fn partition<T, V>(start: usize, len: usize) -> (p: Partition) where
    T: Simd<V>,
    V: Vector<Elem = T>,

    ensures
        p.head == head_at(start as int, len as int, size_of::<T>() as int, V::WIDTH as int),
        p.body == body_at(start as int, len as int, size_of::<T>() as int, V::WIDTH as int),
        p.tail == tail_at(start as int, len as int, size_of::<T>() as int, V::WIDTH as int),
        is_partition(p.head as int, p.body as int, p.tail as int, len as int, V::WIDTH as int),
        p.body > 0 ==> is_multiple(
            start + p.head * size_of::<T>(),
            V::WIDTH as int * size_of::<T>() as int,
        ),
        holds_a_vector(len as int, size_of::<T>() as int, V::WIDTH as int) && is_region(
            start as int,
            len as int,
            size_of::<T>() as int,
        ) ==> p.body > 0,
{
    let whole = Partition { head: len, body: 0, tail: 0 };
    let elem_size: usize = core::mem::size_of::<T>();
    let width: usize = V::WIDTH;
    if elem_size == 0 || width == 0 || !can_hold(start, len, elem_size) {
        return whole;
    }
    match width.checked_mul(elem_size) {
        None => whole,
        Some(vec_size) => {
            proof {
                lemma_mod_multiples_basic(width as int, elem_size as int);
                lemma_div_multiples_vanish(width as int, elem_size as int);
            }
            split(start, len, elem_size, vec_size, vec_size)
        },
    }
}

/// Whether `head`, `run` and `tail` are a cast of `s` into `count` vectors of
/// `width` lanes: put one after the other they are `s`, scalar by scalar; the
/// run holds the vectors and nothing else; there is less than a vector in
/// `head` and in `tail` where there is a vector, and all of `s` is in `head`
/// where there is none or where `s` is shorter than a vector.
pub open spec fn is_cast<T>(
    s: Seq<T>,
    head: Seq<T>,
    run: Seq<T>,
    tail: Seq<T>,
    width: int,
    count: int,
) -> bool {
    &&& head + run + tail == s
    &&& run.len() == count * width
    &&& is_partition(head.len() as int, count, tail.len() as int, s.len() as int, width)
}

/// The three views of `slice` that a partition of it stands for.
fn carve<'a, T, V>(slice: &'a [T], p: Partition) -> (parts: (&'a [T], Body<'a, T, V>, &'a [T])) where
    T: Simd<V>,
    V: Vector<Elem = T>,

    requires
        is_partition(
            p.head as int,
            p.body as int,
            p.tail as int,
            slice@.len() as int,
            V::WIDTH as int,
        ),
    ensures
        parts.0@ == slice@.subrange(0, p.head as int),
        parts.1@.scalars == slice@.subrange(p.head as int, p.head + p.body * V::WIDTH),
        parts.1@.count == p.body,
        parts.2@ == slice@.subrange(p.head + p.body * V::WIDTH, slice@.len() as int),
        is_cast(slice@, parts.0@, parts.1@.scalars, parts.2@, V::WIDTH as int, p.body as int),
{
    let len: usize = slice.len();
    assert(0 <= p.body * V::WIDTH) by (nonlinear_arith);
    let rest: usize = len - p.tail;
    let head = &slice[0..p.head];
    let run = &slice[p.head..rest];
    let tail = &slice[rest..len];
    assert(head@ + run@ + tail@ =~= slice@);
    (head, Body::new(run, p.body), tail)
}

/// Adds the scalars of `s` to `acc` one after the other, from the left.
fn fold<T, V>(acc: T, s: &[T]) -> (r: T) where T: Simd<V>
    ensures
        T::obeys_simd_spec() ==> r == fold_add::<T, V>(acc, s@),
{
    let mut r = acc;
    let mut k: usize = 0;
    while k < s.len()
        invariant
            k <= s@.len(),
            T::obeys_simd_spec() ==> r == fold_add::<T, V>(acc, s@.subrange(0, k as int)),
        decreases s@.len() - k,
    {
        proof {
            assert(s@.subrange(0, k + 1) =~= s@.subrange(0, k as int).push(s@[k as int]));
            lemma_fold_add_push::<T, V>(acc, s@.subrange(0, k as int), s@[k as int]);
        }
        r = r.add(s[k]);
        k += 1;
    }
    assert(s@.subrange(0, s@.len() as int) =~= s@);
    r
}

/// The sum over the three parts of a slice.
fn reduce<T, V>(head: &[T], body: &Body<'_, T, V>, tail: &[T]) -> (r: T) where
    T: Simd<V>,
    V: Vector<Elem = T>,

    ensures
        T::obeys_simd_spec() && V::obeys_vector_spec() ==> r == sum_of_parts::<T, V>(
            head@,
            body@.scalars,
            tail@,
            V::WIDTH as int,
            body@.count as int,
        ),
{
    let ghost obeys = T::obeys_simd_spec() && V::obeys_vector_spec();
    let ghost width = V::WIDTH as int;
    let count: usize = body.len();
    let mut acc = V::zeroed();
    proof {
        lemma_accumulated_none::<T, V>(body@.scalars, width);
    }
    let mut i: usize = 0;
    while i < count
        invariant
            width == V::WIDTH,
            obeys == (T::obeys_simd_spec() && V::obeys_vector_spec()),
            i <= count == body@.count,
            body@.scalars.len() == count * width,
            obeys ==> acc.lanes() == accumulated::<T, V>(body@.scalars, width, i as int),
        decreases count - i,
    {
        proof {
            assert((i + 1) * width <= count * width) by (nonlinear_arith)
                requires
                    i < count,
                    0 <= width,
            ;
            lemma_accumulated_next::<T, V>(body@.scalars, width, i as int);
        }
        match body.get(i) {
            Some(v) => {
                acc = acc.add(v);
            },
            None => {},
        }
        i += 1;
    }
    let middle = acc.sum();
    let with_head = fold::<T, V>(middle, head);
    fold::<T, V>(with_head, tail)
}

/// What no grouping of a sum can change: where addition is exact the sum is
/// the plain one, and where zero added to zero is zero, the sum of nothing is
/// zero.
pub open spec fn is_sum<T: Simd<V>, V>(s: Seq<T>, r: T) -> bool {
    &&& adds_exactly::<T, V>() ==> r == plain_sum::<T, V>(s)
    &&& s.len() == 0 && T::zero_spec().add_spec(T::zero_spec()) == T::zero_spec() ==> r
        == T::zero_spec()
}

/// A sum computed a vector at a time, over any partition of the scalars, is a
/// sum of them.
pub proof fn lemma_grouped_sum_is_sum<T: Simd<V>, V>(s: Seq<T>, head: int, body: int, width: int)
    requires
        0 <= width,
        is_partition(head, body, s.len() - head - body * width, s.len() as int, width),
    ensures
        is_sum::<T, V>(s, grouped_sum::<T, V>(s, head, body, width)),
{
    assert(0 <= body * width && (body > 0 && width > 0 ==> 0 < body * width))
        by (nonlinear_arith)
        requires
            0 <= body,
            0 <= width,
    ;
    let front = s.subrange(0, head);
    let run = s.subrange(head, head + body * width);
    let back = s.subrange(head + body * width, s.len() as int);
    if adds_exactly::<T, V>() {
        lemma_sum_of_parts_is_plain::<T, V>(front, run, back, width, body);
        assert(front + run + back =~= s);
    }
    if s.len() == 0 && T::zero_spec().add_spec(T::zero_spec()) == T::zero_spec() {
        assert(front =~= Seq::<T>::empty());
        assert(run =~= Seq::<T>::empty());
        assert(back =~= Seq::<T>::empty());
        lemma_sum_of_no_parts::<T, V>(width);
    }
}

/// "Casts" a `&[T]` that lies at address `start` into an aligned run of
/// vectors: the elements (both in the front and in the back) that don't fit
/// in the aligned run are returned as slices. For a number at which the
/// scalars cannot lie, all is head.
pub fn cast_at<'a, T, V>(slice: &'a [T], start: usize) -> (parts: (
    &'a [T],
    Body<'a, T, V>,
    &'a [T],
)) where T: Simd<V>, V: Vector<Elem = T>
    ensures
        parts.0@.len() == head_at(
            start as int,
            slice@.len() as int,
            size_of::<T>() as int,
            V::WIDTH as int,
        ),
        parts.1@.count == body_at(
            start as int,
            slice@.len() as int,
            size_of::<T>() as int,
            V::WIDTH as int,
        ),
        parts.2@.len() == tail_at(
            start as int,
            slice@.len() as int,
            size_of::<T>() as int,
            V::WIDTH as int,
        ),
        is_cast(
            slice@,
            parts.0@,
            parts.1@.scalars,
            parts.2@,
            V::WIDTH as int,
            parts.1@.count as int,
        ),
        parts.1@.count > 0 ==> is_multiple(
            start + parts.0@.len() * size_of::<T>(),
            V::WIDTH as int * size_of::<T>() as int,
        ),
        holds_a_vector(slice@.len() as int, size_of::<T>() as int, V::WIDTH as int) && is_region(
            start as int,
            slice@.len() as int,
            size_of::<T>() as int,
        ) ==> parts.1@.count > 0,
{
    let p = partition::<T, V>(start, slice.len());
    carve(slice, p)
}

/// Casts e.g. a slice of scalars into an *aligned* run of vectors; the
/// elements that don't fit in the aligned run are returned as slices.
///
/// The parts are those that `cast_at` gives for the address at which the
/// slice lies. Scalars that are as large as their alignment lie at every
/// address that a slice of them can have, so a slice of them that is long
/// enough to hold a vector wherever it starts has one.
pub fn cast<'a, T, V>(slice: &'a [T]) -> (parts: (&'a [T], Body<'a, T, V>, &'a [T])) where
    T: Simd<V>,
    V: Vector<Elem = T>,

    ensures
        is_cast(
            slice@,
            parts.0@,
            parts.1@.scalars,
            parts.2@,
            V::WIDTH as int,
            parts.1@.count as int,
        ),
        exists|start: int|
            is_address(
                start,
                slice@.len() as int,
                size_of::<T>() as int,
                align_of::<T>() as int,
            ) && parts.0@.len() == #[trigger] head_at(
                start,
                slice@.len() as int,
                size_of::<T>() as int,
                V::WIDTH as int,
            ) && parts.1@.count == body_at(
                start,
                slice@.len() as int,
                size_of::<T>() as int,
                V::WIDTH as int,
            ) && parts.2@.len() == tail_at(
                start,
                slice@.len() as int,
                size_of::<T>() as int,
                V::WIDTH as int,
            ) && (parts.1@.count > 0 ==> is_multiple(
                start + parts.0@.len() * size_of::<T>(),
                V::WIDTH as int * size_of::<T>() as int,
            )),
        size_of::<T>() == align_of::<T>() ==> exists|start: int|
            is_region(start, slice@.len() as int, size_of::<T>() as int) && parts.0@.len()
                == #[trigger] head_at(
                start,
                slice@.len() as int,
                size_of::<T>() as int,
                V::WIDTH as int,
            ) && parts.1@.count == body_at(
                start,
                slice@.len() as int,
                size_of::<T>() as int,
                V::WIDTH as int,
            ) && parts.2@.len() == tail_at(
                start,
                slice@.len() as int,
                size_of::<T>() as int,
                V::WIDTH as int,
            ),
        size_of::<T>() == align_of::<T>() && holds_a_vector(
            slice@.len() as int,
            size_of::<T>() as int,
            V::WIDTH as int,
        ) ==> parts.1@.count > 0,
{
    let start = address(slice);
    cast_at(slice, start)
}

/// Sums the elements of a slice that lies at address `start` using SIMD ops:
/// the vectors of the aligned run are added up, the lanes of that are added
/// up, then the head is added to it, then the tail. For a number at which the
/// scalars cannot lie, all is head.
pub fn sum_at<T, V>(slice: &[T], start: usize) -> (r: T) where T: Simd<V>, V: Vector<Elem = T>
    ensures
        T::obeys_simd_spec() && V::obeys_vector_spec() ==> r == grouped_sum::<T, V>(
            slice@,
            head_at(start as int, slice@.len() as int, size_of::<T>() as int, V::WIDTH as int),
            body_at(start as int, slice@.len() as int, size_of::<T>() as int, V::WIDTH as int),
            V::WIDTH as int,
        ),
        T::obeys_simd_spec() && V::obeys_vector_spec() ==> is_sum::<T, V>(slice@, r),
{
    let (head, body, tail) = cast_at::<T, V>(slice, start);
    proof {
        let h = head@.len() as int;
        let b = body@.count as int;
        lemma_grouped_sum_is_sum::<T, V>(slice@, h, b, V::WIDTH as int);
        assert(head@ =~= slice@.subrange(0, h));
        assert(body@.scalars =~= slice@.subrange(h, h + b * V::WIDTH));
        assert(tail@ =~= slice@.subrange(h + b * V::WIDTH, slice@.len() as int));
    }
    reduce(head, &body, tail)
}

/// Sum the elements of a slice using SIMD ops
///
/// The scalars are added in the order that `sum_at` tells for the address at
/// which the slice lies.
pub fn sum<T, V>(slice: &[T]) -> (r: T) where T: Simd<V>, V: Vector<Elem = T>
    ensures
        T::obeys_simd_spec() && V::obeys_vector_spec() ==> exists|start: int|
            is_address(
                start,
                slice@.len() as int,
                size_of::<T>() as int,
                align_of::<T>() as int,
            ) && r == grouped_sum::<T, V>(
                slice@,
                #[trigger] head_at(
                    start,
                    slice@.len() as int,
                    size_of::<T>() as int,
                    V::WIDTH as int,
                ),
                body_at(start, slice@.len() as int, size_of::<T>() as int, V::WIDTH as int),
                V::WIDTH as int,
            ),
        T::obeys_simd_spec() && V::obeys_vector_spec() && size_of::<T>() == align_of::<T>()
            ==> exists|start: int|
            is_region(start, slice@.len() as int, size_of::<T>() as int) && r == grouped_sum::<
                T,
                V,
            >(
                slice@,
                #[trigger] head_at(
                    start,
                    slice@.len() as int,
                    size_of::<T>() as int,
                    V::WIDTH as int,
                ),
                body_at(start, slice@.len() as int, size_of::<T>() as int, V::WIDTH as int),
                V::WIDTH as int,
            ),
        T::obeys_simd_spec() && V::obeys_vector_spec() ==> is_sum::<T, V>(slice@, r),
{
    let start = address(slice);
    sum_at(slice, start)
}

} // verus!
