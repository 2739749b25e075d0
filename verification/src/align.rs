//! Address arithmetic: where the aligned run of vectors lies inside a buffer.
//!
//! A buffer is described by the address of its first byte, the number of
//! elements it holds and the size of one element. A vector type is described
//! by its size and its alignment, both in bytes. Nothing here touches memory:
//! the functions compute lengths from numbers.

use vstd::arithmetic::div_mod::{
    lemma_div_multiples_vanish, lemma_fundamental_div_mod, lemma_mod_multiples_basic,
    lemma_mod_multiples_vanish,
};
use vstd::arithmetic::mul::{lemma_mul_is_associative, lemma_mul_is_commutative};
use vstd::prelude::*;

verus! {

/// Whether `m` is a multiple of `k`.
pub open spec fn is_multiple(m: int, k: int) -> bool {
    m % k == 0
}

/// `n` rounded down to a multiple of `k`.
pub open spec fn round_down_spec(n: int, k: int) -> int {
    n - n % k
}

/// `n` rounded up to a multiple of `k`.
pub open spec fn round_up_spec(n: int, k: int) -> int {
    if n % k == 0 {
        n
    } else {
        n + k - n % k
    }
}

/// `round_down_spec(n, k)` is the largest multiple of `k` that is at most `n`.
pub proof fn lemma_round_down(n: int, k: int)
    requires
        k > 0,
    ensures
        is_multiple(round_down_spec(n, k), k),
        round_down_spec(n, k) <= n < round_down_spec(n, k) + k,
        round_down_spec(n, k) == (n / k) * k,
        forall|m: int| #[trigger] is_multiple(m, k) && m <= n ==> m <= round_down_spec(n, k),
{
    lemma_fundamental_div_mod(n, k);
    lemma_mul_is_commutative(k, n / k);
    lemma_mod_multiples_basic(n / k, k);
    assert forall|m: int| #[trigger] is_multiple(m, k) && m <= n implies m <= round_down_spec(n, k) by {
        lemma_multiples_are_apart(m, round_down_spec(n, k), k);
    }
}

/// `round_up_spec(n, k)` is the smallest multiple of `k` that is at least `n`.
pub proof fn lemma_round_up(n: int, k: int)
    requires
        k > 0,
    ensures
        is_multiple(round_up_spec(n, k), k),
        n <= round_up_spec(n, k) < n + k,
        forall|m: int| #[trigger] is_multiple(m, k) && n <= m ==> round_up_spec(n, k) <= m,
{
    lemma_round_down(n, k);
    if n % k != 0 {
        lemma_mod_multiples_vanish(1, round_down_spec(n, k), k);
    }
    assert forall|m: int| #[trigger] is_multiple(m, k) && n <= m implies round_up_spec(n, k) <= m by {
        lemma_multiples_are_apart(round_up_spec(n, k), m, k);
    }
}

/// Two multiples of `k` are equal or at least `k` apart.
proof fn lemma_multiples_are_apart(a: int, b: int, k: int)
    requires
        k > 0,
        a % k == 0,
        b % k == 0,
    ensures
        a < b + k ==> a <= b,
{
    lemma_fundamental_div_mod(a, k);
    lemma_fundamental_div_mod(b, k);
    if a > b {
        assert(a / k > b / k) by (nonlinear_arith)
            requires
                k > 0,
                a == k * (a / k),
                b == k * (b / k),
                a > b,
        ;
        assert(a >= b + k) by (nonlinear_arith)
            requires
                k > 0,
                a == k * (a / k),
                b == k * (b / k),
                a / k >= b / k + 1,
        ;
    }
}

/// Rounds `n` down to the nearest multiple of `k`.
pub fn round_down(n: usize, k: usize) -> (r: usize)
    requires
        k > 0,
    ensures
        r == round_down_spec(n as int, k as int),
        r % k == 0,
        r <= n < r + k,
{
    proof {
        lemma_round_down(n as int, k as int);
    }
    n - n % k
}

/// Rounds `n` up to the nearest multiple of `k`.
pub fn round_up(n: usize, k: usize) -> (r: usize)
    requires
        k > 0,
        round_up_spec(n as int, k as int) <= usize::MAX,
    ensures
        r == round_up_spec(n as int, k as int),
        r % k == 0,
        n <= r < n + k,
{
    proof {
        lemma_round_up(n as int, k as int);
    }
    let r: usize = n % k;
    if r == 0 {
        n
    } else {
        n + (k - r)
    }
}

/// The lengths of the three parts of a buffer: `head` and `tail` count
/// elements, `body` counts vectors.
#[derive(Clone, Copy, Debug, PartialEq, Eq, Structural)]
pub struct Partition {
    pub head: usize,
    pub body: usize,
    pub tail: usize,
}

/// The address one past the last byte of the buffer.
pub open spec fn end_of(start: int, len: int, elem_size: int) -> int {
    start + len * elem_size
}

/// The address of the first aligned vector boundary in the buffer or after it.
pub open spec fn body_start(start: int, vec_align: int) -> int {
    round_up_spec(start, vec_align)
}

/// The address of the last aligned vector boundary in the buffer or before it.
pub open spec fn body_end(start: int, len: int, elem_size: int, vec_align: int) -> int {
    round_down_spec(end_of(start, len, elem_size), vec_align)
}

/// Whether the two boundaries leave room between them.
pub open spec fn has_body(start: int, len: int, elem_size: int, vec_align: int) -> bool {
    body_start(start, vec_align) < body_end(start, len, elem_size, vec_align)
}

/// Elements before the aligned run; all of them where there is no run.
pub open spec fn head_len(start: int, len: int, elem_size: int, vec_align: int) -> int {
    if has_body(start, len, elem_size, vec_align) {
        (body_start(start, vec_align) - start) / elem_size
    } else {
        len
    }
}

/// Vectors in the aligned run.
pub open spec fn body_len(start: int, len: int, elem_size: int, vec_size: int, vec_align: int) -> int {
    if has_body(start, len, elem_size, vec_align) {
        (body_end(start, len, elem_size, vec_align) - body_start(start, vec_align)) / vec_size
    } else {
        0
    }
}

/// Elements after the aligned run.
pub open spec fn tail_len(start: int, len: int, elem_size: int, vec_align: int) -> int {
    if has_body(start, len, elem_size, vec_align) {
        (end_of(start, len, elem_size) - body_end(start, len, elem_size, vec_align)) / elem_size
    } else {
        0
    }
}

/// Whether the vector has its natural alignment, its own size, and the buffer
/// starts on a multiple of the element size.
pub open spec fn is_natural(start: int, elem_size: int, vec_size: int, vec_align: int) -> bool {
    &&& vec_align == vec_size
    &&& start % elem_size == 0
}

/// Whether `head`, `body` and `tail` cover `len` elements in vectors of `lanes`
/// elements: nothing is left out or counted twice, there is less than one
/// vector on each side of a run that is not empty, and a buffer shorter than
/// one vector, or one without a run, is all head.
pub open spec fn is_partition(head: int, body: int, tail: int, len: int, lanes: int) -> bool {
    &&& 0 <= head
    &&& 0 <= body
    &&& 0 <= tail
    &&& head + body * lanes + tail == len
    &&& body > 0 ==> head < lanes && tail < lanes
    &&& body == 0 ==> head == len
    &&& len < lanes ==> body == 0
}

/// A multiple of `w * e` is a multiple of `e`.
proof fn lemma_multiple_of_multiple(x: int, e: int, w: int)
    requires
        e > 0,
        w > 0,
        x % (w * e) == 0,
    ensures
        x % e == 0,
{
    let k = w * e;
    assert(k > 0) by (nonlinear_arith)
        requires
            e > 0,
            w > 0,
            k == w * e,
    ;
    lemma_fundamental_div_mod(x, k);
    lemma_mul_is_associative(x / k, w, e);
    lemma_mul_is_commutative(k, x / k);
    lemma_mod_multiples_basic((x / k) * w, e);
}

/// The difference of two multiples of `k` is `k` times its quotient by `k`.
proof fn lemma_multiple_difference(a: int, b: int, k: int)
    requires
        k > 0,
        a % k == 0,
        b % k == 0,
    ensures
        (a - b) % k == 0,
        ((a - b) / k) * k == a - b,
{
    lemma_fundamental_div_mod(a, k);
    lemma_fundamental_div_mod(b, k);
    assert(a - b == (a / k - b / k) * k) by (nonlinear_arith)
        requires
            a == k * (a / k),
            b == k * (b / k),
    ;
    lemma_mod_multiples_basic(a / k - b / k, k);
    lemma_div_multiples_vanish(a / k - b / k, k);
}

/// With vectors at their natural alignment and a buffer that starts on an
/// element boundary, the three parts cover the buffer exactly and in order, the
/// run starts on a vector boundary, and each edge is shorter than one vector.
pub proof fn lemma_split(start: int, len: int, elem_size: int, vec_size: int, vec_align: int)
    requires
        0 <= start,
        0 <= len,
        elem_size > 0,
        vec_size > 0,
        vec_size % elem_size == 0,
        is_natural(start, elem_size, vec_size, vec_align),
    ensures
        is_partition(
            head_len(start, len, elem_size, vec_align),
            body_len(start, len, elem_size, vec_size, vec_align),
            tail_len(start, len, elem_size, vec_align),
            len,
            vec_size / elem_size,
        ),
        has_body(start, len, elem_size, vec_align) <==> body_len(
            start,
            len,
            elem_size,
            vec_size,
            vec_align,
        ) > 0,
        has_body(start, len, elem_size, vec_align) ==> {
            &&& start + head_len(start, len, elem_size, vec_align) * elem_size == body_start(
                start,
                vec_align,
            )
            &&& body_start(start, vec_align) + body_len(
                start,
                len,
                elem_size,
                vec_size,
                vec_align,
            ) * vec_size == body_end(start, len, elem_size, vec_align)
            &&& body_end(start, len, elem_size, vec_align) + tail_len(
                start,
                len,
                elem_size,
                vec_align,
            ) * elem_size == end_of(start, len, elem_size)
            &&& is_multiple(body_start(start, vec_align), vec_align)
        },
        len < vec_size / elem_size ==> !has_body(start, len, elem_size, vec_align),
{
    let e = elem_size;
    let lanes = vec_size / e;
    let end = end_of(start, len, e);
    let first = body_start(start, vec_align);
    let last = body_end(start, len, e, vec_align);
    let head = head_len(start, len, e, vec_align);
    let body = body_len(start, len, e, vec_size, vec_align);
    let tail = tail_len(start, len, e, vec_align);
    lemma_fundamental_div_mod(vec_size, e);
    lemma_mul_is_commutative(e, lanes);
    assert(vec_size == lanes * e);
    assert(lanes > 0) by (nonlinear_arith)
        requires
            vec_size == lanes * e,
            vec_size > 0,
            e > 0,
    ;
    assert(0 <= len * e) by (nonlinear_arith)
        requires
            0 <= len,
            0 < e,
    ;
    lemma_round_up(start, vec_align);
    lemma_round_down(end, vec_align);
    if has_body(start, len, e, vec_align) {
        // both boundaries lie on element boundaries, and so does the end
        lemma_multiple_of_multiple(first, e, lanes);
        lemma_multiple_of_multiple(last, e, lanes);
        lemma_mod_multiples_vanish(len, start, e);
        lemma_mul_is_commutative(len, e);
        assert(end % e == 0);
        lemma_multiple_difference(first, start, e);
        lemma_multiple_difference(last, first, vec_size);
        lemma_multiple_difference(end, last, e);
        assert(head * e == first - start);
        assert(body * vec_size == last - first);
        assert(tail * e == end - last);
        assert(head + body * lanes + tail == len && head < lanes && tail < lanes && body > 0
            && head >= 0 && tail >= 0) by (nonlinear_arith)
            requires
                e > 0,
                lanes > 0,
                vec_size == lanes * e,
                head * e == first - start,
                body * vec_size == last - first,
                tail * e == end - last,
                end == start + len * e,
                start <= first < start + vec_size,
                last <= end < last + vec_size,
                first < last,
        ;
    }
    if len < lanes {
        assert(len * e < vec_size) by (nonlinear_arith)
            requires
                len < lanes,
                vec_size == lanes * e,
                e > 0,
        ;
        if first < last {
            lemma_multiples_are_apart(last, first, vec_align);
        }
    }
}

/// With vectors at their natural alignment and a buffer that starts on an
/// element boundary, a buffer of at least two vectors less one element holds
/// a vector wherever it starts.
pub proof fn lemma_long_buffer(start: int, len: int, elem_size: int, vec_size: int, vec_align: int)
    requires
        0 <= start,
        elem_size > 0,
        vec_size > 0,
        vec_size % elem_size == 0,
        is_natural(start, elem_size, vec_size, vec_align),
        len >= 2 * (vec_size / elem_size) - 1,
    ensures
        has_body(start, len, elem_size, vec_align),
        body_len(start, len, elem_size, vec_size, vec_align) > 0,
{
    let e = elem_size;
    let lanes = vec_size / e;
    let end = end_of(start, len, e);
    let first = body_start(start, vec_align);
    let last = body_end(start, len, e, vec_align);
    lemma_fundamental_div_mod(vec_size, e);
    lemma_mul_is_commutative(e, lanes);
    assert(lanes > 0) by (nonlinear_arith)
        requires
            vec_size == lanes * e,
            vec_size > 0,
            e > 0,
    ;
    assert(0 <= len * e) by (nonlinear_arith)
        requires
            0 <= len,
            0 < e,
    ;
    lemma_round_up(start, vec_align);
    lemma_round_down(end, vec_align);
    lemma_multiple_of_multiple(first, e, lanes);
    lemma_multiple_of_multiple(last, e, lanes);
    lemma_mod_multiples_vanish(len, start, e);
    lemma_mul_is_commutative(len, e);
    lemma_multiple_difference(first, start, e);
    lemma_multiple_difference(end, last, e);
    let before = (first - start) / e;
    let after = (end - last) / e;
    assert(first < last) by (nonlinear_arith)
        requires
            e > 0,
            lanes > 0,
            vec_size == lanes * e,
            before * e == first - start,
            after * e == end - last,
            end == start + len * e,
            first < start + vec_size,
            end < last + vec_size,
            len >= 2 * lanes - 1,
    ;
    lemma_split(start, len, elem_size, vec_size, vec_align);
}

/// Splits the buffer of `len` elements of `elem_size` bytes at address `start`
/// into an unaligned head, a run of whole vectors of `vec_size` bytes that
/// starts and ends on multiples of `vec_align`, and an unaligned tail.
pub fn split(start: usize, len: usize, elem_size: usize, vec_size: usize, vec_align: usize) -> (p:
    Partition)
    requires
        elem_size > 0,
        vec_size > 0,
        vec_align > 0,
        vec_size % elem_size == 0,
        end_of(start as int, len as int, elem_size as int) <= usize::MAX,
    ensures
        p.head == head_len(start as int, len as int, elem_size as int, vec_align as int),
        p.body == body_len(
            start as int,
            len as int,
            elem_size as int,
            vec_size as int,
            vec_align as int,
        ),
        p.tail == tail_len(start as int, len as int, elem_size as int, vec_align as int),
        is_natural(start as int, elem_size as int, vec_size as int, vec_align as int) ==> {
            &&& is_partition(
                p.head as int,
                p.body as int,
                p.tail as int,
                len as int,
                vec_size as int / elem_size as int,
            )
            &&& p.body > 0 ==> is_multiple(start + p.head * elem_size, vec_align as int)
            &&& len >= 2 * (vec_size as int / elem_size as int) - 1 ==> p.body > 0
        },
{
    proof {
        if is_natural(start as int, elem_size as int, vec_size as int, vec_align as int) {
            lemma_split(
                start as int,
                len as int,
                elem_size as int,
                vec_size as int,
                vec_align as int,
            );
            if len >= 2 * (vec_size as int / elem_size as int) - 1 {
                lemma_long_buffer(
                    start as int,
                    len as int,
                    elem_size as int,
                    vec_size as int,
                    vec_align as int,
                );
            }
        }
        lemma_round_up(start as int, vec_align as int);
        lemma_round_down(end_of(start as int, len as int, elem_size as int), vec_align as int);
        assert(0 <= len * elem_size) by (nonlinear_arith)
            requires
                0 <= len,
                0 <= elem_size,
        ;
    }
    let bytes: usize = len * elem_size;
    let end: usize = start + bytes;
    if bytes < vec_align {
        // two boundaries are at least one alignment apart
        proof {
            if has_body(start as int, len as int, elem_size as int, vec_align as int) {
                lemma_multiples_are_apart(
                    body_end(start as int, len as int, elem_size as int, vec_align as int),
                    body_start(start as int, vec_align as int),
                    vec_align as int,
                );
            }
        }
        return Partition { head: len, body: 0, tail: 0 };
    }
    let first: usize = round_up(start, vec_align);
    let last: usize = round_down(end, vec_align);
    if first >= last {
        Partition { head: len, body: 0, tail: 0 }
    } else {
        Partition {
            head: (first - start) / elem_size,
            body: (last - first) / vec_size,
            tail: (end - last) / elem_size,
        }
    }
}

} // verus!
