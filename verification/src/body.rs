//! The aligned run of a slice, seen as vectors.

use crate::model::vector_at;
use crate::traits::{Simd, Vector};
use core::marker::PhantomData;
use vstd::prelude::*;

verus! {

/// What a `Body` is to a contract: the scalars of its run, in their order in
/// memory, and the number of vectors that they make up.
pub struct BodyView<T> {
    pub scalars: Seq<T>,
    pub count: nat,
}

/// The aligned run in the middle of a slice, seen as vectors of type `V`. It
/// borrows the scalars of the slice and owns nothing: a vector is loaded from
/// them when it is asked for.
#[derive(Debug)]
#[verifier::reject_recursive_types(T)]
#[verifier::reject_recursive_types(V)]
pub struct Body<'a, T: Simd<V>, V: Vector<Elem = T>> {
    run: &'a [T],
    count: usize,
    lanes: PhantomData<V>,
}

impl<'a, T: Simd<V>, V: Vector<Elem = T>> Clone for Body<'a, T, V> {
    fn clone(&self) -> (body: Self)
        ensures
            body == *self,
    {
        *self
    }
}

impl<'a, T: Simd<V>, V: Vector<Elem = T>> Copy for Body<'a, T, V> {

}

impl<'a, T: Simd<V>, V: Vector<Elem = T>> Body<'a, T, V> {
    /// The scalars of the run and the number of vectors in it.
    pub closed spec fn view(&self) -> BodyView<T> {
        BodyView { scalars: self.run@, count: self.count as nat }
    }

    #[verifier::type_invariant]
    spec fn holds_whole_vectors(&self) -> bool {
        self.run@.len() == self.count * V::WIDTH
    }

    /// Sees `run`, a whole number of vectors, as `count` vectors.
    pub(crate) fn new(run: &'a [T], count: usize) -> (body: Self)
        requires
            run@.len() == count * V::WIDTH,
        ensures
            body@.scalars == run@,
            body@.count == count,
    {
        Body { run, count, lanes: PhantomData }
    }

    /// The number of vectors.
    pub fn len(&self) -> (n: usize)
        ensures
            n == self@.count,
            self@.scalars.len() == n * V::WIDTH,
    {
        proof {
            use_type_invariant(self);
        }
        self.count
    }

    /// Whether there is no vector.
    pub fn is_empty(&self) -> (b: bool)
        ensures
            b == (self@.count == 0),
    {
        self.count == 0
    }

    /// The run as what it is in memory: the scalars of all its vectors.
    pub fn scalars(&self) -> (run: &'a [T])
        ensures
            run@ == self@.scalars,
            run@.len() == self@.count * V::WIDTH,
    {
        proof {
            use_type_invariant(self);
        }
        self.run
    }

    /// Vector `i` of the run, if there is one.
    pub fn get(&self, i: usize) -> (v: Option<V>)
        ensures
            v.is_some() == (i < self@.count),
            V::obeys_vector_spec() ==> (v matches Some(x) ==> x.lanes() == vector_at(
                self@.scalars,
                V::WIDTH as int,
                i as int,
            )),
    {
        proof {
            use_type_invariant(self);
        }
        if i < self.count {
            let width: usize = V::WIDTH;
            assert(0 <= i * width && i * width + width <= self.count * width) by (nonlinear_arith)
                requires
                    i < self.count,
            ;
            assert(self.run@.len() == self.run.len() <= usize::MAX);
            let from: usize = i * width;
            Some(V::load(&self.run[from..from + width]))
        } else {
            None
        }
    }

    /// All the vectors of the run, loaded one after the other.
    pub fn to_vec(&self) -> (vectors: Vec<V>)
        ensures
            vectors@.len() == self@.count,
            V::obeys_vector_spec() ==> forall|i: int|
                0 <= i < self@.count ==> (#[trigger] vectors@[i]).lanes() == vector_at(
                    self@.scalars,
                    V::WIDTH as int,
                    i,
                ),
    {
        let mut vectors: Vec<V> = Vec::new();
        let mut i: usize = 0;
        while i < self.count
            invariant
                i <= self.count,
                vectors@.len() == i,
                V::obeys_vector_spec() ==> forall|k: int|
                    0 <= k < i ==> (#[trigger] vectors@[k]).lanes() == vector_at(
                        self@.scalars,
                        V::WIDTH as int,
                        k,
                    ),
            decreases self.count - i,
        {
            match self.get(i) {
                Some(v) => vectors.push(v),
                None => {},
            }
            i += 1;
        }
        vectors
    }
}

} // verus!
