//! Traits
//!
//! A scalar type and the vector type that holds several of it are bound to
//! each other here, with the operations that summing needs of them. Each trait
//! has models of its operations and a flag that says whether the operations
//! follow them. An implementation that Verus has not read leaves the flag at
//! `false`, and nothing is then taken for granted of what it computes.

use crate::model::{horizontal_sum, lanewise_add, lanewise_div, lanewise_mul, lanewise_sub};
use vstd::prelude::*;

verus! {

/// Any type that can be SIMD accelerated: a scalar, paired with the vector
/// type `V` whose lanes hold it.
pub trait Simd<V>: Copy {
    /// Whether `add`, `sub`, `mul` and `div` return what their models say.
    open spec fn obeys_simd_spec() -> bool {
        false
    }

    /// The value that fills a zeroed vector.
    open spec fn zero_spec() -> Self {
        arbitrary()
    }

    /// The model of `add`.
    open spec fn add_spec(self, rhs: Self) -> Self {
        arbitrary()
    }

    /// The model of `sub`.
    open spec fn sub_spec(self, rhs: Self) -> Self {
        arbitrary()
    }

    /// The model of `mul`.
    open spec fn mul_spec(self, rhs: Self) -> Self {
        arbitrary()
    }

    /// The model of `div`.
    open spec fn div_spec(self, rhs: Self) -> Self {
        arbitrary()
    }

    /// The sum of two scalars.
    fn add(self, rhs: Self) -> (r: Self)
        ensures
            Self::obeys_simd_spec() ==> r == self.add_spec(rhs),
    ;

    /// The difference of two scalars.
    fn sub(self, rhs: Self) -> (r: Self)
        ensures
            Self::obeys_simd_spec() ==> r == self.sub_spec(rhs),
    ;

    /// The product of two scalars.
    fn mul(self, rhs: Self) -> (r: Self)
        ensures
            Self::obeys_simd_spec() ==> r == self.mul_spec(rhs),
    ;

    /// The quotient of two scalars.
    fn div(self, rhs: Self) -> (r: Self)
        ensures
            Self::obeys_simd_spec() ==> r == self.div_spec(rhs),
    ;
}

/// SIMD vector
pub trait Vector: Copy {
    /// The scalar in each lane.
    type Elem: Simd<Self>;

    /// The number of lanes.
    const WIDTH: usize;

    /// Whether the operations of this type return what their models say.
    open spec fn obeys_vector_spec() -> bool {
        false
    }

    /// The scalars in the lanes of the vector, the first lane first.
    open spec fn lanes(&self) -> Seq<Self::Elem> {
        arbitrary()
    }

    /// Creates a SIMD vector from `WIDTH` scalars that lie side by side.
    fn load(lanes: &[Self::Elem]) -> (v: Self)
        requires
            lanes@.len() == Self::WIDTH,
        ensures
            Self::obeys_vector_spec() ==> v.lanes() == lanes@,
    ;

    /// Creates an SIMD vector that contains several copies of `elem`
    fn from_elem(elem: Self::Elem) -> (v: Self)
        ensures
            Self::obeys_vector_spec() ==> v.lanes() == Seq::new(Self::WIDTH as nat, |i: int| elem),
    ;

    /// Creates an SIMD vector with all its elements set to zero
    fn zeroed() -> (v: Self)
        ensures
            Self::obeys_vector_spec() ==> v.lanes() == Seq::new(
                Self::WIDTH as nat,
                |i: int| Self::Elem::zero_spec(),
            ),
    ;

    /// Maps each element of the SIMD vector
    ///
    /// NOTE: Slow! This maps `f` on each element *serially*.
    fn map<F>(&self, f: F) -> (v: Self) where F: FnMut(Self::Elem) -> Self::Elem
        requires
            forall|e: Self::Elem| call_requires(f, (e,)),
        ensures
            Self::obeys_vector_spec() ==> v.lanes().len() == Self::WIDTH,
            Self::obeys_vector_spec() ==> forall|i: int|
                0 <= i < Self::WIDTH ==> call_ensures(f, (self.lanes()[i],), #[trigger] v.lanes()[i]),
    ;

    /// Returns the sum of all its elements: the first lane plus the second,
    /// plus the third, and so on.
    fn sum(&self) -> (s: Self::Elem)
        ensures
            Self::obeys_vector_spec() ==> s == horizontal_sum::<Self::Elem, Self>(self.lanes()),
    ;

    /// The sums of the lanes of two vectors.
    fn add(self, rhs: Self) -> (r: Self)
        ensures
            Self::obeys_vector_spec() ==> r.lanes() == lanewise_add::<Self::Elem, Self>(
                self.lanes(),
                rhs.lanes(),
            ),
    ;

    /// The differences of the lanes of two vectors.
    fn sub(self, rhs: Self) -> (r: Self)
        ensures
            Self::obeys_vector_spec() ==> r.lanes() == lanewise_sub::<Self::Elem, Self>(
                self.lanes(),
                rhs.lanes(),
            ),
    ;

    /// The products of the lanes of two vectors.
    fn mul(self, rhs: Self) -> (r: Self)
        ensures
            Self::obeys_vector_spec() ==> r.lanes() == lanewise_mul::<Self::Elem, Self>(
                self.lanes(),
                rhs.lanes(),
            ),
    ;

    /// The quotients of the lanes of two vectors.
    fn div(self, rhs: Self) -> (r: Self)
        ensures
            Self::obeys_vector_spec() ==> r.lanes() == lanewise_div::<Self::Elem, Self>(
                self.lanes(),
                rhs.lanes(),
            ),
    ;
}

} // verus!
