//! Conversion from an [`IteratorFixed`]: the capability a type opts into
//! when it can be built by pulling exactly `N` elements, in order, from a
//! fixed-length sequence. Implemented here for vectors and for arrays of
//! copyable elements; used through [`IteratorFixed::collect`].

use vstd::prelude::*;

use crate::IteratorFixed;

verus! {

/// A value that can be built from a fixed-length sequence of exactly `N`
/// elements.
///
/// An implementor says through `built_from` which values it allows for a
/// given element sequence; building then promises a value that
/// `built_from` allows for the sequence that was consumed.
pub trait FromIteratorFixed<T, const N: usize>: Sized {
    /// Which values may be built from the element sequence `s`.
    spec fn built_from(self, s: Seq<T>) -> bool;

    /// Builds a value by pulling all `N` elements of `it`, in order.
    fn from_iter_fixed(it: IteratorFixed<T>) -> (r: Self)
        requires
            it@.len() == N,
        ensures
            r.built_from(it@),
    ;
}

/// A vector is built holding exactly the `N` elements, in order.
impl<T, const N: usize> FromIteratorFixed<T, N> for Vec<T> {
    open spec fn built_from(self, s: Seq<T>) -> bool {
        self@ == s
    }

    fn from_iter_fixed(it: IteratorFixed<T>) -> (r: Vec<T>) {
        it.into_inner()
    }
}

/// An array is built holding exactly the `N` elements, in order. Building
/// an array in place needs a starting value for every slot before the
/// elements are written over them, so this is offered for element types
/// that are `Copy` and have a `Default`.
impl<T: Copy + core::default::Default, const N: usize> FromIteratorFixed<T, N> for [T; N] {
    open spec fn built_from(self, s: Seq<T>) -> bool {
        self@ == s
    }

    fn from_iter_fixed(it: IteratorFixed<T>) -> (r: [T; N]) {
        let v = it.into_inner();
        let mut a = vstd::array::array_fill_for_copy_types::<T, N>(T::default());
        let mut j: usize = 0;
        while j < N
            invariant
                j <= N,
                v@.len() == N,
                a@.len() == N,
                forall|i: int| 0 <= i < j ==> a@[i] == v@[i],
            decreases N - j,
        {
            let x = v[j];
            a[j] = x;
            j += 1;
        }
        proof {
            assert(a@ =~= v@);
        }
        a
    }
}

} // verus!
