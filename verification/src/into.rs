//! Conversion into an [`IteratorFixed`]: the capability a type opts into
//! when a fixed-length sequence of exactly `N` elements can be drawn from
//! it. Implemented here for [`IteratorFixed`] itself (a no-op), for owned
//! and borrowed arrays, for vectors of the right length, and for a value
//! repeated `N` times.

use vstd::prelude::*;

use crate::IteratorFixed;

verus! {

/// A value that can turn into a fixed-length sequence of exactly `N`
/// elements.
///
/// An implementor says through `fixed_pre` when the conversion may be
/// asked for, and through `produces` which element sequences the
/// conversion may hand back; the conversion itself then promises a
/// sequence of exactly `N` elements that `produces` allows.
pub trait IntoIteratorFixed<const N: usize>: Sized {
    /// The type of the elements of the resulting sequence.
    type Item;

    /// When `self` may be converted: for most sources always, for a
    /// sequence type carrying its own count only when that count is `N`.
    spec fn fixed_pre(self) -> bool;

    /// Which element sequences the conversion may hand back for `self`.
    spec fn produces(self, s: Seq<Self::Item>) -> bool;

    /// Turns `self` into a fixed-length sequence of exactly `N` elements.
    fn into_iter_fixed(self) -> (r: IteratorFixed<Self::Item>)
        requires
            self.fixed_pre(),
        ensures
            r@.len() == N,
            self.produces(r@),
    ;
}

/// An [`IteratorFixed`] of length `N` converts to itself, unchanged.
impl<T, const N: usize> IntoIteratorFixed<N> for IteratorFixed<T> {
    type Item = T;

    open spec fn fixed_pre(self) -> bool {
        self@.len() == N
    }

    open spec fn produces(self, s: Seq<T>) -> bool {
        s == self@
    }

    fn into_iter_fixed(self) -> (r: IteratorFixed<T>) {
        self
    }
}

/// Relies on `Vec::from` on an array (std): the vector holds exactly the
/// array's `N` elements, in order.
#[verifier::external_body]
fn array_into_vec<T, const N: usize>(a: [T; N]) -> (v: Vec<T>)
    ensures
        v@ == a@,
{
    Vec::from(a)
}

/// An owned array of `N` elements converts by giving up its elements, in
/// order.
impl<T, const N: usize> IntoIteratorFixed<N> for [T; N] {
    type Item = T;

    open spec fn fixed_pre(self) -> bool {
        true
    }

    open spec fn produces(self, s: Seq<T>) -> bool {
        s == self@
    }

    fn into_iter_fixed(self) -> (r: IteratorFixed<T>) {
        IteratorFixed::from_iter(array_into_vec(self))
    }
}

/// A borrowed array of `N` elements converts to a sequence of references
/// to its elements, in order, living as long as the borrow does.
impl<'a, T, const N: usize> IntoIteratorFixed<N> for &'a [T; N] {
    type Item = &'a T;

    open spec fn fixed_pre(self) -> bool {
        true
    }

    open spec fn produces(self, s: Seq<&'a T>) -> bool {
        s.len() == N && forall|i: int| 0 <= i < s.len() ==> *#[trigger] s[i] == self@[i]
    }

    fn into_iter_fixed(self) -> (r: IteratorFixed<&'a T>) {
        let mut out: Vec<&'a T> = Vec::new();
        let mut j: usize = 0;
        while j < N
            invariant
                j <= N,
                out@.len() == j,
                forall|i: int| 0 <= i < j ==> *#[trigger] out@[i] == self@[i],
            decreases N - j,
        {
            out.push(vstd::array::array_index_get(self, j));
            j += 1;
        }
        IteratorFixed::from_iter(out)
    }
}

/// A vector converts when it holds exactly `N` elements; they are handed
/// over in order.
impl<T, const N: usize> IntoIteratorFixed<N> for Vec<T> {
    type Item = T;

    open spec fn fixed_pre(self) -> bool {
        self@.len() == N
    }

    open spec fn produces(self, s: Seq<T>) -> bool {
        s == self@
    }

    fn into_iter_fixed(self) -> (r: IteratorFixed<T>) {
        IteratorFixed::from_iter(self)
    }
}

/// A source that repeats one value without end; it converts to a
/// fixed-length sequence by being cut off after `N` elements.
pub struct Repeat<T> {
    value: T,
}

impl<T> Repeat<T> {
    /// The value the source repeats.
    pub closed spec fn element(self) -> T {
        self.value
    }
}

/// Makes a source that repeats `value` without end.
pub fn repeat<T>(value: T) -> (r: Repeat<T>)
    ensures
        r.element() == value,
{
    Repeat { value }
}

/// A repeating source converts to `N` elements, each a clone of the
/// repeated value.
impl<T: Clone, const N: usize> IntoIteratorFixed<N> for Repeat<T> {
    type Item = T;

    open spec fn fixed_pre(self) -> bool {
        true
    }

    open spec fn produces(self, s: Seq<T>) -> bool {
        s.len() == N && forall|i: int| 0 <= i < s.len() ==> cloned::<T>(self.element(), #[trigger] s[i])
    }

    fn into_iter_fixed(self) -> (r: IteratorFixed<T>) {
        let mut out: Vec<T> = Vec::new();
        let mut j: usize = 0;
        while j < N
            invariant
                j <= N,
                out@.len() == j,
                forall|i: int| 0 <= i < j ==> cloned::<T>(self.element(), #[trigger] out@[i]),
            decreases N - j,
        {
            out.push(T::clone(&self.value));
            j += 1;
        }
        IteratorFixed::from_iter(out)
    }
}

} // verus!
