//! A sequence type with a verified element count, together with
//! iterator-style combinators (`map`, `zip`, `skip`, `take`, ...) whose
//! result count is pinned down by each combinator's contract. A chain of
//! combinators therefore ends with a count known before the program runs,
//! and the final value can be turned back into a fixed-size container with
//! no run-time length check left to fail.
//!
//! Operations whose result count would depend on the data itself (`filter`,
//! `take_while`, ...) are deliberately absent: they cannot carry a count
//! that is known ahead of time.

use vstd::prelude::*;

mod from;
mod helpers;
mod into;
mod laws;

verus! {

pub use from::FromIteratorFixed;
pub use helpers::ceiling_div;
pub use helpers::len_add;
pub use helpers::len_mul;
pub use helpers::min_len;
pub use helpers::sub_or_zero;
pub use into::IntoIteratorFixed;
pub use into::Repeat;
pub use into::repeat;
pub use laws::lemma_chain_content;
pub use laws::lemma_flatten_row_major;
pub use laws::lemma_round_trip;
pub use laws::lemma_skip_then_take;
pub use laws::lemma_step_by_positions;
pub use laws::lemma_zip_pairs;

/// A sequence of elements whose count is part of its verified description:
/// the view of an `IteratorFixed` is the mathematical sequence of its
/// elements, and every combinator's contract states the length of its
/// result exactly.
pub struct IteratorFixed<T> {
    elems: Vec<T>,
}

impl<T> View for IteratorFixed<T> {
    type V = Seq<T>;

    closed spec fn view(&self) -> Seq<T> {
        self.elems@
    }
}

impl<T> IteratorFixed<T> {
    /// Wraps a vector as a fixed-length sequence. The element count of the
    /// result is exactly the length of the vector given; nothing is claimed
    /// that is not checked.
    pub fn from_iter(elems: Vec<T>) -> (r: Self)
        ensures
            r@ == elems@,
    {
        IteratorFixed { elems }
    }

    /// Gives the elements back as a vector, in order.
    pub fn into_inner(self) -> (v: Vec<T>)
        ensures
            v@ == self@,
    {
        self.elems
    }

    /// Applies `f` to each element in order, keeping the count: the result
    /// has the same length, and each element of the result is an output of
    /// `f` on the element at the same position.
    pub fn map<U, F: Fn(T) -> U>(self, f: F) -> (r: IteratorFixed<U>)
        requires
            forall|i: int| 0 <= i < self@.len() ==> call_requires(f, (self@[i],)),
        ensures
            r@.len() == self@.len(),
            forall|i: int| 0 <= i < self@.len() ==> call_ensures(f, (self@[i],), #[trigger] r@[i]),
    {
        let mut v = self.elems;
        let ghost orig = v@;
        proof {
            assert(orig == self@);
        }
        let mut out: Vec<U> = Vec::new();
        while v.len() > 0
            invariant
                out@.len() + v@.len() == orig.len(),
                v@ == orig.subrange(out@.len() as int, orig.len() as int),
                forall|i: int| 0 <= i < orig.len() ==> call_requires(f, (orig[i],)),
                forall|i: int| 0 <= i < out@.len() ==> call_ensures(f, (orig[i],), #[trigger] out@[i]),
            decreases v@.len(),
        {
            let ghost k = out@.len() as int;
            let x = v.remove(0);
            proof {
                assert(x == orig[k]);
                assert(v@ =~= orig.subrange(k + 1, orig.len() as int));
            }
            out.push(f(x));
        }
        IteratorFixed { elems: out }
    }

    /// Shows each element to `f` in order without changing anything: `f`
    /// was called on every element, and the result is the sequence
    /// unchanged.
    pub fn inspect<F: Fn(&T)>(self, f: F) -> (r: Self)
        requires
            forall|i: int| 0 <= i < self@.len() ==> call_requires(f, (&self@[i],)),
        ensures
            r@ == self@,
            forall|i: int| 0 <= i < self@.len() ==> call_ensures(f, (&self@[i],), ()),
    {
        let v = self.elems;
        let mut j: usize = 0;
        while j < v.len()
            invariant
                v@ == self@,
                j <= v@.len(),
                forall|i: int| 0 <= i < v@.len() ==> call_requires(f, (&v@[i],)),
                forall|i: int| 0 <= i < j ==> call_ensures(f, (&v@[i],), ()),
            decreases v@.len() - j,
        {
            f(&v[j]);
            j += 1;
        }
        IteratorFixed { elems: v }
    }

    /// Pairs each element with its position, counting from zero.
    pub fn enumerate(self) -> (r: IteratorFixed<(usize, T)>)
        ensures
            r@.len() == self@.len(),
            forall|i: int| 0 <= i < self@.len() ==> #[trigger] r@[i] == (i as usize, self@[i]),
    {
        let mut v = self.elems;
        let ghost orig = v@;
        let mut out: Vec<(usize, T)> = Vec::new();
        while v.len() > 0
            invariant
                out@.len() + v@.len() == orig.len(),
                v@ == orig.subrange(out@.len() as int, orig.len() as int),
                forall|i: int| 0 <= i < out@.len() ==> #[trigger] out@[i] == (i as usize, orig[i]),
            decreases v@.len(),
        {
            let ghost k = out@.len() as int;
            let j = out.len();
            let x = v.remove(0);
            proof {
                assert(x == orig[k]);
                assert(v@ =~= orig.subrange(k + 1, orig.len() as int));
            }
            out.push((j, x));
        }
        IteratorFixed { elems: out }
    }

    /// Drops the first `K` elements, or all of them when fewer than `K` are
    /// there: the result is the tail of the sequence and its length is the
    /// length minus `K`, clamped to zero.
    pub fn skip<const K: usize>(self) -> (r: Self)
        ensures
            r@.len() == sub_or_zero(self@.len(), K as nat),
            r@ == self@.subrange(min_len(K as nat, self@.len()) as int, self@.len() as int),
    {
        let mut v = self.elems;
        let at = if K < v.len() {
            K
        } else {
            v.len()
        };
        let tail = v.split_off(at);
        IteratorFixed { elems: tail }
    }

    /// Keeps only the first `K` elements, or all of them when fewer than
    /// `K` are there: the result is the head of the sequence and its length
    /// is the smaller of `K` and the length.
    pub fn take<const K: usize>(self) -> (r: Self)
        ensures
            r@.len() == min_len(self@.len(), K as nat),
            r@ == self@.subrange(0, min_len(K as nat, self@.len()) as int),
    {
        let mut v = self.elems;
        v.truncate(K);
        IteratorFixed { elems: v }
    }

    /// Keeps the elements at positions `0, S, 2*S, ...`: the result has
    /// `ceiling_div(len, S)` elements, and its element at position `i` is
    /// the element at position `i * S` of the input. A stride of zero is
    /// ruled out before the program runs.
    pub fn step_by<const S: usize>(self) -> (r: Self)
        requires
            S > 0,
        ensures
            r@.len() == ceiling_div(self@.len(), S as nat),
            forall|i: int| 0 <= i < r@.len() ==> #[trigger] r@[i] == self@[i * S],
    {
        let mut v = self.elems;
        let ghost orig = v@;
        proof {
            assert(orig == self@);
            helpers::lemma_ceiling_div_step(0, S as nat);
        }
        let n: usize = v.len();
        let mut out: Vec<T> = Vec::new();
        let mut j: usize = 0;
        while v.len() > 0
            invariant
                S > 0,
                n == orig.len(),
                j + v@.len() == orig.len(),
                v@ == orig.subrange(j as int, orig.len() as int),
                out@.len() == ceiling_div(j as nat, S as nat),
                forall|i: int| 0 <= i < out@.len() ==> #[trigger] out@[i] == orig[i * S],
            decreases v@.len(),
        {
            let ghost k = j as int;
            let x = v.remove(0);
            proof {
                assert(x == orig[k]);
                assert(v@ =~= orig.subrange(k + 1, orig.len() as int));
                helpers::lemma_ceiling_div_step(j as nat, S as nat);
            }
            if j % S == 0 {
                proof {
                    let q = out@.len() as int;
                    assert(q == j as int / S as int);
                    assert(q * S == j) by (nonlinear_arith)
                        requires
                            S > 0,
                            q == j as int / S as int,
                            j as int % S as int == 0,
                    ;
                }
                out.push(x);
            }
            j += 1;
        }
        IteratorFixed { elems: out }
    }

    /// Puts `other`'s elements after `self`'s: the result length is the
    /// sum of the two lengths, its head is `self` and its tail is a
    /// sequence that `other` produces.
    pub fn chain<IIF, const M: usize>(self, other: IIF) -> (r: Self) where
        IIF: IntoIteratorFixed<M, Item = T>

        requires
            other.fixed_pre(),
        ensures
            r@.len() == len_add(self@.len(), M as nat),
            r@.subrange(0, self@.len() as int) == self@,
            other.produces(r@.subrange(self@.len() as int, r@.len() as int)),
    {
        let mut v = self.elems;
        let ghost head = v@;
        proof {
            assert(head == self@);
        }
        let mut tail = other.into_iter_fixed().into_inner();
        let ghost tv = tail@;
        v.append(&mut tail);
        proof {
            assert(v@.subrange(0, head.len() as int) =~= head);
            assert(v@.subrange(head.len() as int, v@.len() as int) =~= tv);
        }
        IteratorFixed { elems: v }
    }

    /// Pairs element `i` of `self` with element `i` of `other`. Both must
    /// carry the same static length `N`: nothing is clamped. The first
    /// components of the result are `self`'s elements in order, and the
    /// second components form a sequence that `other` produces.
    pub fn zip<IIF, const N: usize>(self, other: IIF) -> (r: IteratorFixed<(T, IIF::Item)>) where
        IIF: IntoIteratorFixed<N>

        requires
            self@.len() == N,
            other.fixed_pre(),
        ensures
            r@.len() == self@.len(),
            forall|i: int| 0 <= i < r@.len() ==> (#[trigger] r@[i]).0 == self@[i],
            other.produces(Seq::new(r@.len() as nat, |i: int| r@[i].1)),
    {
        let mut a = self.elems;
        let ghost av = a@;
        proof {
            assert(av == self@);
        }
        let mut b = other.into_iter_fixed().into_inner();
        let ghost bv = b@;
        let mut out: Vec<(T, IIF::Item)> = Vec::new();
        while a.len() > 0
            invariant
                a@.len() == b@.len(),
                out@.len() + a@.len() == av.len(),
                a@ == av.subrange(out@.len() as int, av.len() as int),
                b@ == bv.subrange(out@.len() as int, bv.len() as int),
                av.len() == bv.len(),
                forall|i: int|
                    0 <= i < out@.len() ==> #[trigger] out@[i] == (av[i], bv[i]),
            decreases a@.len(),
        {
            let ghost k = out@.len() as int;
            let x = a.remove(0);
            let y = b.remove(0);
            proof {
                assert(x == av[k]);
                assert(y == bv[k]);
                assert(a@ =~= av.subrange(k + 1, av.len() as int));
                assert(b@ =~= bv.subrange(k + 1, bv.len() as int));
            }
            out.push((x, y));
        }
        proof {
            assert(Seq::new(out@.len() as nat, |i: int| out@[i].1) =~= bv);
        }
        IteratorFixed { elems: out }
    }

    /// Reverses the order of the elements, keeping the count.
    pub fn rev(self) -> (r: Self)
        ensures
            r@ == self@.reverse(),
    {
        let mut v = self.elems;
        let ghost orig = v@;
        let mut out: Vec<T> = Vec::new();
        while v.len() > 0
            invariant
                out@.len() + v@.len() == orig.len(),
                v@ == orig.subrange(0, v@.len() as int),
                forall|i: int| 0 <= i < out@.len() ==> #[trigger] out@[i] == orig[orig.len() - 1 - i],
            decreases v@.len(),
        {
            let x_opt = v.pop();
            match x_opt {
                Some(x) => {
                    out.push(x);
                },
                None => {
                    proof {
                        assert(false);
                    }
                },
            }
        }
        proof {
            assert(out@ =~= orig.reverse());
        }
        IteratorFixed { elems: out }
    }

    /// Lays the `N` inner sequences, each carrying the same static length
    /// `M`, end to end in order: the result has `N * M` elements, and the
    /// stretch from `i * M` to `(i + 1) * M` is a sequence that inner
    /// element `i` produces.
    pub fn flatten<const M: usize>(self) -> (r: IteratorFixed<T::Item>) where
        T: IntoIteratorFixed<M>

        requires
            forall|i: int| 0 <= i < self@.len() ==> (#[trigger] self@[i]).fixed_pre(),
        ensures
            r@.len() == len_mul(self@.len(), M as nat),
            forall|i: int|
                0 <= i < self@.len() ==> (#[trigger] self@[i]).produces(
                    r@.subrange(i * M, i * M + M),
                ),
    {
        let mut v = self.elems;
        let ghost orig = v@;
        proof {
            assert(orig == self@);
        }
        let mut out: Vec<T::Item> = Vec::new();
        while v.len() > 0
            invariant
                v@.len() <= orig.len(),
                v@ == orig.subrange((orig.len() - v@.len()) as int, orig.len() as int),
                out@.len() == (orig.len() - v@.len()) * M,
                forall|i: int| 0 <= i < orig.len() ==> (#[trigger] orig[i]).fixed_pre(),
                forall|i: int|
                    0 <= i < orig.len() - v@.len() ==> (#[trigger] orig[i]).produces(
                        out@.subrange(i * M, i * M + M),
                    ),
            decreases v@.len(),
        {
            let ghost k = (orig.len() - v@.len()) as int;
            let ghost before = out@;
            let inner = v.remove(0);
            proof {
                assert(inner == orig[k]);
                assert(v@ =~= orig.subrange(k + 1, orig.len() as int));
            }
            let mut t = inner.into_iter_fixed().into_inner();
            let ghost tv = t@;
            out.append(&mut t);
            proof {
                assert((k + 1) * M == k * M + M) by (nonlinear_arith);
                assert forall|i: int| 0 <= i < k + 1 implies (#[trigger] orig[i]).produces(
                    out@.subrange(i * M, i * M + M),
                ) by {
                    assert(0 <= i * M && i * M + M <= k * M + M) by (nonlinear_arith)
                        requires
                            0 <= i < k + 1,
                            M >= 0,
                    ;
                    if i < k {
                        assert(i * M + M <= k * M) by (nonlinear_arith)
                            requires
                                i + 1 <= k,
                                M >= 0,
                        ;
                        assert(out@.subrange(i * M, i * M + M) =~= before.subrange(
                            i * M,
                            i * M + M,
                        ));
                    } else {
                        assert(out@.subrange(k * M, k * M + M) =~= tv);
                    }
                }
            }
        }
        proof {
            assert(out@.len() == orig.len() * M);
        }
        IteratorFixed { elems: out }
    }

    /// Applies `f` to each element, each call yielding a sequence of the
    /// same static length `M`, and lays the results end to end in order:
    /// the result has `N * M` elements, and the stretch from `i * M` to
    /// `(i + 1) * M` is produced by an output of `f` on element `i`.
    pub fn flat_map<IIF, F, const M: usize>(self, f: F) -> (r: IteratorFixed<IIF::Item>) where
        IIF: IntoIteratorFixed<M>,
        F: Fn(T) -> IIF,

        requires
            forall|i: int| 0 <= i < self@.len() ==> call_requires(f, (self@[i],)),
            forall|x: T, w: IIF| #[trigger] call_ensures(f, (x,), w) ==> w.fixed_pre(),
        ensures
            r@.len() == len_mul(self@.len(), M as nat),
            exists|ws: Seq<IIF>|
                ({
                    &&& #[trigger] ws.len() == self@.len()
                    &&& forall|i: int|
                        #![trigger ws[i]]
                        0 <= i < ws.len() ==> call_ensures(f, (self@[i],), ws[i])
                            && ws[i].produces(r@.subrange(i * M, i * M + M))
                }),
    {
        let mut v = self.elems;
        let ghost orig = v@;
        proof {
            assert(orig == self@);
        }
        let mut out: Vec<IIF::Item> = Vec::new();
        let ghost mut ws: Seq<IIF> = Seq::empty();
        while v.len() > 0
            invariant
                v@.len() <= orig.len(),
                v@ == orig.subrange((orig.len() - v@.len()) as int, orig.len() as int),
                out@.len() == (orig.len() - v@.len()) * M,
                ws.len() == orig.len() - v@.len(),
                forall|i: int| 0 <= i < orig.len() ==> call_requires(f, (orig[i],)),
                forall|x: T, w: IIF| #[trigger] call_ensures(f, (x,), w) ==> w.fixed_pre(),
                forall|i: int|
                    #![trigger ws[i]]
                    0 <= i < ws.len() ==> call_ensures(f, (orig[i],), ws[i]) && ws[i].produces(
                        out@.subrange(i * M, i * M + M),
                    ),
            decreases v@.len(),
        {
            let ghost k = (orig.len() - v@.len()) as int;
            let ghost before = out@;
            let x = v.remove(0);
            proof {
                assert(x == orig[k]);
                assert(v@ =~= orig.subrange(k + 1, orig.len() as int));
            }
            let w = f(x);
            let ghost gw = w;
            let mut t = w.into_iter_fixed().into_inner();
            let ghost tv = t@;
            out.append(&mut t);
            proof {
                ws = ws.push(gw);
                assert((k + 1) * M == k * M + M) by (nonlinear_arith);
                assert forall|i: int| #![trigger ws[i]] 0 <= i < k + 1 implies call_ensures(
                    f,
                    (orig[i],),
                    ws[i],
                ) && ws[i].produces(out@.subrange(i * M, i * M + M)) by {
                    assert(0 <= i * M && i * M + M <= k * M + M) by (nonlinear_arith)
                        requires
                            0 <= i < k + 1,
                            M >= 0,
                    ;
                    if i < k {
                        assert(i * M + M <= k * M) by (nonlinear_arith)
                            requires
                                i + 1 <= k,
                                M >= 0,
                        ;
                        assert(out@.subrange(i * M, i * M + M) =~= before.subrange(
                            i * M,
                            i * M + M,
                        ));
                    } else {
                        assert(ws[k] == gw);
                        assert(out@.subrange(k * M, k * M + M) =~= tv);
                    }
                }
            }
        }
        proof {
            assert(ws.len() == self@.len());
        }
        IteratorFixed { elems: out }
    }

    /// Turns the sequence into a fixed-size value of compile-time known
    /// count: the target type pulls all `N` elements, in order, and the
    /// result is a value it allows for exactly this element sequence.
    pub fn collect<C, const N: usize>(self) -> (r: C) where C: FromIteratorFixed<T, N>
        requires
            self@.len() == N,
        ensures
            r.built_from(self@),
    {
        C::from_iter_fixed(self)
    }
}

impl<'a, T: Copy> IteratorFixed<&'a T> {
    /// Replaces each reference with a copy of the element it points at,
    /// keeping order and count.
    pub fn copied(self) -> (r: IteratorFixed<T>)
        ensures
            r@.len() == self@.len(),
            forall|i: int| 0 <= i < r@.len() ==> #[trigger] r@[i] == *self@[i],
    {
        let v = self.elems;
        let mut out: Vec<T> = Vec::new();
        let mut j: usize = 0;
        while j < v.len()
            invariant
                v@ == self@,
                out@.len() == j,
                j <= v@.len(),
                forall|i: int| 0 <= i < j ==> #[trigger] out@[i] == *v@[i],
            decreases v@.len() - j,
        {
            let p: &'a T = v[j];
            out.push(*p);
            j += 1;
        }
        IteratorFixed { elems: out }
    }
}

impl<'a, T: Clone> IteratorFixed<&'a T> {
    /// Replaces each reference with a clone of the element it points at,
    /// keeping order and count.
    pub fn cloned(self) -> (r: IteratorFixed<T>)
        ensures
            r@.len() == self@.len(),
            forall|i: int| 0 <= i < r@.len() ==> cloned::<T>(*self@[i], #[trigger] r@[i]),
    {
        let v = self.elems;
        let mut out: Vec<T> = Vec::new();
        let mut j: usize = 0;
        while j < v.len()
            invariant
                v@ == self@,
                out@.len() == j,
                j <= v@.len(),
                forall|i: int| 0 <= i < j ==> cloned::<T>(*v@[i], #[trigger] out@[i]),
            decreases v@.len() - j,
        {
            let p: &'a T = v[j];
            out.push(T::clone(p));
            j += 1;
        }
        IteratorFixed { elems: out }
    }
}

/// Builds a fixed-length sequence of exactly `N` elements by calling `f`
/// once for each position `0 .. N`, in order. The count of the result is
/// `N` itself, whatever `f` does: safety comes from the structure of the
/// loop, not from a claim.
pub fn from_fn<const N: usize, T, F: Fn(usize) -> T>(f: F) -> (r: IteratorFixed<T>)
    requires
        forall|i: usize| i < N ==> call_requires(f, (i,)),
    ensures
        r@.len() == N,
        forall|i: int| 0 <= i < N ==> call_ensures(f, (i as usize,), #[trigger] r@[i]),
{
    let mut out: Vec<T> = Vec::new();
    let mut j: usize = 0;
    while j < N
        invariant
            j <= N,
            out@.len() == j,
            forall|i: usize| i < N ==> call_requires(f, (i,)),
            forall|i: int| 0 <= i < j ==> call_ensures(f, (i as usize,), #[trigger] out@[i]),
        decreases N - j,
    {
        out.push(f(j));
        j += 1;
    }
    IteratorFixed { elems: out }
}

} // verus!
