//! The laws the combinators obey, each stated over the views and spec
//! functions that the combinators' own contracts use, and proved once and
//! for all.

use vstd::prelude::*;

use crate::IteratorFixed;
use crate::from::FromIteratorFixed;
use crate::helpers::ceiling_div;
use crate::helpers::len_add;
use crate::helpers::len_mul;
use crate::helpers::min_len;
use crate::helpers::sub_or_zero;
use crate::into::IntoIteratorFixed;

verus! {

/// Round trip: turning a fixed-size value into a bounded sequence and
/// collecting it straight back yields the original, unchanged.
pub proof fn lemma_round_trip<T: Copy + core::default::Default, const N: usize>(
    a: [T; N],
    it: IteratorFixed<T>,
    out: [T; N],
)
    requires
        a.produces(it@),
        it@.len() == N,
        out.built_from(it@),
    ensures
        out@ == a@,
{
}

/// Composition of `skip` and `take`: dropping `k` elements of `s` and then
/// keeping `t` of the rest yields `min_len(sub_or_zero(len, k), t)`
/// elements, and they are the matching contiguous slice of `s`.
pub proof fn lemma_skip_then_take<T>(s: Seq<T>, k: nat, t: nat)
    ensures
        ({
            let dropped = min_len(k, s.len());
            let kept = min_len(sub_or_zero(s.len(), k), t);
            let after_skip = s.subrange(dropped as int, s.len() as int);
            let r = after_skip.subrange(0, min_len(t, after_skip.len()) as int);
            r.len() == kept && r == s.subrange(dropped as int, dropped + kept as int)
        }),
{
    let dropped = min_len(k, s.len());
    let kept = min_len(sub_or_zero(s.len(), k), t);
    let after_skip = s.subrange(dropped as int, s.len() as int);
    let r = after_skip.subrange(0, min_len(t, after_skip.len()) as int);
    assert(r =~= s.subrange(dropped as int, dropped + kept as int));
}

/// Concatenation: `chain` of lengths `N` and `M` yields `N + M` elements,
/// the first sequence followed by the second, order kept.
pub proof fn lemma_chain_content<T>(a: Seq<T>, b: Seq<T>)
    ensures
        (a + b).len() == len_add(a.len(), b.len()),
        (a + b).subrange(0, a.len() as int) == a,
        (a + b).subrange(a.len() as int, (a + b).len() as int) == b,
        forall|i: int| 0 <= i < a.len() ==> #[trigger] (a + b)[i] == a[i],
        forall|i: int| a.len() <= i < a.len() + b.len() ==> #[trigger] (a + b)[i] == b[i - a.len()],
{
    assert((a + b).subrange(0, a.len() as int) =~= a);
    assert((a + b).subrange(a.len() as int, (a + b).len() as int) =~= b);
}

/// Pairing: a zip of two sequences of the same length, described as `zip`'s
/// contract describes it (first components, then the sequence of second
/// components), holds exactly the pairs `(a[i], b[i])`, in index order.
pub proof fn lemma_zip_pairs<A, B>(a: Seq<A>, b: Seq<B>, r: Seq<(A, B)>)
    requires
        a.len() == b.len(),
        r.len() == a.len(),
        forall|i: int| 0 <= i < r.len() ==> (#[trigger] r[i]).0 == a[i],
        Seq::new(r.len() as nat, |i: int| r[i].1) == b,
    ensures
        forall|i: int| 0 <= i < r.len() ==> #[trigger] r[i] == (a[i], b[i]),
{
    assert forall|i: int| 0 <= i < r.len() implies #[trigger] r[i] == (a[i], b[i]) by {
        assert(r[i].1 == Seq::new(r.len() as nat, |j: int| r[j].1)[i]);
    }
}

/// Striding: a result of length `ceiling_div(len, st)` whose element `i`
/// is `s[i * st]`, as `step_by`'s contract states, picks exactly the
/// elements at positions `0, st, 2 * st, ...`: every position picked is in
/// range, and every multiple of `st` in range is picked.
pub proof fn lemma_step_by_positions<T>(s: Seq<T>, st: nat, r: Seq<T>)
    requires
        st > 0,
        r.len() == ceiling_div(s.len(), st),
        forall|i: int| 0 <= i < r.len() ==> #[trigger] r[i] == s[i * st],
    ensures
        forall|i: int| 0 <= i < r.len() ==> 0 <= #[trigger] (i * st) < s.len(),
        forall|j: int| 0 <= j < s.len() && j % (st as int) == 0 ==> r[j / (st as int)] == s[j],
{
    assert forall|i: int| 0 <= i < r.len() implies 0 <= #[trigger] (i * st) < s.len() by {
        crate::helpers::lemma_ceiling_div_in_range(s.len(), st, i as nat);
    }
    assert forall|j: int| 0 <= j < s.len() && j % (st as int) == 0 implies r[j / (st as int)]
        == s[j] by {
        let q = j / (st as int);
        vstd::arithmetic::div_mod::lemma_fundamental_div_mod(j, st as int);
        vstd::arithmetic::div_mod::lemma_div_pos_is_pos(j, st as int);
        assert(q * st == j);
        crate::helpers::lemma_ceiling_div_covers(s.len(), st, q as nat);
        assert(0 <= q < r.len());
        assert(r[q] == s[q * st]);
    }
}

/// Flattening: when `r` is laid out as `flatten`'s contract states, from
/// `n` inner sequences of uniform length `m`, then `r` has `n * m`
/// elements in row-major order: element `(i, j)` of the grid stands at
/// position `i * m + j`.
pub proof fn lemma_flatten_row_major<T>(ss: Seq<Seq<T>>, r: Seq<T>, m: nat)
    requires
        forall|i: int| 0 <= i < ss.len() ==> (#[trigger] ss[i]).len() == m,
        r.len() == len_mul(ss.len(), m),
        forall|i: int| 0 <= i < ss.len() ==> r.subrange(i * m, i * m + m) == #[trigger] ss[i],
    ensures
        forall|i: int, j: int|
            0 <= i < ss.len() && 0 <= j < m ==> #[trigger] r[i * m + j] == ss[i][j],
{
    assert forall|i: int, j: int|
        0 <= i < ss.len() && 0 <= j < m implies #[trigger] r[i * m + j] == ss[i][j] by {
        assert(0 <= i * m && i * m + m <= r.len()) by (nonlinear_arith)
            requires
                0 <= i < ss.len(),
                0 <= m,
                r.len() == ss.len() * m,
        ;
        assert(ss[i][j] == r.subrange(i * m, i * m + m)[j]);
    }
}

} // verus!
