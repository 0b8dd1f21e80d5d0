//! Length arithmetic: the pure, total functions that compute the element
//! count of a combinator's result from the counts of its inputs and the
//! explicit parameters given at the call site.
//!
//! Every combinator's declared output length is one of these functions
//! applied to its input length(s); the combinators' contracts in the crate
//! root state this explicitly.

use vstd::prelude::*;

verus! {

/// The smaller of `a` and `b`.
pub open spec fn min_len(a: nat, b: nat) -> nat {
    if a < b {
        a
    } else {
        b
    }
}

/// `a - b` clamped to zero: the length left after dropping `b` of `a` items.
pub open spec fn sub_or_zero(a: nat, b: nat) -> nat {
    if a > b {
        (a - b) as nat
    } else {
        0
    }
}

/// Integer division rounded up: the number of items kept when striding
/// through `x` items `d` at a time.
pub open spec fn ceiling_div(x: nat, d: nat) -> nat
    recommends
        d > 0,
{
    (x + d - 1) as nat / d
}

/// `a + b`: the length of one sequence followed by another.
pub open spec fn len_add(a: nat, b: nat) -> nat {
    a + b
}

/// `a * b`: the length of `a` sequences of `b` items each, laid end to end.
pub open spec fn len_mul(a: nat, b: nat) -> nat {
    a * b
}

/// How `ceiling_div` grows as its first argument counts up by one: it
/// steps exactly at the multiples of `d`.
pub proof fn lemma_ceiling_div_step(j: nat, d: nat)
    requires
        d > 0,
    ensures
        ceiling_div(0, d) == 0,
        j % d == 0 ==> ceiling_div(j, d) == j / d,
        j % d == 0 ==> ceiling_div((j + 1) as nat, d) == ceiling_div(j, d) + 1,
        j % d != 0 ==> ceiling_div((j + 1) as nat, d) == ceiling_div(j, d),
{
    let di = d as int;
    let ji = j as int;
    let q = ji / di;
    let r = ji % di;
    vstd::arithmetic::div_mod::lemma_fundamental_div_mod(ji, di);
    vstd::arithmetic::div_mod::lemma_mod_bound(ji, di);
    assert((q + 1) * di == q * di + di) by (nonlinear_arith);
    vstd::arithmetic::div_mod::lemma_fundamental_div_mod_converse(di - 1, di, 0, di - 1);
    if r == 0 {
        vstd::arithmetic::div_mod::lemma_fundamental_div_mod_converse(ji + di - 1, di, q, di - 1);
        vstd::arithmetic::div_mod::lemma_fundamental_div_mod_converse(ji + di, di, q + 1, 0);
    } else {
        vstd::arithmetic::div_mod::lemma_fundamental_div_mod_converse(ji + di - 1, di, q + 1, r - 1);
        vstd::arithmetic::div_mod::lemma_fundamental_div_mod_converse(ji + di, di, q + 1, r);
    }
}

/// Every position `i` counted by `ceiling_div(x, d)` stands for a stride
/// start `i * d` that lies below `x`.
pub proof fn lemma_ceiling_div_in_range(x: nat, d: nat, i: nat)
    requires
        d > 0,
        i < ceiling_div(x, d),
    ensures
        i * d < x,
{
    let xi = x as int;
    let di = d as int;
    let ii = i as int;
    let c = (xi + di - 1) / di;
    vstd::arithmetic::div_mod::lemma_fundamental_div_mod(xi + di - 1, di);
    vstd::arithmetic::div_mod::lemma_mod_bound(xi + di - 1, di);
    let rr = (xi + di - 1) % di;
    assert(ii <= c - 1);
    assert(ii * di <= (c - 1) * di) by (nonlinear_arith)
        requires
            ii <= c - 1,
            di > 0,
    ;
    assert((c - 1) * di == c * di - di) by (nonlinear_arith);
    assert(ii * di <= xi - 1 - rr);
}

/// Conversely, every stride start `i * d` that lies below `x` is counted:
/// its position `i` lies below `ceiling_div(x, d)`.
pub proof fn lemma_ceiling_div_covers(x: nat, d: nat, i: nat)
    requires
        d > 0,
        i * d < x,
    ensures
        i < ceiling_div(x, d),
{
    let xi = x as int;
    let di = d as int;
    let ii = i as int;
    let c = (xi + di - 1) / di;
    vstd::arithmetic::div_mod::lemma_fundamental_div_mod(xi + di - 1, di);
    vstd::arithmetic::div_mod::lemma_mod_bound(xi + di - 1, di);
    assert(c * di >= xi);
    if ii >= c {
        assert(ii * di >= c * di) by (nonlinear_arith)
            requires
                ii >= c,
                di > 0,
        ;
        assert(false);
    }
}

} // verus!
