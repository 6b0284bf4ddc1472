//! Fixed-point arithmetic: a real number `v` is held as the integer
//! `v * UNIT`, rounded.
use vstd::prelude::*;

verus! {

/// The fixed-point representation of 1.
pub const UNIT: i64 = 65536;

/// Floor of `a / d` for a positive divisor, whatever the sign of `a`.
pub fn floor_div(a: i128, d: i128) -> (r: i128)
    requires
        d > 0,
    ensures
        r == a / d,
{
    if a >= 0 {
        let q = a / d;
        q
    } else {
        let m: i128 = -(a + 1);
        let q = m / d;
        proof {
            lemma_floor_of_negative(a as int, d as int, q as int);
        }
        -q - 1
    }
}

proof fn lemma_floor_of_negative(a: int, d: int, q: int)
    requires
        a < 0,
        d > 0,
        q == (-(a + 1)) / d,
    ensures
        a / d == -q - 1,
{
    let m = -(a + 1);
    vstd::arithmetic::div_mod::lemma_fundamental_div_mod(m, d);
    vstd::arithmetic::div_mod::lemma_fundamental_div_mod(a, d);
    let r = m % d;
    assert(a == d * (-q - 1) + (d - 1 - r)) by (nonlinear_arith)
        requires
            m == d * q + r,
            m == -(a + 1),
    ;
    assert(d * (-q - 1 + 1) == d * (-q - 1) + d) by (nonlinear_arith);
    lemma_div_between(a, d, -q - 1);
}

/// `x / d` is the one `q` with `d * q <= x < d * (q + 1)`.
pub proof fn lemma_div_between(x: int, d: int, q: int)
    requires
        d > 0,
        d * q <= x < d * (q + 1),
    ensures
        x / d == q,
{
    vstd::arithmetic::div_mod::lemma_fundamental_div_mod(x, d);
    let p = x / d;
    if p < q {
        assert(d * p + d <= d * q) by (nonlinear_arith)
            requires
                p < q,
                d > 0,
        ;
    } else if p > q {
        assert(d * q + d <= d * p) by (nonlinear_arith)
            requires
                p > q,
                d > 0,
        ;
    }
    assert(d * (q + 1) == d * q + d) by (nonlinear_arith);
}

} // verus!
