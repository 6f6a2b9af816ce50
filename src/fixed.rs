//! Integer fixed-point arithmetic: saturation to the world range, floor
//! division and integer square root.
use vstd::prelude::*;
use vstd::arithmetic::div_mod::{lemma_fundamental_div_mod, lemma_fundamental_div_mod_converse};

verus! {

/// Largest magnitude of any stored coordinate, velocity or radius
/// (2^28 length units).
pub const COORD_LIMIT: i64 = 268435456;

/// Saturates a value into `[-COORD_LIMIT, COORD_LIMIT]`.
pub open spec fn clamp(v: int) -> int {
    if v > COORD_LIMIT as int {
        COORD_LIMIT as int
    } else if v < -(COORD_LIMIT as int) {
        -(COORD_LIMIT as int)
    } else {
        v
    }
}

pub open spec fn in_limit(v: int) -> bool {
    -(COORD_LIMIT as int) <= v <= COORD_LIMIT as int
}

/// Stores a wide intermediate value, saturating at the world range.
pub fn fit(v: i128) -> (r: i64)
    ensures
        r as int == clamp(v as int),
{
    if v > COORD_LIMIT as i128 {
        COORD_LIMIT
    } else if v < -(COORD_LIMIT as i128) {
        -COORD_LIMIT
    } else {
        v as i64
    }
}

pub proof fn lemma_mul_bound(a: int, b: int, ba: int, bb: int)
    requires
        -ba <= a <= ba,
        -bb <= b <= bb,
    ensures
        -(ba * bb) <= a * b <= ba * bb,
{
    assert(-(ba * bb) <= a * b <= ba * bb) by (nonlinear_arith)
        requires
            -ba <= a <= ba,
            -bb <= b <= bb,
    ;
}

pub proof fn lemma_div_bound(a: int, d: int, bound: int)
    requires
        d >= 1,
        -bound <= a <= bound,
    ensures
        -bound <= a / d <= bound,
{
    lemma_fundamental_div_mod(a, d);
    let q = a / d;
    let r = a % d;
    assert(-bound <= q <= bound) by (nonlinear_arith)
        requires
            a == d * q + r,
            0 <= r < d,
            d >= 1,
            -bound <= a <= bound,
    ;
}

/// Division rounding toward negative infinity.
pub fn floor_div(a: i128, b: i128) -> (q: i128)
    requires
        b > 0,
        a > i128::MIN,
    ensures
        q as int == a as int / b as int,
{
    if a >= 0 {
        let q = (a as u128) / (b as u128);
        q as i128
    } else {
        let m: u128 = (-a) as u128;
        let bu: u128 = b as u128;
        let q: u128 = (m + (bu - 1)) / bu;
        proof {
            let s = (m + (bu - 1)) as int;
            lemma_fundamental_div_mod(s, bu as int);
            let qq = q as int;
            let rr = s % (bu as int);
            assert(s == bu as int * qq + rr);
            assert(a as int == (-qq) * (b as int) + (b as int - 1 - rr)) by (nonlinear_arith)
                requires
                    s == bu as int * qq + rr,
                    s == m as int + bu as int - 1,
                    m as int == -(a as int),
                    bu as int == b as int,
            ;
            lemma_fundamental_div_mod_converse(a as int, b as int, -qq, b as int - 1 - rr);
            assert(qq <= m as int) by (nonlinear_arith)
                requires
                    s == bu as int * qq + rr,
                    s == m as int + bu as int - 1,
                    0 <= rr,
                    bu >= 1,
                    m >= 1,
            ;
        }
        -(q as i128)
    }
}

/// The integer square root of `x`: the largest `r` with `r * r <= x`.
pub open spec fn root(x: int) -> int {
    choose|r: int| is_root(x, r)
}

pub open spec fn is_root(x: int, r: int) -> bool {
    0 <= r && r * r <= x < (r + 1) * (r + 1)
}

pub proof fn lemma_root_unique(x: int, r1: int, r2: int)
    requires
        is_root(x, r1),
        is_root(x, r2),
    ensures
        r1 == r2,
{
    if r1 < r2 {
        assert((r1 + 1) * (r1 + 1) <= r2 * r2) by (nonlinear_arith)
            requires
                0 <= r1 < r2,
        ;
    } else if r2 < r1 {
        assert((r2 + 1) * (r2 + 1) <= r1 * r1) by (nonlinear_arith)
            requires
                0 <= r2 < r1,
        ;
    }
}

/// Integer square root by bisection.
pub fn isqrt(x: u128) -> (r: u128)
    ensures
        is_root(x as int, r as int),
        r as int == root(x as int),
{
    let mut lo: u128 = 0;
    let mut hi: u128 = 0x1_0000_0000_0000_0000;
    assert((hi as int) * (hi as int) == 0x1_0000_0000_0000_0000_0000_0000_0000_0000int);
    while hi - lo > 1
        invariant
            lo < hi <= 0x1_0000_0000_0000_0000,
            (lo as int) * (lo as int) <= x as int,
            (x as int) < (hi as int) * (hi as int),
        decreases hi - lo,
    {
        let mid: u128 = lo + (hi - lo) / 2;
        assert((mid as int) * (mid as int) < 0x1_0000_0000_0000_0000_0000_0000_0000_0000int)
            by (nonlinear_arith)
            requires
                mid < 0x1_0000_0000_0000_0000,
        ;
        if mid * mid <= x {
            lo = mid;
        } else {
            hi = mid;
        }
    }
    proof {
        assert(hi == lo + 1);
        assert(is_root(x as int, lo as int));
        let c = choose|r: int| is_root(x as int, r);
        lemma_root_unique(x as int, c, lo as int);
    }
    lo
}

} // verus!
