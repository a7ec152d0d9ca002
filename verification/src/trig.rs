//! Sine and cosine on fixed-point angles.
//!
//! An angle is a fixed-point scalar in radians. Both functions reduce the
//! angle into one period, fold it into the quarter-period around zero with
//! the usual reflection identities, and evaluate a truncated Taylor
//! polynomial in Horner form. Every step is pinned to an exact integer
//! specification; the distance to the real sine and cosine is a property of
//! the chosen polynomial and is exercised by the test suite.

use crate::fixed::fx_mul;
use crate::fixed::fx_mul_spec;
use crate::fixed::div_pos;
use crate::fixed::lemma_fx_mul_bound;
use crate::fixed::lemma_fx_mul_in_range;
use crate::fixed::lemma_fx_mul_nonneg;
use crate::fixed::lemma_fx_mul_square_nonneg;
use crate::fixed::FX_ONE;
use vstd::arithmetic::div_mod::lemma_div_is_ordered;
use vstd::arithmetic::div_mod::lemma_div_pos_is_pos;
use vstd::arithmetic::div_mod::lemma_fundamental_div_mod;
use vstd::arithmetic::div_mod::lemma_fundamental_div_mod_converse;
use vstd::arithmetic::div_mod::lemma_mod_bound;
use vstd::prelude::*;

verus! {

/// The fixed-point representation of pi, rounded down.
pub const FX_PI: i64 = 52707178;

/// The fixed-point representation of two pi, rounded down.
pub const FX_TWO_PI: i64 = 105414357;

/// The fixed-point representation of pi over two, rounded down.
pub const FX_HALF_PI: i64 = 26353589;

/// A bound on the magnitude of the fixed-point sine: one more than the
/// folded argument range.
pub const FX_SIN_BOUND: i64 = 26353590;

/// An upper bound on the fixed-point square of a folded angle.
pub const FOLDED_SQ_BOUND: i64 = 41396200;

/// The angle reduced into one period and recentred on zero: the result
/// lies between minus pi and pi.
pub open spec fn reduce_spec(x: int) -> int {
    let r = x % (FX_TWO_PI as int);
    if r > FX_PI as int {
        r - FX_TWO_PI as int
    } else {
        r
    }
}

/// The reflection that folds a recentred angle into the quarter period
/// around zero while preserving its sine.
pub open spec fn sin_fold_spec(t1: int) -> int {
    if t1 > FX_HALF_PI as int {
        FX_PI as int - t1
    } else if t1 < -(FX_HALF_PI as int) {
        -(FX_PI as int) - t1
    } else {
        t1
    }
}

/// The truncated Taylor polynomial of the sine in Horner form, on a folded
/// angle: terms through the eleventh power, each stage dividing by the
/// next `(2k) * (2k + 1)` pair of factorial factors.
pub open spec fn sin_poly_spec(t: int) -> int {
    let one = FX_ONE as int;
    let t2 = fx_mul_spec(t, t);
    let v5 = one - t2 / 110;
    let v4 = one - fx_mul_spec(t2, v5) / 72;
    let v3 = one - fx_mul_spec(t2, v4) / 42;
    let v2 = one - fx_mul_spec(t2, v3) / 20;
    let v1 = one - fx_mul_spec(t2, v2) / 6;
    fx_mul_spec(t, v1)
}

/// The fixed-point sine of an arbitrary fixed-point angle.
pub open spec fn sin_fx_spec(x: int) -> int {
    sin_poly_spec(sin_fold_spec(reduce_spec(x)))
}

/// The truncated Taylor polynomial of the cosine in Horner form, on a
/// nonnegative folded angle: terms through the twelfth power, each stage
/// dividing by the next `(2k - 1) * (2k)` pair of factorial factors.
pub open spec fn cos_poly_spec(t: int) -> int {
    let one = FX_ONE as int;
    let t2 = fx_mul_spec(t, t);
    let v6 = one - t2 / 132;
    let v5 = one - fx_mul_spec(t2, v6) / 90;
    let v4 = one - fx_mul_spec(t2, v5) / 56;
    let v3 = one - fx_mul_spec(t2, v4) / 30;
    let v2 = one - fx_mul_spec(t2, v3) / 12;
    one - fx_mul_spec(t2, v2) / 2
}

/// The fixed-point cosine of an arbitrary fixed-point angle.
pub open spec fn cos_fx_spec(x: int) -> int {
    let t1 = reduce_spec(x);
    let a = if t1 < 0 {
        -t1
    } else {
        t1
    };
    if a > FX_HALF_PI as int {
        -cos_poly_spec(FX_PI as int - a)
    } else {
        cos_poly_spec(a)
    }
}

/// The reduced angle lies between minus pi and pi.
pub proof fn lemma_reduce_bounds(x: int)
    ensures
        -(FX_PI as int) <= reduce_spec(x) <= FX_PI as int,
{
    lemma_mod_bound(x, FX_TWO_PI as int);
}

/// The magnitude of the fixed-point sine never exceeds its stated bound.
pub proof fn lemma_sin_fx_bounds(x: int)
    ensures
        -(FX_SIN_BOUND as int) <= sin_fx_spec(x) <= FX_SIN_BOUND as int,
{
    lemma_reduce_bounds(x);
    let t = sin_fold_spec(reduce_spec(x));
    lemma_sin_poly_bounds(t);
}

/// The magnitude of the sine polynomial on a folded angle never exceeds
/// the stated sine bound.
pub proof fn lemma_sin_poly_bounds(t: int)
    requires
        -(FX_HALF_PI as int) <= t <= FX_HALF_PI as int,
    ensures
        -(FX_SIN_BOUND as int) <= sin_poly_spec(t) <= FX_SIN_BOUND as int,
{
    let one = FX_ONE as int;
    let hp = FX_HALF_PI as int;
    let tb = FOLDED_SQ_BOUND as int;
    let t2 = fx_mul_spec(t, t);
    lemma_fx_mul_bound(t, t, hp, hp);
    lemma_fx_mul_square_nonneg(t);
    assert(0 <= t2 <= tb);
    let v5 = one - t2 / 110;
    lemma_div_pos_is_pos(t2, 110);
    lemma_div_is_ordered(t2, tb, 110);
    assert(0 <= v5 <= one);
    let w5 = fx_mul_spec(t2, v5);
    lemma_fx_mul_nonneg(t2, v5);
    lemma_fx_mul_bound(t2, v5, tb, one);
    let v4 = one - w5 / 72;
    lemma_div_pos_is_pos(w5, 72);
    lemma_div_is_ordered(w5, tb, 72);
    assert(0 <= v4 <= one);
    let w4 = fx_mul_spec(t2, v4);
    lemma_fx_mul_nonneg(t2, v4);
    lemma_fx_mul_bound(t2, v4, tb, one);
    let v3 = one - w4 / 42;
    lemma_div_pos_is_pos(w4, 42);
    lemma_div_is_ordered(w4, tb, 42);
    assert(0 <= v3 <= one);
    let w3 = fx_mul_spec(t2, v3);
    lemma_fx_mul_nonneg(t2, v3);
    lemma_fx_mul_bound(t2, v3, tb, one);
    let v2 = one - w3 / 20;
    lemma_div_pos_is_pos(w3, 20);
    lemma_div_is_ordered(w3, tb, 20);
    assert(0 <= v2 <= one);
    let w2 = fx_mul_spec(t2, v2);
    lemma_fx_mul_nonneg(t2, v2);
    lemma_fx_mul_bound(t2, v2, tb, one);
    let v1 = one - w2 / 6;
    lemma_div_pos_is_pos(w2, 6);
    lemma_div_is_ordered(w2, tb, 6);
    assert(0 <= v1 <= one);
    lemma_fx_mul_bound(t, v1, hp, one);
}

/// The magnitude of the cosine polynomial on a nonnegative folded angle
/// never exceeds one.
pub proof fn lemma_cos_poly_bounds(t: int)
    requires
        0 <= t <= FX_HALF_PI as int,
    ensures
        -(FX_ONE as int) <= cos_poly_spec(t) <= FX_ONE as int,
{
    let one = FX_ONE as int;
    let hp = FX_HALF_PI as int;
    let tb = FOLDED_SQ_BOUND as int;
    let t2 = fx_mul_spec(t, t);
    lemma_fx_mul_bound(t, t, hp, hp);
    lemma_fx_mul_square_nonneg(t);
    assert(0 <= t2 <= tb);
    let v6 = one - t2 / 132;
    lemma_div_pos_is_pos(t2, 132);
    lemma_div_is_ordered(t2, tb, 132);
    assert(0 <= v6 <= one);
    let w6 = fx_mul_spec(t2, v6);
    lemma_fx_mul_nonneg(t2, v6);
    lemma_fx_mul_bound(t2, v6, tb, one);
    let v5 = one - w6 / 90;
    lemma_div_pos_is_pos(w6, 90);
    lemma_div_is_ordered(w6, tb, 90);
    assert(0 <= v5 <= one);
    let w5 = fx_mul_spec(t2, v5);
    lemma_fx_mul_nonneg(t2, v5);
    lemma_fx_mul_bound(t2, v5, tb, one);
    let v4 = one - w5 / 56;
    lemma_div_pos_is_pos(w5, 56);
    lemma_div_is_ordered(w5, tb, 56);
    assert(0 <= v4 <= one);
    let w4 = fx_mul_spec(t2, v4);
    lemma_fx_mul_nonneg(t2, v4);
    lemma_fx_mul_bound(t2, v4, tb, one);
    let v3 = one - w4 / 30;
    lemma_div_pos_is_pos(w4, 30);
    lemma_div_is_ordered(w4, tb, 30);
    assert(0 <= v3 <= one);
    let w3 = fx_mul_spec(t2, v3);
    lemma_fx_mul_nonneg(t2, v3);
    lemma_fx_mul_bound(t2, v3, tb, one);
    let v2 = one - w3 / 12;
    lemma_div_pos_is_pos(w3, 12);
    lemma_div_is_ordered(w3, tb, 12);
    assert(0 <= v2 <= one);
    let w2 = fx_mul_spec(t2, v2);
    lemma_fx_mul_nonneg(t2, v2);
    lemma_fx_mul_bound(t2, v2, tb, one);
    lemma_div_pos_is_pos(w2, 2);
    lemma_div_is_ordered(w2, tb, 2);
}

/// The magnitude of the fixed-point cosine never exceeds one.
pub proof fn lemma_cos_fx_bounds(x: int)
    ensures
        -(FX_ONE as int) <= cos_fx_spec(x) <= FX_ONE as int,
{
    lemma_reduce_bounds(x);
    let t1 = reduce_spec(x);
    let a = if t1 < 0 {
        -t1
    } else {
        t1
    };
    if a > FX_HALF_PI as int {
        lemma_cos_poly_bounds(FX_PI as int - a);
    } else {
        lemma_cos_poly_bounds(a);
    }
}

/// The fixed-point sine vanishes exactly at the angle zero.
pub proof fn lemma_sin_fx_zero()
    ensures
        sin_fx_spec(0) == 0,
{
    lemma_mod_bound(0, FX_TWO_PI as int);
    lemma_fundamental_div_mod_converse(0, FX_TWO_PI as int, 0, 0);
    assert(reduce_spec(0) == 0);
    assert(fx_mul_spec(0, 0) == 0);
    let one = FX_ONE as int;
    assert(fx_mul_spec(0, one) == 0);
    assert(sin_poly_spec(0) == 0);
}

/// The fixed-point cosine is exactly one at the angle zero.
pub proof fn lemma_cos_fx_one()
    ensures
        cos_fx_spec(0) == FX_ONE as int,
{
    lemma_mod_bound(0, FX_TWO_PI as int);
    lemma_fundamental_div_mod_converse(0, FX_TWO_PI as int, 0, 0);
    assert(reduce_spec(0) == 0);
    assert(fx_mul_spec(0, 0) == 0);
    let one = FX_ONE as int;
    assert(fx_mul_spec(0, one) == 0);
    assert(cos_poly_spec(0) == one);
}

/// The angle reduced into one period, as an executable operation.
fn angle_mod(x: i64) -> (r: i64)
    ensures
        r == (x as int) % (FX_TWO_PI as int),
        0 <= r < FX_TWO_PI as int,
{
    proof {
        lemma_mod_bound(x as int, FX_TWO_PI as int);
    }
    if x >= 0 {
        ((x as u64) % 105414357u64) as i64
    } else {
        let n: i128 = -(x as i128);
        let nu: u64 = n as u64;
        let q: u64 = nu / 105414357u64;
        let m: u64 = nu % 105414357u64;
        proof {
            lemma_fundamental_div_mod(nu as int, FX_TWO_PI as int);
            lemma_mod_bound(nu as int, FX_TWO_PI as int);
        }
        if m == 0 {
            proof {
                assert(x as int == (FX_TWO_PI as int) * (-(q as int)) + 0) by (nonlinear_arith)
                    requires
                        nu as int == (FX_TWO_PI as int) * (q as int) + (m as int),
                        m as int == 0,
                        x as int == -(nu as int),
                ;
                lemma_fundamental_div_mod_converse(x as int, FX_TWO_PI as int, -(q as int), 0);
            }
            0
        } else {
            proof {
                assert(x as int == (FX_TWO_PI as int) * (-(q as int) - 1) + ((FX_TWO_PI as int)
                    - (m as int))) by (nonlinear_arith)
                    requires
                        nu as int == (FX_TWO_PI as int) * (q as int) + (m as int),
                        x as int == -(nu as int),
                ;
                lemma_fundamental_div_mod_converse(
                    x as int,
                    FX_TWO_PI as int,
                    -(q as int) - 1,
                    (FX_TWO_PI as int) - (m as int),
                );
            }
            (105414357u64 - m) as i64
        }
    }
}

/// The sine polynomial on a folded angle, as an executable operation.
fn sin_poly(t: i64) -> (r: i64)
    requires
        -(FX_HALF_PI as int) <= t <= FX_HALF_PI as int,
    ensures
        r == sin_poly_spec(t as int),
{
    let hp: i64 = FX_HALF_PI;
    let tb: i64 = FOLDED_SQ_BOUND;
    proof {
        lemma_fx_mul_in_range(t as int, t as int, hp as int, hp as int);
    }
    let t2: i64 = fx_mul(t, t);
    proof {
        lemma_fx_mul_bound(t as int, t as int, hp as int, hp as int);
        lemma_fx_mul_square_nonneg(t as int);
    }
    let u5: i64 = div_pos(t2, 110);
    proof {
        lemma_div_is_ordered(t2 as int, tb as int, 110);
    }
    let v5: i64 = FX_ONE - u5;
    proof {
        lemma_fx_mul_in_range(t2 as int, v5 as int, tb as int, FX_ONE as int);
    }
    let w5: i64 = fx_mul(t2, v5);
    proof {
        lemma_fx_mul_nonneg(t2 as int, v5 as int);
        lemma_fx_mul_bound(t2 as int, v5 as int, tb as int, FX_ONE as int);
    }
    let u4: i64 = div_pos(w5, 72);
    proof {
        lemma_div_is_ordered(w5 as int, tb as int, 72);
    }
    let v4: i64 = FX_ONE - u4;
    proof {
        lemma_fx_mul_in_range(t2 as int, v4 as int, tb as int, FX_ONE as int);
    }
    let w4: i64 = fx_mul(t2, v4);
    proof {
        lemma_fx_mul_nonneg(t2 as int, v4 as int);
        lemma_fx_mul_bound(t2 as int, v4 as int, tb as int, FX_ONE as int);
    }
    let u3: i64 = div_pos(w4, 42);
    proof {
        lemma_div_is_ordered(w4 as int, tb as int, 42);
    }
    let v3: i64 = FX_ONE - u3;
    proof {
        lemma_fx_mul_in_range(t2 as int, v3 as int, tb as int, FX_ONE as int);
    }
    let w3: i64 = fx_mul(t2, v3);
    proof {
        lemma_fx_mul_nonneg(t2 as int, v3 as int);
        lemma_fx_mul_bound(t2 as int, v3 as int, tb as int, FX_ONE as int);
    }
    let u2: i64 = div_pos(w3, 20);
    proof {
        lemma_div_is_ordered(w3 as int, tb as int, 20);
    }
    let v2: i64 = FX_ONE - u2;
    proof {
        lemma_fx_mul_in_range(t2 as int, v2 as int, tb as int, FX_ONE as int);
    }
    let w2: i64 = fx_mul(t2, v2);
    proof {
        lemma_fx_mul_nonneg(t2 as int, v2 as int);
        lemma_fx_mul_bound(t2 as int, v2 as int, tb as int, FX_ONE as int);
    }
    let u1: i64 = div_pos(w2, 6);
    proof {
        lemma_div_is_ordered(w2 as int, tb as int, 6);
    }
    let v1: i64 = FX_ONE - u1;
    proof {
        lemma_fx_mul_in_range(t as int, v1 as int, hp as int, FX_ONE as int);
    }
    fx_mul(t, v1)
}

/// The cosine polynomial on a nonnegative folded angle, as an executable
/// operation.
fn cos_poly(t: i64) -> (r: i64)
    requires
        0 <= t <= FX_HALF_PI as int,
    ensures
        r == cos_poly_spec(t as int),
{
    let hp: i64 = FX_HALF_PI;
    let tb: i64 = FOLDED_SQ_BOUND;
    proof {
        lemma_fx_mul_in_range(t as int, t as int, hp as int, hp as int);
    }
    let t2: i64 = fx_mul(t, t);
    proof {
        lemma_fx_mul_bound(t as int, t as int, hp as int, hp as int);
        lemma_fx_mul_square_nonneg(t as int);
    }
    let u6: i64 = div_pos(t2, 132);
    proof {
        lemma_div_is_ordered(t2 as int, tb as int, 132);
    }
    let v6: i64 = FX_ONE - u6;
    proof {
        lemma_fx_mul_in_range(t2 as int, v6 as int, tb as int, FX_ONE as int);
    }
    let w6: i64 = fx_mul(t2, v6);
    proof {
        lemma_fx_mul_nonneg(t2 as int, v6 as int);
        lemma_fx_mul_bound(t2 as int, v6 as int, tb as int, FX_ONE as int);
    }
    let u5: i64 = div_pos(w6, 90);
    proof {
        lemma_div_is_ordered(w6 as int, tb as int, 90);
    }
    let v5: i64 = FX_ONE - u5;
    proof {
        lemma_fx_mul_in_range(t2 as int, v5 as int, tb as int, FX_ONE as int);
    }
    let w5: i64 = fx_mul(t2, v5);
    proof {
        lemma_fx_mul_nonneg(t2 as int, v5 as int);
        lemma_fx_mul_bound(t2 as int, v5 as int, tb as int, FX_ONE as int);
    }
    let u4: i64 = div_pos(w5, 56);
    proof {
        lemma_div_is_ordered(w5 as int, tb as int, 56);
    }
    let v4: i64 = FX_ONE - u4;
    proof {
        lemma_fx_mul_in_range(t2 as int, v4 as int, tb as int, FX_ONE as int);
    }
    let w4: i64 = fx_mul(t2, v4);
    proof {
        lemma_fx_mul_nonneg(t2 as int, v4 as int);
        lemma_fx_mul_bound(t2 as int, v4 as int, tb as int, FX_ONE as int);
    }
    let u3: i64 = div_pos(w4, 30);
    proof {
        lemma_div_is_ordered(w4 as int, tb as int, 30);
    }
    let v3: i64 = FX_ONE - u3;
    proof {
        lemma_fx_mul_in_range(t2 as int, v3 as int, tb as int, FX_ONE as int);
    }
    let w3: i64 = fx_mul(t2, v3);
    proof {
        lemma_fx_mul_nonneg(t2 as int, v3 as int);
        lemma_fx_mul_bound(t2 as int, v3 as int, tb as int, FX_ONE as int);
    }
    let u2: i64 = div_pos(w3, 12);
    proof {
        lemma_div_is_ordered(w3 as int, tb as int, 12);
    }
    let v2: i64 = FX_ONE - u2;
    proof {
        lemma_fx_mul_in_range(t2 as int, v2 as int, tb as int, FX_ONE as int);
    }
    let w2: i64 = fx_mul(t2, v2);
    proof {
        lemma_fx_mul_nonneg(t2 as int, v2 as int);
        lemma_fx_mul_bound(t2 as int, v2 as int, tb as int, FX_ONE as int);
    }
    let u1: i64 = div_pos(w2, 2);
    proof {
        lemma_div_is_ordered(w2 as int, tb as int, 2);
    }
    FX_ONE - u1
}

/// The fixed-point sine of an arbitrary fixed-point angle, as an
/// executable operation.
pub fn sin_fx(x: i64) -> (r: i64)
    ensures
        r == sin_fx_spec(x as int),
        -(FX_SIN_BOUND as int) <= r <= FX_SIN_BOUND as int,
{
    let m: i64 = angle_mod(x);
    let t1: i64 = if m > FX_PI {
        m - FX_TWO_PI
    } else {
        m
    };
    let t: i64 = if t1 > FX_HALF_PI {
        FX_PI - t1
    } else if t1 < -FX_HALF_PI {
        -FX_PI - t1
    } else {
        t1
    };
    proof {
        lemma_sin_poly_bounds(t as int);
    }
    sin_poly(t)
}

/// The fixed-point cosine of an arbitrary fixed-point angle, as an
/// executable operation.
pub fn cos_fx(x: i64) -> (r: i64)
    ensures
        r == cos_fx_spec(x as int),
        -(FX_ONE as int) <= r <= FX_ONE as int,
{
    let m: i64 = angle_mod(x);
    let t1: i64 = if m > FX_PI {
        m - FX_TWO_PI
    } else {
        m
    };
    let a: i64 = if t1 < 0 {
        -t1
    } else {
        t1
    };
    if a > FX_HALF_PI {
        let c: i64 = cos_poly(FX_PI - a);
        proof {
            lemma_cos_poly_bounds(FX_PI as int - a as int);
        }
        -c
    } else {
        proof {
            lemma_cos_poly_bounds(a as int);
        }
        cos_poly(a)
    }
}

} // verus!
