//! Signed fixed-point scalars with 24 fractional bits.
//!
//! A scalar `x` stands for the real number `x / 2^24`. Multiplication and
//! division round toward negative infinity, which matches the Euclidean
//! division of the specification integers, so every executable operation
//! here is pinned to an exact function of mathematical integers.

use vstd::arithmetic::div_mod::lemma_div_is_ordered;
use vstd::arithmetic::div_mod::lemma_div_is_ordered_by_denominator;
use vstd::arithmetic::div_mod::lemma_div_multiples_vanish;
use vstd::arithmetic::div_mod::lemma_div_nonincreasing;
use vstd::arithmetic::div_mod::lemma_div_pos_is_pos;
use vstd::arithmetic::div_mod::lemma_fundamental_div_mod;
use vstd::arithmetic::div_mod::lemma_fundamental_div_mod_converse;
use vstd::arithmetic::div_mod::lemma_mod_bound;
use vstd::prelude::*;

verus! {

/// The fixed-point representation of 1.0: one whole unit, `2^24`.
pub const FX_ONE: i64 = 16777216;

/// The fixed-point representation of 0.5.
pub const FX_HALF: i64 = 8388608;

/// The fixed-point representation of 2.0.
pub const FX_TWO: i64 = 33554432;

/// The fixed-point representation of 6.0.
pub const FX_SIX: i64 = 100663296;

/// The fixed-point product: the scaled, floor-rounded product of two scalars.
pub open spec fn fx_mul_spec(a: int, b: int) -> int {
    (a * b) / (FX_ONE as int)
}

/// The fixed-point quotient: the scaled quotient of two scalars, rounded
/// toward negative infinity for a positive divisor and toward positive
/// infinity for a negative one.
pub open spec fn fx_div_spec(a: int, b: int) -> int {
    if b > 0 {
        (a * (FX_ONE as int)) / b
    } else {
        -((a * (FX_ONE as int)) / (-b))
    }
}

/// The raw product fits the machine word after scaling down.
pub open spec fn fx_mul_ok(a: int, b: int) -> bool {
    -(0x7fffffffffffffff * (FX_ONE as int)) <= a * b <= 0x7fffffffffffffff * (FX_ONE as int)
}

/// The scaled quotient fits the machine word.
pub open spec fn fx_div_ok(a: int, b: int) -> bool {
    i64::MIN <= fx_div_spec(a, b) <= i64::MAX
}

/// Floor division of a wide signed value by a positive divisor, computed
/// through unsigned division on magnitudes.
fn div_floor_by_pos(p: i128, d: i128) -> (q: i128)
    requires
        1 <= d <= 0x40000000000000000000000000000000,
        -0x40000000000000000000000000000000 <= p <= 0x40000000000000000000000000000000,
    ensures
        q == p as int / d as int,
{
    if p >= 0 {
        proof {
            lemma_div_pos_is_pos(p as int, d as int);
            lemma_div_nonincreasing(p as int, d as int);
        }
        ((p as u128) / (d as u128)) as i128
    } else {
        let m: u128 = (-p) as u128;
        let dd: u128 = d as u128;
        let qm: u128 = m / dd;
        let rm: u128 = m % dd;
        proof {
            lemma_div_pos_is_pos(m as int, dd as int);
            lemma_div_nonincreasing(m as int, dd as int);
            lemma_mod_bound(m as int, dd as int);
            lemma_fundamental_div_mod(m as int, dd as int);
        }
        if rm == 0 {
            proof {
                assert(p as int == (d as int) * (-(qm as int)) + 0) by (nonlinear_arith)
                    requires
                        m as int == (dd as int) * (qm as int) + (rm as int),
                        rm as int == 0,
                        p as int == -(m as int),
                        d as int == dd as int,
                ;
                lemma_fundamental_div_mod_converse(p as int, d as int, -(qm as int), 0);
            }
            -(qm as i128)
        } else {
            proof {
                assert(p as int == (d as int) * (-(qm as int) - 1) + ((d as int) - (rm as int)))
                    by (nonlinear_arith)
                    requires
                        m as int == (dd as int) * (qm as int) + (rm as int),
                        p as int == -(m as int),
                        d as int == dd as int,
                ;
                lemma_fundamental_div_mod_converse(
                    p as int,
                    d as int,
                    -(qm as int) - 1,
                    (d as int) - (rm as int),
                );
            }
            -(qm as i128) - 1
        }
    }
}

/// Fixed-point multiplication, rounding toward negative infinity.
pub fn fx_mul(a: i64, b: i64) -> (r: i64)
    requires
        fx_mul_ok(a as int, b as int),
    ensures
        r == fx_mul_spec(a as int, b as int),
{
    proof {
        assert(-0x40000000000000000000000000000000 <= (a as int) * (b as int)
            <= 0x40000000000000000000000000000000) by (nonlinear_arith);
    }
    let p: i128 = (a as i128) * (b as i128);
    let q: i128 = div_floor_by_pos(p, 16777216);
    proof {
        lemma_div_is_ordered(p as int, 0x7fffffffffffffff * (FX_ONE as int), FX_ONE as int);
        lemma_div_is_ordered(-(0x7fffffffffffffff * (FX_ONE as int)), p as int, FX_ONE as int);
        lemma_fundamental_div_mod_converse(
            0x7fffffffffffffff * (FX_ONE as int),
            FX_ONE as int,
            0x7fffffffffffffff,
            0,
        );
        lemma_fundamental_div_mod_converse(
            -(0x7fffffffffffffff * (FX_ONE as int)),
            FX_ONE as int,
            -0x7fffffffffffffff,
            0,
        );
    }
    q as i64
}

/// Fixed-point division by a nonzero divisor.
pub fn fx_div(a: i64, b: i64) -> (r: i64)
    requires
        b != 0,
        fx_div_ok(a as int, b as int),
    ensures
        r == fx_div_spec(a as int, b as int),
{
    let p: i128 = (a as i128) * 16777216;
    if b > 0 {
        let q: i128 = div_floor_by_pos(p, b as i128);
        q as i64
    } else {
        let q: i128 = div_floor_by_pos(p, -(b as i128));
        let r: i128 = -q;
        r as i64
    }
}

/// Truncating division of a nonnegative value by a positive divisor; on
/// nonnegative operands this agrees with Euclidean division.
pub fn div_pos(a: i64, d: i64) -> (r: i64)
    requires
        0 <= a,
        1 <= d,
    ensures
        r == a as int / d as int,
        0 <= r <= a,
{
    proof {
        lemma_div_pos_is_pos(a as int, d as int);
        lemma_div_nonincreasing(a as int, d as int);
    }
    ((a as u64) / (d as u64)) as i64
}

/// Negating the dividend of a Euclidean division by a positive divisor
/// lands within one unit of the negated quotient.
pub proof fn lemma_div_neg_range(n: int, d: int)
    requires
        0 <= n,
        0 < d,
    ensures
        -(n / d) - 1 <= (-n) / d <= -(n / d),
{
    lemma_fundamental_div_mod(n, d);
    lemma_mod_bound(n, d);
    let q = n / d;
    let r = n % d;
    if r == 0 {
        assert(-n == d * (-q) + 0) by (nonlinear_arith)
            requires
                n == d * q + r,
                r == 0,
        ;
        lemma_fundamental_div_mod_converse(-n, d, -q, 0);
    } else {
        assert(-n == d * (-q - 1) + (d - r)) by (nonlinear_arith)
            requires
                n == d * q + r,
        ;
        lemma_fundamental_div_mod_converse(-n, d, -q - 1, d - r);
    }
}

/// Interval bound for the fixed-point product: operand magnitudes bound
/// the magnitude of the result.
pub proof fn lemma_fx_mul_bound(a: int, b: int, aa: int, bb: int)
    requires
        -aa <= a <= aa,
        -bb <= b <= bb,
    ensures
        -((aa * bb) / (FX_ONE as int)) - 1 <= fx_mul_spec(a, b) <= (aa * bb) / (FX_ONE as int),
{
    assert(-(aa * bb) <= a * b <= aa * bb) by (nonlinear_arith)
        requires
            -aa <= a <= aa,
            -bb <= b <= bb,
    ;
    lemma_div_is_ordered(a * b, aa * bb, FX_ONE as int);
    lemma_div_is_ordered(-(aa * bb), a * b, FX_ONE as int);
    lemma_div_neg_range(aa * bb, FX_ONE as int);
}

/// Operand magnitudes small enough keep the raw product inside the range
/// that `fx_mul` accepts.
pub proof fn lemma_fx_mul_in_range(a: int, b: int, aa: int, bb: int)
    requires
        -aa <= a <= aa,
        -bb <= b <= bb,
        aa * bb <= 0x7fffffffffffffff * (FX_ONE as int),
    ensures
        fx_mul_ok(a, b),
{
    assert(-(aa * bb) <= a * b <= aa * bb) by (nonlinear_arith)
        requires
            -aa <= a <= aa,
            -bb <= b <= bb,
    ;
}

/// The fixed-point square of any scalar is nonnegative.
pub proof fn lemma_fx_mul_square_nonneg(t: int)
    ensures
        0 <= fx_mul_spec(t, t),
{
    assert(0 <= t * t) by (nonlinear_arith);
    lemma_div_pos_is_pos(t * t, FX_ONE as int);
}

/// The fixed-point product of nonnegative scalars is nonnegative.
pub proof fn lemma_fx_mul_nonneg(a: int, b: int)
    requires
        0 <= a,
        0 <= b,
    ensures
        0 <= fx_mul_spec(a, b),
{
    assert(0 <= a * b) by (nonlinear_arith)
        requires
            0 <= a,
            0 <= b,
    ;
    lemma_div_pos_is_pos(a * b, FX_ONE as int);
}

/// Lower bound for the fixed-point product of scalars bounded below by
/// nonnegative values.
pub proof fn lemma_fx_mul_lower(a: int, b: int, amin: int, bmin: int)
    requires
        0 <= amin <= a,
        0 <= bmin <= b,
    ensures
        fx_mul_spec(a, b) >= (amin * bmin) / (FX_ONE as int),
{
    assert(amin * bmin <= a * b) by (nonlinear_arith)
        requires
            0 <= amin <= a,
            0 <= bmin <= b,
    ;
    lemma_div_is_ordered(amin * bmin, a * b, FX_ONE as int);
}

/// Interval bound for the fixed-point quotient: the dividend magnitude and
/// a positive lower bound on the divisor bound the magnitude of the result.
pub proof fn lemma_fx_div_bound(a: int, b: int, aa: int, bmin: int)
    requires
        -aa <= a <= aa,
        0 < bmin <= b,
    ensures
        -((aa * (FX_ONE as int)) / bmin) - 1 <= fx_div_spec(a, b) <= (aa * (FX_ONE as int))
            / bmin,
{
    lemma_div_is_ordered(a * (FX_ONE as int), aa * (FX_ONE as int), b);
    lemma_div_is_ordered(-(aa * (FX_ONE as int)), a * (FX_ONE as int), b);
    lemma_div_neg_range(aa * (FX_ONE as int), b);
    if bmin < b {
        lemma_div_is_ordered_by_denominator(aa * (FX_ONE as int), bmin, b);
    }
}

/// Lower bound for the fixed-point quotient of positive scalars.
pub proof fn lemma_fx_div_lower(a: int, b: int, amin: int, bmax: int)
    requires
        0 <= amin <= a,
        0 < b <= bmax,
    ensures
        fx_div_spec(a, b) >= (amin * (FX_ONE as int)) / bmax,
{
    lemma_div_is_ordered(amin * (FX_ONE as int), a * (FX_ONE as int), b);
    lemma_div_pos_is_pos(amin * (FX_ONE as int), b);
    if b < bmax {
        lemma_div_is_ordered_by_denominator(amin * (FX_ONE as int), b, bmax);
    }
}

/// Multiplying by the fixed-point unit is the identity.
pub proof fn lemma_fx_mul_one(x: int)
    ensures
        fx_mul_spec(x, FX_ONE as int) == x,
{
    lemma_div_multiples_vanish(x, FX_ONE as int);
    assert(x * (FX_ONE as int) == (FX_ONE as int) * x) by (nonlinear_arith);
}

/// Scaling distributes over a sum of scalars whenever the two rounding
/// remainders do not carry into a whole unit; the hypothesis on the
/// remainders is exactly the boundary of the law.
pub proof fn lemma_fx_mul_add_scalar(f: int, a: int, b: int)
    requires
        (f * a) % (FX_ONE as int) + (f * b) % (FX_ONE as int) < FX_ONE as int,
    ensures
        fx_mul_spec(f, a + b) == fx_mul_spec(f, a) + fx_mul_spec(f, b),
{
    let one = FX_ONE as int;
    lemma_fundamental_div_mod(f * a, one);
    lemma_fundamental_div_mod(f * b, one);
    lemma_mod_bound(f * a, one);
    lemma_mod_bound(f * b, one);
    let qa = (f * a) / one;
    let qb = (f * b) / one;
    let ra = (f * a) % one;
    let rb = (f * b) % one;
    assert(f * (a + b) == one * (qa + qb) + (ra + rb)) by (nonlinear_arith)
        requires
            f * a == one * qa + ra,
            f * b == one * qb + rb,
    ;
    lemma_fundamental_div_mod_converse(f * (a + b), one, qa + qb, ra + rb);
}

/// Scaling by a nonzero scalar and dividing by the same scalar returns the
/// original value whenever the product is exactly representable; the
/// divisibility hypothesis is exactly the boundary of the law.
pub proof fn lemma_fx_mul_div_cancel(f: int, a: int)
    requires
        a != 0,
        (f * a) % (FX_ONE as int) == 0,
    ensures
        fx_div_spec(fx_mul_spec(f, a), a) == f,
{
    let one = FX_ONE as int;
    lemma_fundamental_div_mod(f * a, one);
    let q = (f * a) / one;
    assert(q * one == f * a) by (nonlinear_arith)
        requires
            f * a == one * q + 0,
    ;
    if a > 0 {
        assert(q * one == a * f + 0) by (nonlinear_arith)
            requires
                q * one == f * a,
        ;
        lemma_fundamental_div_mod_converse(q * one, a, f, 0);
    } else {
        assert(q * one == (-a) * (-f) + 0) by (nonlinear_arith)
            requires
                q * one == f * a,
        ;
        lemma_fundamental_div_mod_converse(q * one, -a, -f, 0);
    }
}

} // verus!
