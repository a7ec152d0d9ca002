//! The equations of motion of the coupled planar double pendulum.
//!
//! `derivative` maps a state and the physical parameters to the time
//! derivative of the state: the angle fields of the result carry the input
//! angular velocities, and the velocity fields carry the angular
//! accelerations of the standard point-mass, rigid-link, frictionless
//! derivation. The denominator form `1 + mu * sin^2` is at least one for
//! every state whenever the masses are positive, so the closed form has no
//! singularity anywhere in the supported domain.
//!
//! Every intermediate of the computation has a named integer
//! specification, and `lemma_dynamics_bounds` derives interval bounds for
//! all of them from a bound on the squared angular velocities; those
//! bounds discharge the overflow obligations here and in the integrator.

use crate::fixed::fx_div_spec;
use crate::fixed::fx_div;
use crate::fixed::fx_mul_spec;
use crate::fixed::fx_mul;
use crate::fixed::lemma_fx_div_bound;
use crate::fixed::lemma_fx_div_lower;
use crate::fixed::lemma_fx_mul_bound;
use crate::fixed::lemma_fx_mul_in_range;
use crate::fixed::lemma_fx_mul_lower;
use crate::fixed::lemma_fx_mul_nonneg;
use crate::fixed::lemma_fx_mul_square_nonneg;
use crate::fixed::lemma_fx_mul_one;
use crate::fixed::FX_ONE;
use crate::state::params_wf;
use crate::state::Params;
use crate::state::ParamsModel;
use crate::state::State;
use crate::state::StateModel;
use crate::trig::cos_fx_spec;
use crate::trig::cos_fx;
use crate::trig::lemma_cos_fx_bounds;
use crate::trig::lemma_sin_fx_bounds;
use crate::trig::lemma_sin_fx_zero;
use crate::trig::sin_fx_spec;
use crate::trig::sin_fx;
use crate::trig::FX_SIN_BOUND;
use vstd::arithmetic::div_mod::lemma_div_is_ordered;
use vstd::arithmetic::div_mod::lemma_div_multiples_vanish;
use vstd::arithmetic::div_mod::lemma_div_of0;
use vstd::prelude::*;

verus! {

/// The largest angle magnitude the derivative accepts; it keeps the angle
/// difference inside the machine word.
pub const THETA_CAP: i64 = 2000000000000000000;

/// The largest angular-velocity magnitude the derivative accepts.
pub const OMEGA_CAP: i64 = 1000000000000;

/// The largest squared angular velocity under `OMEGA_CAP`, after scaling.
pub const WSQ_CAP: i64 = 59604644775390625;

/// The state lies inside the rectangle the derivative accepts.
pub open spec fn state_bounded(s: StateModel, tcap: int, wcap: int) -> bool {
    &&& -tcap <= s.theta_1 <= tcap
    &&& -tcap <= s.theta_2 <= tcap
    &&& -wcap <= s.dot_theta_1 <= wcap
    &&& -wcap <= s.dot_theta_2 <= wcap
}

/// The mass ratio of the second link to the first.
pub open spec fn mu_spec(p: ParamsModel) -> int {
    fx_div_spec(p.m2, p.m1)
}

/// The length ratio of the second link to the first.
pub open spec fn lam_spec(p: ParamsModel) -> int {
    fx_div_spec(p.l2, p.l1)
}

/// Gravity divided by the first link length.
pub open spec fn gam_spec(p: ParamsModel) -> int {
    fx_div_spec(p.gravity, p.l1)
}

/// The sine of the angle difference of the two links.
pub open spec fn sd_spec(s: StateModel) -> int {
    sin_fx_spec(s.theta_1 - s.theta_2)
}

/// The cosine of the angle difference of the two links.
pub open spec fn cd_spec(s: StateModel) -> int {
    cos_fx_spec(s.theta_1 - s.theta_2)
}

/// The sine of the first angle.
pub open spec fn s1_spec(s: StateModel) -> int {
    sin_fx_spec(s.theta_1)
}

/// The sine of the second angle.
pub open spec fn s2_spec(s: StateModel) -> int {
    sin_fx_spec(s.theta_2)
}

/// The square of the first angular velocity.
pub open spec fn w1sq_spec(s: StateModel) -> int {
    fx_mul_spec(s.dot_theta_1, s.dot_theta_1)
}

/// The square of the second angular velocity.
pub open spec fn w2sq_spec(s: StateModel) -> int {
    fx_mul_spec(s.dot_theta_2, s.dot_theta_2)
}

/// The square of the sine of the angle difference.
pub open spec fn sdsq_spec(s: StateModel) -> int {
    fx_mul_spec(sd_spec(s), sd_spec(s))
}

/// The common denominator `1 + mu * sin^2(dtheta)`; never below one.
pub open spec fn denom_spec(s: StateModel, p: ParamsModel) -> int {
    FX_ONE as int + fx_mul_spec(mu_spec(p), sdsq_spec(s))
}

/// The denominator of the second acceleration, `lambda * denom`.
pub open spec fn lamden_spec(s: StateModel, p: ParamsModel) -> int {
    fx_mul_spec(lam_spec(p), denom_spec(s, p))
}

/// The recurring bracket `dot_theta_1^2 * sin(dtheta) - gamma * sin(theta_2)`.
pub open spec fn inner_spec(s: StateModel, p: ParamsModel) -> int {
    fx_mul_spec(w1sq_spec(s), sd_spec(s)) - fx_mul_spec(gam_spec(p), s2_spec(s))
}

/// The product `(mu + 1) * gamma`.
pub open spec fn a1_spec(p: ParamsModel) -> int {
    fx_mul_spec(mu_spec(p) + FX_ONE as int, gam_spec(p))
}

/// The numerator term `(mu + 1) * gamma * sin(theta_1)`.
pub open spec fn t1_spec(s: StateModel, p: ParamsModel) -> int {
    fx_mul_spec(a1_spec(p), s1_spec(s))
}

/// The product of the two ratios, `mu * lambda`.
pub open spec fn ml_spec(p: ParamsModel) -> int {
    fx_mul_spec(mu_spec(p), lam_spec(p))
}

/// The numerator term `mu * lambda * dot_theta_2^2 * sin(dtheta)`.
pub open spec fn t2_spec(s: StateModel, p: ParamsModel) -> int {
    fx_mul_spec(fx_mul_spec(ml_spec(p), w2sq_spec(s)), sd_spec(s))
}

/// The product `mu * cos(dtheta)`.
pub open spec fn mc_spec(s: StateModel, p: ParamsModel) -> int {
    fx_mul_spec(mu_spec(p), cd_spec(s))
}

/// The numerator term `mu * cos(dtheta) * inner`.
pub open spec fn t3_spec(s: StateModel, p: ParamsModel) -> int {
    fx_mul_spec(mc_spec(s, p), inner_spec(s, p))
}

/// The full numerator of the first angular acceleration.
pub open spec fn num1_spec(s: StateModel, p: ParamsModel) -> int {
    t1_spec(s, p) + t2_spec(s, p) + t3_spec(s, p)
}

/// The angular acceleration of the first link.
pub open spec fn ddot1_spec(s: StateModel, p: ParamsModel) -> int {
    -fx_div_spec(num1_spec(s, p), denom_spec(s, p))
}

/// The `(mu + 1) * inner / (lambda * denom)` term of the second
/// acceleration.
pub open spec fn aa_spec(s: StateModel, p: ParamsModel) -> int {
    fx_div_spec(fx_mul_spec(mu_spec(p) + FX_ONE as int, inner_spec(s, p)), lamden_spec(s, p))
}

/// The `cos(dtheta) * (mu + 1) * gamma * sin(theta_1) / (lambda * denom)`
/// term of the second acceleration.
pub open spec fn bb_spec(s: StateModel, p: ParamsModel) -> int {
    fx_div_spec(fx_mul_spec(cd_spec(s), t1_spec(s, p)), lamden_spec(s, p))
}

/// The `cos(dtheta) * mu * dot_theta_2^2 * sin(dtheta) / denom` term of
/// the second acceleration, with the length ratio cancelled against the
/// denominator.
pub open spec fn cc_spec(s: StateModel, p: ParamsModel) -> int {
    fx_div_spec(
        fx_mul_spec(mc_spec(s, p), fx_mul_spec(w2sq_spec(s), sd_spec(s))),
        denom_spec(s, p),
    )
}

/// The angular acceleration of the second link.
pub open spec fn ddot2_spec(s: StateModel, p: ParamsModel) -> int {
    aa_spec(s, p) + bb_spec(s, p) + cc_spec(s, p)
}

/// The instantaneous time derivative of the state: angular velocities pass
/// through to the angle slots, and the angular accelerations fill the
/// velocity slots.
pub open spec fn derivative_spec(s: StateModel, p: ParamsModel) -> StateModel {
    StateModel {
        theta_1: s.dot_theta_1,
        theta_2: s.dot_theta_2,
        dot_theta_1: ddot1_spec(s, p),
        dot_theta_2: ddot2_spec(s, p),
    }
}

/// Interval bounds for every intermediate of the equations of motion, as a
/// function of a bound `wb` on the squared angular velocities.
pub proof fn lemma_dynamics_bounds(s: StateModel, p: ParamsModel, wb: int)
    requires
        params_wf(p),
        0 <= w1sq_spec(s) <= wb,
        0 <= w2sq_spec(s) <= wb,
    ensures
        4194304 <= mu_spec(p) <= 67108864,
        4194304 <= lam_spec(p) <= 67108864,
        0 <= gam_spec(p) <= 1073741824,
        -(FX_SIN_BOUND as int) <= sd_spec(s) <= FX_SIN_BOUND as int,
        -(FX_ONE as int) <= cd_spec(s) <= FX_ONE as int,
        -(FX_SIN_BOUND as int) <= s1_spec(s) <= FX_SIN_BOUND as int,
        -(FX_SIN_BOUND as int) <= s2_spec(s) <= FX_SIN_BOUND as int,
        0 <= sdsq_spec(s) <= 41396300,
        FX_ONE as int <= denom_spec(s, p) <= 183000000,
        4194304 <= lamden_spec(s, p) <= 732000000,
        -(2 * wb + 1) <= fx_mul_spec(w1sq_spec(s), sd_spec(s)) <= 2 * wb + 1,
        -1690000000 <= fx_mul_spec(gam_spec(p), s2_spec(s)) <= 1690000000,
        -(2 * wb + 1690000001) <= inner_spec(s, p) <= 2 * wb + 1690000001,
        0 <= a1_spec(p) <= 5368709120,
        -8433148802 <= t1_spec(s, p) <= 8433148802,
        0 <= ml_spec(p) <= 268435456,
        -(16 * wb + 1) <= fx_mul_spec(ml_spec(p), w2sq_spec(s)) <= 16 * wb + 1,
        -(26 * wb + 3) <= t2_spec(s, p) <= 26 * wb + 3,
        -67108865 <= mc_spec(s, p) <= 67108865,
        -(9 * wb + 6760000106) <= t3_spec(s, p) <= 9 * wb + 6760000106,
        -(35 * wb + 15200000000) <= num1_spec(s, p) <= 35 * wb + 15200000000,
        -(35 * wb + 15200000001) <= ddot1_spec(s, p) <= 35 * wb + 15200000001,
        -(10 * wb + 8450000006) <= fx_mul_spec(mu_spec(p) + FX_ONE as int, inner_spec(s, p))
            <= 10 * wb + 8450000006,
        -(40 * wb + 33800000025) <= aa_spec(s, p) <= 40 * wb + 33800000025,
        -8433148803 <= fx_mul_spec(cd_spec(s), t1_spec(s, p)) <= 8433148803,
        -33732595213 <= bb_spec(s, p) <= 33732595213,
        -(2 * wb + 1) <= fx_mul_spec(w2sq_spec(s), sd_spec(s)) <= 2 * wb + 1,
        -(9 * wb + 6) <= fx_mul_spec(mc_spec(s, p), fx_mul_spec(w2sq_spec(s), sd_spec(s)))
            <= 9 * wb + 6,
        -(9 * wb + 7) <= cc_spec(s, p) <= 9 * wb + 7,
        -(49 * wb + 67532595245) <= ddot2_spec(s, p) <= 49 * wb + 67532595245,
{
    let one = FX_ONE as int;
    let sb = FX_SIN_BOUND as int;
    lemma_sin_fx_bounds(s.theta_1 - s.theta_2);
    lemma_cos_fx_bounds(s.theta_1 - s.theta_2);
    lemma_sin_fx_bounds(s.theta_1);
    lemma_sin_fx_bounds(s.theta_2);
    // ratios of the parameters
    lemma_fx_div_bound(p.m2, p.m1, 33554432, 8388608);
    lemma_fx_div_lower(p.m2, p.m1, 8388608, 33554432);
    lemma_fx_div_bound(p.l2, p.l1, 33554432, 8388608);
    lemma_fx_div_lower(p.l2, p.l1, 8388608, 33554432);
    lemma_fx_div_bound(p.gravity, p.l1, 536870912, 8388608);
    lemma_fx_div_lower(p.gravity, p.l1, 0, 33554432);
    let mu = mu_spec(p);
    let lam = lam_spec(p);
    let gam = gam_spec(p);
    let sd = sd_spec(s);
    let cd = cd_spec(s);
    let w1sq = w1sq_spec(s);
    let w2sq = w2sq_spec(s);
    // the denominator
    lemma_fx_mul_bound(sd, sd, sb, sb);
    lemma_fx_mul_square_nonneg(sd);
    lemma_fx_mul_nonneg(mu, sdsq_spec(s));
    lemma_fx_mul_bound(mu, sdsq_spec(s), 67108864, 41396300);
    lemma_fx_mul_lower(lam, denom_spec(s, p), 4194304, one);
    lemma_fx_mul_bound(lam, denom_spec(s, p), 67108864, 183000000);
    // the bracket
    lemma_fx_mul_bound(w1sq, sd, wb, sb);
    lemma_linear_sine_product(wb);
    lemma_fx_mul_bound(gam, s2_spec(s), 1073741824, sb);
    assert((1073741824 * sb) / one <= 1689999999);
    // (mu + 1) * gamma and its product with sin(theta_1)
    lemma_fx_mul_nonneg(mu + one, gam);
    lemma_fx_mul_bound(mu + one, gam, 83886080, 1073741824);
    assert((83886080int * 1073741824) / one == 5368709120);
    lemma_fx_mul_bound(a1_spec(p), s1_spec(s), 5368709120, sb);
    assert((5368709120 * sb) / one <= 8433148801);
    // mu * lambda * w2^2 * sin(dtheta)
    lemma_fx_mul_nonneg(mu, lam);
    lemma_fx_mul_bound(mu, lam, 67108864, 67108864);
    lemma_fx_mul_bound(ml_spec(p), w2sq, 268435456, wb);
    assert(268435456 * wb == one * (16 * wb));
    lemma_div_multiples_vanish(16 * wb, one);
    lemma_fx_mul_bound(fx_mul_spec(ml_spec(p), w2sq), sd, 16 * wb + 1, sb);
    assert((16 * wb + 1) * sb <= one * (26 * wb + 2));
    lemma_div_is_ordered((16 * wb + 1) * sb, one * (26 * wb + 2), one);
    lemma_div_multiples_vanish(26 * wb + 2, one);
    // mu * cos(dtheta) * inner
    lemma_fx_mul_bound(mu, cd, 67108864, one);
    assert((67108864 * one) / one == 67108864);
    lemma_fx_mul_bound(mc_spec(s, p), inner_spec(s, p), 67108865, 2 * wb + 1690000001);
    assert(67108865 * (2 * wb + 1690000001) <= one * (9 * wb + 6760000105));
    lemma_div_is_ordered(
        67108865 * (2 * wb + 1690000001),
        one * (9 * wb + 6760000105),
        one,
    );
    lemma_div_multiples_vanish(9 * wb + 6760000105, one);
    // the first acceleration
    lemma_fx_div_bound(num1_spec(s, p), denom_spec(s, p), 35 * wb + 15200000000, one);
    assert((35 * wb + 15200000000) * one == one * (35 * wb + 15200000000));
    lemma_div_multiples_vanish(35 * wb + 15200000000, one);
    // the second acceleration, first term
    lemma_fx_mul_bound(mu + one, inner_spec(s, p), 83886080, 2 * wb + 1690000001);
    assert(83886080 * (2 * wb + 1690000001) == one * (10 * wb + 8450000005));
    lemma_div_multiples_vanish(10 * wb + 8450000005, one);
    lemma_fx_div_bound(
        fx_mul_spec(mu + one, inner_spec(s, p)),
        lamden_spec(s, p),
        10 * wb + 8450000006,
        4194304,
    );
    assert((10 * wb + 8450000006) * one == 4194304 * (40 * wb + 33800000024));
    lemma_div_multiples_vanish(40 * wb + 33800000024, 4194304);
    // the second acceleration, second term
    lemma_fx_mul_bound(cd, t1_spec(s, p), one, 8433148802);
    assert((one * 8433148802) / one == 8433148802);
    lemma_fx_div_bound(fx_mul_spec(cd, t1_spec(s, p)), lamden_spec(s, p), 8433148803, 4194304);
    assert((8433148803 * one) / 4194304 == 33732595212);
    // the second acceleration, third term
    lemma_fx_mul_bound(w2sq, sd, wb, sb);
    lemma_fx_mul_bound(mc_spec(s, p), fx_mul_spec(w2sq_spec(s), sd_spec(s)), 67108865, 2 * wb + 1);
    assert(67108865 * (2 * wb + 1) <= one * (9 * wb + 5));
    lemma_div_is_ordered(67108865 * (2 * wb + 1), one * (9 * wb + 5), one);
    lemma_div_multiples_vanish(9 * wb + 5, one);
    lemma_fx_div_bound(
        fx_mul_spec(mc_spec(s, p), fx_mul_spec(w2sq_spec(s), sd_spec(s))),
        denom_spec(s, p),
        9 * wb + 6,
        one,
    );
    assert((9 * wb + 6) * one == one * (9 * wb + 6));
    lemma_div_multiples_vanish(9 * wb + 6, one);
}

/// The product of a nonnegative scalar below `wb` with a sine value stays
/// below twice `wb`, plus one unit of rounding.
proof fn lemma_linear_sine_product(wb: int)
    requires
        0 <= wb,
    ensures
        (wb * (FX_SIN_BOUND as int)) / (FX_ONE as int) <= 2 * wb,
{
    let one = FX_ONE as int;
    assert(wb * (FX_SIN_BOUND as int) <= one * (2 * wb));
    lemma_div_is_ordered(wb * (FX_SIN_BOUND as int), one * (2 * wb), one);
    lemma_div_multiples_vanish(2 * wb, one);
}

/// The instantaneous time derivative of the state under the given
/// parameters: a pure function of its arguments, total over the supported
/// rectangle of states.
pub fn derivative(state: &State, params: &Params) -> (r: State)
    requires
        params_wf(params@),
        state_bounded(state@, THETA_CAP as int, OMEGA_CAP as int),
    ensures
        r@ == derivative_spec(state@, params@),
{
    let wcap: i64 = OMEGA_CAP;
    let wb: i64 = WSQ_CAP;
    let sb: i64 = FX_SIN_BOUND;
    proof {
        lemma_fx_mul_in_range(
            state.dot_theta_1 as int,
            state.dot_theta_1 as int,
            wcap as int,
            wcap as int,
        );
        lemma_fx_mul_in_range(
            state.dot_theta_2 as int,
            state.dot_theta_2 as int,
            wcap as int,
            wcap as int,
        );
        lemma_fx_mul_bound(
            state.dot_theta_1 as int,
            state.dot_theta_1 as int,
            wcap as int,
            wcap as int,
        );
        lemma_fx_mul_bound(
            state.dot_theta_2 as int,
            state.dot_theta_2 as int,
            wcap as int,
            wcap as int,
        );
        lemma_fx_mul_square_nonneg(state.dot_theta_1 as int);
        lemma_fx_mul_square_nonneg(state.dot_theta_2 as int);
        lemma_dynamics_bounds(state@, params@, wb as int);
    }
    let dth: i64 = state.theta_1 - state.theta_2;
    let sd: i64 = sin_fx(dth);
    let cd: i64 = cos_fx(dth);
    let s1: i64 = sin_fx(state.theta_1);
    let s2: i64 = sin_fx(state.theta_2);
    let mu: i64 = fx_div(params.m2, params.m1);
    let lam: i64 = fx_div(params.l2, params.l1);
    let gam: i64 = fx_div(params.gravity, params.l1);
    let w1sq: i64 = fx_mul(state.dot_theta_1, state.dot_theta_1);
    let w2sq: i64 = fx_mul(state.dot_theta_2, state.dot_theta_2);
    proof {
        lemma_fx_mul_in_range(sd as int, sd as int, sb as int, sb as int);
    }
    let sdsq: i64 = fx_mul(sd, sd);
    proof {
        lemma_fx_mul_in_range(mu as int, sdsq as int, 67108864, 41396300);
    }
    let musd: i64 = fx_mul(mu, sdsq);
    let den: i64 = FX_ONE + musd;
    proof {
        lemma_fx_mul_in_range(lam as int, den as int, 67108864, 183000000);
    }
    let lamden: i64 = fx_mul(lam, den);
    proof {
        lemma_fx_mul_in_range(w1sq as int, sd as int, wb as int, sb as int);
        lemma_fx_mul_in_range(gam as int, s2 as int, 1073741824, sb as int);
    }
    let w1s_sd: i64 = fx_mul(w1sq, sd);
    let gs2: i64 = fx_mul(gam, s2);
    let inner: i64 = w1s_sd - gs2;
    proof {
        lemma_fx_mul_in_range(mu as int + FX_ONE as int, gam as int, 83886080, 1073741824);
    }
    let a1: i64 = fx_mul(mu + FX_ONE, gam);
    proof {
        lemma_fx_mul_in_range(a1 as int, s1 as int, 5368709120, sb as int);
        lemma_fx_mul_in_range(mu as int, lam as int, 67108864, 67108864);
    }
    let t1: i64 = fx_mul(a1, s1);
    let ml: i64 = fx_mul(mu, lam);
    proof {
        lemma_fx_mul_in_range(ml as int, w2sq as int, 268435456, wb as int);
    }
    let t2a: i64 = fx_mul(ml, w2sq);
    proof {
        lemma_fx_mul_in_range(t2a as int, sd as int, 16 * (wb as int) + 1, sb as int);
        lemma_fx_mul_in_range(mu as int, cd as int, 67108864, FX_ONE as int);
    }
    let t2: i64 = fx_mul(t2a, sd);
    let mc: i64 = fx_mul(mu, cd);
    proof {
        lemma_fx_mul_in_range(
            mc as int,
            inner as int,
            67108865,
            2 * (wb as int) + 1690000001,
        );
    }
    let t3: i64 = fx_mul(mc, inner);
    let num1: i64 = t1 + t2 + t3;
    let nd1: i64 = fx_div(num1, den);
    let dd1: i64 = -nd1;
    proof {
        lemma_fx_mul_in_range(
            mu as int + FX_ONE as int,
            inner as int,
            83886080,
            2 * (wb as int) + 1690000001,
        );
    }
    let ia: i64 = fx_mul(mu + FX_ONE, inner);
    let av: i64 = fx_div(ia, lamden);
    proof {
        lemma_fx_mul_in_range(cd as int, t1 as int, FX_ONE as int, 8433148802);
    }
    let ct1: i64 = fx_mul(cd, t1);
    let bv: i64 = fx_div(ct1, lamden);
    proof {
        lemma_fx_mul_in_range(w2sq as int, sd as int, wb as int, sb as int);
    }
    let w2sd: i64 = fx_mul(w2sq, sd);
    proof {
        lemma_fx_mul_in_range(mc as int, w2sd as int, 67108865, 2 * (wb as int) + 1);
    }
    let cf: i64 = fx_mul(mc, w2sd);
    let cv: i64 = fx_div(cf, den);
    let dd2: i64 = av + bv + cv;
    State {
        theta_1: state.dot_theta_1,
        theta_2: state.dot_theta_2,
        dot_theta_1: dd1,
        dot_theta_2: dd2,
    }
}

/// Law: the downward rest position with no velocity is a fixed point of
/// the dynamics — the derivative of the all-zero state is the all-zero
/// state, exactly, for every well-formed configuration.
pub proof fn lemma_rest_is_fixed_point(p: ParamsModel)
    requires
        params_wf(p),
    ensures
        derivative_spec(
            StateModel { theta_1: 0, theta_2: 0, dot_theta_1: 0, dot_theta_2: 0 },
            p,
        ) == (StateModel { theta_1: 0, theta_2: 0, dot_theta_1: 0, dot_theta_2: 0 }),
{
    let one = FX_ONE as int;
    let s = StateModel { theta_1: 0, theta_2: 0, dot_theta_1: 0, dot_theta_2: 0 };
    lemma_sin_fx_zero();
    lemma_div_of0(one);
    assert(sd_spec(s) == 0);
    assert(s1_spec(s) == 0);
    assert(s2_spec(s) == 0);
    assert(w1sq_spec(s) == 0);
    assert(w2sq_spec(s) == 0);
    assert(sdsq_spec(s) == 0);
    let mu = mu_spec(p);
    let lam = lam_spec(p);
    assert(fx_mul_spec(mu, 0) == 0);
    assert(denom_spec(s, p) == one);
    lemma_fx_div_lower(p.l2, p.l1, 8388608, 33554432);
    lemma_fx_mul_one(lam);
    assert(lamden_spec(s, p) == lam);
    assert(inner_spec(s, p) == 0);
    assert(t1_spec(s, p) == 0);
    assert(t2_spec(s, p) == 0);
    assert(t3_spec(s, p) == 0);
    assert(num1_spec(s, p) == 0);
    assert(fx_div_spec(0, denom_spec(s, p)) == 0);
    lemma_div_of0(lam);
    assert(aa_spec(s, p) == 0);
    assert(bb_spec(s, p) == 0);
    assert(cc_spec(s, p) == 0);
}

} // verus!
