//! The classical fourth-order Runge-Kutta step, fixed step size.
//!
//! `step` composes four evaluations of the equations of motion at
//! interpolated states and advances the state by one time increment. The
//! contract pins the result to an exact integer composition of the
//! derivative, scale, add and divide specifications; a zero increment is
//! proved to return the state unchanged. The proof threads interval bounds
//! through the four stages to show that no intermediate leaves the machine
//! word.

use crate::dynamics::derivative_spec;
use crate::dynamics::derivative;
use crate::dynamics::lemma_dynamics_bounds;
use crate::dynamics::state_bounded;
use crate::dynamics::w1sq_spec;
use crate::dynamics::w2sq_spec;
use crate::fixed::fx_div_ok;
use crate::fixed::fx_mul_ok;
use crate::fixed::lemma_fx_div_bound;
use crate::fixed::lemma_fx_mul_bound;
use crate::fixed::lemma_fx_mul_in_range;
use crate::fixed::lemma_fx_mul_square_nonneg;
use crate::fixed::FX_HALF;
use crate::fixed::FX_ONE;
use crate::fixed::FX_SIX;
use crate::fixed::FX_TWO;
use crate::state::add_spec;
use crate::state::divide_spec;
use crate::state::params_wf;
use crate::state::scale_spec;
use crate::state::Params;
use crate::state::ParamsModel;
use crate::state::State;
use crate::state::StateModel;
use vstd::prelude::*;

verus! {

/// The largest time increment one step accepts: slightly above one
/// hundredth of a second.
pub const DT_MAX: i64 = 167773;

/// The largest angular-velocity magnitude one step accepts: six radians
/// per second.
pub const OMEGA_STEP: i64 = 100663296;

/// The largest angle magnitude one step accepts.
pub const THETA_STEP: i64 = 1000000000000000000;

/// One fourth-order Runge-Kutta step: four derivative evaluations at
/// interpolated states, combined with the classical one-two-two-one
/// weights.
pub open spec fn step_spec(s: StateModel, p: ParamsModel, dt: int) -> StateModel {
    let k1 = scale_spec(derivative_spec(s, p), dt);
    let s2 = add_spec(s, scale_spec(k1, FX_HALF as int));
    let k2 = scale_spec(derivative_spec(s2, p), dt);
    let s3 = add_spec(s, scale_spec(k2, FX_HALF as int));
    let k3 = scale_spec(derivative_spec(s3, p), dt);
    let s4 = add_spec(s, k3);
    let k4 = scale_spec(derivative_spec(s4, p), dt);
    let ksum = add_spec(
        add_spec(add_spec(k1, scale_spec(k2, FX_TWO as int)), scale_spec(k3, FX_TWO as int)),
        k4,
    );
    add_spec(s, divide_spec(ksum, FX_SIX as int))
}

/// Every field of the state lies within the given magnitude.
pub open spec fn fields_bounded(s: StateModel, b: int) -> bool {
    &&& -b <= s.theta_1 <= b
    &&& -b <= s.theta_2 <= b
    &&& -b <= s.dot_theta_1 <= b
    &&& -b <= s.dot_theta_2 <= b
}

/// Scaling a state whose fields are bounded by a scalar of bounded
/// magnitude is accepted by the fixed-point multiplier, and bounds the
/// scaled fields.
proof fn lemma_state_scale(s: StateModel, k: int, sb: int, kb: int)
    requires
        fields_bounded(s, sb),
        -kb <= k <= kb,
        0 <= sb,
        0 <= kb,
        sb * kb <= 0x7fffffffffffffff * (FX_ONE as int),
    ensures
        fx_mul_ok(s.theta_1, k),
        fx_mul_ok(s.theta_2, k),
        fx_mul_ok(s.dot_theta_1, k),
        fx_mul_ok(s.dot_theta_2, k),
        fields_bounded(scale_spec(s, k), (sb * kb) / (FX_ONE as int) + 1),
{
    lemma_fx_mul_in_range(s.theta_1, k, sb, kb);
    lemma_fx_mul_in_range(s.theta_2, k, sb, kb);
    lemma_fx_mul_in_range(s.dot_theta_1, k, sb, kb);
    lemma_fx_mul_in_range(s.dot_theta_2, k, sb, kb);
    lemma_fx_mul_bound(s.theta_1, k, sb, kb);
    lemma_fx_mul_bound(s.theta_2, k, sb, kb);
    lemma_fx_mul_bound(s.dot_theta_1, k, sb, kb);
    lemma_fx_mul_bound(s.dot_theta_2, k, sb, kb);
}

/// Dividing a state whose fields are bounded by a positive scalar is
/// accepted by the fixed-point divider, and bounds the divided fields.
proof fn lemma_state_divide(s: StateModel, k: int, sb: int)
    requires
        fields_bounded(s, sb),
        0 < k,
        0 <= sb,
        (sb * (FX_ONE as int)) / k + 1 <= i64::MAX as int,
    ensures
        fx_div_ok(s.theta_1, k),
        fx_div_ok(s.theta_2, k),
        fx_div_ok(s.dot_theta_1, k),
        fx_div_ok(s.dot_theta_2, k),
        fields_bounded(divide_spec(s, k), (sb * (FX_ONE as int)) / k + 1),
{
    lemma_fx_div_bound(s.theta_1, k, sb, k);
    lemma_fx_div_bound(s.theta_2, k, sb, k);
    lemma_fx_div_bound(s.dot_theta_1, k, sb, k);
    lemma_fx_div_bound(s.dot_theta_2, k, sb, k);
}

/// The squared velocities of a state with bounded velocity fields are
/// bounded by the scaled square of the velocity bound.
proof fn lemma_wsq_bounds(s: StateModel, cap: int)
    requires
        -cap <= s.dot_theta_1 <= cap,
        -cap <= s.dot_theta_2 <= cap,
        0 <= cap,
    ensures
        0 <= w1sq_spec(s) <= (cap * cap) / (FX_ONE as int),
        0 <= w2sq_spec(s) <= (cap * cap) / (FX_ONE as int),
{
    lemma_fx_mul_bound(s.dot_theta_1, s.dot_theta_1, cap, cap);
    lemma_fx_mul_bound(s.dot_theta_2, s.dot_theta_2, cap, cap);
    lemma_fx_mul_square_nonneg(s.dot_theta_1);
    lemma_fx_mul_square_nonneg(s.dot_theta_2);
}

/// Law: a step over a zero time increment is the identity — every
/// Runge-Kutta increment vanishes exactly.
pub proof fn lemma_zero_step(s: StateModel, p: ParamsModel)
    ensures
        step_spec(s, p, 0) == s,
{
    let zero = StateModel { theta_1: 0, theta_2: 0, dot_theta_1: 0, dot_theta_2: 0 };
    assert(scale_spec(derivative_spec(s, p), 0) == zero);
    assert(scale_spec(zero, FX_HALF as int) == zero);
    assert(add_spec(s, zero) == s);
    assert(scale_spec(zero, FX_TWO as int) == zero);
    assert(add_spec(zero, zero) == zero);
    assert(divide_spec(zero, FX_SIX as int) == zero);
    assert(step_spec(s, p, 0) == add_spec(s, zero));
}

/// Advances the state by one time increment with the classical
/// fourth-order Runge-Kutta method: deterministic, pure, non-adaptive. A
/// zero increment returns the state unchanged, and a negative increment
/// integrates backward in time.
pub fn step(state: &State, params: &Params, dt: i64) -> (r: State)
    requires
        params_wf(params@),
        state_bounded(state@, THETA_STEP as int, OMEGA_STEP as int),
        -(DT_MAX as int) <= dt <= DT_MAX as int,
    ensures
        r@ == step_spec(state@, params@, dt as int),
        dt == 0 ==> r@ == state@,
{
    let ghost one: int = FX_ONE as int;
    proof {
        lemma_wsq_bounds(state@, OMEGA_STEP as int);
        lemma_dynamics_bounds(state@, params@, 603979776);
    }
    let d1 = derivative(state, params);
    proof {
        assert(fields_bounded(d1@, 97127604270));
        lemma_state_scale(d1@, dt as int, 97127604270, DT_MAX as int);
        assert((97127604270 * (DT_MAX as int)) / one + 1 <= 972000000);
    }
    let k1 = d1.scale(dt);
    proof {
        lemma_state_scale(k1@, FX_HALF as int, 972000000, FX_HALF as int);
        assert((972000000 * (FX_HALF as int)) / one + 1 <= 486000001);
    }
    let k1h = k1.scale(FX_HALF);
    let s2 = state.add(k1h);
    proof {
        lemma_wsq_bounds(s2@, 586700000);
        assert((586700000int * 586700000) / one <= 20520000000);
        lemma_dynamics_bounds(s2@, params@, 20520000000);
    }
    let d2 = derivative(&s2, params);
    proof {
        assert(fields_bounded(d2@, 1073012595246));
        lemma_state_scale(d2@, dt as int, 1073012595246, DT_MAX as int);
        assert((1073012595246 * (DT_MAX as int)) / one + 1 <= 10735000000);
    }
    let k2 = d2.scale(dt);
    proof {
        lemma_state_scale(k2@, FX_HALF as int, 10735000000, FX_HALF as int);
        assert((10735000000 * (FX_HALF as int)) / one + 1 <= 5367500001);
    }
    let k2h = k2.scale(FX_HALF);
    let s3 = state.add(k2h);
    proof {
        lemma_wsq_bounds(s3@, 5468200000);
        assert((5468200000int * 5468200000) / one <= 1783000000000);
        lemma_dynamics_bounds(s3@, params@, 1783000000000);
    }
    let d3 = derivative(&s3, params);
    proof {
        assert(fields_bounded(d3@, 87434532595246));
        lemma_state_scale(d3@, dt as int, 87434532595246, DT_MAX as int);
        assert((87434532595246 * (DT_MAX as int)) / one + 1 <= 874500000000);
    }
    let k3 = d3.scale(dt);
    let s4 = state.add(k3);
    proof {
        lemma_wsq_bounds(s4@, 874700000000);
        assert((874700000000int * 874700000000) / one <= 45610000000000000);
        lemma_dynamics_bounds(s4@, params@, 45610000000000000);
    }
    let d4 = derivative(&s4, params);
    proof {
        assert(fields_bounded(d4@, 2234890067532595246));
        lemma_state_scale(d4@, dt as int, 2234890067532595246, DT_MAX as int);
        assert((2234890067532595246 * (DT_MAX as int)) / one + 1 <= 22355000000000000);
    }
    let k4 = d4.scale(dt);
    proof {
        lemma_state_scale(k2@, FX_TWO as int, 10735000000, FX_TWO as int);
        assert((10735000000 * (FX_TWO as int)) / one + 1 <= 21470000001);
        lemma_state_scale(k3@, FX_TWO as int, 874500000000, FX_TWO as int);
        assert((874500000000 * (FX_TWO as int)) / one + 1 <= 1749000000001);
    }
    let k2x = k2.scale(FX_TWO);
    let k3x = k3.scale(FX_TWO);
    let ksum = k1.add(k2x).add(k3x).add(k4);
    proof {
        assert(fields_bounded(ksum@, 22360000000000000));
        lemma_state_divide(ksum@, FX_SIX as int, 22360000000000000);
        assert((22360000000000000 * one) / (FX_SIX as int) + 1 <= 3730000000000000);
    }
    let kavg = ksum.divide(FX_SIX);
    let next = state.add(kavg);
    proof {
        if dt == 0 {
            lemma_zero_step(state@, params@);
        }
    }
    next
}

/// Advances the state by one step after checking, at run time, that the
/// state and the increment lie in the supported domain: the step is taken
/// if and only if they do.
pub fn step_checked(state: &State, params: &Params, dt: i64) -> (r: Option<State>)
    requires
        params_wf(params@),
    ensures
        match r {
            Some(n) => state_bounded(state@, THETA_STEP as int, OMEGA_STEP as int)
                && -(DT_MAX as int) <= dt <= DT_MAX as int && n@ == step_spec(
                state@,
                params@,
                dt as int,
            ),
            None => !(state_bounded(state@, THETA_STEP as int, OMEGA_STEP as int) && -(DT_MAX
                as int) <= dt <= DT_MAX as int),
        },
{
    let in_domain: bool = -THETA_STEP <= state.theta_1 && state.theta_1 <= THETA_STEP
        && -THETA_STEP <= state.theta_2 && state.theta_2 <= THETA_STEP && -OMEGA_STEP
        <= state.dot_theta_1 && state.dot_theta_1 <= OMEGA_STEP && -OMEGA_STEP
        <= state.dot_theta_2 && state.dot_theta_2 <= OMEGA_STEP && -DT_MAX <= dt && dt <= DT_MAX;
    if in_domain {
        Some(step(state, params, dt))
    } else {
        None
    }
}

} // verus!
