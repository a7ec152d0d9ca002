//! The polar-to-Cartesian projection used to display the pendulum.
//!
//! The angle zero points straight down, so a link of length `r` at angle
//! `theta` ends at `x = r * sin(theta)`, `y = -r * cos(theta)`. The second
//! bob's absolute position is the first bob's position plus its own
//! relative offset. The sign and rotation convention here is exactly the
//! one the equations of motion use.

use crate::fixed::fx_mul_spec;
use crate::fixed::fx_mul;
use crate::fixed::lemma_fx_mul_bound;
use crate::fixed::lemma_fx_mul_in_range;
use crate::fixed::lemma_fx_mul_one;
use crate::fixed::FX_ONE;
use crate::state::params_wf;
use crate::state::Params;
use crate::state::State;
use crate::trig::cos_fx_spec;
use crate::trig::cos_fx;
use crate::trig::lemma_cos_fx_bounds;
use crate::trig::lemma_cos_fx_one;
use crate::trig::lemma_sin_fx_bounds;
use crate::trig::lemma_sin_fx_zero;
use crate::trig::sin_fx_spec;
use crate::trig::sin_fx;
use crate::trig::FX_SIN_BOUND;
use vstd::arithmetic::div_mod::lemma_div_is_ordered;
use vstd::arithmetic::div_mod::lemma_div_multiples_vanish;
use vstd::prelude::*;

verus! {

/// The largest link length the projection accepts.
pub const RADIUS_MAX: i64 = 300000000000000000;

/// A point of the display plane, in fixed-point coordinates.
#[derive(Clone, Copy, PartialEq, Eq, Structural, Debug)]
pub struct Cartesian {
    pub x: i64,
    pub y: i64,
}

/// The horizontal coordinate of the projection: `r * sin(theta)`.
pub open spec fn cartesian_x_spec(r: int, theta: int) -> int {
    fx_mul_spec(r, sin_fx_spec(theta))
}

/// The vertical coordinate of the projection: `-r * cos(theta)`, negative
/// below the pivot.
pub open spec fn cartesian_y_spec(r: int, theta: int) -> int {
    -fx_mul_spec(r, cos_fx_spec(theta))
}

/// Maps a link length and an angle to plane coordinates, with the angle
/// zero pointing straight down.
pub fn to_cartesian(r: i64, theta: i64) -> (c: Cartesian)
    requires
        0 <= r <= RADIUS_MAX as int,
    ensures
        c.x == cartesian_x_spec(r as int, theta as int),
        c.y == cartesian_y_spec(r as int, theta as int),
        -(2 * (r as int) + 1) <= c.x <= 2 * (r as int) + 1,
        -((r as int) + 1) <= c.y <= (r as int) + 1,
{
    let ghost one: int = FX_ONE as int;
    proof {
        lemma_sin_fx_bounds(theta as int);
        lemma_cos_fx_bounds(theta as int);
        lemma_fx_mul_in_range(
            r as int,
            sin_fx_spec(theta as int),
            RADIUS_MAX as int,
            FX_SIN_BOUND as int,
        );
        lemma_fx_mul_in_range(r as int, cos_fx_spec(theta as int), RADIUS_MAX as int, one);
        lemma_fx_mul_bound(r as int, sin_fx_spec(theta as int), r as int, FX_SIN_BOUND as int);
        lemma_fx_mul_bound(r as int, cos_fx_spec(theta as int), r as int, one);
        assert((r as int) * (FX_SIN_BOUND as int) <= one * (2 * (r as int)));
        lemma_div_is_ordered((r as int) * (FX_SIN_BOUND as int), one * (2 * (r as int)), one);
        lemma_div_multiples_vanish(2 * (r as int), one);
        lemma_div_multiples_vanish(r as int, one);
        assert((r as int) * one == one * (r as int));
    }
    let sx: i64 = sin_fx(theta);
    let cy: i64 = cos_fx(theta);
    let x: i64 = fx_mul(r, sx);
    let yn: i64 = fx_mul(r, cy);
    Cartesian { x, y: -yn }
}

/// The positions of the two bobs: the first at the end of the first link,
/// the second offset from the first by the second link.
pub fn bob_positions(state: &State, params: &Params) -> (r: (Cartesian, Cartesian))
    requires
        params_wf(params@),
    ensures
        r.0.x == cartesian_x_spec(params@.l1, state@.theta_1),
        r.0.y == cartesian_y_spec(params@.l1, state@.theta_1),
        r.1.x == r.0.x + cartesian_x_spec(params@.l2, state@.theta_2),
        r.1.y == r.0.y + cartesian_y_spec(params@.l2, state@.theta_2),
{
    let p1 = to_cartesian(params.l1, state.theta_1);
    let p2 = to_cartesian(params.l2, state.theta_2);
    (p1, Cartesian { x: p1.x + p2.x, y: p1.y + p2.y })
}

/// Law: at angle zero every length projects to the point straight below
/// the pivot, `(0, -r)`, exactly.
pub proof fn lemma_straight_down(r: int)
    ensures
        cartesian_x_spec(r, 0) == 0,
        cartesian_y_spec(r, 0) == -r,
{
    lemma_sin_fx_zero();
    lemma_cos_fx_one();
    assert(fx_mul_spec(r, 0) == 0);
    lemma_fx_mul_one(r);
}

} // verus!
