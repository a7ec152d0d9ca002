//! The four-dimensional state vector of the pendulum and its algebra.
//!
//! The state holds the two link angles and their angular velocities as
//! fixed-point scalars. The algebra offers exactly the three operations the
//! Runge-Kutta integrator needs: scalar multiply, scalar divide, and
//! element-wise addition. Contracts are stated over an integer model of the
//! state, and the laws of the algebra are proved at the end of the module.

use crate::fixed::fx_div_ok;
use crate::fixed::fx_div_spec;
use crate::fixed::fx_div;
use crate::fixed::fx_mul_ok;
use crate::fixed::fx_mul_spec;
use crate::fixed::fx_mul;
use crate::fixed::lemma_fx_mul_add_scalar;
use crate::fixed::lemma_fx_mul_div_cancel;
use crate::fixed::FX_ONE;
use vstd::prelude::*;

verus! {

/// The smallest supported length or mass: one half, in fixed point.
pub const PARAM_MIN: i64 = 8388608;

/// The largest supported length or mass: two, in fixed point.
pub const PARAM_MAX: i64 = 33554432;

/// The largest supported gravitational acceleration: thirty-two, in fixed
/// point.
pub const GRAVITY_MAX: i64 = 536870912;

/// The mathematical model of a state vector: its four scalars as unbounded
/// integers.
pub struct StateModel {
    pub theta_1: int,
    pub theta_2: int,
    pub dot_theta_1: int,
    pub dot_theta_2: int,
}

/// The dynamical state of the pendulum at an instant: angular
/// displacements of the two links, in fixed-point radians measured from
/// the downward vertical, and their angular velocities. Angles are kept
/// unwrapped so a trajectory stays continuous across whole turns.
#[derive(Clone, Copy, PartialEq, Eq, Structural, Debug)]
pub struct State {
    pub theta_1: i64,
    pub theta_2: i64,
    pub dot_theta_1: i64,
    pub dot_theta_2: i64,
}

impl View for State {
    type V = StateModel;

    open spec fn view(&self) -> StateModel {
        StateModel {
            theta_1: self.theta_1 as int,
            theta_2: self.theta_2 as int,
            dot_theta_1: self.dot_theta_1 as int,
            dot_theta_2: self.dot_theta_2 as int,
        }
    }
}

/// The mathematical model of the physical parameters as unbounded
/// integers.
pub struct ParamsModel {
    pub l1: int,
    pub l2: int,
    pub m1: int,
    pub m2: int,
    pub gravity: int,
}

/// The immutable per-run configuration: link lengths, link point-masses
/// and the gravitational acceleration, all fixed-point scalars, created
/// once and never mutated.
#[derive(Clone, Copy, PartialEq, Eq, Structural, Debug)]
pub struct Params {
    pub l1: i64,
    pub l2: i64,
    pub m1: i64,
    pub m2: i64,
    pub gravity: i64,
}

impl View for Params {
    type V = ParamsModel;

    open spec fn view(&self) -> ParamsModel {
        ParamsModel {
            l1: self.l1 as int,
            l2: self.l2 as int,
            m1: self.m1 as int,
            m2: self.m2 as int,
            gravity: self.gravity as int,
        }
    }
}

/// Well-formed parameters: lengths and masses strictly positive and within
/// the range the fixed-point format supports, gravity positive and
/// bounded. Outside these ranges the equations of motion are physically
/// meaningless or exceed the machine word.
pub open spec fn params_wf(p: ParamsModel) -> bool {
    &&& PARAM_MIN as int <= p.l1 <= PARAM_MAX as int
    &&& PARAM_MIN as int <= p.l2 <= PARAM_MAX as int
    &&& PARAM_MIN as int <= p.m1 <= PARAM_MAX as int
    &&& PARAM_MIN as int <= p.m2 <= PARAM_MAX as int
    &&& 1 <= p.gravity <= GRAVITY_MAX as int
}

impl Params {
    /// Validates the configuration once, at construction time, exactly as
    /// the contract of the core demands of its caller: the result exists
    /// if and only if every parameter is in the supported range.
    pub fn new(l1: i64, l2: i64, m1: i64, m2: i64, gravity: i64) -> (r: Option<Params>)
        ensures
            match r {
                Some(p) => params_wf(p@) && p@ == (ParamsModel {
                    l1: l1 as int,
                    l2: l2 as int,
                    m1: m1 as int,
                    m2: m2 as int,
                    gravity: gravity as int,
                }),
                None => !params_wf(
                    ParamsModel {
                        l1: l1 as int,
                        l2: l2 as int,
                        m1: m1 as int,
                        m2: m2 as int,
                        gravity: gravity as int,
                    },
                ),
            },
    {
        if PARAM_MIN <= l1 && l1 <= PARAM_MAX && PARAM_MIN <= l2 && l2 <= PARAM_MAX && PARAM_MIN
            <= m1 && m1 <= PARAM_MAX && PARAM_MIN <= m2 && m2 <= PARAM_MAX && 1 <= gravity
            && gravity <= GRAVITY_MAX {
            Some(Params { l1, l2, m1, m2, gravity })
        } else {
            None
        }
    }
}

/// Every field multiplied by the scalar.
pub open spec fn scale_spec(s: StateModel, k: int) -> StateModel {
    StateModel {
        theta_1: fx_mul_spec(s.theta_1, k),
        theta_2: fx_mul_spec(s.theta_2, k),
        dot_theta_1: fx_mul_spec(s.dot_theta_1, k),
        dot_theta_2: fx_mul_spec(s.dot_theta_2, k),
    }
}

/// Every field divided by the scalar.
pub open spec fn divide_spec(s: StateModel, k: int) -> StateModel {
    StateModel {
        theta_1: fx_div_spec(s.theta_1, k),
        theta_2: fx_div_spec(s.theta_2, k),
        dot_theta_1: fx_div_spec(s.dot_theta_1, k),
        dot_theta_2: fx_div_spec(s.dot_theta_2, k),
    }
}

/// The element-wise sum of two states.
pub open spec fn add_spec(a: StateModel, b: StateModel) -> StateModel {
    StateModel {
        theta_1: a.theta_1 + b.theta_1,
        theta_2: a.theta_2 + b.theta_2,
        dot_theta_1: a.dot_theta_1 + b.dot_theta_1,
        dot_theta_2: a.dot_theta_2 + b.dot_theta_2,
    }
}

impl State {
    /// Builds a state from its four scalars.
    pub fn new(theta_1: i64, theta_2: i64, dot_theta_1: i64, dot_theta_2: i64) -> (r: State)
        ensures
            r@ == (StateModel {
                theta_1: theta_1 as int,
                theta_2: theta_2 as int,
                dot_theta_1: dot_theta_1 as int,
                dot_theta_2: dot_theta_2 as int,
            }),
    {
        State { theta_1, theta_2, dot_theta_1, dot_theta_2 }
    }

    /// Multiplies every field by the scalar, rounding toward negative
    /// infinity.
    pub fn scale(self, k: i64) -> (r: State)
        requires
            fx_mul_ok(self.theta_1 as int, k as int),
            fx_mul_ok(self.theta_2 as int, k as int),
            fx_mul_ok(self.dot_theta_1 as int, k as int),
            fx_mul_ok(self.dot_theta_2 as int, k as int),
        ensures
            r@ == scale_spec(self@, k as int),
    {
        State {
            theta_1: fx_mul(self.theta_1, k),
            theta_2: fx_mul(self.theta_2, k),
            dot_theta_1: fx_mul(self.dot_theta_1, k),
            dot_theta_2: fx_mul(self.dot_theta_2, k),
        }
    }

    /// Divides every field by the scalar, which the caller must guarantee
    /// to be nonzero.
    pub fn divide(self, k: i64) -> (r: State)
        requires
            k != 0,
            fx_div_ok(self.theta_1 as int, k as int),
            fx_div_ok(self.theta_2 as int, k as int),
            fx_div_ok(self.dot_theta_1 as int, k as int),
            fx_div_ok(self.dot_theta_2 as int, k as int),
        ensures
            r@ == divide_spec(self@, k as int),
    {
        State {
            theta_1: fx_div(self.theta_1, k),
            theta_2: fx_div(self.theta_2, k),
            dot_theta_1: fx_div(self.dot_theta_1, k),
            dot_theta_2: fx_div(self.dot_theta_2, k),
        }
    }

    /// Adds the two states element-wise.
    pub fn add(self, other: State) -> (r: State)
        requires
            i64::MIN <= self.theta_1 + other.theta_1 <= i64::MAX,
            i64::MIN <= self.theta_2 + other.theta_2 <= i64::MAX,
            i64::MIN <= self.dot_theta_1 + other.dot_theta_1 <= i64::MAX,
            i64::MIN <= self.dot_theta_2 + other.dot_theta_2 <= i64::MAX,
        ensures
            r@ == add_spec(self@, other@),
    {
        State {
            theta_1: self.theta_1 + other.theta_1,
            theta_2: self.theta_2 + other.theta_2,
            dot_theta_1: self.dot_theta_1 + other.dot_theta_1,
            dot_theta_2: self.dot_theta_2 + other.dot_theta_2,
        }
    }
}

/// Law of the algebra: scaling a state by a sum of scalars equals adding
/// the state scaled by each, whenever no field's two rounding remainders
/// carry into a whole unit. The hypothesis is exactly the boundary of the
/// law in this rounded arithmetic; it holds in particular for scalars that
/// are whole multiples of the unit.
pub proof fn lemma_scale_linearity(s: StateModel, a: int, b: int)
    requires
        (s.theta_1 * a) % (FX_ONE as int) + (s.theta_1 * b) % (FX_ONE as int) < FX_ONE as int,
        (s.theta_2 * a) % (FX_ONE as int) + (s.theta_2 * b) % (FX_ONE as int) < FX_ONE as int,
        (s.dot_theta_1 * a) % (FX_ONE as int) + (s.dot_theta_1 * b) % (FX_ONE as int) < FX_ONE
            as int,
        (s.dot_theta_2 * a) % (FX_ONE as int) + (s.dot_theta_2 * b) % (FX_ONE as int) < FX_ONE
            as int,
    ensures
        scale_spec(s, a + b) == add_spec(scale_spec(s, a), scale_spec(s, b)),
{
    lemma_fx_mul_add_scalar(s.theta_1, a, b);
    lemma_fx_mul_add_scalar(s.theta_2, a, b);
    lemma_fx_mul_add_scalar(s.dot_theta_1, a, b);
    lemma_fx_mul_add_scalar(s.dot_theta_2, a, b);
}

/// Law of the algebra: dividing a scaled state by the same nonzero scalar
/// returns the original state, whenever each field's product is exactly
/// representable. The divisibility hypothesis is exactly the boundary of
/// the law in this rounded arithmetic; it holds in particular for scalars
/// that are whole multiples of the unit.
pub proof fn lemma_scale_divide_roundtrip(s: StateModel, a: int)
    requires
        a != 0,
        (s.theta_1 * a) % (FX_ONE as int) == 0,
        (s.theta_2 * a) % (FX_ONE as int) == 0,
        (s.dot_theta_1 * a) % (FX_ONE as int) == 0,
        (s.dot_theta_2 * a) % (FX_ONE as int) == 0,
    ensures
        divide_spec(scale_spec(s, a), a) == s,
{
    lemma_fx_mul_div_cancel(s.theta_1, a);
    lemma_fx_mul_div_cancel(s.theta_2, a);
    lemma_fx_mul_div_cancel(s.dot_theta_1, a);
    lemma_fx_mul_div_cancel(s.dot_theta_2, a);
}

} // verus!
