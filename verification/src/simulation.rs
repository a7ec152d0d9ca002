//! The owning simulation context.
//!
//! A context owns exactly one current state and one immutable
//! configuration. Each tick replaces the state wholesale with the result
//! of one integration step — nothing is mutated field by field — so any
//! number of contexts can run side by side without sharing.

use crate::dynamics::state_bounded;
use crate::integrator::step_checked;
use crate::integrator::step_spec;
use crate::integrator::DT_MAX;
use crate::integrator::OMEGA_STEP;
use crate::integrator::THETA_STEP;
use crate::state::params_wf;
use crate::state::Params;
use crate::state::State;
use vstd::prelude::*;

verus! {

/// One live simulation: the current state and the per-run configuration.
pub struct Simulation {
    pub state: State,
    pub params: Params,
}

impl Simulation {
    /// Builds a context around a validated configuration and an initial
    /// state.
    pub fn new(state: State, params: Params) -> (r: Simulation)
        requires
            params_wf(params@),
        ensures
            r.state == state,
            r.params == params,
    {
        Simulation { state, params }
    }

    /// Advances the context by one tick. The state is replaced with the
    /// stepped state exactly when the current state and the increment lie
    /// in the supported domain; otherwise nothing changes and the tick
    /// reports failure. The configuration is never touched.
    pub fn tick(&mut self, dt: i64) -> (ok: bool)
        requires
            params_wf(old(self).params@),
        ensures
            final(self).params == old(self).params,
            ok <==> (state_bounded(old(self).state@, THETA_STEP as int, OMEGA_STEP as int)
                && -(DT_MAX as int) <= dt <= DT_MAX as int),
            ok ==> final(self).state@ == step_spec(old(self).state@, old(self).params@, dt as int),
            !ok ==> final(self).state == old(self).state,
    {
        match step_checked(&self.state, &self.params, dt) {
            Some(next) => {
                self.state = next;
                true
            },
            None => false,
        }
    }
}

} // verus!
