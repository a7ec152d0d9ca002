//! A planar double-pendulum simulation core, verified with Verus.
//!
//! The dynamical quantities (angles, angular velocities, lengths, masses,
//! the gravitational constant and the time increment) are represented in a
//! signed fixed-point format with 24 fractional bits, so that every
//! operation of the integrator has an exact integer semantics that the
//! verifier can reason about.
//!
//! The crate is organised leaf-first:
//! - `fixed`: the fixed-point scalar operations and their arithmetic laws,
//! - `trig`: polynomial sine and cosine on fixed-point angles,
//! - `state`: the four-dimensional state vector and its algebra,
//! - `dynamics`: the equations of motion of the coupled pendulum,
//! - `integrator`: the classical fourth-order Runge-Kutta step,
//! - `simulation`: the owning context that holds one state and one
//!   configuration and replaces the state each tick,
//! - `cartesian`: the polar-to-Cartesian projection used for display.

pub mod cartesian;
pub mod dynamics;
pub mod fixed;
pub mod integrator;
pub mod simulation;
pub mod state;
pub mod trig;
