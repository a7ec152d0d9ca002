//! End-to-end tests of the pendulum core: the algebra laws on concrete
//! values, the fixed points of the dynamics, the projection convention,
//! the accuracy of the fixed-point trigonometry against the standard
//! library, and the energy behaviour of the integrator contrasted with an
//! explicit-Euler reference.

use double_pendulum::cartesian::bob_positions;
use double_pendulum::cartesian::to_cartesian;
use double_pendulum::dynamics::derivative;
use double_pendulum::fixed::FX_ONE;
use double_pendulum::integrator::step;
use double_pendulum::integrator::step_checked;
use double_pendulum::integrator::DT_MAX;
use double_pendulum::simulation::Simulation;
use double_pendulum::state::Params;
use double_pendulum::state::State;
use double_pendulum::trig::cos_fx;
use double_pendulum::trig::sin_fx;
use double_pendulum::trig::FX_HALF_PI;
use double_pendulum::trig::FX_PI;
use double_pendulum::trig::FX_TWO_PI;

const ONE_F: f64 = 16777216.0;

fn to_f(x: i64) -> f64 {
    x as f64 / ONE_F
}

fn to_fx(x: f64) -> i64 {
    (x * ONE_F).round() as i64
}

fn unit_params() -> Params {
    Params::new(FX_ONE, FX_ONE, FX_ONE, FX_ONE, 10 * FX_ONE).unwrap()
}

#[test]
fn fixed_point_constants_match_reference_values() {
    assert!((to_f(FX_PI) - std::f64::consts::PI).abs() < 1e-7);
    assert!((to_f(FX_TWO_PI) - 2.0 * std::f64::consts::PI).abs() < 1e-7);
    assert!((to_f(FX_HALF_PI) - std::f64::consts::FRAC_PI_2).abs() < 1e-7);
}

#[test]
fn params_new_accepts_exactly_the_supported_ranges() {
    assert!(Params::new(FX_ONE, FX_ONE, FX_ONE, FX_ONE, 10 * FX_ONE).is_some());
    assert!(Params::new(0, FX_ONE, FX_ONE, FX_ONE, 10 * FX_ONE).is_none());
    assert!(Params::new(FX_ONE, -FX_ONE, FX_ONE, FX_ONE, 10 * FX_ONE).is_none());
    assert!(Params::new(FX_ONE, FX_ONE, 100 * FX_ONE, FX_ONE, 10 * FX_ONE).is_none());
    assert!(Params::new(FX_ONE, FX_ONE, FX_ONE, FX_ONE, 0).is_none());
    assert!(Params::new(FX_ONE, FX_ONE, FX_ONE, FX_ONE, 40 * FX_ONE).is_none());
}

#[test]
fn sine_and_cosine_track_the_standard_library() {
    let angles: [f64; 10] = [0.0, 0.4, 1.3, 1.5707, 2.8, 3.9, -1.2, -3.3, 7.9, -100.5];
    for a in angles {
        let fx = to_fx(a);
        let s = to_f(sin_fx(fx));
        let c = to_f(cos_fx(fx));
        let af = to_f(fx);
        assert!((s - af.sin()).abs() < 1e-5, "sin({a}): {s} vs {}", af.sin());
        assert!((c - af.cos()).abs() < 1e-5, "cos({a}): {c} vs {}", af.cos());
    }
}

#[test]
fn projection_straight_down_is_exact() {
    for r in [1, FX_ONE / 2, FX_ONE, 2 * FX_ONE, 123456789] {
        let c = to_cartesian(r, 0);
        assert_eq!(c.x, 0);
        assert_eq!(c.y, -r);
    }
}

#[test]
fn projection_horizontal_within_tolerance() {
    let c = to_cartesian(FX_ONE, FX_HALF_PI);
    assert!((to_f(c.x) - 1.0).abs() < 1e-4);
    assert!(to_f(c.y).abs() < 1e-4);
}

#[test]
fn second_bob_chains_from_the_first() {
    let params = unit_params();
    let state = State::new(to_fx(0.9), to_fx(-0.4), 0, 0);
    let (p1, p2) = bob_positions(&state, &params);
    let q2 = to_cartesian(params.l2, state.theta_2);
    assert_eq!(p2.x, p1.x + q2.x);
    assert_eq!(p2.y, p1.y + q2.y);
}

#[test]
fn scale_linearity_for_whole_scalars() {
    let s = State::new(to_fx(0.37), to_fx(-1.91), to_fx(2.45), to_fx(-0.08));
    let a: i64 = 2 * FX_ONE;
    let b: i64 = 3 * FX_ONE;
    let whole = s.scale(a + b);
    let parts = s.scale(a).add(s.scale(b));
    assert_eq!(whole, parts);
}

#[test]
fn divide_undoes_scale_for_whole_scalars() {
    let s = State::new(to_fx(0.37), to_fx(-1.91), to_fx(2.45), to_fx(-0.08));
    for a in [2 * FX_ONE, 7 * FX_ONE, -3 * FX_ONE] {
        let back = s.scale(a).divide(a);
        assert_eq!(back, s);
    }
}

#[test]
fn derivative_at_rest_is_exactly_zero() {
    let params = unit_params();
    let rest = State::new(0, 0, 0, 0);
    let d = derivative(&rest, &params);
    assert_eq!(d, rest);
}

#[test]
fn derivative_matches_a_float_reference() {
    let params = Params::new(FX_ONE, to_fx(0.8), to_fx(1.2), to_fx(0.7), to_fx(9.81)).unwrap();
    let state = State::new(to_fx(0.7), to_fx(-0.3), to_fx(1.1), to_fx(-2.2));
    let d = derivative(&state, &params);
    let (r1, r2, r3, r4) = deriv_f64(
        to_f(state.theta_1),
        to_f(state.theta_2),
        to_f(state.dot_theta_1),
        to_f(state.dot_theta_2),
        to_f(params.l1),
        to_f(params.l2),
        to_f(params.m1),
        to_f(params.m2),
        to_f(params.gravity),
    );
    assert!((to_f(d.theta_1) - r1).abs() < 1e-6);
    assert!((to_f(d.theta_2) - r2).abs() < 1e-6);
    assert!((to_f(d.dot_theta_1) - r3).abs() < 1e-3);
    assert!((to_f(d.dot_theta_2) - r4).abs() < 1e-3);
}

#[test]
fn zero_step_returns_the_state_unchanged() {
    let params = unit_params();
    let state = State::new(to_fx(1.0), to_fx(2.0), to_fx(0.5), to_fx(-0.25));
    let next = step(&state, &params, 0);
    assert_eq!(next, state);
}

#[test]
fn a_step_back_undoes_a_step_forward_within_tolerance() {
    let params = unit_params();
    let state = State::new(to_fx(1.0), to_fx(0.0), to_fx(0.2), to_fx(-0.1));
    let dt = to_fx(0.008);
    let forward = step(&state, &params, dt);
    let back = step(&forward, &params, -dt);
    assert!((back.theta_1 - state.theta_1).abs() < 5000);
    assert!((back.theta_2 - state.theta_2).abs() < 5000);
    assert!((back.dot_theta_1 - state.dot_theta_1).abs() < 5000);
    assert!((back.dot_theta_2 - state.dot_theta_2).abs() < 5000);
}

#[test]
fn step_checked_accepts_exactly_the_supported_domain() {
    let params = unit_params();
    let state = State::new(to_fx(1.0), 0, 0, 0);
    assert!(step_checked(&state, &params, to_fx(0.01)).is_some());
    assert!(step_checked(&state, &params, DT_MAX + 1).is_none());
    let fast = State::new(to_fx(1.0), 0, to_fx(7.0), 0);
    assert!(step_checked(&fast, &params, to_fx(0.01)).is_none());
}

#[test]
fn a_tick_replaces_the_state_exactly_when_in_domain() {
    let params = unit_params();
    let state = State::new(to_fx(1.0), 0, 0, 0);
    let mut sim = Simulation::new(state, params);
    assert!(sim.tick(to_fx(0.01)));
    assert_eq!(sim.state, step(&state, &params, to_fx(0.01)));
    let stuck = sim.state;
    assert!(!sim.tick(DT_MAX + 1));
    assert_eq!(sim.state, stuck);
}

#[allow(clippy::too_many_arguments)]
fn deriv_f64(
    th1: f64,
    th2: f64,
    w1: f64,
    w2: f64,
    l1: f64,
    l2: f64,
    m1: f64,
    m2: f64,
    g: f64,
) -> (f64, f64, f64, f64) {
    let mu = m2 / m1;
    let lam = l2 / l1;
    let gam = g / l1;
    let dth = th1 - th2;
    let s = dth.sin();
    let c = dth.cos();
    let s1 = th1.sin();
    let s2 = th2.sin();
    let den = 1.0 + mu * s * s;
    let n1 = (mu + 1.0) * gam * s1 + mu * lam * w2 * w2 * s + mu * c * (w1 * w1 * s - gam * s2);
    let dd1 = -n1 / den;
    let n2 = (mu + 1.0) * (w1 * w1 * s - gam * s2) + c * ((mu + 1.0) * gam * s1 + mu * lam * w2 * w2 * s);
    let dd2 = n2 / (lam * den);
    (w1, w2, dd1, dd2)
}

fn energy(th1: f64, th2: f64, w1: f64, w2: f64, g: f64) -> f64 {
    // unit lengths and masses
    let kinetic = 0.5 * w1 * w1 + 0.5 * (w1 * w1 + w2 * w2 + 2.0 * w1 * w2 * (th1 - th2).cos());
    let potential = -2.0 * g * th1.cos() - g * th2.cos();
    kinetic + potential
}

#[test]
fn energy_drift_stays_small_and_euler_drifts_more() {
    let params = unit_params();
    let g = 10.0;
    let dt_fx = to_fx(0.01);
    let dt = 0.01;
    let steps: u32 = 1000;

    // the fixed-point Runge-Kutta trajectory
    let mut state = State::new(FX_ONE, 0, 0, 0);
    let e0 = energy(to_f(state.theta_1), to_f(state.theta_2), 0.0, 0.0, g);
    let scale = 9.19;  // the initial potential energy above the rest position
    let mut worst: f64 = 0.0;
    for _ in 0..steps {
        state = step_checked(&state, &params, dt_fx).expect("state left the supported domain");
        let e = energy(
            to_f(state.theta_1),
            to_f(state.theta_2),
            to_f(state.dot_theta_1),
            to_f(state.dot_theta_2),
            g,
        );
        let drift = (e - e0).abs();
        if drift > worst {
            worst = drift;
        }
    }
    assert!(worst < 0.01 * scale, "Runge-Kutta drift too large: {worst}");

    // the explicit-Euler reference, in double precision
    let (mut th1, mut th2, mut w1, mut w2) = (1.0f64, 0.0f64, 0.0f64, 0.0f64);
    let mut euler_worst: f64 = 0.0;
    for _ in 0..steps {
        let (d1, d2, d3, d4) = deriv_f64(th1, th2, w1, w2, 1.0, 1.0, 1.0, 1.0, g);
        th1 += d1 * dt;
        th2 += d2 * dt;
        w1 += d3 * dt;
        w2 += d4 * dt;
        let e = energy(th1, th2, w1, w2, g);
        let drift = (e - e0).abs();
        if drift > euler_worst {
            euler_worst = drift;
        }
    }
    assert!(
        euler_worst > 10.0 * worst,
        "Euler should drift materially more: euler {euler_worst} vs rk4 {worst}"
    );
}
