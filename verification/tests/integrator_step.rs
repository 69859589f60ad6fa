use tabular_rl::environment::pendulum::Pendulum;
use tabular_rl::environment::Environment;
use tabular_rl::environment::cartpole::Cartpole;
use tabular_rl::fixed::{Fx, PI_BITS};
use tabular_rl::integrator::rk4_step;

fn fx(bits: i64) -> Fx {
    Fx { bits }
}

fn test_pendulum(g_over_l: i64) -> Pendulum {
    Pendulum {
        actions: vec![fx(-1_000_000), fx(1_000_000)],
        theta_bounds: (fx(-PI_BITS), fx(PI_BITS)),
        thetadot_bounds: (fx(-8_000_000), fx(8_000_000)),
        theta_space: 8,
        thetadot_space: 8,
        s_space: 64,
        g: fx(0),
        l: fx(1_000_000),
        m: fx(1_000_000),
        g_over_l: fx(g_over_l),
        ml2: fx(1_000_000),
        tau: fx(20_000),
        init_state: vec![fx(PI_BITS / 3), fx(0)],
        s: vec![fx(PI_BITS / 3), fx(0)],
    }
}

fn test_cartpole() -> Cartpole {
    // a massless pole: the cart moves under the applied force alone
    Cartpole {
        actions: vec![fx(-1_500_000), fx(1_500_000)],
        x_bounds: (fx(-2_000_000), fx(2_000_000)),
        theta_bounds: (fx(-PI_BITS), fx(PI_BITS)),
        xdot_bounds: (fx(-3_000_000), fx(3_000_000)),
        thetadot_bounds: (fx(-8_000_000), fx(8_000_000)),
        x_space: 4,
        theta_space: 4,
        xdot_space: 4,
        thetadot_space: 4,
        s_space: 256,
        g: fx(9_806_650),
        m: fx(0),
        l: fx(500_000),
        ml: fx(0),
        mass: fx(1_000_000),
        tau: fx(20_000),
        init_state: vec![fx(0), fx(PI_BITS), fx(0), fx(0)],
        s: vec![fx(0), fx(PI_BITS), fx(0), fx(0)],
    }
}

#[test]
fn a_zero_derivative_leaves_the_state_unchanged() {
    // gravity off and no torque: the pendulum's derivative is identically
    // zero, so one step returns the state exactly, whatever the step size
    let p = test_pendulum(0);
    let s0 = vec![fx(777_777), fx(-123_456)];
    for dt in [fx(0), fx(1), fx(20_000), fx(1_000_000), fx(-50_000)] {
        let s1 = rk4_step(&p, &s0, fx(0), dt);
        assert_eq!(s1[0].bits, s0[0].bits);
        assert_eq!(s1[1].bits, s0[1].bits);
    }
}

#[test]
fn constant_acceleration_integrates_with_bounded_drift() {
    // with a massless pole, the cart's acceleration is the constant
    // (4*u/3) / (4*mass) = u/3 whatever the pole does; after n steps of
    // length tau the velocity must match u/3 * n * tau up to truncation
    let c = test_cartpole();
    let u = fx(1_500_000);
    let mut s = vec![fx(0), fx(0), fx(0), fx(0)];
    let steps: i64 = 100;
    for _ in 0..steps {
        s = rk4_step(&c, &s, u, c.tau);
    }
    // u/3 = 0.5; 0.5 * 100 * 0.02 = 1.0
    let expected: i64 = 1_000_000;
    let drift = (s[2].bits - expected).abs();
    assert!(drift < 2_000, "velocity drifted by {} millionths", drift);
}

#[test]
fn run_step_wraps_the_angle_exactly_once() {
    let mut p = test_pendulum(2_000_000);
    // start just below pi with a large angular velocity pushing it over
    p.s = vec![fx(PI_BITS - 100), fx(7_000_000)];
    p.run_step(1);
    let theta = p.s[0].bits;
    assert!(-PI_BITS <= theta && theta < PI_BITS);
}

#[test]
fn pendulum_reward_prefers_small_angles() {
    let mut p = test_pendulum(2_000_000);
    p.s = vec![fx(0), fx(0)];
    let at_zero = p.r().bits;
    p.s = vec![fx(PI_BITS / 2), fx(0)];
    let at_half_pi = p.r().bits;
    assert!(at_zero > at_half_pi);
    assert_eq!(at_zero, 1_570_796);
    assert_eq!(at_half_pi, 1_570_796 - PI_BITS / 2);
}

#[test]
fn cartpole_reward_penalizes_leaving_the_track() {
    let mut c = test_cartpole();
    c.s = vec![fx(2_000_001), fx(0), fx(0), fx(0)];
    assert_eq!(c.r().bits, -100_000_000);
    c.s = vec![fx(0), fx(0), fx(0), fx(0)];
    // upright centered cart: pi/2 shaping reward
    assert_eq!(c.r().bits, 1_570_796);
    c.s = vec![fx(1_000_000), fx(500_000), fx(0), fx(0)];
    // -|theta| + pi/2 - 0.01*|x|
    assert_eq!(c.r().bits, -500_000 + 1_570_796 - 10_000);
}
