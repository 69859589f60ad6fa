//! The pendulum environment: a single driven pendulum.
//!
//! The raw state is the vector `[theta, thetadot]`; each step integrates the
//! pendulum equation with the shared Runge-Kutta combinator and wraps the
//! angle once. Like the cart-pole, the episode never terminates on its own.

use crate::bins::{digitize, digitize_v, lemma_mixed_radix};
use crate::config::{fx_key_v, lookup_v, usize_key_v, Config, ConfigError};
use crate::environment::{copy_state, fmt_pair, Environment};
use crate::fixed::{
    bits_of, fx_abs, fx_abs_v, fx_add, fx_add_v, fx_cos, fx_cos_v, fx_div, fx_div_v, fx_divn,
    fx_divn_v, fx_mul, fx_mul_v, fx_neg, fx_neg_v, fx_sin, fx_sin_v, norm_v, normalize, Fx,
    HALF_PI_BITS, PI_BITS, SCALE,
};
use crate::integrator::{rk4_step, rk4_v, Dynamics};
use vstd::prelude::*;

verus! {

/// The configuration values a pendulum needs: two action torques, ordered
/// bounds and a bin count in range for both dimensions, physical constants
/// with a nonzero length and a nonzero mass-length term, and a frame rate.
pub open spec fn pendulum_config_ok(cfg: Seq<(Seq<char>, Seq<char>)>) -> bool {
    &&& fx_key_v(cfg, "ENV_ACTION_LEFT"@) is Some
    &&& fx_key_v(cfg, "ENV_ACTION_RIGHT"@) is Some
    &&& match (fx_key_v(cfg, "ENV_THETA_LEFT"@), fx_key_v(cfg, "ENV_THETA_RIGHT"@)) {
        (Some(a), Some(b)) => a < b,
        _ => false,
    }
    &&& match (fx_key_v(cfg, "ENV_THETADOT_LEFT"@), fx_key_v(cfg, "ENV_THETADOT_RIGHT"@)) {
        (Some(a), Some(b)) => a < b,
        _ => false,
    }
    &&& match (usize_key_v(cfg, "ENV_THETA_SPACE"@), usize_key_v(cfg, "ENV_THETADOT_SPACE"@)) {
        (Some(tn), Some(tdn)) => 3 <= tn <= 100_000_000 && 3 <= tdn <= 100_000_000 && tn * tdn
            <= usize::MAX as int,
        _ => false,
    }
    &&& match (fx_key_v(cfg, "ENV_G"@), fx_key_v(cfg, "ENV_LENGTH"@), fx_key_v(
        cfg,
        "ENV_MASS"@,
    )) {
        (Some(g), Some(l), Some(m)) => l != 0 && fx_mul_v(m, fx_mul_v(l, l)) != 0,
        _ => false,
    }
    &&& match usize_key_v(cfg, "ENV_FPS"@) {
        Some(f) => 1 <= f <= 1_000_000_000,
        None => false,
    }
}

pub struct Pendulum {
    pub actions: Vec<Fx>,
    pub theta_bounds: (Fx, Fx),
    pub thetadot_bounds: (Fx, Fx),
    pub theta_space: usize,
    pub thetadot_space: usize,
    pub s_space: usize,
    pub g: Fx,
    pub l: Fx,
    pub m: Fx,
    pub g_over_l: Fx,
    pub ml2: Fx,
    pub tau: Fx,
    pub init_state: Vec<Fx>,
    pub s: Vec<Fx>,
}

impl Pendulum {
    /// The invariant: ordered bounds, bin counts in range, the cached state
    /// space equal to the product of the two bin counts, two-dimensional
    /// state vectors, and a nonzero mass-length term.
    pub open spec fn pend_wf(&self) -> bool {
        &&& self.actions@.len() >= 1
        &&& self.theta_bounds.0@ < self.theta_bounds.1@
        &&& self.thetadot_bounds.0@ < self.thetadot_bounds.1@
        &&& 3 <= self.theta_space <= 100_000_000
        &&& 3 <= self.thetadot_space <= 100_000_000
        &&& self.s_space as int == self.theta_space as int * self.thetadot_space as int
        &&& self.s@.len() == 2
        &&& self.init_state@.len() == 2
        &&& self.ml2@ != 0
    }

    /// All fields but the raw state are shared between `self` and `next`.
    pub open spec fn same_but_state(&self, next: &Pendulum) -> bool {
        &&& next.actions == self.actions
        &&& next.theta_bounds == self.theta_bounds
        &&& next.thetadot_bounds == self.thetadot_bounds
        &&& next.theta_space == self.theta_space
        &&& next.thetadot_space == self.thetadot_space
        &&& next.s_space == self.s_space
        &&& next.g == self.g
        &&& next.l == self.l
        &&& next.m == self.m
        &&& next.g_over_l == self.g_over_l
        &&& next.ml2 == self.ml2
        &&& next.tau == self.tau
        &&& next.init_state == self.init_state
    }
}

/// The wrap of the angular component: the angle is the first entry of the
/// pendulum state vector.
pub open spec fn wrap_theta0_v(s: Seq<int>) -> Seq<int> {
    s.update(0, norm_v(s[0]))
}

impl Dynamics for Pendulum {
    open spec fn dyn_wf(&self) -> bool {
        self.ml2@ != 0
    }

    open spec fn dim_v(&self) -> int {
        2
    }

    /// The pendulum equation: the derivative of `[theta, thetadot]` under
    /// the torque `u`.
    open spec fn deriv_v(&self, st: Seq<int>, u: int) -> Seq<int> {
        let theta = st[0];
        let d0 = fx_add_v(
            fx_mul_v(fx_neg_v(self.g_over_l@), fx_cos_v(theta)),
            fx_div_v(fx_mul_v(u, theta), self.ml2@),
        );
        let d1 = fx_add_v(fx_mul_v(self.g_over_l@, fx_sin_v(theta)), fx_div_v(u, self.ml2@));
        seq![d0, d1]
    }

    fn dim(&self) -> (n: usize) {
        2
    }

    fn deriv(&self, st: &Vec<Fx>, u: Fx) -> (k: Vec<Fx>) {
        let theta = st[0];
        let d0 = fx_add(
            fx_mul(fx_neg(self.g_over_l), fx_cos(theta)),
            fx_div(fx_mul(u, theta), self.ml2),
        );
        let d1 = fx_add(fx_mul(self.g_over_l, fx_sin(theta)), fx_div(u, self.ml2));
        let mut k: Vec<Fx> = Vec::new();
        k.push(d0);
        k.push(d1);
        proof {
            assert(bits_of(k@) =~= self.deriv_v(bits_of(st@), u@));
        }
        k
    }
}

impl Environment for Pendulum {
    open spec fn wf(&self) -> bool {
        self.pend_wf()
    }

    open spec fn s_space_v(&self) -> int {
        self.s_space as int
    }

    open spec fn a_space_v(&self) -> int {
        self.actions@.len() as int
    }

    /// The mixed-radix combination of the two per-dimension bin indices.
    open spec fn s_v(&self) -> int {
        let ti = digitize_v(
            self.theta_bounds.0@,
            self.theta_bounds.1@,
            self.theta_space as int,
            self.s@[0]@,
        );
        let tdi = digitize_v(
            self.thetadot_bounds.0@,
            self.thetadot_bounds.1@,
            self.thetadot_space as int,
            self.s@[1]@,
        );
        ti * self.thetadot_space as int + tdi
    }

    /// The shaping reward: high when the pendulum hangs near angle zero.
    open spec fn r_v(&self) -> int {
        fx_add_v(fx_neg_v(fx_abs_v(self.s@[0]@)), HALF_PI_BITS as int)
    }

    open spec fn done_v(&self) -> bool {
        false
    }

    open spec fn success_v(&self) -> bool {
        false
    }

    /// One control step: the Runge-Kutta move under the chosen action's
    /// torque, with the angle wrapped once afterwards.
    open spec fn step_rel(&self, a: int, next: Pendulum) -> bool {
        &&& self.same_but_state(&next)
        &&& next.s@.len() == 2
        &&& bits_of(next.s@) == wrap_theta0_v(
            rk4_v(self, bits_of(self.s@), self.actions@[a]@, self.tau@),
        )
    }

    open spec fn reset_rel(&self, next: Pendulum) -> bool {
        &&& self.same_but_state(&next)
        &&& next.s@ == self.init_state@
    }

    fn s_space(&self) -> (n: usize) {
        proof {
            assert(1 <= self.theta_space as int * self.thetadot_space as int) by (nonlinear_arith)
                requires
                    1 <= self.theta_space as int,
                    1 <= self.thetadot_space as int,
            ;
        }
        self.s_space
    }

    fn a_space(&self) -> (n: usize) {
        self.actions.len()
    }

    fn s(&self) -> (st: usize) {
        let ti = digitize(self.theta_bounds.0, self.theta_bounds.1, self.theta_space, self.s[0]);
        let tdi = digitize(
            self.thetadot_bounds.0,
            self.thetadot_bounds.1,
            self.thetadot_space,
            self.s[1],
        );
        proof {
            lemma_mixed_radix(ti as int, self.theta_space as int, tdi as int,
                self.thetadot_space as int);
        }
        ti * self.thetadot_space + tdi
    }

    fn r(&self) -> (rw: Fx) {
        fx_add(fx_neg(fx_abs(self.s[0])), Fx { bits: HALF_PI_BITS })
    }

    fn info(&self) -> (text: String) {
        fmt_pair(self.s[0].bits, self.s[1].bits)
    }

    fn reset(&mut self) {
        let fresh = copy_state(&self.init_state);
        self.s = fresh;
    }

    fn run_step(&mut self, a: usize) {
        let u = self.actions[a];
        let stepped = rk4_step(self, &self.s, u, self.tau);
        let wrapped = normalize(stepped[0]);
        let mut ns = stepped;
        ns[0] = wrapped;
        proof {
            assert(bits_of(ns@) =~= wrap_theta0_v(
                rk4_v(self, bits_of(old(self).s@), old(self).actions@[a as int]@, self.tau@),
            ));
        }
        self.s = ns;
    }

    fn is_done(&self) -> (d: bool) {
        false
    }

    fn is_success(&self) -> (d: bool) {
        false
    }
}

impl Pendulum {
    /// Builds a pendulum from a configuration; succeeds exactly on the
    /// values `pendulum_config_ok` accepts. The initial state hangs the
    /// pendulum at a third of pi with no angular velocity.
    pub fn new(config: &Config) -> (r: Result<Pendulum, ConfigError>)
        ensures
            r is Ok <==> pendulum_config_ok(config@),
            r matches Err(e) ==> match e {
                ConfigError::MissingKey(k) => lookup_v(config@, k@) is None,
                ConfigError::BadValue(k) => lookup_v(config@, k@) is Some,
                ConfigError::BadStructure(_) => true,
            },
            r matches Ok(p) ==> {
                &&& p.wf()
                &&& p.actions@.len() == 2
                &&& Some(p.actions@[0]@) == fx_key_v(config@, "ENV_ACTION_LEFT"@)
                &&& Some(p.actions@[1]@) == fx_key_v(config@, "ENV_ACTION_RIGHT"@)
                &&& Some(p.theta_bounds.0@) == fx_key_v(config@, "ENV_THETA_LEFT"@)
                &&& Some(p.theta_bounds.1@) == fx_key_v(config@, "ENV_THETA_RIGHT"@)
                &&& Some(p.thetadot_bounds.0@) == fx_key_v(config@, "ENV_THETADOT_LEFT"@)
                &&& Some(p.thetadot_bounds.1@) == fx_key_v(config@, "ENV_THETADOT_RIGHT"@)
                &&& Some(p.theta_space as int) == usize_key_v(config@, "ENV_THETA_SPACE"@)
                &&& Some(p.thetadot_space as int) == usize_key_v(config@, "ENV_THETADOT_SPACE"@)
                &&& Some(p.g@) == fx_key_v(config@, "ENV_G"@)
                &&& Some(p.l@) == fx_key_v(config@, "ENV_LENGTH"@)
                &&& Some(p.m@) == fx_key_v(config@, "ENV_MASS"@)
                &&& p.g_over_l@ == fx_div_v(p.g@, p.l@)
                &&& p.ml2@ == fx_mul_v(p.m@, fx_mul_v(p.l@, p.l@))
                &&& (match usize_key_v(config@, "ENV_FPS"@) {
                    Some(f) => p.tau@ == fx_div_v(SCALE as int, f * (SCALE as int)),
                    None => false,
                })
                &&& bits_of(p.init_state@) == seq![fx_divn_v(PI_BITS as int, 3), 0int]
                &&& p.s@ == p.init_state@
            },
    {
        let a_left = match config.get_fx("ENV_ACTION_LEFT") {
            Ok(v) => v,
            Err(e) => {
                return Err(e);
            },
        };
        let a_right = match config.get_fx("ENV_ACTION_RIGHT") {
            Ok(v) => v,
            Err(e) => {
                return Err(e);
            },
        };
        let t_lo = match config.get_fx("ENV_THETA_LEFT") {
            Ok(v) => v,
            Err(e) => {
                return Err(e);
            },
        };
        let t_hi = match config.get_fx("ENV_THETA_RIGHT") {
            Ok(v) => v,
            Err(e) => {
                return Err(e);
            },
        };
        let td_lo = match config.get_fx("ENV_THETADOT_LEFT") {
            Ok(v) => v,
            Err(e) => {
                return Err(e);
            },
        };
        let td_hi = match config.get_fx("ENV_THETADOT_RIGHT") {
            Ok(v) => v,
            Err(e) => {
                return Err(e);
            },
        };
        let theta_space = match config.get_usize("ENV_THETA_SPACE") {
            Ok(v) => v,
            Err(e) => {
                return Err(e);
            },
        };
        let thetadot_space = match config.get_usize("ENV_THETADOT_SPACE") {
            Ok(v) => v,
            Err(e) => {
                return Err(e);
            },
        };
        let g = match config.get_fx("ENV_G") {
            Ok(v) => v,
            Err(e) => {
                return Err(e);
            },
        };
        let l = match config.get_fx("ENV_LENGTH") {
            Ok(v) => v,
            Err(e) => {
                return Err(e);
            },
        };
        let m = match config.get_fx("ENV_MASS") {
            Ok(v) => v,
            Err(e) => {
                return Err(e);
            },
        };
        let fps = match config.get_usize("ENV_FPS") {
            Ok(v) => v,
            Err(e) => {
                return Err(e);
            },
        };
        if !(t_lo.bits < t_hi.bits) || !(td_lo.bits < td_hi.bits) {
            return Err(ConfigError::BadStructure(String::from_str("pendulum bounds")));
        }
        if theta_space < 3 || theta_space > 100_000_000 || thetadot_space < 3 || thetadot_space
            > 100_000_000 {
            return Err(ConfigError::BadStructure(String::from_str("pendulum bin counts")));
        }
        let s_space = match theta_space.checked_mul(thetadot_space) {
            Some(v) => v,
            None => {
                return Err(ConfigError::BadStructure(String::from_str("pendulum state space")));
            },
        };
        let ml2 = fx_mul(m, fx_mul(l, l));
        if l.bits == 0 || ml2.bits == 0 {
            return Err(ConfigError::BadStructure(String::from_str("pendulum physics")));
        }
        if fps < 1 || fps > 1_000_000_000 {
            return Err(ConfigError::BadStructure(String::from_str("pendulum frame rate")));
        }
        let g_over_l = fx_div(g, l);
        let fps_fx = Fx::from_units(fps as i64);
        let tau = fx_div(Fx::one(), fps_fx);
        let mut actions: Vec<Fx> = Vec::new();
        actions.push(a_left);
        actions.push(a_right);
        let mut init_state: Vec<Fx> = Vec::new();
        init_state.push(fx_divn(Fx::pi(), 3));
        init_state.push(Fx::zero());
        let s = copy_state(&init_state);
        let p = Pendulum {
            actions,
            theta_bounds: (t_lo, t_hi),
            thetadot_bounds: (td_lo, td_hi),
            theta_space,
            thetadot_space,
            s_space,
            g,
            l,
            m,
            g_over_l,
            ml2,
            tau,
            init_state,
            s,
        };
        proof {
            assert(bits_of(p.init_state@) =~= seq![fx_divn_v(PI_BITS as int, 3), 0int]);
        }
        Ok(p)
    }
}

} // verus!
