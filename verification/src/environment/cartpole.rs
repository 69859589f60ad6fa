//! The cart-pole environment: a pole balanced on a driven cart.
//!
//! The raw state is the vector `[x, theta, xdot, thetadot]`; each step
//! integrates the coupled pendulum-on-cart equations with the shared
//! Runge-Kutta combinator, wraps the angle once, and the discretized state
//! combines the four per-dimension bin indices by mixed-radix encoding.
//! The episode never terminates on its own: training relies purely on the
//! step budget.

use crate::bins::{digitize, digitize_v, lemma_mixed_radix};
use crate::config::{fx_key_v, lookup_v, usize_key_v, Config, ConfigError};
use crate::environment::{copy_state, fmt_quad, Environment};
use crate::fixed::{
    fx_abs, fx_abs_v, fx_add, fx_add_v, fx_cos, fx_cos_v, fx_div, fx_div_v, fx_divn, fx_divn_v,
    fx_mul, fx_mul_v, fx_neg, fx_neg_v, fx_sin, fx_sin_v, fx_sub, fx_sub_v, lemma_mul_frac_le,
    lemma_sq_unit, normalize, norm_v, bits_of, Fx, FOUR_BITS, HALF_PI_BITS, SCALE, TWO_BITS,
};
use crate::integrator::{rk4_step, rk4_v, Dynamics};
use vstd::prelude::*;

verus! {

/// The penalty reward for a cart that ran out of its track.
pub const OUT_PENALTY_BITS: i64 = -100_000_000;

/// The weight of the cart excursion in the shaping reward: one hundredth.
pub const EXCURSION_WEIGHT_BITS: i64 = 10_000;

/// The sums the physics divides by, at their smallest: the cosine factors
/// replaced by one. Both must be positive, so that neither denominator of
/// the derivative can vanish for any angle.
pub open spec fn cartpole_phys_ok(m: int, ml: int, mass: int, l: int) -> bool {
    &&& 0 <= m
    &&& 0 <= ml
    &&& 0 < fx_sub_v(fx_mul_v(FOUR_BITS as int, mass), m)
    &&& 0 < fx_sub_v(fx_divn_v(fx_mul_v(fx_mul_v(FOUR_BITS as int, mass), l), 3), ml)
}

/// The configuration values a cart-pole needs: two action forces, ordered
/// bounds and a bin count in range for each of the four dimensions, physical
/// constants that keep the denominators positive, and a frame rate.
pub open spec fn cartpole_config_ok(cfg: Seq<(Seq<char>, Seq<char>)>) -> bool {
    &&& fx_key_v(cfg, "ENV_ACTION_LEFT"@) is Some
    &&& fx_key_v(cfg, "ENV_ACTION_RIGHT"@) is Some
    &&& match (fx_key_v(cfg, "ENV_X_LEFT"@), fx_key_v(cfg, "ENV_X_RIGHT"@)) {
        (Some(a), Some(b)) => a < b,
        _ => false,
    }
    &&& match (fx_key_v(cfg, "ENV_THETA_LEFT"@), fx_key_v(cfg, "ENV_THETA_RIGHT"@)) {
        (Some(a), Some(b)) => a < b,
        _ => false,
    }
    &&& match (fx_key_v(cfg, "ENV_XDOT_LEFT"@), fx_key_v(cfg, "ENV_XDOT_RIGHT"@)) {
        (Some(a), Some(b)) => a < b,
        _ => false,
    }
    &&& match (fx_key_v(cfg, "ENV_THETADOT_LEFT"@), fx_key_v(cfg, "ENV_THETADOT_RIGHT"@)) {
        (Some(a), Some(b)) => a < b,
        _ => false,
    }
    &&& match (
        usize_key_v(cfg, "ENV_X_SPACE"@),
        usize_key_v(cfg, "ENV_THETA_SPACE"@),
        usize_key_v(cfg, "ENV_XDOT_SPACE"@),
        usize_key_v(cfg, "ENV_THETADOT_SPACE"@),
    ) {
        (Some(xn), Some(tn), Some(xdn), Some(tdn)) => {
            &&& 3 <= xn <= 100_000_000
            &&& 3 <= tn <= 100_000_000
            &&& 3 <= xdn <= 100_000_000
            &&& 3 <= tdn <= 100_000_000
            &&& ((xn * tn) * xdn) * tdn <= usize::MAX as int
        },
        _ => false,
    }
    &&& match (
        fx_key_v(cfg, "ENV_G"@),
        fx_key_v(cfg, "ENV_CART_MASS"@),
        fx_key_v(cfg, "ENV_POLE_MASS"@),
        fx_key_v(cfg, "ENV_POLE_LENGTH"@),
    ) {
        (Some(g), Some(cm), Some(pm), Some(pl)) => cartpole_phys_ok(
            pm,
            fx_mul_v(pm, pl),
            fx_add_v(cm, pm),
            pl,
        ),
        _ => false,
    }
    &&& match usize_key_v(cfg, "ENV_FPS"@) {
        Some(f) => 1 <= f <= 1_000_000_000,
        None => false,
    }
}

pub struct Cartpole {
    pub actions: Vec<Fx>,
    pub x_bounds: (Fx, Fx),
    pub theta_bounds: (Fx, Fx),
    pub xdot_bounds: (Fx, Fx),
    pub thetadot_bounds: (Fx, Fx),
    pub x_space: usize,
    pub theta_space: usize,
    pub xdot_space: usize,
    pub thetadot_space: usize,
    pub s_space: usize,
    pub g: Fx,
    pub m: Fx,
    pub l: Fx,
    pub ml: Fx,
    pub mass: Fx,
    pub tau: Fx,
    pub init_state: Vec<Fx>,
    pub s: Vec<Fx>,
}

impl Cartpole {
    /// The invariant: ordered bounds, bin counts in range, the cached state
    /// space equal to the product of the four bin counts, four-dimensional
    /// state vectors, and physics with positive denominators.
    pub open spec fn cart_wf(&self) -> bool {
        &&& self.actions@.len() >= 1
        &&& self.x_bounds.0@ < self.x_bounds.1@
        &&& self.theta_bounds.0@ < self.theta_bounds.1@
        &&& self.xdot_bounds.0@ < self.xdot_bounds.1@
        &&& self.thetadot_bounds.0@ < self.thetadot_bounds.1@
        &&& 3 <= self.x_space <= 100_000_000
        &&& 3 <= self.theta_space <= 100_000_000
        &&& 3 <= self.xdot_space <= 100_000_000
        &&& 3 <= self.thetadot_space <= 100_000_000
        &&& self.s_space as int == ((self.x_space as int * self.theta_space as int)
            * self.xdot_space as int) * self.thetadot_space as int
        &&& self.s@.len() == 4
        &&& self.init_state@.len() == 4
        &&& cartpole_phys_ok(self.m@, self.ml@, self.mass@, self.l@)
    }

    /// All fields but the raw state are shared between `self` and `next`.
    pub open spec fn same_but_state(&self, next: &Cartpole) -> bool {
        &&& next.actions == self.actions
        &&& next.x_bounds == self.x_bounds
        &&& next.theta_bounds == self.theta_bounds
        &&& next.xdot_bounds == self.xdot_bounds
        &&& next.thetadot_bounds == self.thetadot_bounds
        &&& next.x_space == self.x_space
        &&& next.theta_space == self.theta_space
        &&& next.xdot_space == self.xdot_space
        &&& next.thetadot_space == self.thetadot_space
        &&& next.s_space == self.s_space
        &&& next.g == self.g
        &&& next.m == self.m
        &&& next.l == self.l
        &&& next.ml == self.ml
        &&& next.mass == self.mass
        &&& next.tau == self.tau
        &&& next.init_state == self.init_state
    }
}

/// The wrap of the angular component: the angle is the second entry of the
/// cart-pole state vector.
pub open spec fn wrap_theta_v(s: Seq<int>) -> Seq<int> {
    s.update(1, norm_v(s[1]))
}

impl Dynamics for Cartpole {
    open spec fn dyn_wf(&self) -> bool {
        cartpole_phys_ok(self.m@, self.ml@, self.mass@, self.l@)
    }

    open spec fn dim_v(&self) -> int {
        4
    }

    /// The pendulum-on-cart equations: the derivative of
    /// `[x, theta, xdot, thetadot]` under the horizontal force `u`.
    open spec fn deriv_v(&self, st: Seq<int>, u: int) -> Seq<int> {
        let theta = st[1];
        let xdot = st[2];
        let thetadot = st[3];
        let sin = fx_sin_v(theta);
        let cos = fx_cos_v(theta);
        let sin2 = fx_sin_v(fx_add_v(theta, theta));
        let td2 = fx_mul_v(thetadot, thetadot);
        let c2 = fx_mul_v(cos, cos);
        let num_x = fx_sub_v(
            fx_add_v(
                fx_divn_v(fx_mul_v(FOUR_BITS as int, u), 3),
                fx_divn_v(fx_mul_v(fx_mul_v(fx_mul_v(FOUR_BITS as int, self.ml@), td2), sin), 3),
            ),
            fx_divn_v(fx_mul_v(fx_mul_v(self.m@, self.g@), sin2), 2),
        );
        let den_x = fx_sub_v(fx_mul_v(FOUR_BITS as int, self.mass@), fx_mul_v(self.m@, c2));
        let num_t = fx_sub_v(
            fx_sub_v(
                fx_mul_v(fx_mul_v(self.mass@, self.g@), sin),
                fx_mul_v(fx_mul_v(fx_mul_v(self.ml@, td2), sin), cos),
            ),
            fx_mul_v(u, cos),
        );
        let den_t = fx_sub_v(
            fx_divn_v(fx_mul_v(fx_mul_v(FOUR_BITS as int, self.mass@), self.l@), 3),
            fx_mul_v(self.ml@, c2),
        );
        seq![xdot, thetadot, fx_div_v(num_x, den_x), fx_div_v(num_t, den_t)]
    }

    fn dim(&self) -> (n: usize) {
        4
    }

    fn deriv(&self, st: &Vec<Fx>, u: Fx) -> (k: Vec<Fx>) {
        let theta = st[1];
        let xdot = st[2];
        let thetadot = st[3];
        let four = Fx { bits: FOUR_BITS };
        let sin = fx_sin(theta);
        let cos = fx_cos(theta);
        let sin2 = fx_sin(fx_add(theta, theta));
        let td2 = fx_mul(thetadot, thetadot);
        let c2 = fx_mul(cos, cos);
        let num_x = fx_sub(
            fx_add(
                fx_divn(fx_mul(four, u), 3),
                fx_divn(fx_mul(fx_mul(fx_mul(four, self.ml), td2), sin), 3),
            ),
            fx_divn(fx_mul(fx_mul(self.m, self.g), sin2), 2),
        );
        let den_x = fx_sub(fx_mul(four, self.mass), fx_mul(self.m, c2));
        let num_t = fx_sub(
            fx_sub(
                fx_mul(fx_mul(self.mass, self.g), sin),
                fx_mul(fx_mul(fx_mul(self.ml, td2), sin), cos),
            ),
            fx_mul(u, cos),
        );
        let den_t = fx_sub(
            fx_divn(fx_mul(fx_mul(four, self.mass), self.l), 3),
            fx_mul(self.ml, c2),
        );
        proof {
            lemma_sq_unit(cos@);
            lemma_mul_frac_le(self.m@, c2@);
            lemma_mul_frac_le(self.ml@, c2@);
        }
        let dx = fx_div(num_x, den_x);
        let dt = fx_div(num_t, den_t);
        let mut k: Vec<Fx> = Vec::new();
        k.push(xdot);
        k.push(thetadot);
        k.push(dx);
        k.push(dt);
        proof {
            assert(bits_of(k@) =~= self.deriv_v(bits_of(st@), u@));
        }
        k
    }
}

impl Environment for Cartpole {
    open spec fn wf(&self) -> bool {
        self.cart_wf()
    }

    open spec fn s_space_v(&self) -> int {
        self.s_space as int
    }

    open spec fn a_space_v(&self) -> int {
        self.actions@.len() as int
    }

    /// The mixed-radix combination of the four per-dimension bin indices.
    open spec fn s_v(&self) -> int {
        let xi = digitize_v(
            self.x_bounds.0@,
            self.x_bounds.1@,
            self.x_space as int,
            self.s@[0]@,
        );
        let ti = digitize_v(
            self.theta_bounds.0@,
            self.theta_bounds.1@,
            self.theta_space as int,
            self.s@[1]@,
        );
        let xdi = digitize_v(
            self.xdot_bounds.0@,
            self.xdot_bounds.1@,
            self.xdot_space as int,
            self.s@[2]@,
        );
        let tdi = digitize_v(
            self.thetadot_bounds.0@,
            self.thetadot_bounds.1@,
            self.thetadot_space as int,
            self.s@[3]@,
        );
        ((xi * self.theta_space as int + ti) * self.xdot_space as int + xdi)
            * self.thetadot_space as int + tdi
    }

    /// A heavy penalty when the cart leaves its track, otherwise a shaping
    /// reward: high for an upright pole and a centered cart.
    open spec fn r_v(&self) -> int {
        if fx_abs_v(self.s@[0]@) > TWO_BITS as int {
            OUT_PENALTY_BITS as int
        } else {
            fx_sub_v(
                fx_add_v(fx_neg_v(fx_abs_v(self.s@[1]@)), HALF_PI_BITS as int),
                fx_mul_v(EXCURSION_WEIGHT_BITS as int, fx_abs_v(self.s@[0]@)),
            )
        }
    }

    open spec fn done_v(&self) -> bool {
        false
    }

    open spec fn success_v(&self) -> bool {
        false
    }

    /// One control step: the Runge-Kutta move under the chosen action's
    /// force, with the angle wrapped once afterwards.
    open spec fn step_rel(&self, a: int, next: Cartpole) -> bool {
        &&& self.same_but_state(&next)
        &&& next.s@.len() == 4
        &&& bits_of(next.s@) == wrap_theta_v(
            rk4_v(self, bits_of(self.s@), self.actions@[a]@, self.tau@),
        )
    }

    open spec fn reset_rel(&self, next: Cartpole) -> bool {
        &&& self.same_but_state(&next)
        &&& next.s@ == self.init_state@
    }

    fn s_space(&self) -> (n: usize) {
        proof {
            let xn = self.x_space as int;
            let tn = self.theta_space as int;
            let xdn = self.xdot_space as int;
            let tdn = self.thetadot_space as int;
            assert(1 <= ((xn * tn) * xdn) * tdn) by (nonlinear_arith)
                requires
                    1 <= xn,
                    1 <= tn,
                    1 <= xdn,
                    1 <= tdn,
            ;
        }
        self.s_space
    }

    fn a_space(&self) -> (n: usize) {
        self.actions.len()
    }

    fn s(&self) -> (st: usize) {
        let xi = digitize(self.x_bounds.0, self.x_bounds.1, self.x_space, self.s[0]);
        let ti = digitize(self.theta_bounds.0, self.theta_bounds.1, self.theta_space, self.s[1]);
        let xdi = digitize(self.xdot_bounds.0, self.xdot_bounds.1, self.xdot_space, self.s[2]);
        let tdi = digitize(
            self.thetadot_bounds.0,
            self.thetadot_bounds.1,
            self.thetadot_space,
            self.s[3],
        );
        proof {
            let xn = self.x_space as int;
            let tn = self.theta_space as int;
            let xdn = self.xdot_space as int;
            let tdn = self.thetadot_space as int;
            let p1 = xn * tn;
            let p2 = p1 * xdn;
            let p3 = p2 * tdn;
            lemma_mixed_radix(xi as int, xn, ti as int, tn);
            lemma_mixed_radix(xi as int * tn + ti as int, p1, xdi as int, xdn);
            lemma_mixed_radix((xi as int * tn + ti as int) * xdn + xdi as int, p2, tdi as int, tdn);
            assert(1 <= p1 && p1 <= p2 && p2 <= p3) by (nonlinear_arith)
                requires
                    p1 == xn * tn,
                    p2 == p1 * xdn,
                    p3 == p2 * tdn,
                    1 <= xn,
                    1 <= tn,
                    1 <= xdn,
                    1 <= tdn,
            ;
        }
        ((xi * self.theta_space + ti) * self.xdot_space + xdi) * self.thetadot_space + tdi
    }

    fn r(&self) -> (rw: Fx) {
        let ax = fx_abs(self.s[0]);
        if ax.bits > TWO_BITS {
            Fx { bits: OUT_PENALTY_BITS }
        } else {
            fx_sub(
                fx_add(fx_neg(fx_abs(self.s[1])), Fx { bits: HALF_PI_BITS }),
                fx_mul(Fx { bits: EXCURSION_WEIGHT_BITS }, ax),
            )
        }
    }

    fn info(&self) -> (text: String) {
        fmt_quad(self.s[0].bits, self.s[1].bits, self.s[2].bits, self.s[3].bits)
    }

    fn reset(&mut self) {
        let fresh = copy_state(&self.init_state);
        self.s = fresh;
    }

    fn run_step(&mut self, a: usize) {
        let u = self.actions[a];
        let stepped = rk4_step(self, &self.s, u, self.tau);
        let wrapped = normalize(stepped[1]);
        let mut ns = stepped;
        ns[1] = wrapped;
        proof {
            assert(bits_of(ns@) =~= wrap_theta_v(
                rk4_v(self, bits_of(old(self).s@), old(self).actions@[a as int]@, self.tau@),
            ));
        }
        self.s = ns;
    }

    fn is_done(&self) -> (d: bool) {
        false
    }

    fn is_success(&self) -> (d: bool) {
        false
    }
}

impl Cartpole {
    /// Builds a cart-pole from a configuration; succeeds exactly on the
    /// values `cartpole_config_ok` accepts. The initial state is a centered
    /// cart with the pole hanging straight down: `[0, pi, 0, 0]`.
    pub fn new(config: &Config) -> (r: Result<Cartpole, ConfigError>)
        ensures
            r is Ok <==> cartpole_config_ok(config@),
            r matches Err(e) ==> match e {
                ConfigError::MissingKey(k) => lookup_v(config@, k@) is None,
                ConfigError::BadValue(k) => lookup_v(config@, k@) is Some,
                ConfigError::BadStructure(_) => true,
            },
            r matches Ok(c) ==> {
                &&& c.wf()
                &&& c.actions@.len() == 2
                &&& Some(c.actions@[0]@) == fx_key_v(config@, "ENV_ACTION_LEFT"@)
                &&& Some(c.actions@[1]@) == fx_key_v(config@, "ENV_ACTION_RIGHT"@)
                &&& Some(c.x_bounds.0@) == fx_key_v(config@, "ENV_X_LEFT"@)
                &&& Some(c.x_bounds.1@) == fx_key_v(config@, "ENV_X_RIGHT"@)
                &&& Some(c.theta_bounds.0@) == fx_key_v(config@, "ENV_THETA_LEFT"@)
                &&& Some(c.theta_bounds.1@) == fx_key_v(config@, "ENV_THETA_RIGHT"@)
                &&& Some(c.xdot_bounds.0@) == fx_key_v(config@, "ENV_XDOT_LEFT"@)
                &&& Some(c.xdot_bounds.1@) == fx_key_v(config@, "ENV_XDOT_RIGHT"@)
                &&& Some(c.thetadot_bounds.0@) == fx_key_v(config@, "ENV_THETADOT_LEFT"@)
                &&& Some(c.thetadot_bounds.1@) == fx_key_v(config@, "ENV_THETADOT_RIGHT"@)
                &&& Some(c.x_space as int) == usize_key_v(config@, "ENV_X_SPACE"@)
                &&& Some(c.theta_space as int) == usize_key_v(config@, "ENV_THETA_SPACE"@)
                &&& Some(c.xdot_space as int) == usize_key_v(config@, "ENV_XDOT_SPACE"@)
                &&& Some(c.thetadot_space as int) == usize_key_v(config@, "ENV_THETADOT_SPACE"@)
                &&& Some(c.g@) == fx_key_v(config@, "ENV_G"@)
                &&& Some(c.m@) == fx_key_v(config@, "ENV_POLE_MASS"@)
                &&& Some(c.l@) == fx_key_v(config@, "ENV_POLE_LENGTH"@)
                &&& (match fx_key_v(config@, "ENV_CART_MASS"@) {
                    Some(cm) => c.mass@ == fx_add_v(cm, c.m@),
                    None => false,
                })
                &&& c.ml@ == fx_mul_v(c.m@, c.l@)
                &&& (match usize_key_v(config@, "ENV_FPS"@) {
                    Some(f) => c.tau@ == fx_div_v(SCALE as int, f * (SCALE as int)),
                    None => false,
                })
                &&& bits_of(c.init_state@) == seq![0int, crate::fixed::PI_BITS as int, 0int, 0int]
                &&& c.s@ == c.init_state@
            },
    {
        let a_left = match config.get_fx("ENV_ACTION_LEFT") {
            Ok(v) => v,
            Err(e) => {
                return Err(e);
            },
        };
        let a_right = match config.get_fx("ENV_ACTION_RIGHT") {
            Ok(v) => v,
            Err(e) => {
                return Err(e);
            },
        };
        let x_lo = match config.get_fx("ENV_X_LEFT") {
            Ok(v) => v,
            Err(e) => {
                return Err(e);
            },
        };
        let x_hi = match config.get_fx("ENV_X_RIGHT") {
            Ok(v) => v,
            Err(e) => {
                return Err(e);
            },
        };
        let t_lo = match config.get_fx("ENV_THETA_LEFT") {
            Ok(v) => v,
            Err(e) => {
                return Err(e);
            },
        };
        let t_hi = match config.get_fx("ENV_THETA_RIGHT") {
            Ok(v) => v,
            Err(e) => {
                return Err(e);
            },
        };
        let xd_lo = match config.get_fx("ENV_XDOT_LEFT") {
            Ok(v) => v,
            Err(e) => {
                return Err(e);
            },
        };
        let xd_hi = match config.get_fx("ENV_XDOT_RIGHT") {
            Ok(v) => v,
            Err(e) => {
                return Err(e);
            },
        };
        let td_lo = match config.get_fx("ENV_THETADOT_LEFT") {
            Ok(v) => v,
            Err(e) => {
                return Err(e);
            },
        };
        let td_hi = match config.get_fx("ENV_THETADOT_RIGHT") {
            Ok(v) => v,
            Err(e) => {
                return Err(e);
            },
        };
        let x_space = match config.get_usize("ENV_X_SPACE") {
            Ok(v) => v,
            Err(e) => {
                return Err(e);
            },
        };
        let theta_space = match config.get_usize("ENV_THETA_SPACE") {
            Ok(v) => v,
            Err(e) => {
                return Err(e);
            },
        };
        let xdot_space = match config.get_usize("ENV_XDOT_SPACE") {
            Ok(v) => v,
            Err(e) => {
                return Err(e);
            },
        };
        let thetadot_space = match config.get_usize("ENV_THETADOT_SPACE") {
            Ok(v) => v,
            Err(e) => {
                return Err(e);
            },
        };
        let g = match config.get_fx("ENV_G") {
            Ok(v) => v,
            Err(e) => {
                return Err(e);
            },
        };
        let cartmass = match config.get_fx("ENV_CART_MASS") {
            Ok(v) => v,
            Err(e) => {
                return Err(e);
            },
        };
        let m = match config.get_fx("ENV_POLE_MASS") {
            Ok(v) => v,
            Err(e) => {
                return Err(e);
            },
        };
        let l = match config.get_fx("ENV_POLE_LENGTH") {
            Ok(v) => v,
            Err(e) => {
                return Err(e);
            },
        };
        let fps = match config.get_usize("ENV_FPS") {
            Ok(v) => v,
            Err(e) => {
                return Err(e);
            },
        };
        if !(x_lo.bits < x_hi.bits) || !(t_lo.bits < t_hi.bits) || !(xd_lo.bits < xd_hi.bits)
            || !(td_lo.bits < td_hi.bits) {
            return Err(ConfigError::BadStructure(String::from_str("cartpole bounds")));
        }
        if x_space < 3 || x_space > 100_000_000 || theta_space < 3 || theta_space > 100_000_000
            || xdot_space < 3 || xdot_space > 100_000_000 || thetadot_space < 3 || thetadot_space
            > 100_000_000 {
            return Err(ConfigError::BadStructure(String::from_str("cartpole bin counts")));
        }
        let p1 = match x_space.checked_mul(theta_space) {
            Some(v) => v,
            None => {
                proof {
                    let pv = x_space as int * theta_space as int;
                    assert(pv <= (pv * xdot_space as int) * thetadot_space as int)
                        by (nonlinear_arith)
                        requires
                            0 <= pv,
                            1 <= xdot_space as int,
                            1 <= thetadot_space as int,
                    ;
                }
                return Err(ConfigError::BadStructure(String::from_str("cartpole state space")));
            },
        };
        let p2 = match p1.checked_mul(xdot_space) {
            Some(v) => v,
            None => {
                proof {
                    let pv = p1 as int * xdot_space as int;
                    assert(pv <= pv * thetadot_space as int) by (nonlinear_arith)
                        requires
                            0 <= pv,
                            1 <= thetadot_space as int,
                    ;
                }
                return Err(ConfigError::BadStructure(String::from_str("cartpole state space")));
            },
        };
        let s_space = match p2.checked_mul(thetadot_space) {
            Some(v) => v,
            None => {
                return Err(ConfigError::BadStructure(String::from_str("cartpole state space")));
            },
        };
        let ml = fx_mul(m, l);
        let mass = fx_add(cartmass, m);
        let four = Fx { bits: FOUR_BITS };
        let den_x_min = fx_sub(fx_mul(four, mass), m);
        let den_t_min = fx_sub(fx_divn(fx_mul(fx_mul(four, mass), l), 3), ml);
        if m.bits < 0 || ml.bits < 0 || den_x_min.bits <= 0 || den_t_min.bits <= 0 {
            return Err(ConfigError::BadStructure(String::from_str("cartpole physics")));
        }
        if fps < 1 || fps > 1_000_000_000 {
            return Err(ConfigError::BadStructure(String::from_str("cartpole frame rate")));
        }
        let fps_fx = Fx::from_units(fps as i64);
        let tau = fx_div(Fx::one(), fps_fx);
        let mut actions: Vec<Fx> = Vec::new();
        actions.push(a_left);
        actions.push(a_right);
        let mut init_state: Vec<Fx> = Vec::new();
        init_state.push(Fx::zero());
        init_state.push(Fx::pi());
        init_state.push(Fx::zero());
        init_state.push(Fx::zero());
        let s = copy_state(&init_state);
        let c = Cartpole {
            actions,
            x_bounds: (x_lo, x_hi),
            theta_bounds: (t_lo, t_hi),
            xdot_bounds: (xd_lo, xd_hi),
            thetadot_bounds: (td_lo, td_hi),
            x_space,
            theta_space,
            xdot_space,
            thetadot_space,
            s_space,
            g,
            m,
            l,
            ml,
            mass,
            tau,
            init_state,
            s,
        };
        proof {
            assert(bits_of(c.init_state@) =~= seq![
                0int,
                crate::fixed::PI_BITS as int,
                0int,
                0int,
            ]);
        }
        Ok(c)
    }
}

} // verus!
