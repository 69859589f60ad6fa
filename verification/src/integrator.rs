//! The classical fourth-order Runge-Kutta step over fixed-point state
//! vectors.
//!
//! The derivative function is a pluggable model supplied by the owning
//! environment through the `Dynamics` trait; the step itself is one shared
//! combinator whose result is pinned exactly, component by component, by
//! `rk4_v`. Any angle wrapping is the caller's business and happens after
//! the whole step, never to intermediate stage values.

use crate::fixed::{
    bits_of, fx_add, fx_add_v, fx_divn, fx_divn_v, fx_mul, fx_mul_v, Fx,
};
use vstd::prelude::*;

verus! {

/// A continuous-dynamics model: a state dimension and a derivative
/// function of state and control input.
pub trait Dynamics: Sized {
    /// What the model needs of itself to evaluate its derivative (for
    /// instance, that no denominator of its equations can vanish).
    spec fn dyn_wf(&self) -> bool;

    /// The length of the model's state vector.
    spec fn dim_v(&self) -> int;

    /// The derivative, as the contracts see it.
    spec fn deriv_v(&self, s: Seq<int>, u: int) -> Seq<int>;

    /// Reads the state dimension.
    fn dim(&self) -> (n: usize)
        ensures
            n as int == self.dim_v(),
    ;

    /// Evaluates the derivative at state `s` under control input `u`.
    fn deriv(&self, s: &Vec<Fx>, u: Fx) -> (k: Vec<Fx>)
        requires
            self.dyn_wf(),
            s@.len() == self.dim_v(),
        ensures
            k@.len() == s@.len(),
            bits_of(k@) == self.deriv_v(bits_of(s@), u@),
    ;
}

/// One explicit-Euler move: `s + k*h`, componentwise.
pub open spec fn axpy_v(s: Seq<int>, k: Seq<int>, h: int) -> Seq<int> {
    Seq::new(s.len(), |i: int| fx_add_v(s[i], fx_mul_v(k[i], h)))
}

/// The Runge-Kutta step: with `k1 = f(s)`, `k2 = f(s + k1*dt/2)`,
/// `k3 = f(s + k2*dt/2)` and `k4 = f(s + k3*dt)`, the next state is
/// `s + (k1 + 2*k2 + 2*k3 + k4) * dt / 6`, componentwise.
pub open spec fn rk4_v<D: Dynamics>(d: &D, s: Seq<int>, u: int, dt: int) -> Seq<int> {
    let half = fx_divn_v(dt, 2);
    let k1 = d.deriv_v(s, u);
    let k2 = d.deriv_v(axpy_v(s, k1, half), u);
    let k3 = d.deriv_v(axpy_v(s, k2, half), u);
    let k4 = d.deriv_v(axpy_v(s, k3, dt), u);
    Seq::new(
        s.len(),
        |i: int|
            fx_add_v(
                s[i],
                fx_divn_v(
                    fx_mul_v(
                        fx_add_v(
                            fx_add_v(k1[i], fx_add_v(k2[i], k2[i])),
                            fx_add_v(fx_add_v(k3[i], k3[i]), k4[i]),
                        ),
                        dt,
                    ),
                    6,
                ),
            ),
    )
}

fn axpy(s: &Vec<Fx>, k: &Vec<Fx>, h: Fx) -> (r: Vec<Fx>)
    requires
        k@.len() == s@.len(),
    ensures
        r@.len() == s@.len(),
        bits_of(r@) == axpy_v(bits_of(s@), bits_of(k@), h@),
{
    let mut r: Vec<Fx> = Vec::new();
    let mut i: usize = 0;
    while i < s.len()
        invariant
            i <= s@.len(),
            k@.len() == s@.len(),
            r@.len() == i,
            forall|m: int|
                0 <= m < i ==> (#[trigger] r@[m])@ == fx_add_v(s@[m]@, fx_mul_v(k@[m]@, h@)),
        decreases s@.len() - i,
    {
        r.push(fx_add(s[i], fx_mul(k[i], h)));
        i = i + 1;
    }
    proof {
        assert(bits_of(r@) =~= axpy_v(bits_of(s@), bits_of(k@), h@));
    }
    r
}

/// Advances the state vector by one control step of length `dt` under the
/// model `d` and control input `u`.
pub fn rk4_step<D: Dynamics>(d: &D, s: &Vec<Fx>, u: Fx, dt: Fx) -> (sn: Vec<Fx>)
    requires
        d.dyn_wf(),
        s@.len() == d.dim_v(),
    ensures
        sn@.len() == s@.len(),
        bits_of(sn@) == rk4_v(d, bits_of(s@), u@, dt@),
{
    let half = fx_divn(dt, 2);
    let k1 = d.deriv(s, u);
    let s1 = axpy(s, &k1, half);
    let k2 = d.deriv(&s1, u);
    let s2 = axpy(s, &k2, half);
    let k3 = d.deriv(&s2, u);
    let s3 = axpy(s, &k3, dt);
    let k4 = d.deriv(&s3, u);
    let mut sn: Vec<Fx> = Vec::new();
    let mut i: usize = 0;
    while i < s.len()
        invariant
            i <= s@.len(),
            s@.len() == d.dim_v(),
            k1@.len() == s@.len(),
            k2@.len() == s@.len(),
            k3@.len() == s@.len(),
            k4@.len() == s@.len(),
            half@ == fx_divn_v(dt@, 2),
            bits_of(k1@) == d.deriv_v(bits_of(s@), u@),
            bits_of(k2@) == d.deriv_v(axpy_v(bits_of(s@), bits_of(k1@), half@), u@),
            bits_of(k3@) == d.deriv_v(axpy_v(bits_of(s@), bits_of(k2@), half@), u@),
            bits_of(k4@) == d.deriv_v(axpy_v(bits_of(s@), bits_of(k3@), dt@), u@),
            sn@.len() == i,
            forall|m: int|
                0 <= m < i ==> (#[trigger] sn@[m])@ == rk4_v(d, bits_of(s@), u@, dt@)[m],
        decreases s@.len() - i,
    {
        let w = fx_add(
            fx_add(k1[i], fx_add(k2[i], k2[i])),
            fx_add(fx_add(k3[i], k3[i]), k4[i]),
        );
        sn.push(fx_add(s[i], fx_divn(fx_mul(w, dt), 6)));
        i = i + 1;
    }
    proof {
        assert(bits_of(sn@) =~= rk4_v(d, bits_of(s@), u@, dt@));
    }
    sn
}

/// Law: under a derivative that is identically zero, one integration step
/// returns the state exactly unchanged, whatever the step size.
pub proof fn lemma_rk4_zero_derivative<D: Dynamics>(d: &D, s: Seq<int>, u: int, dt: int)
    requires
        forall|x: Seq<int>, w: int| (#[trigger] d.deriv_v(x, w)).len() == s.len(),
        forall|x: Seq<int>, w: int, i: int|
            0 <= i < s.len() ==> #[trigger] d.deriv_v(x, w)[i] == 0,
        forall|i: int| 0 <= i < s.len() ==> i64::MIN as int <= #[trigger] s[i] <= i64::MAX as int,
    ensures
        rk4_v(d, s, u, dt) == s,
{
    assert forall|i: int| 0 <= i < s.len() implies #[trigger] rk4_v(d, s, u, dt)[i] == s[i] by {
        let half = fx_divn_v(dt, 2);
        let k1 = d.deriv_v(s, u);
        let k2 = d.deriv_v(axpy_v(s, k1, half), u);
        let k3 = d.deriv_v(axpy_v(s, k2, half), u);
        let k4 = d.deriv_v(axpy_v(s, k3, dt), u);
        assert(k1[i] == 0 && k2[i] == 0 && k3[i] == 0 && k4[i] == 0);
        assert(fx_add_v(fx_add_v(k1[i], fx_add_v(k2[i], k2[i])), fx_add_v(
            fx_add_v(k3[i], k3[i]),
            k4[i],
        )) == 0);
        assert(0 * dt == 0) by (nonlinear_arith);
        assert(fx_mul_v(0, dt) == 0);
        assert(fx_divn_v(0, 6) == 0);
        assert(rk4_v(d, s, u, dt)[i] == fx_add_v(s[i], 0));
    }
    assert(rk4_v(d, s, u, dt) =~= s);
}

} // verus!
