//! The environment interface: a discretized state space, a reward, and a
//! one-step transition, behind one trait shared by the grid world and the
//! continuous environments.
//!
//! Each implementation supplies specification functions for its state
//! encoding, reward and transition, so the training loop's contracts speak
//! exactly about whichever environment it drives.

use crate::fixed::Fx;
use vstd::prelude::*;

pub mod cartpole;
pub mod maze;
pub mod pendulum;

verus! {

/// Relies on std's `format!` to render two integers, comma-separated, for
/// trace lines.
#[verifier::external_body]
pub(crate) fn fmt_pair(a: i64, b: i64) -> (r: String) {
    format!("{},{}", a, b)
}

/// Relies on std's `format!` to render four integers, comma-separated, for
/// trace lines.
#[verifier::external_body]
pub(crate) fn fmt_quad(a: i64, b: i64, c: i64, d: i64) -> (r: String) {
    format!("{},{},{},{}", a, b, c, d)
}

/// A fresh vector with the same fixed-point values as `v`.
pub(crate) fn copy_state(v: &Vec<Fx>) -> (r: Vec<Fx>)
    ensures
        r@ == v@,
{
    let mut r: Vec<Fx> = Vec::new();
    let mut i: usize = 0;
    while i < v.len()
        invariant
            i <= v@.len(),
            r@ == v@.take(i as int),
        decreases v@.len() - i,
    {
        proof {
            assert(v@.take(i as int).push(v@[i as int]) =~= v@.take(i as int + 1));
        }
        r.push(v[i]);
        i = i + 1;
    }
    proof {
        assert(v@.take(v@.len() as int) =~= v@);
    }
    r
}

/// A simulated environment with a finite, discretized state space.
pub trait Environment: Sized {
    /// The environment's invariant.
    spec fn wf(&self) -> bool;

    /// The number of discretized states.
    spec fn s_space_v(&self) -> int;

    /// The number of admissible actions.
    spec fn a_space_v(&self) -> int;

    /// The current discretized state index.
    spec fn s_v(&self) -> int;

    /// The current reward.
    spec fn r_v(&self) -> int;

    /// Whether the episode is over.
    spec fn done_v(&self) -> bool;

    /// Whether the episode ended in success.
    spec fn success_v(&self) -> bool;

    /// How the environment after one step under action `a` relates to the
    /// environment before it.
    spec fn step_rel(&self, a: int, next: Self) -> bool;

    /// How the reset environment relates to the environment before the
    /// reset.
    spec fn reset_rel(&self, next: Self) -> bool;

    /// Reads the size of the discretized state space.
    fn s_space(&self) -> (n: usize)
        requires
            self.wf(),
        ensures
            n as int == self.s_space_v(),
            n >= 1,
    ;

    /// Reads the number of admissible actions.
    fn a_space(&self) -> (n: usize)
        requires
            self.wf(),
        ensures
            n as int == self.a_space_v(),
            n >= 1,
    ;

    /// Reads the current discretized state index.
    fn s(&self) -> (st: usize)
        requires
            self.wf(),
        ensures
            st as int == self.s_v(),
            (st as int) < self.s_space_v(),
    ;

    /// Reads the current reward.
    fn r(&self) -> (rw: Fx)
        requires
            self.wf(),
        ensures
            rw@ == self.r_v(),
    ;

    /// A human-readable snapshot of the raw, non-discretized state, for
    /// trace files; values are printed in millionths.
    fn info(&self) -> (text: String)
        requires
            self.wf(),
    ;

    /// Restores the configured initial state; never touches any table.
    fn reset(&mut self)
        requires
            old(self).wf(),
        ensures
            final(self).wf(),
            old(self).reset_rel(*final(self)),
            final(self).s_space_v() == old(self).s_space_v(),
            final(self).a_space_v() == old(self).a_space_v(),
    ;

    /// Applies action `a` for one step. The episode must still be running.
    fn run_step(&mut self, a: usize)
        requires
            old(self).wf(),
            (a as int) < old(self).a_space_v(),
            !old(self).done_v(),
        ensures
            final(self).wf(),
            old(self).step_rel(a as int, *final(self)),
            final(self).s_space_v() == old(self).s_space_v(),
            final(self).a_space_v() == old(self).a_space_v(),
    ;

    /// Whether the episode is over.
    fn is_done(&self) -> (d: bool)
        requires
            self.wf(),
        ensures
            d == self.done_v(),
    ;

    /// Whether the episode ended in success.
    fn is_success(&self) -> (d: bool)
        requires
            self.wf(),
        ensures
            d == self.success_v(),
    ;
}

} // verus!
