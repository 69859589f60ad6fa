//! The on-policy agent: its target uses the value of the action the policy
//! actually takes next.

use crate::agent::q_learning::QLearning;
use crate::agent::{
    agent_config_ok, argmax, is_first_max, lemma_seq_max_props, max_q, seq_max_v, td_update_v,
    Agent,
};
use crate::config::{fx_key_v, lookup_v, Config, ConfigError};
use crate::fixed::{fx_add, fx_add_v, fx_mul, fx_mul_v, fx_lt, fx_sub, Fx, SCALE};
use crate::fixed::lemma_fx_mul_one;
use crate::q_table::QTable;
use crate::rng::{rand_below, rand_unit, rng_from_entropy, rng_from_seed};
use vstd::prelude::*;

verus! {

/// A magnitude under which the divergence law's sums stay away from the
/// saturation boundary of the fixed-point range.
pub const DIVERGE_LIM: i64 = 0x1000_0000_0000_0000;

pub struct Sarsa {
    pub alpha: Fx,
    pub gamma: Fx,
    pub eps: Fx,
    pub rng: rand::rngs::StdRng,
}

impl Sarsa {
    /// Builds a SARSA agent from a configuration, with a generator seeded
    /// from system entropy; succeeds exactly when the three hyperparameter
    /// keys are bound and parse.
    pub fn new(config: &Config) -> (r: Result<Sarsa, ConfigError>)
        ensures
            r is Ok <==> agent_config_ok(config@),
            r matches Err(e) ==> match e {
                ConfigError::MissingKey(k) => lookup_v(config@, k@) is None,
                ConfigError::BadValue(k) => lookup_v(config@, k@) is Some,
                ConfigError::BadStructure(_) => true,
            },
            r matches Ok(ag) ==> {
                &&& Some(ag.alpha_v()) == fx_key_v(config@, "AGENT_ALPHA"@)
                &&& Some(ag.gamma_v()) == fx_key_v(config@, "AGENT_GAMMA"@)
                &&& Some(ag.eps_v()) == fx_key_v(config@, "AGENT_EPSILON"@)
            },
    {
        let alpha = match config.get_fx("AGENT_ALPHA") {
            Ok(v) => v,
            Err(e) => {
                return Err(e);
            },
        };
        let gamma = match config.get_fx("AGENT_GAMMA") {
            Ok(v) => v,
            Err(e) => {
                return Err(e);
            },
        };
        let eps = match config.get_fx("AGENT_EPSILON") {
            Ok(v) => v,
            Err(e) => {
                return Err(e);
            },
        };
        Ok(Sarsa { alpha, gamma, eps, rng: rng_from_entropy() })
    }

    /// Builds a SARSA agent with the given hyperparameters and a
    /// deterministic generator seed.
    pub fn with_seed(alpha: Fx, gamma: Fx, eps: Fx, seed: u64) -> (ag: Sarsa)
        ensures
            ag.alpha_v() == alpha@,
            ag.gamma_v() == gamma@,
            ag.eps_v() == eps@,
    {
        Sarsa { alpha, gamma, eps, rng: rng_from_seed(seed) }
    }
}

impl Agent for Sarsa {
    open spec fn alpha_v(&self) -> int {
        self.alpha@
    }

    open spec fn gamma_v(&self) -> int {
        self.gamma@
    }

    open spec fn eps_v(&self) -> int {
        self.eps@
    }

    /// The on-policy target: the reward plus the discounted value of the
    /// entry the policy selected for the next step.
    open spec fn target_v(&self, q: Seq<Seq<int>>, r: int, s2: int, a2: int) -> int {
        fx_add_v(r, fx_mul_v(self.gamma@, q[s2][a2]))
    }

    fn a(&mut self, q_table: &QTable, s: usize) -> (act: usize) {
        let p = rand_unit(&mut self.rng);
        if fx_lt(p, self.eps) {
            rand_below(&mut self.rng, q_table.a_space())
        } else {
            let row = q_table.row(s);
            let best = argmax(row);
            proof {
                assert(forall|k: int|
                    0 <= k < row@.len() ==> q_table@[s as int][k] == (#[trigger] row@[k])@);
                assert(is_first_max(q_table@[s as int], best as int));
            }
            best
        }
    }

    fn learn(&self, q_table: &mut QTable, s1: usize, a1: usize, r: Fx, s2: usize, a2: usize) {
        let next = q_table.get(s2, a2);
        let target = fx_add(r, fx_mul(self.gamma, next));
        let q = q_table.get(s1, a1);
        q_table.set(s1, a1, fx_add(q, fx_mul(self.alpha, fx_sub(target, q))));
    }

    fn fix(&mut self) {
        self.alpha = Fx::zero();
        self.eps = Fx::zero();
    }
}

/// Law: on the same table, reward and transition, a Q-learning agent and a
/// SARSA agent with learning rate one and discount one write different
/// values whenever the entry for the next step's chosen action is not the
/// maximum of the next state's row. The magnitude bound keeps the sums away
/// from saturation; smaller discounts can collapse distinct targets by
/// truncation, so the law is stated at discount one.
pub proof fn lemma_sarsa_qlearning_diverge(
    ql: &QLearning,
    sa: &Sarsa,
    q: Seq<Seq<int>>,
    s1: int,
    a1: int,
    r: int,
    s2: int,
    a2: int,
)
    requires
        ql.alpha_v() == SCALE as int,
        ql.gamma_v() == SCALE as int,
        sa.alpha_v() == SCALE as int,
        sa.gamma_v() == SCALE as int,
        0 <= s1 < q.len(),
        0 <= a1 < q[s1].len(),
        0 <= s2 < q.len(),
        0 <= a2 < q[s2].len(),
        q[s2].len() >= 1,
        -(DIVERGE_LIM as int) <= r <= DIVERGE_LIM as int,
        -(DIVERGE_LIM as int) <= q[s1][a1] <= DIVERGE_LIM as int,
        forall|j: int|
            0 <= j < q[s2].len() ==> -(DIVERGE_LIM as int) <= #[trigger] q[s2][j] <= DIVERGE_LIM
                as int,
        q[s2][a2] != seq_max_v(q[s2]),
    ensures
        td_update_v(ql.alpha_v(), q[s1][a1], ql.target_v(q, r, s2, a2)) != td_update_v(
            sa.alpha_v(),
            q[s1][a1],
            sa.target_v(q, r, s2, a2),
        ),
{
    let qv = q[s1][a1];
    let m = seq_max_v(q[s2]);
    let v = q[s2][a2];
    lemma_seq_max_props(q[s2]);
    lemma_fx_mul_one(m);
    lemma_fx_mul_one(v);
    assert(ql.target_v(q, r, s2, a2) == r + m);
    assert(sa.target_v(q, r, s2, a2) == r + v);
    lemma_fx_mul_one(r + m - qv);
    lemma_fx_mul_one(r + v - qv);
}

} // verus!
