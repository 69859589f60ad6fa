//! The off-policy agent: its target uses the best value of the next state,
//! whatever action the policy actually takes next.

use crate::agent::{agent_config_ok, argmax, is_first_max, max_q, seq_max_v, td_update_v, Agent};
use crate::config::{fx_key_v, lookup_v, Config, ConfigError};
use crate::fixed::{fx_add, fx_add_v, fx_mul, fx_mul_v, fx_lt, fx_sub, Fx, SCALE};
use crate::fixed::lemma_fx_mul_one;
use crate::q_table::QTable;
use crate::rng::{rand_below, rand_unit, rng_from_entropy, rng_from_seed};
use vstd::prelude::*;

verus! {

pub struct QLearning {
    pub alpha: Fx,
    pub gamma: Fx,
    pub eps: Fx,
    pub rng: rand::rngs::StdRng,
}

impl QLearning {
    /// Builds a Q-learning agent from a configuration, with a generator
    /// seeded from system entropy; succeeds exactly when the three
    /// hyperparameter keys are bound and parse.
    pub fn new(config: &Config) -> (r: Result<QLearning, ConfigError>)
        ensures
            r is Ok <==> agent_config_ok(config@),
            r matches Err(e) ==> match e {
                ConfigError::MissingKey(k) => lookup_v(config@, k@) is None,
                ConfigError::BadValue(k) => lookup_v(config@, k@) is Some,
                ConfigError::BadStructure(_) => true,
            },
            r matches Ok(ag) ==> {
                &&& Some(ag.alpha_v()) == fx_key_v(config@, "AGENT_ALPHA"@)
                &&& Some(ag.gamma_v()) == fx_key_v(config@, "AGENT_GAMMA"@)
                &&& Some(ag.eps_v()) == fx_key_v(config@, "AGENT_EPSILON"@)
            },
    {
        let alpha = match config.get_fx("AGENT_ALPHA") {
            Ok(v) => v,
            Err(e) => {
                return Err(e);
            },
        };
        let gamma = match config.get_fx("AGENT_GAMMA") {
            Ok(v) => v,
            Err(e) => {
                return Err(e);
            },
        };
        let eps = match config.get_fx("AGENT_EPSILON") {
            Ok(v) => v,
            Err(e) => {
                return Err(e);
            },
        };
        Ok(QLearning { alpha, gamma, eps, rng: rng_from_entropy() })
    }

    /// Builds a Q-learning agent with the given hyperparameters and a
    /// deterministic generator seed.
    pub fn with_seed(alpha: Fx, gamma: Fx, eps: Fx, seed: u64) -> (ag: QLearning)
        ensures
            ag.alpha_v() == alpha@,
            ag.gamma_v() == gamma@,
            ag.eps_v() == eps@,
    {
        QLearning { alpha, gamma, eps, rng: rng_from_seed(seed) }
    }
}

impl Agent for QLearning {
    open spec fn alpha_v(&self) -> int {
        self.alpha@
    }

    open spec fn gamma_v(&self) -> int {
        self.gamma@
    }

    open spec fn eps_v(&self) -> int {
        self.eps@
    }

    /// The off-policy target: the reward plus the discounted best value of
    /// the next state's row.
    open spec fn target_v(&self, q: Seq<Seq<int>>, r: int, s2: int, a2: int) -> int {
        fx_add_v(r, fx_mul_v(self.gamma@, seq_max_v(q[s2])))
    }

    fn a(&mut self, q_table: &QTable, s: usize) -> (act: usize) {
        let p = rand_unit(&mut self.rng);
        if fx_lt(p, self.eps) {
            rand_below(&mut self.rng, q_table.a_space())
        } else {
            let row = q_table.row(s);
            let best = argmax(row);
            proof {
                assert(forall|k: int|
                    0 <= k < row@.len() ==> q_table@[s as int][k] == (#[trigger] row@[k])@);
                assert(is_first_max(q_table@[s as int], best as int));
            }
            best
        }
    }

    fn learn(&self, q_table: &mut QTable, s1: usize, a1: usize, r: Fx, s2: usize, a2: usize) {
        let m = max_q(q_table.row(s2));
        let target = fx_add(r, fx_mul(self.gamma, m));
        let q = q_table.get(s1, a1);
        q_table.set(s1, a1, fx_add(q, fx_mul(self.alpha, fx_sub(target, q))));
    }

    fn fix(&mut self) {
        self.alpha = Fx::zero();
        self.eps = Fx::zero();
    }
}

/// Law: a Q-learning update with learning rate one and discount zero stores
/// exactly the observed reward, discarding the prior value. The one proviso
/// is that the gap between the reward and the prior value must not saturate
/// the fixed-point range.
pub proof fn lemma_qlearning_overwrites(
    ag: &QLearning,
    q: Seq<Seq<int>>,
    s1: int,
    a1: int,
    r: int,
    s2: int,
    a2: int,
)
    requires
        ag.alpha_v() == SCALE as int,
        ag.gamma_v() == 0,
        0 <= s1 < q.len(),
        0 <= a1 < q[s1].len(),
        i64::MIN as int <= q[s1][a1] <= i64::MAX as int,
        i64::MIN as int <= r <= i64::MAX as int,
        i64::MIN as int <= r - q[s1][a1] <= i64::MAX as int,
    ensures
        td_update_v(ag.alpha_v(), q[s1][a1], ag.target_v(q, r, s2, a2)) == r,
{
    let qv = q[s1][a1];
    assert(fx_mul_v(0, seq_max_v(q[s2])) == 0);
    assert(ag.target_v(q, r, s2, a2) == r);
    lemma_fx_mul_one(r - qv);
    assert((SCALE as int) * (r - qv) == (r - qv) * (SCALE as int)) by (nonlinear_arith);
}

} // verus!
