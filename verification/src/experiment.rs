//! The training loop: repeated episodes of choose-act-learn over one
//! exclusively owned value table, with early stopping on a streak of
//! successful episodes, and a final frozen evaluation episode.

use crate::agent::{td_update_v, Agent};
use crate::config::{fx_key_v, lookup_v, usize_key_v, Config, ConfigError};
use crate::environment::Environment;
use crate::fixed::{bits_of, Fx};
use crate::history::{fx_sum_v, History};
use crate::q_table::QTable;
use vstd::prelude::*;

verus! {

/// The configuration values the loop needs: the three budgets, the table's
/// initial value, and the three output paths.
pub open spec fn experiment_config_ok(cfg: Seq<(Seq<char>, Seq<char>)>) -> bool {
    &&& usize_key_v(cfg, "EXPERIMENT_MAX_EPISODE"@) is Some
    &&& usize_key_v(cfg, "EXPERIMENT_MAX_STEP"@) is Some
    &&& usize_key_v(cfg, "EXPERIMENT_MAX_SUCCEEDED_EPISODE"@) is Some
    &&& fx_key_v(cfg, "QTABLE_INIT_QVALUE"@) is Some
    &&& lookup_v(cfg, "QTABLE_PATH"@) is Some
    &&& lookup_v(cfg, "HISTORY_PATH"@) is Some
    &&& lookup_v(cfg, "RETURNS_PATH"@) is Some
}

/// The table after one update of the per-step protocol: when the step just
/// ended the episode, the terminal state's whole row (of width `a_space`)
/// is zeroed first; then the agent's rule rewrites entry `(s1, a1)` toward
/// its target on the possibly-zeroed table.
pub open spec fn learned_table_v<A: Agent>(
    agent: A,
    q: Seq<Seq<int>>,
    s1: int,
    a1: int,
    r: int,
    s2: int,
    a2: int,
    done: bool,
    a_space: int,
) -> Seq<Seq<int>> {
    let qmid = if done {
        q.update(s2, Seq::new(a_space as nat, |j: int| 0int))
    } else {
        q
    };
    qmid.update(
        s1,
        qmid[s1].update(
            a1,
            td_update_v(agent.alpha_v(), qmid[s1][a1], agent.target_v(qmid, r, s2, a2)),
        ),
    )
}

/// One round of the per-step protocol, linking a trace record to the one
/// before it: the still-running environment steps under the recorded
/// action, the new record carries the state and reward the environment then
/// shows, the agent picks some in-range next action, and the table changes
/// by exactly one update, the terminal row zeroed first when the episode
/// just ended.
pub open spec fn episode_round_v<A: Agent, E: Environment>(
    agent: A,
    e_prev: E,
    q_prev: Seq<Seq<int>>,
    s_prev: int,
    a: int,
    s: int,
    r: int,
    e: E,
    q: Seq<Seq<int>>,
    a_next: int,
) -> bool {
    &&& !e_prev.done_v()
    &&& e_prev.step_rel(a, e)
    &&& s == e.s_v()
    &&& r == e.r_v()
    &&& 0 <= a_next < e.a_space_v()
    &&& q == learned_table_v(agent, q_prev, s_prev, a, r, s, a_next, e.done_v(), e.a_space_v())
}

/// How one episode trace `h` relates the starting environment and table to
/// everything the episode did. The witnesses are the environment after each
/// record (`envs`), the table after each record (`tables`), and the next
/// action chosen in each round (`nexts`; every one but the last is also the
/// following round's recorded action).
pub open spec fn episode_rel<A: Agent, E: Environment>(
    agent: A,
    env0: E,
    q0: Seq<Seq<int>>,
    h: History,
    envs: Seq<E>,
    tables: Seq<Seq<Seq<int>>>,
    nexts: Seq<int>,
) -> bool {
    let len = h.len_v();
    &&& h.wf()
    &&& len >= 1
    &&& envs.len() == len
    &&& tables.len() == len
    &&& nexts.len() == len
    &&& env0.reset_rel(envs[0])
    &&& tables[0] == q0
    &&& h.s@[0] as int == envs[0].s_v()
    &&& h.r@[0]@ == envs[0].r_v()
    &&& (len >= 2 ==> h.a@[0] == h.a@[1])
    &&& forall|i: int|
        1 <= i < len ==> episode_round_v(
            agent,
            envs[i - 1],
            tables[i - 1],
            h.s@[i - 1] as int,
            h.a@[i] as int,
            h.s@[i] as int,
            h.r@[i]@,
            #[trigger] envs[i],
            tables[i],
            nexts[i],
        )
    &&& forall|i: int| 1 <= i < len - 1 ==> #[trigger] nexts[i] == h.a@[i + 1] as int
}

/// One episode of `agent` from environment `e0` and table `q0`, producing
/// trace `h` and leaving environment `e1` and table `q1` behind.
pub open spec fn episode_from<A: Agent, E: Environment>(
    agent: A,
    e0: E,
    q0: Seq<Seq<int>>,
    h: History,
    e1: E,
    q1: Seq<Seq<int>>,
) -> bool {
    exists|envs: Seq<E>, tables: Seq<Seq<Seq<int>>>, nexts: Seq<int>|
        episode_rel(agent, e0, q0, h, envs, tables, nexts) && envs.last() == e1 && tables.last()
            == q1
}

/// A whole training run: `hs[k]` is episode `k`'s trace, run from
/// environment `es[k]` and table `qs[k]` and leaving `es[k + 1]` and
/// `qs[k + 1]` behind, and `succ[k]` says whether episode `k` ended in
/// success.
pub open spec fn training_rel<A: Agent, E: Environment>(
    agent: A,
    hs: Seq<History>,
    es: Seq<E>,
    qs: Seq<Seq<Seq<int>>>,
    succ: Seq<bool>,
) -> bool {
    &&& es.len() == hs.len() + 1
    &&& qs.len() == hs.len() + 1
    &&& succ.len() == hs.len()
    &&& forall|k: int|
        0 <= k < hs.len() ==> episode_from(
            agent,
            es[k],
            qs[k],
            #[trigger] hs[k],
            es[k + 1],
            qs[k + 1],
        )
    &&& forall|k: int| 0 <= k < hs.len() ==> #[trigger] succ[k] == es[k + 1].success_v()
}

/// The consecutive-success streak after episodes with the given success
/// flags, starting from `start`: a success raises the count (saturating at
/// the integer limit), a failure resets it to zero.
pub open spec fn streak_v(start: int, succ: Seq<bool>) -> int
    decreases succ.len(),
{
    if succ.len() == 0 {
        start
    } else {
        let prev = streak_v(start, succ.drop_last());
        if succ.last() {
            if prev < usize::MAX as int {
                prev + 1
            } else {
                prev
            }
        } else {
            0
        }
    }
}

/// Two agents with the same learning rate and the same target rule run the
/// same episodes.
proof fn lemma_episode_rel_agents<A: Agent, E: Environment>(
    ag1: A,
    ag2: A,
    env0: E,
    q0: Seq<Seq<int>>,
    h: History,
    envs: Seq<E>,
    tables: Seq<Seq<Seq<int>>>,
    nexts: Seq<int>,
)
    requires
        episode_rel(ag1, env0, q0, h, envs, tables, nexts),
        ag1.alpha_v() == ag2.alpha_v(),
        forall|q: Seq<Seq<int>>, r: int, s2: int, a2: int|
            #[trigger] ag1.target_v(q, r, s2, a2) == ag2.target_v(q, r, s2, a2),
    ensures
        episode_rel(ag2, env0, q0, h, envs, tables, nexts),
{
    assert forall|i: int| 1 <= i < h.len_v() implies episode_round_v(
        ag2,
        envs[i - 1],
        tables[i - 1],
        h.s@[i - 1] as int,
        h.a@[i] as int,
        h.s@[i] as int,
        h.r@[i]@,
        #[trigger] envs[i],
        tables[i],
        nexts[i],
    ) by {
        assert(episode_round_v(
            ag1,
            envs[i - 1],
            tables[i - 1],
            h.s@[i - 1] as int,
            h.a@[i] as int,
            h.s@[i] as int,
            h.r@[i]@,
            envs[i],
            tables[i],
            nexts[i],
        ));
    }
}

pub struct Experiment<A: Agent, E: Environment> {
    pub max_episode: usize,
    pub max_step: usize,
    pub max_succeeded_episode: usize,
    pub agent: A,
    pub env: E,
    pub q_table: QTable,
    pub success_count: usize,
    pub returns: Vec<Fx>,
    pub q_table_path: String,
    pub history_path: String,
    pub returns_path: String,
}

impl<A: Agent, E: Environment> Experiment<A, E> {
    /// The invariant: a well-formed environment and a well-formed table
    /// whose dimensions are the environment's.
    pub open spec fn wf(&self) -> bool {
        &&& self.q_table.wf()
        &&& self.env.wf()
        &&& self.q_table.s_space_v() == self.env.s_space_v()
        &&& self.q_table.a_space_v() == self.env.a_space_v()
    }

    /// Everything but the agent, the environment, the table, the streak
    /// counter and the returns is shared between `self` and `next`.
    pub open spec fn same_setup(&self, next: &Self) -> bool {
        &&& next.max_episode == self.max_episode
        &&& next.max_step == self.max_step
        &&& next.max_succeeded_episode == self.max_succeeded_episode
        &&& next.q_table_path == self.q_table_path
        &&& next.history_path == self.history_path
        &&& next.returns_path == self.returns_path
    }

    /// The shape facts one episode preserves.
    pub open spec fn same_shape(&self, next: &Self) -> bool {
        &&& next.q_table.s_space_v() == self.q_table.s_space_v()
        &&& next.q_table.a_space_v() == self.q_table.a_space_v()
        &&& next.q_table.init_q_v() == self.q_table.init_q_v()
        &&& next.env.s_space_v() == self.env.s_space_v()
        &&& next.env.a_space_v() == self.env.a_space_v()
        &&& next.agent.alpha_v() == self.agent.alpha_v()
        &&& next.agent.gamma_v() == self.agent.gamma_v()
        &&& next.agent.eps_v() == self.agent.eps_v()
    }

    /// Builds a run from a configuration, an agent and an environment: the
    /// budgets and paths come from the configuration, and the table starts
    /// uniformly at the configured initial value with the environment's
    /// dimensions.
    pub fn new(config: &Config, agent: A, env: E) -> (r: Result<Experiment<A, E>, ConfigError>)
        requires
            env.wf(),
        ensures
            r is Ok <==> experiment_config_ok(config@),
            r matches Err(e) ==> match e {
                ConfigError::MissingKey(k) => lookup_v(config@, k@) is None,
                ConfigError::BadValue(k) => lookup_v(config@, k@) is Some,
                ConfigError::BadStructure(_) => true,
            },
            r matches Ok(exp) ==> {
                &&& exp.wf()
                &&& Some(exp.max_episode as int) == usize_key_v(
                    config@,
                    "EXPERIMENT_MAX_EPISODE"@,
                )
                &&& Some(exp.max_step as int) == usize_key_v(config@, "EXPERIMENT_MAX_STEP"@)
                &&& Some(exp.max_succeeded_episode as int) == usize_key_v(
                    config@,
                    "EXPERIMENT_MAX_SUCCEEDED_EPISODE"@,
                )
                &&& Some(exp.q_table.init_q_v()) == fx_key_v(config@, "QTABLE_INIT_QVALUE"@)
                &&& exp.q_table.s_space_v() == env.s_space_v()
                &&& exp.q_table.a_space_v() == env.a_space_v()
                &&& (forall|i: int, j: int|
                    0 <= i < exp.q_table.s_space_v() && 0 <= j < exp.q_table.a_space_v()
                        ==> exp.q_table@[i][j] == exp.q_table.init_q_v())
                &&& exp.agent == agent
                &&& exp.env == env
                &&& exp.success_count == 0
                &&& exp.returns@.len() == 0
                &&& Some(exp.q_table_path@) == lookup_v(config@, "QTABLE_PATH"@)
                &&& Some(exp.history_path@) == lookup_v(config@, "HISTORY_PATH"@)
                &&& Some(exp.returns_path@) == lookup_v(config@, "RETURNS_PATH"@)
            },
    {
        let max_episode = match config.get_usize("EXPERIMENT_MAX_EPISODE") {
            Ok(v) => v,
            Err(e) => {
                return Err(e);
            },
        };
        let max_step = match config.get_usize("EXPERIMENT_MAX_STEP") {
            Ok(v) => v,
            Err(e) => {
                return Err(e);
            },
        };
        let max_succeeded_episode = match config.get_usize("EXPERIMENT_MAX_SUCCEEDED_EPISODE") {
            Ok(v) => v,
            Err(e) => {
                return Err(e);
            },
        };
        let init_q = match config.get_fx("QTABLE_INIT_QVALUE") {
            Ok(v) => v,
            Err(e) => {
                return Err(e);
            },
        };
        let q_table_path = match config.get("QTABLE_PATH") {
            Ok(v) => v,
            Err(e) => {
                return Err(ConfigError::MissingKey(e.key));
            },
        };
        let history_path = match config.get("HISTORY_PATH") {
            Ok(v) => v,
            Err(e) => {
                return Err(ConfigError::MissingKey(e.key));
            },
        };
        let returns_path = match config.get("RETURNS_PATH") {
            Ok(v) => v,
            Err(e) => {
                return Err(ConfigError::MissingKey(e.key));
            },
        };
        let q_table = QTable::new(init_q, env.s_space(), env.a_space());
        Ok(
            Experiment {
                max_episode,
                max_step,
                max_succeeded_episode,
                agent,
                env,
                q_table,
                success_count: 0,
                returns: Vec::new(),
                q_table_path,
                history_path,
                returns_path,
            },
        )
    }

    /// Runs one episode: reset, then up to `max_step` rounds of choose an
    /// action, step the environment, choose the next action, and update one
    /// table entry; when the environment reports the episode over, the
    /// terminal state's row is zeroed before the final update and the
    /// episode ends. The episode-over check precedes each step, so an
    /// environment that is already terminal at reset yields a trace holding
    /// the initial record alone, with no step taken. Returns the trace and
    /// whether the episode ended in success; `episode_from` ties the trace
    /// to the environment's trajectory and the table's updates.
    pub fn run_episode(&mut self) -> (out: (History, bool))
        requires
            old(self).wf(),
        ensures
            final(self).wf(),
            old(self).same_setup(final(self)),
            old(self).same_shape(final(self)),
            forall|q: Seq<Seq<int>>, rr: int, ss: int, aa: int|
                #[trigger] final(self).agent.target_v(q, rr, ss, aa) == old(self).agent.target_v(
                    q,
                    rr,
                    ss,
                    aa,
                ),
            final(self).success_count == old(self).success_count,
            final(self).returns == old(self).returns,
            out.0.wf(),
            1 <= out.0.len_v() <= old(self).max_step + 1,
            out.0.len_v() < old(self).max_step + 1 ==> final(self).env.done_v(),
            forall|i: int|
                0 <= i < out.0.len_v() ==> ((#[trigger] out.0.a@[i]) as int)
                    < old(self).q_table.a_space_v(),
            forall|i: int|
                0 <= i < out.0.len_v() ==> ((#[trigger] out.0.s@[i]) as int)
                    < old(self).q_table.s_space_v(),
            out.1 == final(self).env.success_v(),
            episode_from(
                old(self).agent,
                old(self).env,
                old(self).q_table@,
                out.0,
                final(self).env,
                final(self).q_table@,
            ),
    {
        let ghost agent0 = self.agent;
        let mut history = History::new();
        self.env.reset();
        let ghost mut envs: Seq<E> = seq![self.env];
        let ghost mut tables: Seq<Seq<Seq<int>>> = seq![self.q_table@];
        let mut s1 = self.env.s();
        let mut r = self.env.r();
        let mut a1 = self.agent.a(&self.q_table, s1);
        let ghost mut nexts: Seq<int> = seq![a1 as int];
        let info0 = self.env.info();
        history.push(a1, s1, r, info0);
        let max_step = self.max_step;
        let mut step: usize = 0;
        let mut finished = false;
        while step < max_step && !finished
            invariant
                self.wf(),
                old(self).same_setup(&*self),
                old(self).same_shape(&*self),
                self.success_count == old(self).success_count,
                self.returns == old(self).returns,
                max_step == old(self).max_step,
                step <= max_step,
                history.wf(),
                history.len_v() == step + 1,
                (s1 as int) < self.q_table.s_space_v(),
                (a1 as int) < self.q_table.a_space_v(),
                forall|i: int|
                    0 <= i < history.len_v() ==> ((#[trigger] history.a@[i]) as int)
                        < old(self).q_table.a_space_v(),
                forall|i: int|
                    0 <= i < history.len_v() ==> ((#[trigger] history.s@[i]) as int)
                        < old(self).q_table.s_space_v(),
                agent0 == old(self).agent,
                self.agent.alpha_v() == agent0.alpha_v(),
                self.agent.gamma_v() == agent0.gamma_v(),
                self.agent.eps_v() == agent0.eps_v(),
                forall|q: Seq<Seq<int>>, rr: int, ss: int, aa: int|
                    #[trigger] self.agent.target_v(q, rr, ss, aa) == agent0.target_v(
                        q,
                        rr,
                        ss,
                        aa,
                    ),
                envs.len() == history.len_v(),
                tables.len() == history.len_v(),
                nexts.len() == history.len_v(),
                envs.last() == self.env,
                tables.last() == self.q_table@,
                nexts.last() == a1 as int,
                history.s@.last() == s1,
                history.a@[0] as int == nexts[0],
                episode_rel(agent0, old(self).env, old(self).q_table@, history, envs, tables, nexts),
                finished ==> self.env.done_v(),
            decreases max_step - step + (if finished {
                0int
            } else {
                1int
            }),
        {
            if self.env.is_done() {
                finished = true;
            } else {
                let ghost e_prev = self.env;
                let ghost q_prev = self.q_table@;
                let ghost hist_prev = history;
                self.env.run_step(a1);
                let s2 = self.env.s();
                r = self.env.r();
                let a2 = self.agent.a(&self.q_table, s2);
                if self.env.is_done() {
                    self.q_table.zero_row(s2);
                }
                self.agent.learn(&mut self.q_table, s1, a1, r, s2, a2);
                let info = self.env.info();
                history.push(a1, s2, r, info);
                proof {
                    let envs_prev = envs;
                    let tables_prev = tables;
                    let nexts_prev = nexts;
                    envs = envs.push(self.env);
                    tables = tables.push(self.q_table@);
                    nexts = nexts.push(a2 as int);
                    let len = history.len_v();
                    assert forall|i: int| 0 <= i < len - 1 implies #[trigger] envs[i]
                        == envs_prev[i] && tables[i] == tables_prev[i] && nexts[i]
                        == nexts_prev[i] && history.a@[i] == hist_prev.a@[i] && history.s@[i]
                        == hist_prev.s@[i] && history.r@[i] == hist_prev.r@[i] by {}
                    assert(envs[len - 1] == self.env);
                    assert(tables[len - 1] == self.q_table@);
                    assert(nexts[len - 1] == a2 as int);
                    assert(history.a@[len - 1] == a1);
                    assert(history.s@[len - 1] == s2);
                    assert(history.r@[len - 1] == r);
                    assert(envs[len - 2] == e_prev);
                    assert(tables[len - 2] == q_prev);
                    assert(hist_prev.s@[len - 2] == s1);
                    assert(nexts_prev[len - 2] == a1 as int);
                    assert(episode_round_v(
                        agent0,
                        e_prev,
                        q_prev,
                        s1 as int,
                        a1 as int,
                        s2 as int,
                        r@,
                        self.env,
                        self.q_table@,
                        a2 as int,
                    ));
                    assert forall|i: int| 1 <= i < len implies episode_round_v(
                        agent0,
                        envs[i - 1],
                        tables[i - 1],
                        history.s@[i - 1] as int,
                        history.a@[i] as int,
                        history.s@[i] as int,
                        history.r@[i]@,
                        #[trigger] envs[i],
                        tables[i],
                        nexts[i],
                    ) by {
                        if i < len - 1 {
                            assert(episode_round_v(
                                agent0,
                                envs_prev[i - 1],
                                tables_prev[i - 1],
                                hist_prev.s@[i - 1] as int,
                                hist_prev.a@[i] as int,
                                hist_prev.s@[i] as int,
                                hist_prev.r@[i]@,
                                envs_prev[i],
                                tables_prev[i],
                                nexts_prev[i],
                            ));
                        }
                    }
                    assert forall|i: int| 1 <= i < len - 1 implies #[trigger] nexts[i]
                        == history.a@[i + 1] as int by {
                        if i < len - 2 {
                            assert(nexts_prev[i] == hist_prev.a@[i + 1] as int);
                        } else {
                            assert(nexts[len - 2] == a1 as int);
                        }
                    }
                    if len >= 2 {
                        assert(history.a@[0] as int == nexts_prev[0]);
                        if len == 2 {
                            assert(nexts_prev[0] == nexts_prev.last());
                        } else {
                            assert(nexts_prev[0] == hist_prev.a@[1] as int);
                        }
                    }
                    assert(episode_rel(
                        agent0,
                        old(self).env,
                        old(self).q_table@,
                        history,
                        envs,
                        tables,
                        nexts,
                    ));
                }
                s1 = s2;
                a1 = a2;
                step = step + 1;
            }
        }
        let succeeded = self.env.is_success();
        proof {
            assert(episode_from(
                agent0,
                old(self).env,
                old(self).q_table@,
                history,
                self.env,
                self.q_table@,
            ));
        }
        (history, succeeded)
    }

    /// Runs up to `max_episode` training episodes, appending each episode's
    /// saturating reward sum to the returns, counting consecutive successes,
    /// and stopping early exactly when the streak reaches
    /// `max_succeeded_episode`. The streak counter saturates rather than
    /// wrap at the integer limit. `episodes_rel` chains the episodes run,
    /// from the starting environment and table to the final ones.
    pub fn run(&mut self)
        requires
            old(self).wf(),
        ensures
            final(self).wf(),
            old(self).same_setup(final(self)),
            old(self).same_shape(final(self)),
            final(self).returns@.len() <= old(self).returns@.len() + old(self).max_episode,
            old(self).max_episode >= 1 ==> final(self).returns@.len() >= old(self).returns@.len()
                + 1,
            final(self).returns@.take(old(self).returns@.len() as int) == old(self).returns@,
            final(self).returns@.len() - old(self).returns@.len() < old(self).max_episode
                ==> final(self).success_count >= old(self).max_succeeded_episode,
            exists|hs: Seq<History>, es: Seq<E>, qs: Seq<Seq<Seq<int>>>, succ: Seq<bool>|
                {
                    &&& #[trigger] training_rel(old(self).agent, hs, es, qs, succ)
                    &&& es[0] == old(self).env
                    &&& qs[0] == old(self).q_table@
                    &&& es.last() == final(self).env
                    &&& qs.last() == final(self).q_table@
                    &&& hs.len() == final(self).returns@.len() - old(self).returns@.len()
                    &&& final(self).success_count as int == streak_v(
                        old(self).success_count as int,
                        succ,
                    )
                    &&& (forall|k: int|
                        0 <= k < hs.len() ==> (#[trigger] hs[k]).wf() && 1 <= hs[k].len_v() <= old(
                            self,
                        ).max_step + 1 && (final(self).returns@[old(self).returns@.len() + k])@
                            == fx_sum_v(bits_of(hs[k].r@)))
                },
    {
        let ghost agent0 = self.agent;
        let ghost mut hs: Seq<History> = Seq::<History>::empty();
        let ghost mut es: Seq<E> = seq![self.env];
        let ghost mut qs: Seq<Seq<Seq<int>>> = seq![self.q_table@];
        let ghost mut succ: Seq<bool> = Seq::<bool>::empty();
        let max_episode = self.max_episode;
        let mut episode: usize = 0;
        let mut stop = false;
        while episode < max_episode && !stop
            invariant
                self.wf(),
                old(self).same_setup(&*self),
                old(self).same_shape(&*self),
                max_episode == old(self).max_episode,
                episode <= max_episode,
                agent0 == old(self).agent,
                self.agent.alpha_v() == agent0.alpha_v(),
                self.agent.gamma_v() == agent0.gamma_v(),
                self.agent.eps_v() == agent0.eps_v(),
                forall|q: Seq<Seq<int>>, rr: int, ss: int, aa: int|
                    #[trigger] self.agent.target_v(q, rr, ss, aa) == agent0.target_v(
                        q,
                        rr,
                        ss,
                        aa,
                    ),
                self.returns@.len() == old(self).returns@.len() + episode,
                self.returns@.take(old(self).returns@.len() as int) == old(self).returns@,
                stop ==> self.success_count >= self.max_succeeded_episode,
                stop ==> episode >= 1,
                hs.len() == episode,
                es.len() == episode + 1,
                qs.len() == episode + 1,
                succ.len() == episode,
                es[0] == old(self).env,
                qs[0] == old(self).q_table@,
                es.last() == self.env,
                qs.last() == self.q_table@,
                training_rel(agent0, hs, es, qs, succ),
                self.success_count as int == streak_v(old(self).success_count as int, succ),
                forall|k: int|
                    0 <= k < hs.len() ==> (#[trigger] hs[k]).wf() && 1 <= hs[k].len_v() <= old(
                        self,
                    ).max_step + 1 && (self.returns@[old(self).returns@.len() + k])@ == fx_sum_v(
                        bits_of(hs[k].r@),
                    ),
            decreases max_episode - episode,
        {
            let ghost env_pre = self.env;
            let ghost table_pre = self.q_table@;
            let ghost agent_pre = self.agent;
            let out = self.run_episode();
            let history = out.0;
            let succeeded = out.1;
            proof {
                let (envsw, tablesw, nextsw) = choose|
                    envsw: Seq<E>,
                    tablesw: Seq<Seq<Seq<int>>>,
                    nextsw: Seq<int>,
                |
                    episode_rel(agent_pre, env_pre, table_pre, history, envsw, tablesw, nextsw)
                        && envsw.last() == self.env && tablesw.last() == self.q_table@;
                lemma_episode_rel_agents(
                    agent_pre,
                    agent0,
                    env_pre,
                    table_pre,
                    history,
                    envsw,
                    tablesw,
                    nextsw,
                );
                let hs_prev = hs;
                let es_prev = es;
                let qs_prev = qs;
                let succ_prev = succ;
                hs = hs.push(history);
                es = es.push(self.env);
                qs = qs.push(self.q_table@);
                succ = succ.push(succeeded);
                assert forall|k: int| 0 <= k < hs.len() - 1 implies #[trigger] hs[k] == hs_prev[k]
                    && es[k] == es_prev[k] && qs[k] == qs_prev[k] && succ[k] == succ_prev[k] by {}
                assert(es[hs.len() - 1] == es_prev.last());
                assert(qs[hs.len() - 1] == qs_prev.last());
                assert(episode_from(
                    agent0,
                    env_pre,
                    table_pre,
                    history,
                    self.env,
                    self.q_table@,
                ));
                assert forall|k: int| 0 <= k < hs.len() implies episode_from(
                    agent0,
                    es[k],
                    qs[k],
                    #[trigger] hs[k],
                    es[k + 1],
                    qs[k + 1],
                ) by {
                    if k < hs.len() - 1 {
                        assert(episode_from(
                            agent0,
                            es_prev[k],
                            qs_prev[k],
                            hs_prev[k],
                            es_prev[k + 1],
                            qs_prev[k + 1],
                        ));
                        assert(es[k + 1] == es_prev[k + 1]);
                        assert(qs[k + 1] == qs_prev[k + 1]);
                    }
                }
                assert(succ.drop_last() =~= succ_prev);
            }
            if succeeded {
                if self.success_count < usize::MAX {
                    self.success_count = self.success_count + 1;
                }
            } else {
                self.success_count = 0;
            }
            let ghost returns_prev = self.returns@;
            let ret = history.sum_r();
            self.returns.push(ret);
            proof {
                assert(self.returns@.take(old(self).returns@.len() as int) =~= returns_prev.take(
                    old(self).returns@.len() as int,
                ));
                assert forall|k: int| 0 <= k < hs.len() implies (#[trigger] hs[k]).wf()
                    && 1 <= hs[k].len_v() <= old(self).max_step + 1
                    && (self.returns@[old(self).returns@.len() + k])@ == fx_sum_v(
                    bits_of(hs[k].r@),
                ) by {
                    if k < hs.len() - 1 {
                        assert(hs[k] == hs.drop_last()[k]);
                        assert(self.returns@[old(self).returns@.len() + k] == returns_prev[old(
                            self,
                        ).returns@.len() + k]);
                    } else {
                        assert(hs[k] == history);
                        assert(self.returns@[old(self).returns@.len() + k] == ret);
                    }
                }
            }
            episode = episode + 1;
            if self.success_count >= self.max_succeeded_episode {
                stop = true;
            }
        }
        proof {
            assert(training_rel(agent0, hs, es, qs, succ));
        }
    }

    /// Freezes the agent (zero learning rate, zero exploration) and runs
    /// one evaluation episode, returning its trace: one episode of a frozen
    /// agent that keeps the trained agent's target rule, run from the
    /// current environment and table.
    pub fn test_run(&mut self) -> (h: History)
        requires
            old(self).wf(),
        ensures
            final(self).wf(),
            old(self).same_setup(final(self)),
            final(self).agent.alpha_v() == 0,
            final(self).agent.eps_v() == 0,
            final(self).agent.gamma_v() == old(self).agent.gamma_v(),
            h.wf(),
            1 <= h.len_v() <= old(self).max_step + 1,
            h.len_v() < old(self).max_step + 1 ==> final(self).env.done_v(),
            forall|i: int|
                0 <= i < h.len_v() ==> ((#[trigger] h.a@[i]) as int) < old(
                    self,
                ).q_table.a_space_v(),
            forall|i: int|
                0 <= i < h.len_v() ==> ((#[trigger] h.s@[i]) as int) < old(
                    self,
                ).q_table.s_space_v(),
            exists|ag: A|
                {
                    &&& ag.alpha_v() == 0
                    &&& ag.eps_v() == 0
                    &&& ag.gamma_v() == old(self).agent.gamma_v()
                    &&& (forall|q: Seq<Seq<int>>, rr: int, ss: int, aa: int|
                        #[trigger] ag.target_v(q, rr, ss, aa) == old(self).agent.target_v(
                            q,
                            rr,
                            ss,
                            aa,
                        ))
                    &&& #[trigger] episode_from(
                        ag,
                        old(self).env,
                        old(self).q_table@,
                        h,
                        final(self).env,
                        final(self).q_table@,
                    )
                },
    {
        self.agent.fix();
        let ghost frozen = self.agent;
        let out = self.run_episode();
        proof {
            assert(episode_from(
                frozen,
                old(self).env,
                old(self).q_table@,
                out.0,
                self.env,
                self.q_table@,
            ));
        }
        out.0
    }
}

} // verus!
