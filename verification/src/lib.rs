//! A tabular reinforcement-learning training harness: a discrete-action
//! learning agent paired with a simulated environment, repeated episodes
//! that update a value table, and traces of what happened.
//!
//! All continuous quantities are fixed-point numbers (see `fixed`), so every
//! update rule, integrator step and discretization has exact, fully
//! verified semantics. Reading files, command lines and writing traces is
//! the caller's business: the library takes and returns plain values.

pub mod agent;
pub mod bins;
pub mod config;
pub mod environment;
pub mod experiment;
pub mod fixed;
pub mod history;
pub mod integrator;
pub mod parse;
pub mod q_table;
pub mod rng;

use crate::agent::q_learning::QLearning;
use crate::agent::sarsa::Sarsa;
use crate::agent::{agent_config_ok, Agent};
use crate::config::{lookup_v, Config, ConfigError, NoKeyError};
use crate::environment::cartpole::{cartpole_config_ok, Cartpole};
use crate::environment::maze::{maze_config_ok, Maze};
use crate::environment::pendulum::{pendulum_config_ok, Pendulum};
use crate::environment::Environment;
use crate::fixed::Fx;
use crate::q_table::QTable;
use vstd::prelude::*;

verus! {

/// A discretized state index.
pub type State = usize;

/// An action index.
pub type Action = usize;

/// A command line that is not exactly a program name and a configuration
/// path.
#[derive(Debug)]
pub struct InvalidArgsError {
    pub args: Vec<String>,
}

impl InvalidArgsError {
    /// Records the offending command line.
    pub fn new(args: Vec<String>) -> (e: InvalidArgsError)
        ensures
            e.args == args,
    {
        InvalidArgsError { args }
    }
}

/// An agent name the factory does not know.
#[derive(Debug)]
pub struct InvalidAgentNameError {
    pub name: String,
}

impl InvalidAgentNameError {
    /// Records the unknown name.
    pub fn new(name: &str) -> (e: InvalidAgentNameError)
        ensures
            e.name@ == name@,
    {
        InvalidAgentNameError { name: name.to_owned() }
    }
}

/// An environment name the factory does not know.
#[derive(Debug)]
pub struct InvalidEnvironmentNameError {
    pub name: String,
}

impl InvalidEnvironmentNameError {
    /// Records the unknown name.
    pub fn new(name: &str) -> (e: InvalidEnvironmentNameError)
        ensures
            e.name@ == name@,
    {
        InvalidEnvironmentNameError { name: name.to_owned() }
    }
}

/// Why a run could not be assembled from its configuration.
#[derive(Debug)]
pub enum RunnerError {
    MissingKey(NoKeyError),
    Config(ConfigError),
    AgentName(InvalidAgentNameError),
    EnvironmentName(InvalidEnvironmentNameError),
}

/// Either of the two agents, chosen by name at run time.
pub enum AnyAgent {
    QLearning(QLearning),
    Sarsa(Sarsa),
}

impl Agent for AnyAgent {
    open spec fn alpha_v(&self) -> int {
        match self {
            AnyAgent::QLearning(ag) => ag.alpha_v(),
            AnyAgent::Sarsa(ag) => ag.alpha_v(),
        }
    }

    open spec fn gamma_v(&self) -> int {
        match self {
            AnyAgent::QLearning(ag) => ag.gamma_v(),
            AnyAgent::Sarsa(ag) => ag.gamma_v(),
        }
    }

    open spec fn eps_v(&self) -> int {
        match self {
            AnyAgent::QLearning(ag) => ag.eps_v(),
            AnyAgent::Sarsa(ag) => ag.eps_v(),
        }
    }

    open spec fn target_v(&self, q: Seq<Seq<int>>, r: int, s2: int, a2: int) -> int {
        match self {
            AnyAgent::QLearning(ag) => ag.target_v(q, r, s2, a2),
            AnyAgent::Sarsa(ag) => ag.target_v(q, r, s2, a2),
        }
    }

    fn a(&mut self, q_table: &QTable, s: usize) -> (act: usize) {
        match self {
            AnyAgent::QLearning(ag) => ag.a(q_table, s),
            AnyAgent::Sarsa(ag) => ag.a(q_table, s),
        }
    }

    fn learn(&self, q_table: &mut QTable, s1: usize, a1: usize, r: Fx, s2: usize, a2: usize) {
        match self {
            AnyAgent::QLearning(ag) => ag.learn(q_table, s1, a1, r, s2, a2),
            AnyAgent::Sarsa(ag) => ag.learn(q_table, s1, a1, r, s2, a2),
        }
    }

    fn fix(&mut self) {
        match self {
            AnyAgent::QLearning(ag) => ag.fix(),
            AnyAgent::Sarsa(ag) => ag.fix(),
        }
    }
}

/// Any of the three environments, chosen by name at run time.
pub enum AnyEnv {
    Cartpole(Cartpole),
    Maze(Maze),
    Pendulum(Pendulum),
}

impl Environment for AnyEnv {
    open spec fn wf(&self) -> bool {
        match self {
            AnyEnv::Cartpole(e) => e.wf(),
            AnyEnv::Maze(e) => e.wf(),
            AnyEnv::Pendulum(e) => e.wf(),
        }
    }

    open spec fn s_space_v(&self) -> int {
        match self {
            AnyEnv::Cartpole(e) => e.s_space_v(),
            AnyEnv::Maze(e) => e.s_space_v(),
            AnyEnv::Pendulum(e) => e.s_space_v(),
        }
    }

    open spec fn a_space_v(&self) -> int {
        match self {
            AnyEnv::Cartpole(e) => e.a_space_v(),
            AnyEnv::Maze(e) => e.a_space_v(),
            AnyEnv::Pendulum(e) => e.a_space_v(),
        }
    }

    open spec fn s_v(&self) -> int {
        match self {
            AnyEnv::Cartpole(e) => e.s_v(),
            AnyEnv::Maze(e) => e.s_v(),
            AnyEnv::Pendulum(e) => e.s_v(),
        }
    }

    open spec fn r_v(&self) -> int {
        match self {
            AnyEnv::Cartpole(e) => e.r_v(),
            AnyEnv::Maze(e) => e.r_v(),
            AnyEnv::Pendulum(e) => e.r_v(),
        }
    }

    open spec fn done_v(&self) -> bool {
        match self {
            AnyEnv::Cartpole(e) => e.done_v(),
            AnyEnv::Maze(e) => e.done_v(),
            AnyEnv::Pendulum(e) => e.done_v(),
        }
    }

    open spec fn success_v(&self) -> bool {
        match self {
            AnyEnv::Cartpole(e) => e.success_v(),
            AnyEnv::Maze(e) => e.success_v(),
            AnyEnv::Pendulum(e) => e.success_v(),
        }
    }

    open spec fn step_rel(&self, a: int, next: AnyEnv) -> bool {
        match (self, next) {
            (AnyEnv::Cartpole(e), AnyEnv::Cartpole(n)) => e.step_rel(a, n),
            (AnyEnv::Maze(e), AnyEnv::Maze(n)) => e.step_rel(a, n),
            (AnyEnv::Pendulum(e), AnyEnv::Pendulum(n)) => e.step_rel(a, n),
            _ => false,
        }
    }

    open spec fn reset_rel(&self, next: AnyEnv) -> bool {
        match (self, next) {
            (AnyEnv::Cartpole(e), AnyEnv::Cartpole(n)) => e.reset_rel(n),
            (AnyEnv::Maze(e), AnyEnv::Maze(n)) => e.reset_rel(n),
            (AnyEnv::Pendulum(e), AnyEnv::Pendulum(n)) => e.reset_rel(n),
            _ => false,
        }
    }

    fn s_space(&self) -> (n: usize) {
        match self {
            AnyEnv::Cartpole(e) => e.s_space(),
            AnyEnv::Maze(e) => e.s_space(),
            AnyEnv::Pendulum(e) => e.s_space(),
        }
    }

    fn a_space(&self) -> (n: usize) {
        match self {
            AnyEnv::Cartpole(e) => e.a_space(),
            AnyEnv::Maze(e) => e.a_space(),
            AnyEnv::Pendulum(e) => e.a_space(),
        }
    }

    fn s(&self) -> (st: usize) {
        match self {
            AnyEnv::Cartpole(e) => e.s(),
            AnyEnv::Maze(e) => e.s(),
            AnyEnv::Pendulum(e) => e.s(),
        }
    }

    fn r(&self) -> (rw: Fx) {
        match self {
            AnyEnv::Cartpole(e) => e.r(),
            AnyEnv::Maze(e) => e.r(),
            AnyEnv::Pendulum(e) => e.r(),
        }
    }

    fn info(&self) -> (text: String) {
        match self {
            AnyEnv::Cartpole(e) => e.info(),
            AnyEnv::Maze(e) => e.info(),
            AnyEnv::Pendulum(e) => e.info(),
        }
    }

    fn reset(&mut self) {
        match self {
            AnyEnv::Cartpole(e) => e.reset(),
            AnyEnv::Maze(e) => e.reset(),
            AnyEnv::Pendulum(e) => e.reset(),
        }
    }

    fn run_step(&mut self, a: usize) {
        match self {
            AnyEnv::Cartpole(e) => e.run_step(a),
            AnyEnv::Maze(e) => e.run_step(a),
            AnyEnv::Pendulum(e) => e.run_step(a),
        }
    }

    fn is_done(&self) -> (d: bool) {
        match self {
            AnyEnv::Cartpole(e) => e.is_done(),
            AnyEnv::Maze(e) => e.is_done(),
            AnyEnv::Pendulum(e) => e.is_done(),
        }
    }

    fn is_success(&self) -> (d: bool) {
        match self {
            AnyEnv::Cartpole(e) => e.is_success(),
            AnyEnv::Maze(e) => e.is_success(),
            AnyEnv::Pendulum(e) => e.is_success(),
        }
    }
}

/// The run assembler: holds the parsed configuration and builds the agent
/// and the environment it names.
pub struct Runner {
    pub config: Config,
}

impl Runner {
    /// Wraps a parsed configuration.
    pub fn new(config: Config) -> (r: Runner)
        ensures
            r.config == config,
    {
        Runner { config }
    }

    /// Builds the agent the configuration names: `Q-learning` or `Sarsa`.
    pub fn choose_agent(&self) -> (r: Result<AnyAgent, RunnerError>)
        ensures
            r is Ok <==> (lookup_v(self.config@, "AGENT_NAME"@) == Some("Q-learning"@)
                || lookup_v(self.config@, "AGENT_NAME"@) == Some("Sarsa"@)) && agent_config_ok(
                self.config@,
            ),
            r matches Ok(ag) ==> match ag {
                AnyAgent::QLearning(_) => lookup_v(self.config@, "AGENT_NAME"@) == Some(
                    "Q-learning"@,
                ),
                AnyAgent::Sarsa(_) => lookup_v(self.config@, "AGENT_NAME"@) == Some("Sarsa"@),
            },
    {
        proof {
            reveal_strlit("Q-learning");
            reveal_strlit("Sarsa");
            assert("Q-learning"@.len() == 10 && "Sarsa"@.len() == 5);
            assert("Q-learning"@ != "Sarsa"@);
        }
        let name = match self.config.get("AGENT_NAME") {
            Ok(v) => v,
            Err(e) => {
                return Err(RunnerError::MissingKey(e));
            },
        };
        let q_name = String::from_str("Q-learning");
        let s_name = String::from_str("Sarsa");
        if name == q_name {
            match QLearning::new(&self.config) {
                Ok(ag) => Ok(AnyAgent::QLearning(ag)),
                Err(e) => Err(RunnerError::Config(e)),
            }
        } else if name == s_name {
            match Sarsa::new(&self.config) {
                Ok(ag) => Ok(AnyAgent::Sarsa(ag)),
                Err(e) => Err(RunnerError::Config(e)),
            }
        } else {
            Err(RunnerError::AgentName(InvalidAgentNameError::new(name.as_str())))
        }
    }

    /// Builds the environment the configuration names: `Cartpole`, `Maze`
    /// or `Pendulum`.
    #[verifier::rlimit(60)]
    pub fn choose_environment(&self) -> (r: Result<AnyEnv, RunnerError>)
        ensures
            r is Ok <==> {
                ||| lookup_v(self.config@, "ENV_NAME"@) == Some("Cartpole"@)
                    && cartpole_config_ok(self.config@)
                ||| lookup_v(self.config@, "ENV_NAME"@) == Some("Maze"@) && maze_config_ok(
                    self.config@,
                )
                ||| lookup_v(self.config@, "ENV_NAME"@) == Some("Pendulum"@)
                    && pendulum_config_ok(self.config@)
            },
            r matches Ok(env) ==> env.wf() && match env {
                AnyEnv::Cartpole(_) => lookup_v(self.config@, "ENV_NAME"@) == Some("Cartpole"@),
                AnyEnv::Maze(_) => lookup_v(self.config@, "ENV_NAME"@) == Some("Maze"@),
                AnyEnv::Pendulum(_) => lookup_v(self.config@, "ENV_NAME"@) == Some("Pendulum"@),
            },
    {
        proof {
            reveal_strlit("Cartpole");
            reveal_strlit("Maze");
            reveal_strlit("Pendulum");
            assert("Cartpole"@.len() == 8 && "Maze"@.len() == 4 && "Pendulum"@.len() == 8);
            assert("Cartpole"@[0] == 'C' && "Pendulum"@[0] == 'P');
            assert("Cartpole"@ != "Maze"@);
            assert("Cartpole"@ != "Pendulum"@);
            assert("Maze"@ != "Pendulum"@);
        }
        let name = match self.config.get("ENV_NAME") {
            Ok(v) => v,
            Err(e) => {
                return Err(RunnerError::MissingKey(e));
            },
        };
        let c_name = String::from_str("Cartpole");
        let m_name = String::from_str("Maze");
        let p_name = String::from_str("Pendulum");
        if name == c_name {
            proof {
                assert(lookup_v(self.config@, "ENV_NAME"@) == Some("Cartpole"@));
            }
            match Cartpole::new(&self.config) {
                Ok(env) => {
                    proof {
                        assert(cartpole_config_ok(self.config@));
                    }
                    Ok(AnyEnv::Cartpole(env))
                },
                Err(e) => {
                    proof {
                        assert(!cartpole_config_ok(self.config@));
                    }
                    Err(RunnerError::Config(e))
                },
            }
        } else if name == m_name {
            proof {
                assert(lookup_v(self.config@, "ENV_NAME"@) == Some("Maze"@));
            }
            match Maze::new(&self.config) {
                Ok(env) => {
                    proof {
                        assert(maze_config_ok(self.config@));
                    }
                    Ok(AnyEnv::Maze(env))
                },
                Err(e) => {
                    proof {
                        assert(!maze_config_ok(self.config@));
                    }
                    Err(RunnerError::Config(e))
                },
            }
        } else if name == p_name {
            proof {
                assert(lookup_v(self.config@, "ENV_NAME"@) == Some("Pendulum"@));
            }
            match Pendulum::new(&self.config) {
                Ok(env) => {
                    proof {
                        assert(pendulum_config_ok(self.config@));
                    }
                    Ok(AnyEnv::Pendulum(env))
                },
                Err(e) => {
                    proof {
                        assert(!pendulum_config_ok(self.config@));
                    }
                    Err(RunnerError::Config(e))
                },
            }
        } else {
            Err(RunnerError::EnvironmentName(InvalidEnvironmentNameError::new(name.as_str())))
        }
    }
}

} // verus!
