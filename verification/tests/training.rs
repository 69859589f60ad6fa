use tabular_rl::agent::q_learning::QLearning;
use tabular_rl::config::Config;
use tabular_rl::environment::maze::Maze;
use tabular_rl::environment::Environment;
use tabular_rl::experiment::Experiment;
use tabular_rl::fixed::Fx;
use tabular_rl::{AnyAgent, AnyEnv, Runner, RunnerError};

fn fx(bits: i64) -> Fx {
    Fx { bits }
}

fn full_lines() -> Vec<String> {
    vec![
        "AGENT_NAME=Q-learning",
        "AGENT_ALPHA=0.5",
        "AGENT_GAMMA=0.9",
        "AGENT_EPSILON=0.1",
        "ENV_NAME=Maze",
        "ENV_GOAL_REWARD=1",
        "ENV_DEAD_REWARD=-1",
        "ENV_DEFAULT_REWARD=-0.01",
        "ENV_HEIGHT=5",
        "ENV_WIDTH=5",
        "ENV_MAZE=######   ##   ##   ######",
        "EXPERIMENT_MAX_EPISODE=2000",
        "EXPERIMENT_MAX_STEP=60",
        "EXPERIMENT_MAX_SUCCEEDED_EPISODE=30",
        "QTABLE_INIT_QVALUE=0",
        "QTABLE_PATH=qtable.bin",
        "HISTORY_PATH=history.tsv",
        "RETURNS_PATH=returns.txt",
    ]
    .into_iter()
    .map(|s| s.to_string())
    .collect()
}

fn full_config() -> Config {
    Config::from_lines(&full_lines()).expect("configuration parses")
}

#[test]
fn the_factories_build_what_the_configuration_names() {
    let runner = Runner::new(full_config());
    match runner.choose_agent().expect("known agent name") {
        AnyAgent::QLearning(_) => {},
        AnyAgent::Sarsa(_) => panic!("wrong agent chosen"),
    }
    match runner.choose_environment().expect("known environment name") {
        AnyEnv::Maze(_) => {},
        _ => panic!("wrong environment chosen"),
    }
}

#[test]
fn unknown_names_are_reported() {
    let mut lines = full_lines();
    lines.retain(|l| !l.starts_with("AGENT_NAME") && !l.starts_with("ENV_NAME"));
    lines.push("AGENT_NAME=Gradient".to_string());
    lines.push("ENV_NAME=Orbit".to_string());
    let runner = Runner::new(Config::from_lines(&lines).expect("parses"));
    assert!(matches!(
        runner.choose_agent(),
        Err(RunnerError::AgentName(e)) if e.name == "Gradient"
    ));
    assert!(matches!(
        runner.choose_environment(),
        Err(RunnerError::EnvironmentName(e)) if e.name == "Orbit"
    ));
}

#[test]
fn a_trained_agent_walks_the_maze_to_the_goal() {
    // a 5x5 maze walled only on its border, start (1, 1), goal (3, 3):
    // after training, the frozen evaluation episode must reach the goal and
    // its last recorded reward must be the goal reward
    let config = full_config();
    let env = Maze::new(&config).expect("maze");
    let agent = QLearning::with_seed(fx(500_000), fx(900_000), fx(100_000), 42);
    let mut exp = Experiment::new(&config, agent, env).expect("experiment");
    exp.run();
    let history = exp.test_run();
    assert!(history.r.len() >= 1);
    assert!(history.r.len() <= 61);
    assert_eq!(history.r.last().unwrap().bits, 1_000_000);
    assert!(exp.env.is_success());
    // the evaluation path is short: the optimal route takes four moves
    assert!(history.a.len() <= 10, "evaluation took {} steps", history.a.len());
}

#[test]
fn an_episode_that_starts_at_the_goal_records_only_the_initial_state() {
    // a 3x3 border-walled maze puts the goal on the start cell: the episode
    // is over at reset, so no step is taken and the trace holds one record
    let mut lines = full_lines();
    lines.retain(|l| {
        !l.starts_with("ENV_HEIGHT") && !l.starts_with("ENV_WIDTH") && !l.starts_with("ENV_MAZE")
    });
    lines.push("ENV_HEIGHT=3".to_string());
    lines.push("ENV_WIDTH=3".to_string());
    lines.push("ENV_MAZE=#### ####".to_string());
    let config = Config::from_lines(&lines).expect("parses");
    let env = Maze::new(&config).expect("maze");
    let agent = QLearning::with_seed(fx(500_000), fx(900_000), fx(100_000), 9);
    let mut exp = Experiment::new(&config, agent, env).expect("experiment");
    let (history, succeeded) = exp.run_episode();
    assert!(succeeded);
    assert_eq!(history.a.len(), 1);
    assert_eq!(history.r[0].bits, 1_000_000);
}

#[test]
fn training_records_one_return_per_episode_until_the_streak_stops_it() {
    let config = full_config();
    let env = Maze::new(&config).expect("maze");
    let agent = QLearning::with_seed(fx(500_000), fx(900_000), fx(100_000), 42);
    let mut exp = Experiment::new(&config, agent, env).expect("experiment");
    exp.run();
    assert!(exp.returns.len() >= 1);
    assert!(exp.returns.len() <= 2000);
    // early stopping: the streak threshold was reached well before the cap
    assert!(exp.success_count >= 30);
}
