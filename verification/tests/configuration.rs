use tabular_rl::config::{Config, ConfigError};
use tabular_rl::environment::maze::Maze;
use tabular_rl::environment::Environment;

fn cfg(lines: &[&str]) -> Config {
    let owned: Vec<String> = lines.iter().map(|s| s.to_string()).collect();
    Config::from_lines(&owned).expect("test configuration must parse")
}

#[test]
fn parse_line_splits_at_the_single_separator() {
    let (k, v) = Config::parse_line("AGENT_ALPHA=0.5").expect("one separator");
    assert_eq!(k, "AGENT_ALPHA");
    assert_eq!(v, "0.5");
    let (k2, v2) = Config::parse_line("X=").expect("empty value is a value");
    assert_eq!(k2, "X");
    assert_eq!(v2, "");
    assert!(Config::parse_line("no separator here").is_err());
    assert!(Config::parse_line("two=equal=signs").is_err());
    let err = Config::parse_line("bad line").unwrap_err();
    assert_eq!(err.line, "bad line");
}

#[test]
fn from_lines_reports_the_first_bad_line() {
    let lines: Vec<String> = vec!["A=1".to_string(), "broken".to_string(), "B=2".to_string()];
    let err = Config::from_lines(&lines).unwrap_err();
    assert_eq!(err.line, "broken");
}

#[test]
fn get_returns_the_latest_binding() {
    let c = cfg(&["A=1", "B=2", "A=3"]);
    assert_eq!(c.get("A").unwrap(), "3");
    assert_eq!(c.get("B").unwrap(), "2");
    let missing = c.get("C").unwrap_err();
    assert_eq!(missing.key, "C");
}

#[test]
fn typed_getters_classify_their_failures() {
    let c = cfg(&["N=12", "F=0.25", "BAD=zzz"]);
    assert_eq!(c.get_usize("N").unwrap(), 12);
    assert_eq!(c.get_fx("F").unwrap().bits, 250_000);
    assert!(matches!(c.get_usize("BAD"), Err(ConfigError::BadValue(k)) if k == "BAD"));
    assert!(matches!(c.get_fx("BAD"), Err(ConfigError::BadValue(k)) if k == "BAD"));
    assert!(matches!(c.get_usize("NOPE"), Err(ConfigError::MissingKey(k)) if k == "NOPE"));
}

fn maze_lines() -> Vec<&'static str> {
    vec![
        "ENV_GOAL_REWARD=1",
        "ENV_DEAD_REWARD=-1",
        "ENV_DEFAULT_REWARD=-0.01",
        "ENV_HEIGHT=5",
        "ENV_WIDTH=5",
        "ENV_MAZE=######   ##   ##   ######",
    ]
}

#[test]
fn a_maze_builds_from_a_complete_configuration() {
    let c = cfg(&maze_lines());
    let m = Maze::new(&c).expect("complete maze configuration");
    assert_eq!(m.s_space(), 25);
    assert_eq!(m.a_space(), 4);
    // the start cell (1, 1) is state 6
    assert_eq!(m.s(), 6);
    assert_eq!(m.r().bits, -10_000);
    assert!(!m.is_done());
    assert!(!m.is_success());
}

#[test]
fn a_maze_with_a_missing_key_is_refused() {
    let mut lines = maze_lines();
    lines.retain(|l| !l.starts_with("ENV_WIDTH"));
    let c = cfg(&lines);
    assert!(matches!(Maze::new(&c), Err(ConfigError::MissingKey(k)) if k == "ENV_WIDTH"));
}

#[test]
fn a_maze_with_an_unreadable_number_is_refused() {
    let mut lines = maze_lines();
    lines.retain(|l| !l.starts_with("ENV_GOAL_REWARD"));
    lines.push("ENV_GOAL_REWARD=one");
    let c = cfg(&lines);
    assert!(matches!(Maze::new(&c), Err(ConfigError::BadValue(k)) if k == "ENV_GOAL_REWARD"));
}

#[test]
fn a_maze_with_a_short_text_is_refused() {
    let mut lines = maze_lines();
    lines.retain(|l| !l.starts_with("ENV_MAZE"));
    lines.push("ENV_MAZE=####");
    let c = cfg(&lines);
    assert!(matches!(Maze::new(&c), Err(ConfigError::BadStructure(_))));
}

#[test]
fn a_maze_with_degenerate_dimensions_is_refused() {
    let mut lines = maze_lines();
    lines.retain(|l| !l.starts_with("ENV_HEIGHT"));
    lines.push("ENV_HEIGHT=1");
    let c = cfg(&lines);
    assert!(matches!(Maze::new(&c), Err(ConfigError::BadStructure(_))));
}

#[test]
fn maze_moves_rewards_and_termination_follow_the_grid() {
    let c = cfg(&maze_lines());
    let mut m = Maze::new(&c).expect("maze");
    // move right twice, down twice: from (1,1) to (3,3), the goal
    m.run_step(3);
    assert_eq!(m.s(), 7);
    assert!(!m.is_done());
    m.run_step(3);
    m.run_step(1);
    m.run_step(1);
    assert_eq!(m.s(), 18);
    assert!(m.is_done());
    assert!(m.is_success());
    assert_eq!(m.r().bits, 1_000_000);
    // reset restores the start
    m.reset();
    assert_eq!(m.s(), 6);
    assert!(!m.is_done());
    // walking up into the border wall is terminal and not a success
    m.run_step(0);
    assert!(m.is_done());
    assert!(!m.is_success());
    assert_eq!(m.r().bits, -1_000_000);
}
