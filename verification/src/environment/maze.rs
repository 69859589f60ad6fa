//! The grid-world environment: a rectangular maze of free cells and wall
//! cells, a fixed start, and a goal.
//!
//! The agent moves one cell per step. Reaching the goal ends the episode in
//! success; stepping into a wall or off the grid ends it in failure. The
//! position may sit one cell outside the grid after a final step, so the
//! state encoding clamps it to the nearest cell — by then the episode is
//! already terminal.

use crate::config::{fx_key_v, lookup_v, usize_key_v, Config, ConfigError};
use crate::environment::{fmt_pair, Environment};
use crate::fixed::Fx;
use vstd::prelude::*;

verus! {

/// Upper bound on each maze dimension; it keeps every index comfortably
/// inside both `usize` and `i64`.
pub const MAZE_DIM_MAX: usize = 1_048_576;

/// An index clamped into `[0, n)`.
pub open spec fn clamp_idx(x: int, n: int) -> int {
    if x < 0 {
        0
    } else if x >= n {
        n - 1
    } else {
        x
    }
}

/// The configuration values a maze needs: three rewards, two dimensions in
/// range, and a maze text with at least one character per cell.
pub open spec fn maze_config_ok(cfg: Seq<(Seq<char>, Seq<char>)>) -> bool {
    &&& fx_key_v(cfg, "ENV_GOAL_REWARD"@) is Some
    &&& fx_key_v(cfg, "ENV_DEAD_REWARD"@) is Some
    &&& fx_key_v(cfg, "ENV_DEFAULT_REWARD"@) is Some
    &&& match (usize_key_v(cfg, "ENV_HEIGHT"@), usize_key_v(cfg, "ENV_WIDTH"@), lookup_v(
        cfg,
        "ENV_MAZE"@,
    )) {
        (Some(h), Some(w), Some(t)) => 2 <= h <= MAZE_DIM_MAX as int && 2 <= w <= MAZE_DIM_MAX
            as int && h * w <= usize::MAX as int && t.len() >= h * w,
        _ => false,
    }
}

pub struct Maze {
    pub goal_reward: Fx,
    pub dead_reward: Fx,
    pub default_reward: Fx,
    pub height: usize,
    pub width: usize,
    pub s_space: usize,
    pub maze: Vec<Vec<char>>,
    pub start: (i64, i64),
    pub goal: (i64, i64),
    pub pos: (i64, i64),
}

impl Maze {
    /// The position lies on the grid.
    pub open spec fn in_maze_v(&self, p: (i64, i64)) -> bool {
        0 <= p.0 && (p.0 as int) < self.height as int && 0 <= p.1 && (p.1 as int) < self.width
            as int
    }

    /// The position lies on a wall cell.
    pub open spec fn wall_v(&self, p: (i64, i64)) -> bool {
        self.in_maze_v(p) && self.maze@[p.0 as int]@[p.1 as int] == '#'
    }

    /// The position after one move in direction `a`: up, down, left, right.
    pub open spec fn moved_v(&self, a: int) -> (i64, i64) {
        if a == 0 {
            ((self.pos.0 - 1) as i64, self.pos.1)
        } else if a == 1 {
            ((self.pos.0 + 1) as i64, self.pos.1)
        } else if a == 2 {
            (self.pos.0, (self.pos.1 - 1) as i64)
        } else {
            (self.pos.0, (self.pos.1 + 1) as i64)
        }
    }

    /// Reads one row of a maze text laid out row-major.
    fn parse_maze(height: usize, width: usize, text: &str) -> (res: Vec<Vec<char>>)
        requires
            1 <= height <= MAZE_DIM_MAX,
            1 <= width <= MAZE_DIM_MAX,
            height * width <= usize::MAX as int,
            text@.len() >= height * width,
        ensures
            res@.len() == height,
            forall|i: int| 0 <= i < height ==> (#[trigger] res@[i])@.len() == width,
            forall|i: int, j: int|
                0 <= i < height && 0 <= j < width ==> (#[trigger] res@[i]@[j]) == text@[i * (
                width as int) + j],
    {
        let mut res: Vec<Vec<char>> = Vec::new();
        let mut i: usize = 0;
        while i < height
            invariant
                i <= height,
                1 <= height <= MAZE_DIM_MAX,
                1 <= width <= MAZE_DIM_MAX,
                height * width <= usize::MAX as int,
                text@.len() >= height * width,
                res@.len() == i,
                forall|p: int| 0 <= p < i ==> (#[trigger] res@[p])@.len() == width,
                forall|p: int, q: int|
                    0 <= p < i && 0 <= q < width ==> (#[trigger] res@[p]@[q]) == text@[p * (
                    width as int) + q],
            decreases height - i,
        {
            proof {
                assert(i * width + width <= height * width) by (nonlinear_arith)
                    requires
                        0 <= i < height,
                        0 <= width,
                ;
                assert(0 <= i * width) by (nonlinear_arith)
                    requires
                        0 <= i,
                        0 <= width,
                ;
            }
            let mut row: Vec<char> = Vec::new();
            let mut j: usize = 0;
            while j < width
                invariant
                    j <= width,
                    i < height,
                    1 <= width <= MAZE_DIM_MAX,
                    height * width <= usize::MAX as int,
                    text@.len() >= height * width,
                    i * width + width <= height * width,
                    0 <= i * width,
                    row@.len() == j,
                    forall|q: int|
                        0 <= q < j ==> (#[trigger] row@[q]) == text@[i as int * (width as int)
                            + q],
                decreases width - j,
            {
                row.push(text.get_char(i * width + j));
                j = j + 1;
            }
            res.push(row);
            i = i + 1;
        }
        res
    }

    /// Builds a maze from a configuration. Succeeds exactly when the three
    /// reward keys parse, both dimensions are in range, and the maze text
    /// covers the grid; the start is cell `(1, 1)` and the goal the cell
    /// just inside the bottom-right corner.
    pub fn new(config: &Config) -> (r: Result<Maze, ConfigError>)
        ensures
            r is Ok <==> maze_config_ok(config@),
            r matches Err(e) ==> match e {
                ConfigError::MissingKey(k) => lookup_v(config@, k@) is None,
                ConfigError::BadValue(k) => lookup_v(config@, k@) is Some,
                ConfigError::BadStructure(_) => true,
            },
            r matches Ok(m) ==> {
                &&& m.wf()
                &&& Some(m.goal_reward@) == fx_key_v(config@, "ENV_GOAL_REWARD"@)
                &&& Some(m.dead_reward@) == fx_key_v(config@, "ENV_DEAD_REWARD"@)
                &&& Some(m.default_reward@) == fx_key_v(config@, "ENV_DEFAULT_REWARD"@)
                &&& Some(m.height as int) == usize_key_v(config@, "ENV_HEIGHT"@)
                &&& Some(m.width as int) == usize_key_v(config@, "ENV_WIDTH"@)
                &&& m.pos == m.start
                &&& m.goal.0 == m.height - 2 && m.goal.1 == m.width - 2
                &&& (lookup_v(config@, "ENV_MAZE"@) matches Some(t) && (forall|i: int, j: int|
                    0 <= i < m.height && 0 <= j < m.width ==> (#[trigger] m.maze@[i]@[j])
                        == t[i * (m.width as int) + j]))
            },
    {
        let goal_reward = match config.get_fx("ENV_GOAL_REWARD") {
            Ok(v) => v,
            Err(e) => {
                return Err(e);
            },
        };
        let dead_reward = match config.get_fx("ENV_DEAD_REWARD") {
            Ok(v) => v,
            Err(e) => {
                return Err(e);
            },
        };
        let default_reward = match config.get_fx("ENV_DEFAULT_REWARD") {
            Ok(v) => v,
            Err(e) => {
                return Err(e);
            },
        };
        let height = match config.get_usize("ENV_HEIGHT") {
            Ok(v) => v,
            Err(e) => {
                return Err(e);
            },
        };
        let width = match config.get_usize("ENV_WIDTH") {
            Ok(v) => v,
            Err(e) => {
                return Err(e);
            },
        };
        let text = match config.get("ENV_MAZE") {
            Ok(v) => v,
            Err(e) => {
                return Err(ConfigError::MissingKey(e.key));
            },
        };
        if height < 2 || height > MAZE_DIM_MAX || width < 2 || width > MAZE_DIM_MAX {
            return Err(ConfigError::BadStructure(String::from_str("maze dimensions")));
        }
        let cells: usize = match height.checked_mul(width) {
            Some(c) => c,
            None => {
                return Err(ConfigError::BadStructure(String::from_str("maze size")));
            },
        };
        if text.unicode_len() < cells {
            return Err(ConfigError::BadStructure(String::from_str("maze text")));
        }
        let maze = Maze::parse_maze(height, width, text.as_str());
        let m = Maze {
            goal_reward,
            dead_reward,
            default_reward,
            height,
            width,
            s_space: cells,
            maze,
            start: (1, 1),
            goal: ((height - 2) as i64, (width - 2) as i64),
            pos: (1, 1),
        };
        proof {
            assert(1 <= m.height * m.width) by (nonlinear_arith)
                requires
                    2 <= m.height,
                    2 <= m.width,
            ;
        }
        Ok(m)
    }

    /// The invariant: dimensions in range, the grid fully populated, the
    /// start and goal on the grid, and the position at most one cell off it.
    pub open spec fn maze_wf(&self) -> bool {
        &&& 2 <= self.height <= MAZE_DIM_MAX
        &&& 2 <= self.width <= MAZE_DIM_MAX
        &&& self.s_space == self.height * self.width
        &&& self.maze@.len() == self.height
        &&& forall|i: int| 0 <= i < self.height ==> (#[trigger] self.maze@[i])@.len() == self.width
        &&& -1 <= self.pos.0 && (self.pos.0 as int) <= self.height as int
        &&& -1 <= self.pos.1 && (self.pos.1 as int) <= self.width as int
        &&& self.start.0 == 1 && self.start.1 == 1
        &&& 0 <= self.goal.0 && (self.goal.0 as int) < self.height as int
        &&& 0 <= self.goal.1 && (self.goal.1 as int) < self.width as int
    }
}

impl Environment for Maze {
    open spec fn wf(&self) -> bool {
        self.maze_wf()
    }

    open spec fn s_space_v(&self) -> int {
        self.s_space as int
    }

    open spec fn a_space_v(&self) -> int {
        4
    }

    /// The row-major cell index of the position, clamped onto the grid.
    open spec fn s_v(&self) -> int {
        clamp_idx(self.pos.0 as int, self.height as int) * (self.width as int) + clamp_idx(
            self.pos.1 as int,
            self.width as int,
        )
    }

    open spec fn r_v(&self) -> int {
        if self.pos == self.goal {
            self.goal_reward@
        } else if !self.in_maze_v(self.pos) || self.wall_v(self.pos) {
            self.dead_reward@
        } else {
            self.default_reward@
        }
    }

    open spec fn done_v(&self) -> bool {
        self.pos == self.goal || !self.in_maze_v(self.pos) || self.wall_v(self.pos)
    }

    open spec fn success_v(&self) -> bool {
        self.pos == self.goal
    }

    open spec fn step_rel(&self, a: int, next: Maze) -> bool {
        next == (Maze { pos: self.moved_v(a), ..*self })
    }

    open spec fn reset_rel(&self, next: Maze) -> bool {
        next == (Maze { pos: self.start, ..*self })
    }

    fn s_space(&self) -> (n: usize) {
        proof {
            assert(1 <= self.height * self.width) by (nonlinear_arith)
                requires
                    2 <= self.height,
                    2 <= self.width,
            ;
        }
        self.s_space
    }

    fn a_space(&self) -> (n: usize) {
        4
    }

    fn s(&self) -> (st: usize) {
        let r: usize = if self.pos.0 < 0 {
            0
        } else if self.pos.0 >= self.height as i64 {
            self.height - 1
        } else {
            self.pos.0 as usize
        };
        let c: usize = if self.pos.1 < 0 {
            0
        } else if self.pos.1 >= self.width as i64 {
            self.width - 1
        } else {
            self.pos.1 as usize
        };
        proof {
            assert(r * self.width + c < self.height * self.width) by (nonlinear_arith)
                requires
                    0 <= r < self.height,
                    0 <= c < self.width,
            ;
            assert(0 <= r * self.width) by (nonlinear_arith)
                requires
                    0 <= r,
                    0 <= self.width,
            ;
        }
        r * self.width + c
    }

    fn r(&self) -> (rw: Fx) {
        if self.is_success() {
            self.goal_reward
        } else if self.is_done() {
            self.dead_reward
        } else {
            self.default_reward
        }
    }

    fn info(&self) -> (text: String) {
        fmt_pair(self.pos.0, self.pos.1)
    }

    fn reset(&mut self) {
        self.pos = self.start;
    }

    fn run_step(&mut self, a: usize) {
        if a == 0 {
            self.pos = (self.pos.0 - 1, self.pos.1);
        } else if a == 1 {
            self.pos = (self.pos.0 + 1, self.pos.1);
        } else if a == 2 {
            self.pos = (self.pos.0, self.pos.1 - 1);
        } else {
            self.pos = (self.pos.0, self.pos.1 + 1);
        }
    }

    fn is_done(&self) -> (d: bool) {
        self.is_success() || !self.is_in_maze() || self.is_in_wall()
    }

    fn is_success(&self) -> (d: bool) {
        self.pos.0 == self.goal.0 && self.pos.1 == self.goal.1
    }
}

impl Maze {
    /// The position lies on the grid.
    fn is_in_maze(&self) -> (b: bool)
        requires
            self.maze_wf(),
        ensures
            b == self.in_maze_v(self.pos),
    {
        0 <= self.pos.0 && self.pos.0 < self.height as i64 && 0 <= self.pos.1 && self.pos.1
            < self.width as i64
    }

    /// The position lies on a wall cell.
    fn is_in_wall(&self) -> (b: bool)
        requires
            self.maze_wf(),
        ensures
            b == self.wall_v(self.pos),
    {
        if self.is_in_maze() {
            let c = self.maze[self.pos.0 as usize][self.pos.1 as usize];
            c == '#'
        } else {
            false
        }
    }
}

} // verus!
