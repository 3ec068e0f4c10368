//! The game's state machine: input, the fixed-step movement clock, eating,
//! self-collision, and the start of a run.
use crate::dead::{noise_state, DeadSnake, Point};
use crate::grid::{Cell, Direction, COLS, ROWS};
use crate::render::PlatformRenderer;
use crate::snake::{distinct_on_grid, linked, Snake, SNAKE_INIT_ROW, SNAKE_INIT_SIZE, lemma_distinct_cells_fit_board};
use crate::utils::{lcg_output, lcg_step, rand, ring_displace_back, Rng};
use std::collections::VecDeque;
use vstd::prelude::*;
use vstd::string::StringSliceAdditionalSpecFns;

verus! {

/// Time between two steps of the snake, in microseconds.
pub const STEP_INTERVAL: i64 = 125_000;

/// How long the eating animation lasts, in microseconds.
pub const EATING_DURATION: i64 = 1_000_000;

/// Most turns that can wait for the next step.
pub const DIR_QUEUE_CAP: usize = 3;

/// Most cells drawn when looking for a free place for the egg.
pub const RANDOM_EGG_MAX_ATTEMPTS: u32 = 1000;

/// The keys the game reads, by their one-byte names: `w`, `a`, `s`, `d`
/// turn, space pauses and resumes, `r` restarts.
pub const KEY_UP: u8 = 119;

pub const KEY_LEFT: u8 = 97;

pub const KEY_DOWN: u8 = 115;

pub const KEY_RIGHT: u8 = 100;

pub const KEY_ACCEPT: u8 = 32;

pub const KEY_RESTART: u8 = 114;

/// Developer keys `z`, `x` and `c`: slow time down, speed it up, and reset
/// its scale.
pub const KEY_SLOWER: u8 = 122;

pub const KEY_FASTER: u8 = 120;

pub const KEY_REAL_TIME: u8 = 99;

/// Step of the developer time scale, in percent.
pub const DT_SCALE_STEP: u32 = 5;

pub const BODY_START_COLOR: u32 = 0xFF00FF00;

pub const BODY_END_COLOR: u32 = 0xFF0000FF;

#[derive(Clone, Copy, Debug, PartialEq, Eq, Structural)]
pub enum State {
    GamePlay,
    Pause,
    GameOver,
}

/// Developer aids, off unless the host turns them on: a scale applied to
/// elapsed time, changed with keys, and outlines of the board and the snake.
#[derive(Clone, Copy, Debug, PartialEq, Eq, Structural)]
pub struct DebugConfig {
    pub enabled: bool,
    /// Percentage of the elapsed time that the game lets pass.
    pub dt_scale_percent: u32,
}

/// Elapsed time as the game sees it, in microseconds.
pub open spec fn scaled_dt(d: DebugConfig, dt: u32) -> u32 {
    if d.enabled {
        let v = dt * d.dt_scale_percent / 100;
        if v > u32::MAX {
            u32::MAX
        } else {
            v as u32
        }
    } else {
        dt
    }
}

/// The developer settings after the key with code `code`.
pub open spec fn debug_after_key(d: DebugConfig, code: u8) -> DebugConfig {
    if !d.enabled {
        d
    } else if code == KEY_SLOWER {
        DebugConfig {
            dt_scale_percent: if d.dt_scale_percent < DT_SCALE_STEP {
                0
            } else {
                (d.dt_scale_percent - DT_SCALE_STEP) as u32
            },
            ..d
        }
    } else if code == KEY_FASTER {
        DebugConfig {
            dt_scale_percent: if d.dt_scale_percent > u32::MAX - DT_SCALE_STEP {
                u32::MAX
            } else {
                (d.dt_scale_percent + DT_SCALE_STEP) as u32
            },
            ..d
        }
    } else if code == KEY_REAL_TIME {
        DebugConfig { dt_scale_percent: 100, ..d }
    } else {
        d
    }
}

impl DebugConfig {
    pub fn scale(&self, dt: u32) -> (r: u32)
        ensures
            r == scaled_dt(*self, dt),
    {
        if self.enabled {
            assert(dt as u64 * self.dt_scale_percent as u64 <= 0xFFFF_FFFF * 0xFFFF_FFFF) by (nonlinear_arith)
                requires
                    dt <= 0xFFFF_FFFF,
                    self.dt_scale_percent <= 0xFFFF_FFFF,
            ;
            let v: u64 = dt as u64 * self.dt_scale_percent as u64 / 100;
            if v > u32::MAX as u64 {
                u32::MAX
            } else {
                v as u32
            }
        } else {
            dt
        }
    }

    pub fn on_key(&mut self, code: u8)
        ensures
            *final(self) == debug_after_key(*old(self), code),
    {
        if self.enabled {
            if code == KEY_SLOWER {
                self.dt_scale_percent = if self.dt_scale_percent < DT_SCALE_STEP {
                    0
                } else {
                    self.dt_scale_percent - DT_SCALE_STEP
                };
            } else if code == KEY_FASTER {
                self.dt_scale_percent = if self.dt_scale_percent > u32::MAX - DT_SCALE_STEP {
                    u32::MAX
                } else {
                    self.dt_scale_percent + DT_SCALE_STEP
                };
            } else if code == KEY_REAL_TIME {
                self.dt_scale_percent = 100;
            }
        }
    }
}

/// No free cell for the egg turned up within the allowed number of draws.
#[derive(Clone, Copy, Debug, PartialEq, Eq, Structural)]
pub struct EggPlacementError;

/// The cell drawn for the egg when the generator is at state `st`: a column
/// from the first draw, then a row from the second.
pub open spec fn egg_candidate(st: u64) -> Cell {
    Cell {
        x: (lcg_output(lcg_step(st)) as int % COLS as int) as i32,
        y: (lcg_output(lcg_step(lcg_step(st))) as int % ROWS as int) as i32,
    }
}

/// A candidate is refused when the snake covers it, or, on the first
/// placement of a run, when it lies on the snake's starting row.
pub open spec fn egg_rejected(s: Seq<Cell>, first: bool, c: Cell) -> bool {
    s.contains(c) || (first && c.y == SNAKE_INIT_ROW)
}

/// Outcome of the search for an egg cell with `left` draws allowed: the cell
/// found, if any, and the generator's state afterwards.
#[verifier::opaque]
pub open spec fn egg_search(s: Seq<Cell>, first: bool, st: u64, left: nat) -> (Option<Cell>, u64)
    decreases left,
{
    if left == 0 {
        (None, st)
    } else {
        let c = egg_candidate(st);
        let next = lcg_step(lcg_step(st));
        if !egg_rejected(s, first, c) {
            (Some(c), next)
        } else {
            egg_search(s, first, next, (left - 1) as nat)
        }
    }
}

/// Draws cells until one is free for the egg, at most
/// `RANDOM_EGG_MAX_ATTEMPTS` times.
pub fn random_egg(rng: &mut Rng, snake: &Snake, first: bool) -> (r: Option<Cell>)
    ensures
        (r, final(rng).state) == egg_search(snake@, first, old(rng).state, RANDOM_EGG_MAX_ATTEMPTS as nat),
        r matches Some(c) ==> c.on_grid() && !snake@.contains(c),
        r matches Some(c) ==> (first ==> c.y != SNAKE_INIT_ROW),
{
    let mut attempt: u32 = 0;
    while attempt < RANDOM_EGG_MAX_ATTEMPTS
        invariant
            0 <= attempt <= RANDOM_EGG_MAX_ATTEMPTS,
            egg_search(snake@, first, rng.state, (RANDOM_EGG_MAX_ATTEMPTS - attempt) as nat)
                == egg_search(snake@, first, old(rng).state, RANDOM_EGG_MAX_ATTEMPTS as nat),
        decreases RANDOM_EGG_MAX_ATTEMPTS - attempt,
    {
        let ghost st = rng.state;
        let x = (rand(rng) % (COLS as u32)) as i32;
        let y = (rand(rng) % (ROWS as u32)) as i32;
        let egg = Cell { x, y };
        attempt = attempt + 1;
        assert(egg == egg_candidate(st));
        proof {
            reveal_with_fuel(egg_search, 1);
        }
        if !(snake.contains_cell(&egg) || (first && egg.y == SNAKE_INIT_ROW)) {
            return Some(egg);
        }
    }
    proof {
        reveal_with_fuel(egg_search, 1);
    }
    None
}

/// The heading after a step: the oldest queued turn, unless it would reverse
/// the snake onto itself.
pub open spec fn heading_after(dir: Direction, q: Seq<Direction>) -> Direction {
    if q.len() > 0 && q[0] != dir.spec_opposite() {
        q[0]
    } else {
        dir
    }
}

/// The turn queue after a step has taken its oldest entry.
pub open spec fn queue_after(q: Seq<Direction>) -> Seq<Direction> {
    if q.len() > 0 {
        q.drop_first()
    } else {
        q
    }
}

/// The queue after a turn `d` was requested: the oldest entry leaves first
/// when the queue is full.
pub open spec fn queue_with(q: Seq<Direction>, d: Direction) -> Seq<Direction> {
    if q.len() == DIR_QUEUE_CAP {
        q.drop_first().push(d)
    } else {
        q.push(d)
    }
}

/// The eating animation's flag and timer after `dt` microseconds.
pub open spec fn timer_after(eating: bool, timer: i64, dt: u32) -> (bool, i64) {
    if eating {
        if timer + dt > EATING_DURATION {
            (false, 0)
        } else {
            (true, (timer + dt) as i64)
        }
    } else {
        (false, timer)
    }
}

/// The one byte of a one-byte key name, else zero.
pub open spec fn key_code(key: &str) -> u8 {
    if key.spec_bytes().len() == 1 {
        key.spec_bytes()[0]
    } else {
        0
    }
}

/// The turn a key asks for, if it is one of the movement keys.
pub open spec fn key_direction(code: u8) -> Option<Direction> {
    if code == KEY_UP {
        Some(Direction::Up)
    } else if code == KEY_DOWN {
        Some(Direction::Down)
    } else if code == KEY_LEFT {
        Some(Direction::Left)
    } else if code == KEY_RIGHT {
        Some(Direction::Right)
    } else {
        None
    }
}

/// The starting body: `SNAKE_INIT_SIZE` cells on the starting row, heading
/// right from the first column.
pub open spec fn initial_body() -> Seq<Cell> {
    seq![
        Cell { x: 0, y: SNAKE_INIT_ROW },
        Cell { x: 1, y: SNAKE_INIT_ROW },
        Cell { x: 2, y: SNAKE_INIT_ROW },
    ]
}

/// The starting body is a live snake.
pub proof fn lemma_initial_body_wf()
    ensures
        initial_body().len() == SNAKE_INIT_SIZE,
        distinct_on_grid(initial_body()),
        linked(initial_body()),
{
    let s = initial_body();
    reveal(linked);
    assert(s[0].adjacent(s[1]));
    assert(s[1].adjacent(s[2]));
}

/// The state of one game, with the surface it draws on.
pub struct Game<P: PlatformRenderer> {
    pub width: u32,
    pub height: u32,
    pub dir: Direction,
    pub next_dirs: VecDeque<Direction>,
    pub state: State,
    pub score: u32,
    /// Microseconds left before the next step.
    pub step_cooldown: i64,
    pub eating_egg: bool,
    /// Centre of the view, in pixels.
    pub camera_pos: Point,
    /// Microseconds since the eating animation began.
    pub eating_timer: i64,
    pub body_start_color: u32,
    pub body_end_color: u32,
    pub snake: Snake,
    pub dead_snake: DeadSnake,
    pub egg: Cell,
    pub rng: Rng,
    pub debug: DebugConfig,
    pub platform_renderer: P,
}

impl<P: PlatformRenderer> Game<P> {
    /// A running game: a live snake, an egg on a free cell, a short turn
    /// queue, a score that counts the snake's growth, and timers in range.
    pub open spec fn wf(&self) -> bool {
        &&& self.snake.wf()
        &&& self.egg.on_grid()
        &&& !self.snake@.contains(self.egg)
        &&& self.next_dirs@.len() <= DIR_QUEUE_CAP
        &&& self.score + SNAKE_INIT_SIZE == self.snake@.len()
        &&& -(u32::MAX as int) <= self.step_cooldown <= STEP_INTERVAL
        &&& (self.state != State::GameOver ==> 0 <= self.step_cooldown)
        &&& 0 <= self.eating_timer <= EATING_DURATION
        &&& self.dead_snake.wf()
        &&& 0 <= self.camera_pos.x <= u32::MAX
        &&& 0 <= self.camera_pos.y <= u32::MAX
    }

    /// What only a restart changes: the view and the surface.
    pub open spec fn same_frame(&self, other: &Self) -> bool {
        &&& self.width == other.width
        &&& self.height == other.height
        &&& self.camera_pos == other.camera_pos
        &&& self.body_start_color == other.body_start_color
        &&& self.body_end_color == other.body_end_color
        &&& self.platform_renderer == other.platform_renderer
    }

    /// The board as it stands: body, egg, heading, score and generator.
    pub open spec fn same_board(&self, other: &Self) -> bool {
        &&& self.snake@ == other.snake@
        &&& self.egg == other.egg
        &&& self.dir == other.dir
        &&& self.score == other.score
        &&& self.rng == other.rng
        &&& self.dead_snake.same_as(&other.dead_snake)
    }

    /// Everything but the turn queue and the state is as in `other`.
    pub open spec fn same_but_input(&self, other: &Self) -> bool {
        &&& self.same_frame(other)
        &&& self.same_board(other)
        &&& self.step_cooldown == other.step_cooldown
        &&& self.eating_egg == other.eating_egg
        &&& self.eating_timer == other.eating_timer
    }

    /// `g1` is a fresh run after `g0` on a `width` by `height` view.
    pub open spec fn restarted(g0: &Self, g1: &Self, width: u32, height: u32, r: Result<(), EggPlacementError>) -> bool {
        let (found, st) = egg_search(initial_body(), true, g0.rng.state, RANDOM_EGG_MAX_ATTEMPTS as nat);
        &&& g1.width == width
        &&& g1.height == height
        &&& g1.camera_pos == Point { x: (width / 2) as i64, y: (height / 2) as i64 }
        &&& g1.body_start_color == BODY_START_COLOR
        &&& g1.body_end_color == BODY_END_COLOR
        &&& g1.platform_renderer == g0.platform_renderer
        &&& g1.debug == (DebugConfig { enabled: g0.debug.enabled, dt_scale_percent: 100 })
        &&& g1.state == State::GamePlay
        &&& g1.dir == Direction::Right
        &&& g1.score == 0
        &&& g1.step_cooldown == 0
        &&& !g1.eating_egg
        &&& g1.eating_timer == 0
        &&& g1.next_dirs@.len() == 0
        &&& g1.snake@ == initial_body()
        &&& g1.dead_snake.items@.len() == 0
        &&& g1.dead_snake.vels@.len() == 0
        &&& g1.dead_snake.masks@.len() == 0
        &&& g1.rng.state == st
        &&& (r is Ok <==> found is Some)
        &&& (found matches Some(c) ==> g1.egg == c)
    }

    /// The game made with a new generator seeded with zero.
    pub fn new(platform_renderer: P) -> (r: Self)
        ensures
            r.rng.state == 0,
            r.platform_renderer == platform_renderer,
            r.state == State::GamePlay,
            r.dir == Direction::Right,
            r.snake@.len() == 0,
            r.next_dirs@.len() == 0,
            r.score == 0,
            r.step_cooldown == 0,
            !r.eating_egg,
            r.eating_timer == 0,
            r.width == 0,
            r.height == 0,
            r.camera_pos == (Point { x: 0, y: 0 }),
            r.egg == (Cell { x: 0, y: 0 }),
            r.body_start_color == BODY_START_COLOR,
            r.body_end_color == BODY_END_COLOR,
            r.debug == (DebugConfig { enabled: false, dt_scale_percent: 100 }),
            r.dead_snake.items@.len() == 0,
            r.dead_snake.vels@.len() == 0,
            r.dead_snake.masks@.len() == 0,
            r.dead_snake.wf(),
    {
        Self::with_seed(platform_renderer, 0)
    }

    /// A game not yet started, whose generator starts at `seed`; `restart`
    /// begins the first run.
    pub fn with_seed(platform_renderer: P, seed: u64) -> (r: Self)
        ensures
            r.rng.state == seed,
            r.platform_renderer == platform_renderer,
            r.state == State::GamePlay,
            r.dir == Direction::Right,
            r.snake@.len() == 0,
            r.next_dirs@.len() == 0,
            r.score == 0,
            r.step_cooldown == 0,
            !r.eating_egg,
            r.eating_timer == 0,
            r.width == 0,
            r.height == 0,
            r.camera_pos == (Point { x: 0, y: 0 }),
            r.egg == (Cell { x: 0, y: 0 }),
            r.body_start_color == BODY_START_COLOR,
            r.body_end_color == BODY_END_COLOR,
            r.debug == (DebugConfig { enabled: false, dt_scale_percent: 100 }),
            r.dead_snake.items@.len() == 0,
            r.dead_snake.vels@.len() == 0,
            r.dead_snake.masks@.len() == 0,
            r.dead_snake.wf(),
    {
        Game {
            width: 0,
            height: 0,
            dir: Direction::Right,
            next_dirs: VecDeque::new(),
            state: State::GamePlay,
            score: 0,
            step_cooldown: 0,
            eating_egg: false,
            camera_pos: Point { x: 0, y: 0 },
            eating_timer: 0,
            body_start_color: BODY_START_COLOR,
            body_end_color: BODY_END_COLOR,
            snake: Snake { items: VecDeque::new() },
            dead_snake: DeadSnake::new(),
            egg: Cell { x: 0, y: 0 },
            rng: Rng::new(seed),
            debug: DebugConfig { enabled: false, dt_scale_percent: 100 },
            platform_renderer,
        }
    }

    /// Returns every field but the surface and the generator to its value in
    /// a new game.
    fn reset(&mut self)
        ensures
            final(self).platform_renderer == old(self).platform_renderer,
            final(self).rng == old(self).rng,
            final(self).debug == (DebugConfig { enabled: old(self).debug.enabled, dt_scale_percent: 100 }),
            final(self).state == State::GamePlay,
            final(self).dir == Direction::Right,
            final(self).snake@.len() == 0,
            final(self).next_dirs@.len() == 0,
            final(self).score == 0,
            final(self).step_cooldown == 0,
            !final(self).eating_egg,
            final(self).eating_timer == 0,
            final(self).body_start_color == BODY_START_COLOR,
            final(self).body_end_color == BODY_END_COLOR,
            final(self).dead_snake.items@.len() == 0,
            final(self).dead_snake.vels@.len() == 0,
            final(self).dead_snake.masks@.len() == 0,
            final(self).dead_snake.wf(),
    {
        self.width = 0;
        self.height = 0;
        self.dir = Direction::Right;
        self.next_dirs = VecDeque::new();
        self.state = State::GamePlay;
        self.score = 0;
        self.step_cooldown = 0;
        self.eating_egg = false;
        self.camera_pos = Point { x: 0, y: 0 };
        self.eating_timer = 0;
        self.body_start_color = BODY_START_COLOR;
        self.body_end_color = BODY_END_COLOR;
        self.snake = Snake { items: VecDeque::new() };
        self.dead_snake.reset();
        self.egg = Cell { x: 0, y: 0 };
        self.debug.dt_scale_percent = 100;
    }

    /// Starts a new run on a `width` by `height` view: the snake back at its
    /// start, the first egg off the starting row. Fails only when no free
    /// cell for the egg turned up.
    pub fn restart(&mut self, width: u32, height: u32) -> (r: Result<(), EggPlacementError>)
        ensures
            Self::restarted(old(self), final(self), width, height, r),
            r is Ok ==> final(self).wf(),
            r is Ok ==> final(self).egg.y != SNAKE_INIT_ROW,
    {
        self.reset();
        self.width = width;
        self.height = height;
        self.camera_pos = Point { x: (width / 2) as i64, y: (height / 2) as i64 };
        self.state = State::GamePlay;
        self.dir = Direction::Right;
        self.score = 0;
        let mut items: VecDeque<Cell> = VecDeque::new();
        let mut i: usize = 0;
        while i < SNAKE_INIT_SIZE
            invariant
                0 <= i <= SNAKE_INIT_SIZE,
                items@ == initial_body().subrange(0, i as int),
            decreases SNAKE_INIT_SIZE - i,
        {
            items.push_back(Cell { x: i as i32, y: SNAKE_INIT_ROW });
            assert(items@ =~= initial_body().subrange(0, i + 1));
            i = i + 1;
        }
        self.snake = Snake { items };
        assert(self.snake@ =~= initial_body());
        proof {
            lemma_initial_body_wf();
        }
        let found = random_egg(&mut self.rng, &self.snake, true);
        match found {
            Some(c) => {
                self.egg = c;
                Ok(())
            },
            None => Err(EggPlacementError),
        }
    }

    /// Nothing but possibly the turn queue and the state has moved.
    pub open spec fn unchanged(g0: &Self, g1: &Self) -> bool {
        &&& g1.same_but_input(g0)
        &&& g1.state == g0.state
        &&& g1.next_dirs@ == g0.next_dirs@
    }

    /// `g1` is `g0` after the key `key` was pressed.
    pub open spec fn after_key(g0: &Self, g1: &Self, key: &str, r: Result<(), EggPlacementError>) -> bool {
        let code = key_code(key);
        let debug = debug_after_key(g0.debug, code);
        match g0.state {
            State::GamePlay => {
                if key_direction(code) is Some {
                    &&& g1.same_but_input(g0)
                    &&& g1.state == g0.state
                    &&& g1.next_dirs@ == queue_with(g0.next_dirs@, key_direction(code)->0)
                    &&& g1.debug == debug
                    &&& r is Ok
                } else if code == KEY_ACCEPT {
                    &&& g1.same_but_input(g0)
                    &&& g1.state == State::Pause
                    &&& g1.next_dirs@ == g0.next_dirs@
                    &&& g1.debug == debug
                    &&& r is Ok
                } else if code == KEY_RESTART {
                    Self::restarted(g0, g1, g0.width, g0.height, r)
                } else {
                    Self::unchanged(g0, g1) && g1.debug == debug && r is Ok
                }
            },
            State::Pause => {
                if code == KEY_ACCEPT {
                    &&& g1.same_but_input(g0)
                    &&& g1.state == State::GamePlay
                    &&& g1.next_dirs@ == g0.next_dirs@
                    &&& g1.debug == debug
                    &&& r is Ok
                } else if code == KEY_RESTART {
                    Self::restarted(g0, g1, g0.width, g0.height, r)
                } else {
                    Self::unchanged(g0, g1) && g1.debug == debug && r is Ok
                }
            },
            State::GameOver => Self::restarted(g0, g1, g0.width, g0.height, r),
        }
    }

    /// Handles a key press: `w`, `a`, `s`, `d` queue a turn, space pauses and
    /// resumes, `r` restarts, and any key restarts after the game is over.
    /// With the developer aids on, `z`, `x` and `c` also change the time scale.
    pub fn keydown(&mut self, key: &str) -> (r: Result<(), EggPlacementError>)
        requires
            old(self).next_dirs@.len() <= DIR_QUEUE_CAP,
        ensures
            Self::after_key(old(self), final(self), key, r),
            final(self).next_dirs@.len() <= DIR_QUEUE_CAP,
            old(self).wf() && r is Ok ==> final(self).wf(),
    {
        let bytes = key.as_bytes();
        let code: u8 = if bytes.len() == 1 {
            bytes[0]
        } else {
            0
        };
        assert(code == key_code(key));
        self.debug.on_key(code);
        match self.state {
            State::GamePlay => {
                if code == KEY_UP {
                    ring_displace_back(&mut self.next_dirs, Direction::Up, DIR_QUEUE_CAP);
                    Ok(())
                } else if code == KEY_DOWN {
                    ring_displace_back(&mut self.next_dirs, Direction::Down, DIR_QUEUE_CAP);
                    Ok(())
                } else if code == KEY_LEFT {
                    ring_displace_back(&mut self.next_dirs, Direction::Left, DIR_QUEUE_CAP);
                    Ok(())
                } else if code == KEY_RIGHT {
                    ring_displace_back(&mut self.next_dirs, Direction::Right, DIR_QUEUE_CAP);
                    Ok(())
                } else if code == KEY_ACCEPT {
                    self.state = State::Pause;
                    Ok(())
                } else if code == KEY_RESTART {
                    self.restart(self.width, self.height)
                } else {
                    Ok(())
                }
            },
            State::Pause => {
                if code == KEY_ACCEPT {
                    self.state = State::GamePlay;
                    Ok(())
                } else if code == KEY_RESTART {
                    self.restart(self.width, self.height)
                } else {
                    Ok(())
                }
            },
            State::GameOver => self.restart(self.width, self.height),
        }
    }

    /// The cell the head moves to at the next step.
    pub open spec fn next_head(g: &Self) -> Cell {
        g.snake@.last().spec_advance(heading_after(g.dir, g.next_dirs@))
    }

    /// `g1` is `g0` after one step of the snake, with the cooldown at `cd`
    /// and the eating flag at `eating` when the step began.
    pub open spec fn stepped(g0: &Self, g1: &Self, cd: int, eating: bool, r: Result<(), EggPlacementError>) -> bool {
        let nh = Self::next_head(g0);
        &&& g1.dir == heading_after(g0.dir, g0.next_dirs@)
        &&& g1.next_dirs@ == queue_after(g0.next_dirs@)
        &&& if nh == g0.egg {
            let (found, st) = egg_search(g0.snake@.push(nh), false, g0.rng.state, RANDOM_EGG_MAX_ATTEMPTS as nat);
            &&& g1.snake@ == g0.snake@.push(nh)
            &&& g1.score == g0.score + 1
            &&& g1.eating_egg
            &&& g1.step_cooldown == STEP_INTERVAL
            &&& g1.state == State::GamePlay
            &&& g1.rng.state == st
            &&& (r is Ok <==> found is Some)
            &&& (found matches Some(c) ==> g1.egg == c)
            &&& g1.dead_snake.same_as(&g0.dead_snake)
        } else if g0.snake@.contains(nh) {
            &&& g1.snake@ == g0.snake@
            &&& g1.score == g0.score
            &&& g1.eating_egg == eating
            &&& g1.step_cooldown == cd
            &&& g1.state == State::GameOver
            &&& g1.egg == g0.egg
            &&& g1.dead_snake.built_from(g0.snake@, nh, g0.rng.state)
            &&& g1.rng.state == noise_state(g0.snake@, nh, g0.rng.state, g0.snake@.len() as int)
            &&& r is Ok
        } else {
            &&& g1.snake@ == g0.snake@.drop_first().push(nh)
            &&& g1.score == g0.score
            &&& !g1.eating_egg
            &&& g1.step_cooldown == STEP_INTERVAL
            &&& g1.state == State::GamePlay
            &&& g1.egg == g0.egg
            &&& g1.rng == g0.rng
            &&& g1.dead_snake.same_as(&g0.dead_snake)
            &&& r is Ok
        }
    }

    /// `g1` is `g0` after `dt` microseconds.
    pub open spec fn updated(g0: &Self, g1: &Self, dt: u32, r: Result<(), EggPlacementError>) -> bool {
        let dt = scaled_dt(g0.debug, dt);
        let (eating, timer) = timer_after(g0.eating_egg, g0.eating_timer, dt);
        let cd = g0.step_cooldown - dt;
        &&& g1.same_frame(g0)
        &&& g1.debug == g0.debug
        &&& g1.eating_timer == timer
        &&& match g0.state {
            State::GamePlay => {
                if cd > 0 {
                    &&& g1.same_board(g0)
                    &&& g1.state == g0.state
                    &&& g1.next_dirs@ == g0.next_dirs@
                    &&& g1.step_cooldown == cd
                    &&& g1.eating_egg == eating
                    &&& r is Ok
                } else {
                    Self::stepped(g0, g1, cd, eating, r)
                }
            },
            State::Pause => {
                &&& g1.same_board(g0)
                &&& g1.state == g0.state
                &&& g1.next_dirs@ == g0.next_dirs@
                &&& g1.step_cooldown == g0.step_cooldown
                &&& g1.eating_egg == eating
                &&& r is Ok
            },
            State::GameOver => {
                &&& g1.snake@ == g0.snake@
                &&& g1.egg == g0.egg
                &&& g1.dir == g0.dir
                &&& g1.score == g0.score
                &&& g1.rng == g0.rng
                &&& g1.dead_snake.drifted_from(&g0.dead_snake, dt)
                &&& g1.state == g0.state
                &&& g1.next_dirs@ == g0.next_dirs@
                &&& g1.step_cooldown == g0.step_cooldown
                &&& g1.eating_egg == eating
                &&& r is Ok
            },
        }
    }

    /// Advances the game by `dt` microseconds: the snake steps whenever the
    /// cooldown runs out, and after a collision the fragments drift.
    pub fn update(&mut self, dt: u32) -> (r: Result<(), EggPlacementError>)
        requires
            old(self).wf(),
        ensures
            Self::updated(old(self), final(self), dt, r),
            r is Ok ==> final(self).wf(),
    {
        let dt = self.debug.scale(dt);
        if self.eating_egg {
            self.eating_timer = self.eating_timer + dt as i64;
            if self.eating_timer > EATING_DURATION {
                self.eating_egg = false;
                self.eating_timer = 0;
            }
        }
        match self.state {
            State::GamePlay => {
                self.step_cooldown = self.step_cooldown - dt as i64;
                if self.step_cooldown > 0 {
                    return Ok(());
                }
                self.step()
            },
            State::Pause => Ok(()),
            State::GameOver => {
                self.dead_snake.integrate(dt);
                Ok(())
            },
        }
    }

    /// One step of the snake: take a queued turn, then eat, collide or move.
    fn step(&mut self) -> (r: Result<(), EggPlacementError>)
        requires
            old(self).snake.wf(),
            old(self).egg.on_grid(),
            !old(self).snake@.contains(old(self).egg),
            old(self).next_dirs@.len() <= DIR_QUEUE_CAP,
            old(self).score + SNAKE_INIT_SIZE == old(self).snake@.len(),
            old(self).state == State::GamePlay,
            -(u32::MAX as int) <= old(self).step_cooldown <= 0,
            0 <= old(self).eating_timer <= EATING_DURATION,
            old(self).dead_snake.wf(),
            0 <= old(self).camera_pos.x <= u32::MAX,
            0 <= old(self).camera_pos.y <= u32::MAX,
        ensures
            Self::stepped(old(self), final(self), old(self).step_cooldown as int, old(self).eating_egg, r),
            final(self).same_frame(old(self)),
            final(self).debug == old(self).debug,
            final(self).eating_timer == old(self).eating_timer,
            r is Ok ==> final(self).wf(),
    {
        if self.next_dirs.len() > 0 {
            let front = self.next_dirs[0];
            if self.dir.opposite() != front {
                self.dir = front;
            }
            self.next_dirs.pop_front();
        }
        let head = self.snake.items[self.snake.size() - 1];
        let next_head = head.advance(self.dir);
        proof {
            lemma_distinct_cells_fit_board(self.snake@);
        }
        if next_head == self.egg {
            self.snake.items.push_back(next_head);
            self.eating_egg = true;
            self.score = self.score + 1;
            self.step_cooldown = STEP_INTERVAL;
            proof {
                lemma_grow_keeps_snake(old(self).snake@, next_head);
            }
            match random_egg(&mut self.rng, &self.snake, false) {
                Some(c) => {
                    self.egg = c;
                    Ok(())
                },
                None => Err(EggPlacementError),
            }
        } else if self.snake.contains_cell(&next_head) {
            self.state = State::GameOver;
            self.init_dead_snake(&next_head);
            Ok(())
        } else {
            self.snake.items.push_back(next_head);
            self.snake.items.pop_front();
            self.eating_egg = false;
            self.step_cooldown = STEP_INTERVAL;
            proof {
                lemma_grow_keeps_snake(old(self).snake@, next_head);
                lemma_drop_tail_keeps_snake(old(self).snake@.push(next_head));
                assert(self.snake@ =~= old(self).snake@.drop_first().push(next_head));
            }
            Ok(())
        }
    }

    /// Breaks the body into fragments after the head ran into `next_head`.
    fn init_dead_snake(&mut self, next_head: &Cell)
        requires
            old(self).snake.wf(),
            next_head.on_grid(),
        ensures
            final(self).dead_snake.built_from(old(self).snake@, *next_head, old(self).rng.state),
            final(self).rng.state == noise_state(old(self).snake@, *next_head, old(self).rng.state, old(self).snake@.len() as int),
            final(self).dead_snake.wf(),
            final(self).same_frame(old(self)),
            final(self).debug == old(self).debug,
            final(self).snake@ == old(self).snake@,
            final(self).egg == old(self).egg,
            final(self).dir == old(self).dir,
            final(self).score == old(self).score,
            final(self).state == old(self).state,
            final(self).next_dirs@ == old(self).next_dirs@,
            final(self).step_cooldown == old(self).step_cooldown,
            final(self).eating_egg == old(self).eating_egg,
            final(self).eating_timer == old(self).eating_timer,
    {
        self.dead_snake = DeadSnake::build(&self.snake, next_head, &mut self.rng);
    }
}

/// Adding a free cell next to the head keeps the body a live snake.
proof fn lemma_grow_keeps_snake(s: Seq<Cell>, c: Cell)
    requires
        s.len() >= SNAKE_INIT_SIZE,
        distinct_on_grid(s),
        linked(s),
        c.on_grid(),
        !s.contains(c),
        s.last().adjacent(c),
    ensures
        distinct_on_grid(s.push(c)),
        linked(s.push(c)),
{
    reveal(linked);
    let t = s.push(c);
    assert forall|i: int, j: int| 0 <= i < t.len() && 0 <= j < t.len() && i != j implies t[i] != t[j] by {
        if i < s.len() && j < s.len() {
        } else if i == s.len() {
            assert(s.contains(t[j]) ==> t[j] != c);
            assert(s[j] == t[j]);
        } else {
            assert(s[i] == t[i]);
        }
    }
    assert(t.no_duplicates());
}

/// Dropping the tail of a body one longer than the minimum keeps a live snake.
proof fn lemma_drop_tail_keeps_snake(s: Seq<Cell>)
    requires
        s.len() > SNAKE_INIT_SIZE,
        distinct_on_grid(s),
        linked(s),
    ensures
        distinct_on_grid(s.drop_first()),
        linked(s.drop_first()),
{
    reveal(linked);
    let t = s.drop_first();
    assert forall|i: int, j: int| 0 <= i < t.len() && 0 <= j < t.len() && i != j implies t[i] != t[j] by {
        assert(t[i] == s[i + 1]);
        assert(t[j] == s[j + 1]);
    }
    assert forall|i: int| 0 <= i < t.len() - 1 implies (#[trigger] t[i]).adjacent(t[i + 1]) by {
        assert(t[i] == s[i + 1]);
        assert(s[i + 1].adjacent(s[i + 2]));
    }
}

/// A step that neither eats the egg nor runs into the body moves the snake
/// without changing its length.
pub proof fn lemma_plain_step_keeps_length<P: PlatformRenderer>(
    g0: &Game<P>,
    g1: &Game<P>,
    dt: u32,
    r: Result<(), EggPlacementError>,
)
    requires
        g0.wf(),
        Game::updated(g0, g1, dt, r),
        g0.state == State::GamePlay,
        g0.step_cooldown - scaled_dt(g0.debug, dt) <= 0,
        Game::next_head(g0) != g0.egg,
        !g0.snake@.contains(Game::next_head(g0)),
    ensures
        g1.snake@.len() == g0.snake@.len(),
        g1.state == State::GamePlay,
{
}

/// No update shortens the snake, and a step onto the egg lengthens it by
/// exactly one and adds one to the score.
pub proof fn lemma_length_never_decreases<P: PlatformRenderer>(
    g0: &Game<P>,
    g1: &Game<P>,
    dt: u32,
    r: Result<(), EggPlacementError>,
)
    requires
        g0.wf(),
        Game::updated(g0, g1, dt, r),
    ensures
        g1.snake@.len() >= g0.snake@.len(),
        g0.state == State::GamePlay && g0.step_cooldown - scaled_dt(g0.debug, dt) <= 0
            && Game::next_head(g0) == g0.egg
            ==> g1.snake@.len() == g0.snake@.len() + 1 && g1.score == g0.score + 1,
{
}

/// Within a run, a key press other than a restart leaves the body alone.
pub proof fn lemma_keys_keep_body<P: PlatformRenderer>(
    g0: &Game<P>,
    g1: &Game<P>,
    key: &str,
    r: Result<(), EggPlacementError>,
)
    requires
        Game::after_key(g0, g1, key, r),
        g0.state != State::GameOver,
        key_code(key) != KEY_RESTART,
    ensures
        g1.snake@ == g0.snake@,
        g1.score == g0.score,
{
}

/// Running into the body ends the game and leaves one fragment per segment.
pub proof fn lemma_collision_ends_game<P: PlatformRenderer>(
    g0: &Game<P>,
    g1: &Game<P>,
    dt: u32,
    r: Result<(), EggPlacementError>,
)
    requires
        g0.wf(),
        Game::updated(g0, g1, dt, r),
        g0.state == State::GamePlay,
        g0.step_cooldown - scaled_dt(g0.debug, dt) <= 0,
        Game::next_head(g0) != g0.egg,
        g0.snake@.contains(Game::next_head(g0)),
    ensures
        g1.state == State::GameOver,
        g1.dead_snake.items@.len() == g0.snake@.len(),
        g1.dead_snake.vels@.len() == g0.snake@.len(),
        g1.dead_snake.masks@.len() == g0.snake@.len(),
{
}

/// A full turn queue loses its oldest entry, never the new one.
pub proof fn lemma_full_queue_drops_oldest(q: Seq<Direction>, d: Direction)
    requires
        q.len() == DIR_QUEUE_CAP,
    ensures
        queue_with(q, d).len() == DIR_QUEUE_CAP,
        queue_with(q, d) == seq![q[1], q[2], d],
{
    assert(queue_with(q, d) =~= seq![q[1], q[2], d]);
}

/// Asking for the reverse of the heading as the only pending turn does not
/// turn the snake at the next step.
pub proof fn lemma_reverse_turn_ignored<P: PlatformRenderer>(
    g0: &Game<P>,
    g1: &Game<P>,
    g2: &Game<P>,
    key: &str,
    dt: u32,
    r1: Result<(), EggPlacementError>,
    r2: Result<(), EggPlacementError>,
)
    requires
        g0.wf(),
        g0.state == State::GamePlay,
        g0.next_dirs@.len() == 0,
        key_direction(key_code(key)) == Some(g0.dir.spec_opposite()),
        Game::after_key(g0, g1, key, r1),
        Game::updated(g1, g2, dt, r2),
        g1.step_cooldown - scaled_dt(g1.debug, dt) <= 0,
    ensures
        g2.dir == g0.dir,
        g2.next_dirs@.len() == 0,
{
    assert(g1.next_dirs@ =~= seq![g0.dir.spec_opposite()]);
}

} // verus!
