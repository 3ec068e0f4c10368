use snake_game::dead::{Point, GAMEOVER_EXPLOSION_MAX_VEL};
use snake_game::game::{DebugConfig, EggPlacementError, Game, State, DIR_QUEUE_CAP, STEP_INTERVAL};
use snake_game::grid::{Cell, Direction};
use snake_game::render::PlatformRenderer;
use snake_game::snake::SNAKE_INIT_ROW;
use std::cell::RefCell;
use std::collections::VecDeque;
use std::rc::Rc;

#[derive(Clone, Default)]
struct Recorder {
    calls: Rc<RefCell<Vec<String>>>,
}

impl PlatformRenderer for Recorder {
    fn fill_rect(&self, x: i32, y: i32, w: i32, h: i32, color: u32) {
        self.calls.borrow_mut().push(format!("fill {} {} {} {} {:08X}", x, y, w, h, color));
    }

    fn stroke_rect(&self, x: i32, y: i32, w: i32, h: i32, color: u32) {
        self.calls.borrow_mut().push(format!("stroke {} {} {} {} {:08X}", x, y, w, h, color));
    }

    fn fill_text(&self, x: i32, y: i32, text: &str, font_size: u32, color: u32) {
        self.calls.borrow_mut().push(format!("text {} {} {} {} {:08X}", x, y, text, font_size, color));
    }
}

fn started(seed: u64) -> Game<Recorder> {
    let mut g = Game::with_seed(Recorder::default(), seed);
    assert_eq!(g.restart(1600, 900), Ok(()));
    g
}

fn body(g: &Game<Recorder>) -> Vec<Cell> {
    g.snake.items.iter().copied().collect()
}

fn cells(v: &[(i32, i32)]) -> VecDeque<Cell> {
    v.iter().map(|&(x, y)| Cell { x, y }).collect()
}

fn occupied(g: &Game<Recorder>, c: Cell) -> bool {
    g.snake.items.iter().any(|&s| s == c)
}

#[test]
fn restart_places_snake_and_first_egg() {
    for seed in 0..50u64 {
        let g = started(seed);
        assert_eq!(body(&g), vec![Cell { x: 0, y: 4 }, Cell { x: 1, y: 4 }, Cell { x: 2, y: 4 }]);
        assert_eq!(g.state, State::GamePlay);
        assert_eq!(g.dir, Direction::Right);
        assert_eq!(g.score, 0);
        assert!(!occupied(&g, g.egg));
        assert_ne!(g.egg.y, SNAKE_INIT_ROW);
        assert!(0 <= g.egg.x && g.egg.x < 16 && 0 <= g.egg.y && g.egg.y < 9);
        assert_eq!(g.camera_pos, Point { x: 800, y: 450 });
    }
}

#[test]
fn one_tick_moves_snake_right() {
    let mut g = started(0);
    g.egg = Cell { x: 10, y: 0 };
    assert_eq!(g.update(16_000), Ok(()));
    assert_eq!(body(&g), vec![Cell { x: 1, y: 4 }, Cell { x: 2, y: 4 }, Cell { x: 3, y: 4 }]);
    assert_eq!(g.step_cooldown, STEP_INTERVAL);
    assert_eq!(g.score, 0);
}

#[test]
fn no_step_before_cooldown_runs_out() {
    let mut g = started(0);
    g.egg = Cell { x: 10, y: 0 };
    g.update(1).unwrap();
    let before = body(&g);
    g.update(100_000).unwrap();
    assert_eq!(body(&g), before);
    assert_eq!(g.step_cooldown, STEP_INTERVAL - 100_000);
    g.update(25_000).unwrap();
    assert_eq!(body(&g).len(), before.len());
    assert_eq!(body(&g)[2], Cell { x: 4, y: 4 });
    assert_eq!(g.step_cooldown, STEP_INTERVAL);
}

#[test]
fn head_wraps_around_right_edge() {
    let mut g = started(0);
    g.snake.items = cells(&[(13, 4), (14, 4), (15, 4)]);
    g.egg = Cell { x: 5, y: 0 };
    g.update(1).unwrap();
    assert_eq!(body(&g), vec![Cell { x: 14, y: 4 }, Cell { x: 15, y: 4 }, Cell { x: 0, y: 4 }]);
}

#[test]
fn eating_grows_snake_and_places_new_egg() {
    let mut g = started(3);
    g.egg = Cell { x: 3, y: 4 };
    assert_eq!(g.update(1), Ok(()));
    assert_eq!(body(&g), vec![Cell { x: 0, y: 4 }, Cell { x: 1, y: 4 }, Cell { x: 2, y: 4 }, Cell { x: 3, y: 4 }]);
    assert_eq!(g.score, 1);
    assert!(g.eating_egg);
    assert!(!occupied(&g, g.egg));
    assert!(0 <= g.egg.x && g.egg.x < 16 && 0 <= g.egg.y && g.egg.y < 9);
}

#[test]
fn length_never_shrinks_over_a_run() {
    let mut g = started(7);
    let mut len = g.snake.items.len();
    let keys = ["w", "d", "s", "d", "w", "a", "w", "d"];
    for step in 0..200 {
        if step % 5 == 0 {
            g.keydown(keys[(step / 5) % keys.len()]).unwrap();
        }
        if g.state != State::GamePlay {
            break;
        }
        let ate = Some(g.egg) == Some(g.snake.items[g.snake.items.len() - 1].advance(g.dir));
        g.update(STEP_INTERVAL as u32).unwrap();
        let now = g.snake.items.len();
        assert!(now >= len);
        if ate && g.next_dirs.is_empty() {
            assert!(now == len + 1 || g.state == State::GameOver);
        }
        len = now;
    }
}

#[test]
fn eating_timer_runs_out() {
    let mut g = started(3);
    g.egg = Cell { x: 3, y: 4 };
    g.update(1).unwrap();
    assert!(g.eating_egg);
    g.state = State::Pause;
    g.update(600_000).unwrap();
    assert!(g.eating_egg);
    assert_eq!(g.eating_timer, 600_000);
    g.update(600_000).unwrap();
    assert!(!g.eating_egg);
    assert_eq!(g.eating_timer, 0);
}

#[test]
fn self_collision_ends_the_game() {
    let mut g = started(0);
    g.snake.items = cells(&[(1, 4), (2, 4), (3, 4), (3, 5), (2, 5)]);
    g.score = 2;
    g.egg = Cell { x: 10, y: 0 };
    g.dir = Direction::Up;
    assert_eq!(g.update(1), Ok(()));
    assert_eq!(g.state, State::GameOver);
    assert_eq!(g.dead_snake.items.len(), 5);
    assert_eq!(g.dead_snake.vels.len(), 5);
    assert_eq!(g.dead_snake.masks.len(), 5);
    assert_eq!(body(&g).len(), 5);
    assert_eq!(g.dead_snake.vels[1], Point { x: 0, y: 0 });
    for (i, v) in g.dead_snake.vels.iter().enumerate() {
        let sq = v.x * v.x + v.y * v.y;
        assert!(sq <= GAMEOVER_EXPLOSION_MAX_VEL * GAMEOVER_EXPLOSION_MAX_VEL);
        if i != 1 {
            assert_ne!(*v, Point { x: 0, y: 0 });
        }
    }
    assert_eq!(g.dead_snake.items[0], Point { x: 10000, y: 40000 });
    // one bit per neighbour: right 1, up 2, left 4, down 8
    assert_eq!(g.dead_snake.masks[0], 1);
    assert_eq!(g.dead_snake.masks[1], 1 | 4);
    assert_eq!(g.dead_snake.masks[2], 4 | 8);
    assert_eq!(g.dead_snake.masks[3], 2 | 4);
    assert_eq!(g.dead_snake.masks[4], 1);
}

#[test]
fn fragments_drift_and_slow_down() {
    let mut g = started(0);
    g.snake.items = cells(&[(1, 4), (2, 4), (3, 4), (3, 5), (2, 5)]);
    g.score = 2;
    g.egg = Cell { x: 10, y: 0 };
    g.dir = Direction::Up;
    g.update(1).unwrap();
    let before = g.dead_snake.vels.clone();
    let pos_before = g.dead_snake.items.clone();
    g.update(1_000_000).unwrap();
    for i in 0..before.len() {
        let v = g.dead_snake.vels[i];
        assert_eq!(v.x, before[i].x * 99 / 100);
        assert_eq!(v.y, before[i].y * 99 / 100);
        assert_eq!(g.dead_snake.items[i].x, pos_before[i].x + v.x);
        assert_eq!(g.dead_snake.items[i].y, pos_before[i].y + v.y);
    }
    assert_eq!(g.dead_snake.items[1], pos_before[1]);
}

#[test]
fn any_key_restarts_after_game_over() {
    let mut g = started(0);
    g.snake.items = cells(&[(1, 4), (2, 4), (3, 4), (3, 5), (2, 5)]);
    g.score = 2;
    g.egg = Cell { x: 10, y: 0 };
    g.dir = Direction::Up;
    g.update(1).unwrap();
    assert_eq!(g.state, State::GameOver);
    g.keydown("x").unwrap();
    assert_eq!(g.state, State::GamePlay);
    assert_eq!(g.score, 0);
    assert_eq!(body(&g).len(), 3);
    assert!(g.dead_snake.items.is_empty());
}

#[test]
fn direction_queue_keeps_newest_three() {
    let mut g = started(0);
    g.keydown("w").unwrap();
    g.keydown("a").unwrap();
    g.keydown("s").unwrap();
    assert_eq!(g.next_dirs.len(), DIR_QUEUE_CAP);
    g.keydown("d").unwrap();
    assert_eq!(g.next_dirs.len(), DIR_QUEUE_CAP);
    assert_eq!(
        g.next_dirs.iter().copied().collect::<Vec<_>>(),
        vec![Direction::Left, Direction::Down, Direction::Right]
    );
}

#[test]
fn reverse_turn_is_ignored() {
    let mut g = started(0);
    g.egg = Cell { x: 10, y: 0 };
    g.keydown("a").unwrap();
    g.update(1).unwrap();
    assert_eq!(g.dir, Direction::Right);
    assert!(g.next_dirs.is_empty());
    assert_eq!(body(&g)[2], Cell { x: 3, y: 4 });
}

#[test]
fn queued_turn_is_taken_at_next_step() {
    let mut g = started(0);
    g.egg = Cell { x: 10, y: 0 };
    g.keydown("w").unwrap();
    g.keydown("a").unwrap();
    g.update(1).unwrap();
    assert_eq!(g.dir, Direction::Up);
    assert_eq!(body(&g)[2], Cell { x: 2, y: 3 });
    g.update(STEP_INTERVAL as u32).unwrap();
    assert_eq!(g.dir, Direction::Left);
    assert_eq!(body(&g)[2], Cell { x: 1, y: 3 });
}

#[test]
fn pause_and_resume() {
    let mut g = started(0);
    g.egg = Cell { x: 10, y: 0 };
    g.keydown(" ").unwrap();
    assert_eq!(g.state, State::Pause);
    let before = body(&g);
    g.update(1_000_000).unwrap();
    assert_eq!(body(&g), before);
    g.keydown("w").unwrap();
    assert!(g.next_dirs.is_empty());
    g.keydown(" ").unwrap();
    assert_eq!(g.state, State::GamePlay);
}

#[test]
fn unknown_keys_are_ignored() {
    let mut g = started(0);
    g.keydown("q").unwrap();
    g.keydown("ww").unwrap();
    g.keydown("").unwrap();
    assert!(g.next_dirs.is_empty());
    assert_eq!(g.state, State::GamePlay);
}

#[test]
fn restart_key_starts_over() {
    let mut g = started(0);
    g.egg = Cell { x: 3, y: 4 };
    g.update(1).unwrap();
    assert_eq!(g.score, 1);
    g.keydown("r").unwrap();
    assert_eq!(g.score, 0);
    assert_eq!(body(&g).len(), 3);
    assert_ne!(g.egg.y, SNAKE_INIT_ROW);
}

#[test]
fn new_game_waits_for_restart() {
    let g = Game::new(Recorder::default());
    assert_eq!(g.rng.state, 0);
    assert!(g.snake.items.is_empty());
    assert_eq!(g.state, State::GamePlay);
}

#[test]
fn egg_error_is_comparable() {
    assert_eq!(EggPlacementError, EggPlacementError);
}

#[test]
fn debug_keys_change_time_scale() {
    let mut g = started(0);
    g.keydown("x").unwrap();
    assert_eq!(g.debug, DebugConfig { enabled: false, dt_scale_percent: 100 });
    g.debug.enabled = true;
    g.keydown("x").unwrap();
    assert_eq!(g.debug.dt_scale_percent, 105);
    g.keydown("z").unwrap();
    g.keydown("z").unwrap();
    assert_eq!(g.debug.dt_scale_percent, 95);
    g.keydown("c").unwrap();
    assert_eq!(g.debug.dt_scale_percent, 100);
    g.debug.dt_scale_percent = 3;
    g.keydown("z").unwrap();
    assert_eq!(g.debug.dt_scale_percent, 0);
    assert_eq!(g.state, State::GamePlay);
}

#[test]
fn debug_scale_slows_time() {
    let mut g = started(0);
    g.egg = Cell { x: 10, y: 0 };
    g.update(1).unwrap();
    g.debug = DebugConfig { enabled: true, dt_scale_percent: 50 };
    g.update(100_000).unwrap();
    assert_eq!(g.step_cooldown, STEP_INTERVAL - 50_000);
    g.debug.dt_scale_percent = 0;
    g.update(1_000_000).unwrap();
    assert_eq!(g.step_cooldown, STEP_INTERVAL - 50_000);
    assert_eq!(g.debug.scale(1_000), 0);
    g.keydown("r").unwrap();
    assert_eq!(g.debug, DebugConfig { enabled: true, dt_scale_percent: 100 });
}
