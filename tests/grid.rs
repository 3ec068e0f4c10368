use snake_game::grid::{Cell, Direction, ALL_DIRECTIONS, COLS, ROWS};
use snake_game::utils::{emod, isqrt, rand, ring_displace_back, Rng};
use std::collections::VecDeque;

#[test]
fn emod_is_never_negative() {
    assert_eq!(emod(-1, 16), 15);
    assert_eq!(emod(-16, 16), 0);
    assert_eq!(emod(-17, 16), 15);
    assert_eq!(emod(17, 16), 1);
    assert_eq!(emod(5, 9), 5);
    assert_eq!(emod(i32::MIN, 9), ((i32::MIN as i64).rem_euclid(9)) as i32);
}

#[test]
fn advance_then_opposite_returns_home() {
    for x in 0..COLS {
        for y in 0..ROWS {
            let c = Cell { x, y };
            for d in ALL_DIRECTIONS {
                assert_eq!(c.advance(d).advance(d.opposite()), c);
            }
        }
    }
}

#[test]
fn advance_wraps_at_right_edge() {
    let c = Cell { x: 15, y: 4 };
    assert_eq!(c.advance(Direction::Right), Cell { x: 0, y: 4 });
    assert_eq!(Cell { x: 0, y: 0 }.advance(Direction::Up), Cell { x: 0, y: 8 });
    assert_eq!(Cell { x: 0, y: 8 }.advance(Direction::Down), Cell { x: 0, y: 0 });
    assert_eq!(Cell { x: 0, y: 3 }.advance(Direction::Left), Cell { x: 15, y: 3 });
}

#[test]
fn wrap_by_game_size_reduces_both_axes() {
    let mut c = Cell { x: -1, y: 10 };
    c.wrap_by_game_size();
    assert_eq!(c, Cell { x: 15, y: 1 });
}

#[test]
fn determine_dir_finds_the_neighbour() {
    let c = Cell { x: 0, y: 4 };
    assert_eq!(c.determine_dir(&Cell { x: 1, y: 4 }), Direction::Right);
    assert_eq!(c.determine_dir(&Cell { x: 15, y: 4 }), Direction::Left);
    assert_eq!(c.determine_dir(&Cell { x: 0, y: 3 }), Direction::Up);
    assert_eq!(c.determine_dir(&Cell { x: 0, y: 5 }), Direction::Down);
}

#[test]
fn opposite_is_involutive() {
    for d in ALL_DIRECTIONS {
        assert_eq!(d.opposite().opposite(), d);
        assert_ne!(d.opposite(), d);
    }
    assert_eq!(Direction::Right.opposite(), Direction::Left);
    assert_eq!(Direction::Up.opposite(), Direction::Down);
}

#[test]
fn ring_drops_oldest_when_full() {
    let mut q: VecDeque<u32> = VecDeque::new();
    ring_displace_back(&mut q, 1, 3);
    ring_displace_back(&mut q, 2, 3);
    ring_displace_back(&mut q, 3, 3);
    assert_eq!(q, VecDeque::from(vec![1, 2, 3]));
    ring_displace_back(&mut q, 4, 3);
    assert_eq!(q, VecDeque::from(vec![2, 3, 4]));
    assert_eq!(q.len(), 3);
}

#[test]
fn rand_follows_the_linear_congruence() {
    let mut rng = Rng::new(0);
    assert_eq!(rand(&mut rng), 335903614);
    assert_eq!(rng.state, 1442695040888963407);
    assert_eq!(rand(&mut rng), 436792849);
    assert_eq!(rng.state, 1876011003808476466);
}

#[test]
fn isqrt_rounds_down() {
    assert_eq!(isqrt(0), 0);
    assert_eq!(isqrt(10), 3);
    assert_eq!(isqrt(10000), 100);
    assert_eq!(isqrt(20000), 141);
    assert_eq!(isqrt(0xFFFF_FFFF), 0xFFFF);
}
