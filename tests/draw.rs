use snake_game::draw::{sine_of_micros, to_screen, DrawCmd, Text};
use snake_game::game::{Game, State};
use snake_game::grid::{Cell, Direction};
use snake_game::render::{color_alpha, lerp_color, scale_rect, PlatformRenderer, Rect, Sides};
use std::cell::RefCell;
use std::rc::Rc;

#[derive(Clone, Default)]
struct Recorder {
    calls: Rc<RefCell<Vec<String>>>,
}

impl PlatformRenderer for Recorder {
    fn fill_rect(&self, x: i32, y: i32, w: i32, h: i32, color: u32) {
        self.calls.borrow_mut().push(format!("fill {} {} {} {} {:08X}", x, y, w, h, color));
    }

    fn stroke_rect(&self, x: i32, y: i32, w: i32, h: i32, color: u32) {
        self.calls.borrow_mut().push(format!("stroke {} {} {} {} {:08X}", x, y, w, h, color));
    }

    fn fill_text(&self, x: i32, y: i32, text: &str, font_size: u32, color: u32) {
        self.calls.borrow_mut().push(format!("text {} {} {} {} {:08X}", x, y, text, font_size, color));
    }
}

#[test]
fn lerp_color_blends_each_channel() {
    assert_eq!(lerp_color(0xFF000000, 0xFFFFFFFF, 1, 2), 0xFF808080);
    assert_eq!(lerp_color(0xFF00FF00, 0xFF0000FF, 0, 5), 0xFF00FF00);
    assert_eq!(lerp_color(0xFF00FF00, 0xFF0000FF, 5, 5), 0xFF0000FF);
    assert_eq!(lerp_color(0x00102030, 0x00102030, 3, 7), 0xFF102030);
}

#[test]
fn color_alpha_replaces_alpha() {
    assert_eq!(color_alpha(0xFF31A6FF, 1, 2), 0x8031A6FF);
    assert_eq!(color_alpha(0xFF31A6FF, 0, 2), 0x0031A6FF);
    assert_eq!(color_alpha(0x0031A6FF, 5, 2), 0xFF31A6FF);
    assert_eq!(color_alpha(0xFF31A6FF, -1, 2), 0x0031A6FF);
}

#[test]
fn sides_and_rect_convert_both_ways() {
    let r = Rect { x: 100, y: 400, w: 100, h: 100 };
    let s = Sides::from_rect(&r);
    assert_eq!(s, Sides { right: 200, up: 400, left: 100, down: 500 });
    assert_eq!(Rect::from_sides(&s), r);
    assert_eq!(Rect::from_cell(&Cell { x: 1, y: 4 }), r);
    assert_eq!(s.center(), (150, 450));
}

#[test]
fn slide_moves_two_opposite_edges() {
    let mut s = Sides::from_rect(&Rect { x: 0, y: 0, w: 100, h: 100 });
    s.adjust_2_slide_sides(Direction::Left, 1, 2);
    assert_eq!(s, Sides { right: 50, up: 0, left: -50, down: 100 });
    let mut s = Sides::from_rect(&Rect { x: 0, y: 0, w: 100, h: 100 });
    s.adjust_2_slide_sides(Direction::Down, 1, 4);
    assert_eq!(s, Sides { right: 100, up: 25, left: 0, down: 125 });
    let mut s = Sides::from_rect(&Rect { x: 0, y: 0, w: 100, h: 100 });
    s.adjust_2_slide_sides(Direction::Right, 0, 4);
    assert_eq!(s, Sides { right: 100, up: 0, left: 0, down: 100 });
}

#[test]
fn scale_rect_keeps_centre() {
    let r = Rect { x: 100, y: 100, w: 100, h: 100 };
    assert_eq!(scale_rect(r, 1_000_000, 1_000_000), r);
    assert_eq!(scale_rect(r, 1_500_000, 1_000_000), Rect { x: 75, y: 75, w: 150, h: 150 });
    assert_eq!(scale_rect(r, 100_000, 1_000_000), Rect { x: 145, y: 145, w: 10, h: 10 });
}

#[test]
fn sine_is_close() {
    assert_eq!(sine_of_micros(0), 0);
    let s = sine_of_micros(1_000_000);
    assert!((s - 841_471).abs() < 300);
    let s = sine_of_micros(500_000);
    assert!((s - 479_426).abs() < 10);
}

#[test]
fn to_screen_saturates() {
    assert_eq!(to_screen(5), 5);
    assert_eq!(to_screen(-5), -5);
    assert_eq!(to_screen(1 << 40), i32::MAX);
    assert_eq!(to_screen(-(1 << 40)), i32::MIN);
}

fn started() -> (Game<Recorder>, Rc<RefCell<Vec<String>>>) {
    let rec = Recorder::default();
    let calls = rec.calls.clone();
    let mut g = Game::with_seed(rec, 0);
    g.restart(1600, 900).unwrap();
    g.egg = Cell { x: 10, y: 0 };
    (g, calls)
}

#[test]
fn render_draws_board_snake_and_score() {
    let (g, calls) = started();
    g.render();
    let calls = calls.borrow();
    // a checkerboard of 18 by 11 cells comes first
    assert_eq!(calls[0], "fill -100 -100 100 100 FF181818");
    assert_eq!(calls[1], "fill -100 0 100 100 FF183018");
    assert!(calls.iter().any(|c| c == "fill 1000 0 100 100 FF31A6FF"));
    assert!(calls.iter().any(|c| c == "fill 1045 45 10 10 FF3166BB"));
    assert_eq!(calls.last().unwrap(), "text 100 100 Score: 0 48 FFFFFFFF");
    assert!(!calls.iter().any(|c| c.contains("Pause")));
}

#[test]
fn render_slides_head_and_tail() {
    let (mut g, calls) = started();
    g.update(1).unwrap();
    g.update(62_500).unwrap();
    g.render();
    let calls = calls.borrow();
    // head (3,4) half grown out of (2,4); tail (1,4) half shrunk towards (2,4)
    assert!(calls.iter().any(|c| c == "fill 250 400 100 100 FF00FF00"));
    assert!(calls.iter().any(|c| c == "fill 150 400 100 100 FF228B22"));
    // the middle segment at the start colour of the gradient
    assert!(calls.iter().any(|c| c == "fill 200 400 100 100 FF00FF00"));
}

#[test]
fn render_shows_pause_and_game_over() {
    let (mut g, calls) = started();
    g.keydown(" ").unwrap();
    g.render();
    assert_eq!(calls.borrow().last().unwrap(), "text 800 450 Pause 48 FFFFFFFF");
    calls.borrow_mut().clear();
    g.keydown(" ").unwrap();
    g.snake.items = vec![(1, 4), (2, 4), (3, 4), (3, 5), (2, 5)]
        .into_iter()
        .map(|(x, y)| Cell { x, y })
        .collect();
    g.score = 2;
    g.dir = Direction::Up;
    g.update(1).unwrap();
    assert_eq!(g.state, State::GameOver);
    g.render();
    let calls = calls.borrow();
    assert_eq!(calls.last().unwrap(), "text 800 450 Game Over 48 FFFFFFFF");
    assert!(calls.iter().any(|c| c == "text 100 100 Score: 2 48 FFFFFFFF"));
    // the fragment at the impact stays where its cell was
    assert!(calls.iter().any(|c| c == "fill 200 400 100 100 FF32CD32"));
}

#[test]
fn debug_overlay_outlines_board_and_snake() {
    let (mut g, calls) = started();
    g.render();
    assert!(!calls.borrow().iter().any(|c| c.starts_with("stroke")));
    calls.borrow_mut().clear();
    g.debug.enabled = true;
    g.render();
    let calls = calls.borrow();
    assert!(calls.iter().any(|c| c == "text 1100 100 Dev 48 FFFFFFFF"));
    assert!(calls.iter().any(|c| c == "stroke 0 0 1600 900 FF0000FF"));
    assert!(calls.iter().any(|c| c == "stroke 200 400 100 100 FF0000FF"));
    assert_eq!(calls.iter().filter(|c| c.starts_with("stroke")).count(), 4);
}

#[test]
fn frame_lists_background_egg_snake_and_score() {
    let (g, _) = started();
    let cmds = g.frame();
    // 19 columns by 12 rows of checkerboard
    assert_eq!(cmds[0], DrawCmd::FillRect { x: -100, y: -100, w: 100, h: 100, color: 0xFF181818 });
    assert_eq!(cmds[19 * 12 - 1], DrawCmd::FillRect { x: 1700, y: 1000, w: 100, h: 100, color: 0xFF183018 });
    assert_eq!(cmds[19 * 12], DrawCmd::FillRect { x: 1000, y: 0, w: 100, h: 100, color: 0xFF31A6FF });
    assert_eq!(
        *cmds.last().unwrap(),
        DrawCmd::FillText { x: 100, y: 100, text: Text::Score(0), size: 48, color: 0xFFFFFFFF }
    );
    let texts = cmds.iter().filter(|c| matches!(c, DrawCmd::FillText { .. })).count();
    assert_eq!(texts, 1);
}

#[test]
fn frame_after_collision_shows_fragments_with_stubs() {
    let (mut g, _) = started();
    g.snake.items = vec![(1, 4), (2, 4), (3, 4), (3, 5), (2, 5)]
        .into_iter()
        .map(|(x, y)| Cell { x, y })
        .collect();
    g.score = 2;
    g.dir = Direction::Up;
    g.update(1).unwrap();
    let cmds = g.frame();
    let n = cmds.len();
    assert_eq!(
        cmds[n - 1],
        DrawCmd::FillText { x: 800, y: 450, text: Text::GameOver, size: 48, color: 0xFFFFFFFF }
    );
    assert_eq!(
        cmds[n - 2],
        DrawCmd::FillText { x: 100, y: 100, text: Text::Score(2), size: 48, color: 0xFFFFFFFF }
    );
    // five fragments, with 1 + 2 + 2 + 2 + 1 spine stubs
    let bodies = cmds.iter().filter(|c| matches!(c, DrawCmd::FillRect { color: 0xFF32CD32, .. })).count();
    let stubs = cmds.iter().filter(|c| matches!(c, DrawCmd::FillRect { color: 0xFF006400, .. })).count();
    assert_eq!(bodies, 5);
    assert_eq!(stubs, 8);
    assert!(!cmds.iter().any(|c| matches!(c, DrawCmd::FillRect { color: 0xFF228B22, .. })));
    // the fragment at the impact and its arms to the left and right
    let at = cmds
        .iter()
        .position(|c| *c == DrawCmd::FillRect { x: 200, y: 400, w: 100, h: 100, color: 0xFF32CD32 })
        .unwrap();
    assert_eq!(cmds[at + 1], DrawCmd::FillRect { x: 245, y: 445, w: 55, h: 10, color: 0xFF006400 });
    assert_eq!(cmds[at + 2], DrawCmd::FillRect { x: 200, y: 445, w: 55, h: 10, color: 0xFF006400 });
}

#[test]
fn frame_pops_the_egg_after_eating() {
    let (mut g, _) = started();
    g.egg = Cell { x: 3, y: 4 };
    g.update(1).unwrap();
    g.egg = Cell { x: 10, y: 0 };
    let cmds = g.frame();
    // right after the step the egg is drawn at one and a half times its size, transparent
    assert_eq!(cmds[19 * 12], DrawCmd::FillRect { x: 975, y: -25, w: 150, h: 150, color: 0x0031A6FF });
    g.update(62_500).unwrap();
    let cmds = g.frame();
    // half-way: scale 1.5 - 0.5 / 4, alpha a quarter
    assert_eq!(cmds[19 * 12], DrawCmd::FillRect { x: 982, y: -18, w: 137, h: 137, color: 0x4031A6FF });
}
