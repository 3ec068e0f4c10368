//! Painting a game onto its surface: the checkerboard, the egg, the sliding
//! snake and its spine, the exploding fragments, and the texts.
use crate::dead::{dir_bit, dir_bit_of, Point, SUBPIXELS};
use crate::game::{Game, State, STEP_INTERVAL};
use crate::grid::{lemma_adjacent_symmetric, Cell, Direction, ALL_DIRECTIONS, CELL_SIZE, COLS, ROWS};
use crate::render::{
    cell_center, color_alpha, lerp_color, scale_rect, spec_cell_center, spec_color_alpha,
    spec_lerp_color, spec_scale_rect, PlatformRenderer, Rect, Sides, FRACTION_ONE,
};
use crate::snake::linked;
use crate::utils::{div_trunc, lerp, lerpi, trunc_div};
use vstd::prelude::*;

verus! {

pub const CELL1_COLOR: u32 = 0xFF181818;

pub const CELL2_COLOR: u32 = 0xFF183018;

pub const SNAKE_HEAD_COLOR: u32 = 0xFF00FF00;

pub const SNAKE_BODY_COLOR: u32 = 0xFF32CD32;

pub const SNAKE_TAIL_COLOR: u32 = 0xFF228B22;

pub const SNAKE_SPINE_COLOR: u32 = 0xFF006400;

pub const EGG_BODY_COLOR: u32 = 0xFF31A6FF;

pub const EGG_SPINE_COLOR: u32 = 0xFF3166BB;

/// Half the thickness of a spine, in pixels: five percent of a cell.
pub const SPINE_HALF_THICKNESS: i64 = 5;

pub const SCORE_PADDING: i32 = 100;

pub const SCORE_FONT_SIZE: u32 = 48;

pub const SCORE_FONT_COLOR: u32 = 0xFFFFFFFF;

/// Colour of the developer outlines.
pub const DEBUG_OUTLINE_COLOR: u32 = 0xFF0000FF;

/// The decimal digit `d`.
pub open spec fn digit(d: int) -> char {
    if d == 0 {
        '0'
    } else if d == 1 {
        '1'
    } else if d == 2 {
        '2'
    } else if d == 3 {
        '3'
    } else if d == 4 {
        '4'
    } else if d == 5 {
        '5'
    } else if d == 6 {
        '6'
    } else if d == 7 {
        '7'
    } else if d == 8 {
        '8'
    } else {
        '9'
    }
}

/// `n` written in decimal, without leading zeros.
pub open spec fn decimal(n: nat) -> Seq<char>
    decreases n,
{
    if n < 10 {
        seq![digit(n as int)]
    } else {
        decimal(n / 10).push(digit((n % 10) as int))
    }
}

/// Relies on std's `format!`, which writes an unsigned integer in decimal.
#[verifier::external_body]
fn score_text(score: u32) -> (r: String)
    ensures
        r@ == seq!['S', 'c', 'o', 'r', 'e', ':', ' '] + decimal(score as nat),
{
    format!("Score: {}", score)
}

/// `v` as a screen coordinate, held within the range of `i32`.
pub open spec fn screen(v: int) -> i32 {
    if v > i32::MAX {
        i32::MAX
    } else if v < i32::MIN {
        i32::MIN
    } else {
        v as i32
    }
}

pub fn to_screen(v: i64) -> (r: i32)
    ensures
        r == screen(v as int),
{
    if v > i32::MAX as i64 {
        i32::MAX
    } else if v < i32::MIN as i64 {
        i32::MIN
    } else {
        v as i32
    }
}

/// sin(t), t being `micros` microseconds in seconds, for `t` in `[0, 1]`,
/// in millionths, from its Taylor polynomial of degree five.
pub open spec fn sine_millionths(micros: int) -> int {
    let s = micros - micros * micros * micros / 6_000_000_000_000 + micros * micros * micros
        * micros * micros / 120_000_000_000_000_000_000_000_000;
    if s > FRACTION_ONE {
        FRACTION_ONE as int
    } else {
        s
    }
}

pub fn sine_of_micros(micros: i64) -> (r: i64)
    requires
        0 <= micros <= 1_000_000,
    ensures
        r == sine_millionths(micros as int),
        0 <= r <= FRACTION_ONE,
{
    let m = micros as u128;
    assert(m * m * m / 6_000_000_000_000 <= m) by (nonlinear_arith)
        requires
            0 <= m <= 1_000_000,
    ;
    assert(m * m * m <= 1_000_000_000_000_000_000) by (nonlinear_arith)
        requires
            0 <= m <= 1_000_000,
    ;
    assert(m * m * m * m * m <= 1_000_000_000_000_000_000_000_000_000_000) by (nonlinear_arith)
        requires
            0 <= m <= 1_000_000,
    ;
    assert(m * m <= 1_000_000_000_000) by (nonlinear_arith)
        requires
            0 <= m <= 1_000_000,
    ;
    let m2 = m * m;
    let m3 = m2 * m;
    assert(m3 * m <= 1_000_000_000_000_000_000_000_000) by (nonlinear_arith)
        requires
            0 <= m <= 1_000_000,
            m3 == m * m * m,
    ;
    let m4 = m3 * m;
    let m5 = m4 * m;
    let s = m - m3 / 6_000_000_000_000 + m5 / 120_000_000_000_000_000_000_000_000;
    if s > FRACTION_ONE as u128 {
        FRACTION_ONE
    } else {
        s as i64
    }
}

/// A text the game writes.
#[derive(Clone, Copy, Debug, PartialEq, Eq, Structural)]
pub enum Text {
    /// `Score: ` and the score in decimal.
    Score(u32),
    Pause,
    GameOver,
    /// The developer caption.
    Dev,
}

/// One call to the drawing surface, in screen pixels.
#[derive(Clone, Copy, Debug, PartialEq, Eq, Structural)]
pub enum DrawCmd {
    FillRect { x: i32, y: i32, w: i32, h: i32, color: u32 },
    StrokeRect { x: i32, y: i32, w: i32, h: i32, color: u32 },
    FillText { x: i32, y: i32, text: Text, size: u32, color: u32 },
}

/// The direction at position `k` of `ALL_DIRECTIONS`.
pub open spec fn dir_at(k: int) -> Direction {
    if k == 0 {
        Direction::Right
    } else if k == 1 {
        Direction::Up
    } else if k == 2 {
        Direction::Left
    } else {
        Direction::Down
    }
}

/// The thin square about `center` that a spine or an arm starts from.
pub open spec fn spine_base(center: (i64, i64)) -> Sides {
    Sides {
        right: (center.0 + SPINE_HALF_THICKNESS) as i64,
        up: (center.1 - SPINE_HALF_THICKNESS) as i64,
        left: (center.0 - SPINE_HALF_THICKNESS) as i64,
        down: (center.1 + SPINE_HALF_THICKNESS) as i64,
    }
}

/// A spine from `center` towards `dir`, `len` pixels long.
pub open spec fn spine_sides(center: (i64, i64), dir: Direction, len: i64) -> Sides {
    let base = spine_base(center);
    if dir == Direction::Right || dir == Direction::Down {
        base.spec_set(dir, (base.spec_get(dir) + len) as i64)
    } else {
        base.spec_set(dir, (base.spec_get(dir) - len) as i64)
    }
}

/// The arm from the centre of `sides` out to its edge facing `dir`.
pub open spec fn arm_sides(sides: Sides, dir: Direction) -> Sides {
    spine_base(sides.spec_center()).spec_set(dir, sides.spec_get(dir))
}

/// The cell one unwrapped step from `c` in direction `d`.
pub open spec fn cell_plus(c: Cell, d: Direction) -> Cell {
    Cell { x: (c.x + d.spec_dx()) as i32, y: (c.y + d.spec_dy()) as i32 }
}

/// The rectangle of a fragment whose corner is at `p`, in subpixels.
pub open spec fn fragment_rect(p: Point) -> Rect {
    Rect {
        x: trunc_div(p.x as int, SUBPIXELS as int) as i64,
        y: trunc_div(p.y as int, SUBPIXELS as int) as i64,
        w: CELL_SIZE,
        h: CELL_SIZE,
    }
}

/// The checkerboard colour of a cell: the first when `row + col` is even.
pub open spec fn board_color(col: int, row: int) -> u32 {
    if (row + col) % 2 == 0 {
        CELL1_COLOR
    } else {
        CELL2_COLOR
    }
}

/// The board's outline, in world pixels.
pub open spec fn board_rect() -> Rect {
    Rect { x: 0, y: 0, w: (COLS * CELL_SIZE) as i64, h: (ROWS * CELL_SIZE) as i64 }
}

proof fn lemma_even_negated(p: int)
    requires
        p < 0,
    ensures
        ((-p) % 2 == 0) == (p % 2 == 0),
{
    let q = (-p) / 2;
    let r = (-p) % 2;
    vstd::arithmetic::div_mod::lemma_fundamental_div_mod(-p, 2);
    if r == 0 {
        vstd::arithmetic::div_mod::lemma_fundamental_div_mod_converse(p, 2, -q, 0);
    } else {
        vstd::arithmetic::div_mod::lemma_fundamental_div_mod_converse(p, 2, -q - 1, 1);
    }
}

impl<P: PlatformRenderer> Game<P> {
    /// The filled rectangle `r`, moved from world to screen pixels: minus
    /// the camera, plus half the view.
    pub open spec fn fill_cmd(&self, r: Rect, color: u32) -> DrawCmd {
        DrawCmd::FillRect {
            x: screen(r.x - self.camera_pos.x + self.width as int / 2),
            y: screen(r.y - self.camera_pos.y + self.height as int / 2),
            w: screen(r.w as int),
            h: screen(r.h as int),
            color,
        }
    }

    pub open spec fn stroke_cmd(&self, r: Rect, color: u32) -> DrawCmd {
        DrawCmd::StrokeRect {
            x: screen(r.x - self.camera_pos.x + self.width as int / 2),
            y: screen(r.y - self.camera_pos.y + self.height as int / 2),
            w: screen(r.w as int),
            h: screen(r.h as int),
            color,
        }
    }

    pub open spec fn sides_cmd(&self, s: Sides, color: u32) -> DrawCmd {
        self.fill_cmd(Rect::spec_from_sides(s), color)
    }

    /// The cell `c` scaled by `num / FRACTION_ONE` about its centre.
    pub open spec fn cell_cmd(&self, c: Cell, color: u32, num: int) -> DrawCmd {
        self.fill_cmd(spec_scale_rect(Rect::spec_from_cell(c), num, FRACTION_ONE as int), color)
    }

    pub open spec fn spine_cmd(&self, center: (i64, i64), dir: Direction, len: i64) -> DrawCmd {
        self.sides_cmd(spine_sides(center, dir, len), SNAKE_SPINE_COLOR)
    }

    /// One arm for each set bit of `mask` among the first `k` directions.
    pub open spec fn arm_cmds(&self, sides: Sides, mask: u8, k: int) -> Seq<DrawCmd>
        decreases k,
    {
        if k <= 0 {
            seq![]
        } else {
            self.arm_cmds(sides, mask, k - 1) + if mask & dir_bit(dir_at(k - 1)) != 0 {
                seq![self.sides_cmd(arm_sides(sides, dir_at(k - 1)), SNAKE_SPINE_COLOR)]
            } else {
                seq![]
            }
        }
    }

    /// The cells in view: first and last column, first and last row.
    pub open spec fn view_range(&self) -> (int, int, int, int) {
        let hw = self.width as int / 2;
        let hh = self.height as int / 2;
        (
            trunc_div(self.camera_pos.x - hw - CELL_SIZE, CELL_SIZE as int),
            trunc_div(self.camera_pos.x + hw + CELL_SIZE, CELL_SIZE as int),
            trunc_div(self.camera_pos.y - hh - CELL_SIZE, CELL_SIZE as int),
            trunc_div(self.camera_pos.y + hh + CELL_SIZE, CELL_SIZE as int),
        )
    }

    pub open spec fn board_cell_cmd(&self, col: int, row: int) -> DrawCmd {
        self.cell_cmd(Cell { x: col as i32, y: row as i32 }, board_color(col, row), FRACTION_ONE as int)
    }

    /// Checkerboard cells of column `col`, rows `row1` up to `r`, exclusive.
    pub open spec fn board_rows(&self, col: int, row1: int, r: int) -> Seq<DrawCmd>
        decreases r - row1,
    {
        if r <= row1 {
            seq![]
        } else {
            self.board_rows(col, row1, r - 1).push(self.board_cell_cmd(col, r - 1))
        }
    }

    /// Checkerboard cells of columns `col1` up to `c`, exclusive, column by
    /// column.
    pub open spec fn board_cols(&self, col1: int, c: int, row1: int, row2: int) -> Seq<DrawCmd>
        decreases c - col1,
    {
        if c <= col1 {
            seq![]
        } else {
            self.board_cols(col1, c - 1, row1, row2) + self.board_rows(c - 1, row1, row2 + 1)
        }
    }

    /// The checkerboard: one cell for each cell in view.
    pub open spec fn background_cmds(&self) -> Seq<DrawCmd> {
        let (col1, col2, row1, row2) = self.view_range();
        self.board_cols(col1, col2 + 1, row1, row2)
    }

    fn push_fill(&self, out: &mut Vec<DrawCmd>, rect: &Rect, color: u32)
        requires
            -400_000_000_000 <= rect.x <= 400_000_000_000,
            -400_000_000_000 <= rect.y <= 400_000_000_000,
            0 <= self.camera_pos.x <= u32::MAX,
            0 <= self.camera_pos.y <= u32::MAX,
        ensures
            final(out)@ == old(out)@.push(self.fill_cmd(*rect, color)),
    {
        out.push(
            DrawCmd::FillRect {
                x: to_screen(rect.x - self.camera_pos.x + (self.width / 2) as i64),
                y: to_screen(rect.y - self.camera_pos.y + (self.height / 2) as i64),
                w: to_screen(rect.w),
                h: to_screen(rect.h),
                color,
            },
        );
    }

    fn push_stroke(&self, out: &mut Vec<DrawCmd>, rect: &Rect, color: u32)
        requires
            -400_000_000_000 <= rect.x <= 400_000_000_000,
            -400_000_000_000 <= rect.y <= 400_000_000_000,
            0 <= self.camera_pos.x <= u32::MAX,
            0 <= self.camera_pos.y <= u32::MAX,
        ensures
            final(out)@ == old(out)@.push(self.stroke_cmd(*rect, color)),
    {
        out.push(
            DrawCmd::StrokeRect {
                x: to_screen(rect.x - self.camera_pos.x + (self.width / 2) as i64),
                y: to_screen(rect.y - self.camera_pos.y + (self.height / 2) as i64),
                w: to_screen(rect.w),
                h: to_screen(rect.h),
                color,
            },
        );
    }

    fn push_sides(&self, out: &mut Vec<DrawCmd>, sides: &Sides, color: u32)
        requires
            sides.bounded(),
            0 <= self.camera_pos.x <= u32::MAX,
            0 <= self.camera_pos.y <= u32::MAX,
        ensures
            final(out)@ == old(out)@.push(self.sides_cmd(*sides, color)),
    {
        self.push_fill(out, &Rect::from_sides(sides), color);
    }

    fn push_cell(&self, out: &mut Vec<DrawCmd>, cell: &Cell, color: u32, num: i64)
        requires
            -100_000_000 <= cell.x <= 100_000_000,
            -100_000_000 <= cell.y <= 100_000_000,
            0 <= num <= 2 * FRACTION_ONE,
            0 <= self.camera_pos.x <= u32::MAX,
            0 <= self.camera_pos.y <= u32::MAX,
        ensures
            final(out)@ == old(out)@.push(self.cell_cmd(*cell, color, num as int)),
    {
        let r = scale_rect(Rect::from_cell(cell), num, FRACTION_ONE);
        proof {
            crate::utils::lemma_lerp_bounded(0, 100, num as int, FRACTION_ONE as int);
            crate::utils::lemma_lerp_bounded(
                cell.x * 100,
                cell.x * 100 + 50,
                FRACTION_ONE - num as int,
                FRACTION_ONE as int,
            );
            crate::utils::lemma_lerp_bounded(
                cell.y * 100,
                cell.y * 100 + 50,
                FRACTION_ONE - num as int,
                FRACTION_ONE as int,
            );
        }
        self.push_fill(out, &r, color);
    }

    fn push_spine(&self, out: &mut Vec<DrawCmd>, center: (i64, i64), dir: Direction, len: i64)
        requires
            -1_000_000_000 <= center.0 <= 1_000_000_000,
            -1_000_000_000 <= center.1 <= 1_000_000_000,
            0 <= len <= CELL_SIZE,
            0 <= self.camera_pos.x <= u32::MAX,
            0 <= self.camera_pos.y <= u32::MAX,
        ensures
            final(out)@ == old(out)@.push(self.spine_cmd(center, dir, len)),
    {
        let mut sides = Sides {
            right: center.0 + SPINE_HALF_THICKNESS,
            up: center.1 - SPINE_HALF_THICKNESS,
            left: center.0 - SPINE_HALF_THICKNESS,
            down: center.1 + SPINE_HALF_THICKNESS,
        };
        if dir == Direction::Right || dir == Direction::Down {
            let v = sides.get(dir) + len;
            sides.set(dir, v);
        } else {
            let v = sides.get(dir) - len;
            sides.set(dir, v);
        }
        self.push_sides(out, &sides, SNAKE_SPINE_COLOR);
    }

    /// The spine stubs of a fragment: one arm from its centre to each edge
    /// whose bit is set in `mask`.
    fn push_arms(&self, out: &mut Vec<DrawCmd>, sides: &Sides, mask: u8)
        requires
            -20_000_000_000 <= sides.left <= 20_000_000_000,
            -20_000_000_000 <= sides.right <= 20_000_000_000,
            -20_000_000_000 <= sides.up <= 20_000_000_000,
            -20_000_000_000 <= sides.down <= 20_000_000_000,
            0 <= self.camera_pos.x <= u32::MAX,
            0 <= self.camera_pos.y <= u32::MAX,
        ensures
            final(out)@ == old(out)@ + self.arm_cmds(*sides, mask, 4),
    {
        let ghost start = out@;
        let center = sides.center();
        let mut i: usize = 0;
        while i < 4
            invariant
                -20_000_000_000 <= sides.left <= 20_000_000_000,
                -20_000_000_000 <= sides.right <= 20_000_000_000,
                -20_000_000_000 <= sides.up <= 20_000_000_000,
                -20_000_000_000 <= sides.down <= 20_000_000_000,
                0 <= self.camera_pos.x <= u32::MAX,
                0 <= self.camera_pos.y <= u32::MAX,
                center == sides.spec_center(),
                -40_000_000_000 <= center.0 <= 40_000_000_000,
                -40_000_000_000 <= center.1 <= 40_000_000_000,
                0 <= i <= 4,
                out@ == start + self.arm_cmds(*sides, mask, i as int),
            decreases 4 - i,
        {
            let dir = ALL_DIRECTIONS[i];
            assert(dir == dir_at(i as int));
            if mask & dir_bit_of(dir) != 0 {
                let mut arm = Sides {
                    right: center.0 + SPINE_HALF_THICKNESS,
                    up: center.1 - SPINE_HALF_THICKNESS,
                    left: center.0 - SPINE_HALF_THICKNESS,
                    down: center.1 + SPINE_HALF_THICKNESS,
                };
                arm.set(dir, sides.get(dir));
                self.push_sides(out, &arm, SNAKE_SPINE_COLOR);
            }
            assert(out@ =~= start + self.arm_cmds(*sides, mask, i + 1));
            i = i + 1;
        }
    }

    fn push_background(&self, out: &mut Vec<DrawCmd>)
        requires
            self.wf(),
        ensures
            final(out)@ == old(out)@ + self.background_cmds(),
    {
        let ghost start = out@;
        let half_w = (self.width / 2) as i64;
        let half_h = (self.height / 2) as i64;
        let col1 = div_trunc(self.camera_pos.x - half_w - CELL_SIZE, CELL_SIZE);
        let col2 = div_trunc(self.camera_pos.x + half_w + CELL_SIZE, CELL_SIZE);
        let row1 = div_trunc(self.camera_pos.y - half_h - CELL_SIZE, CELL_SIZE);
        let row2 = div_trunc(self.camera_pos.y + half_h + CELL_SIZE, CELL_SIZE);
        assert(self.view_range() == (col1 as int, col2 as int, row1 as int, row2 as int));
        assert(row1 <= row2 + 1);
        let mut col = col1;
        while col <= col2
            invariant
                self.wf(),
                -100_000_000 <= col1,
                -100_000_000 <= row1,
                col2 <= 100_000_000,
                row2 <= 100_000_000,
                col1 <= col <= col2 + 1,
                row1 <= row2 + 1,
                out@ == start + self.board_cols(col1 as int, col as int, row1 as int, row2 as int),
            decreases col2 + 1 - col,
        {
            let ghost before = out@;
            let mut row = row1;
            while row <= row2
                invariant
                    self.wf(),
                    -100_000_000 <= row1,
                    row2 <= 100_000_000,
                    row1 <= row <= row2 + 1,
                    col1 <= col <= col2,
                    -100_000_000 <= col1,
                    col2 <= 100_000_000,
                    out@ == before + self.board_rows(col as int, row1 as int, row as int),
                decreases row2 + 1 - row,
            {
                let p = row + col;
                let even = if p >= 0 {
                    p % 2 == 0
                } else {
                    proof {
                        lemma_even_negated(p as int);
                    }
                    (-p) % 2 == 0
                };
                let color = if even {
                    CELL1_COLOR
                } else {
                    CELL2_COLOR
                };
                assert(color == board_color(col as int, row as int));
                self.push_cell(out, &Cell { x: col as i32, y: row as i32 }, color, FRACTION_ONE);
                assert(out@ =~= before + self.board_rows(col as int, row1 as int, row + 1));
                row = row + 1;
            }
            assert(out@ =~= start + self.board_cols(col1 as int, col + 1, row1 as int, row2 as int));
            col = col + 1;
        }
    }

    /// The egg; just after it was eaten it pops from one and a half times
    /// its size back to its size while fading in, both by the square of the
    /// time since the step.
    pub open spec fn egg_cmds(&self) -> Seq<DrawCmd> {
        if self.eating_egg {
            let c = if self.step_cooldown < 0 {
                0
            } else {
                self.step_cooldown as int
            };
            let u = STEP_INTERVAL - c;
            let t2 = u * u * FRACTION_ONE / (STEP_INTERVAL * STEP_INTERVAL);
            let a = lerp(3 * FRACTION_ONE / 2, FRACTION_ONE as int, t2, FRACTION_ONE as int);
            seq![
                self.cell_cmd(self.egg, spec_color_alpha(EGG_BODY_COLOR, t2, FRACTION_ONE as int), a),
                self.cell_cmd(self.egg, spec_color_alpha(EGG_SPINE_COLOR, t2, FRACTION_ONE as int), a / 10),
            ]
        } else {
            seq![
                self.cell_cmd(self.egg, EGG_BODY_COLOR, FRACTION_ONE as int),
                self.cell_cmd(self.egg, EGG_SPINE_COLOR, FRACTION_ONE / 10),
            ]
        }
    }

    fn push_egg(&self, out: &mut Vec<DrawCmd>)
        requires
            self.wf(),
        ensures
            final(out)@ == old(out)@ + self.egg_cmds(),
    {
        let ghost start = out@;
        if self.eating_egg {
            let c = if self.step_cooldown < 0 {
                0
            } else {
                self.step_cooldown
            };
            let u: i64 = STEP_INTERVAL - c;
            assert(0 <= u * u <= STEP_INTERVAL * STEP_INTERVAL) by (nonlinear_arith)
                requires
                    0 <= u <= STEP_INTERVAL,
            ;
            let t2: i64 = u * u * FRACTION_ONE / (STEP_INTERVAL * STEP_INTERVAL);
            proof {
                vstd::arithmetic::div_mod::lemma_div_is_ordered(
                    u * u * FRACTION_ONE as int,
                    STEP_INTERVAL * STEP_INTERVAL * FRACTION_ONE as int,
                    STEP_INTERVAL * STEP_INTERVAL as int,
                );
                vstd::arithmetic::div_mod::lemma_div_multiples_vanish(
                    FRACTION_ONE as int,
                    STEP_INTERVAL * STEP_INTERVAL as int,
                );
                vstd::arithmetic::div_mod::lemma_div_pos_is_pos(
                    u * u * FRACTION_ONE as int,
                    STEP_INTERVAL * STEP_INTERVAL as int,
                );
            }
            let a = lerpi(3 * FRACTION_ONE / 2, FRACTION_ONE, t2, FRACTION_ONE);
            proof {
                crate::render::lemma_lerp_between(1_500_000, 1_000_000, t2 as int, FRACTION_ONE as int);
            }
            self.push_cell(out, &self.egg, color_alpha(EGG_BODY_COLOR, t2, FRACTION_ONE), a);
            self.push_cell(out, &self.egg, color_alpha(EGG_SPINE_COLOR, t2, FRACTION_ONE), a / 10);
        } else {
            self.push_cell(out, &self.egg, EGG_BODY_COLOR, FRACTION_ONE);
            self.push_cell(out, &self.egg, EGG_SPINE_COLOR, FRACTION_ONE / 10);
        }
        assert(out@ =~= start + self.egg_cmds());
    }

    /// The head: its cell with the trailing edge slid back by the part of
    /// the step still to run; while eating, the full cell in a colour that
    /// turns from the egg's to the head's.
    #[verifier::opaque]
    pub open spec fn head_cmd(&self) -> DrawCmd {
        let s = self.snake@;
        let head = s[s.len() - 1];
        if self.eating_egg {
            self.cell_cmd(
                head,
                spec_lerp_color(EGG_BODY_COLOR, SNAKE_HEAD_COLOR, sine_millionths(self.eating_timer as int), FRACTION_ONE as int),
                FRACTION_ONE as int,
            )
        } else {
            self.sides_cmd(
                Sides::spec_from_rect(Rect::spec_from_cell(head)).spec_slide(
                    self.dir.spec_opposite(),
                    self.step_cooldown as int,
                    STEP_INTERVAL as int,
                ),
                SNAKE_HEAD_COLOR,
            )
        }
    }

    /// The direction from the tail to the next segment.
    pub open spec fn tail_dir(&self) -> Direction {
        self.snake@[0].spec_dir_to(self.snake@[1])
    }

    /// The tail: its cell with the leading edge slid on by the part of the
    /// step that has run, or fully retracted while the snake grows.
    #[verifier::opaque]
    pub open spec fn tail_cmd(&self) -> DrawCmd {
        let t = if self.eating_egg {
            STEP_INTERVAL as int
        } else {
            STEP_INTERVAL - self.step_cooldown
        };
        self.sides_cmd(
            Sides::spec_from_rect(Rect::spec_from_cell(self.snake@[0])).spec_slide(self.tail_dir(), t, STEP_INTERVAL as int),
            SNAKE_TAIL_COLOR,
        )
    }

    /// Middle segments `1` up to `i`, exclusive: full cells coloured along
    /// the gradient by their index.
    pub open spec fn body_cmds(&self, i: int) -> Seq<DrawCmd>
        decreases i,
    {
        let s = self.snake@;
        if i <= 1 {
            seq![]
        } else {
            self.body_cmds(i - 1).push(
                self.cell_cmd(
                    s[i - 1],
                    spec_lerp_color(self.body_start_color, self.body_end_color, i - 2, s.len() - 2),
                    FRACTION_ONE as int,
                ),
            )
        }
    }

    /// Full-length spines, both ways, between segments `j` and `j + 1` for
    /// `j` from `1` up to `i`, exclusive.
    pub open spec fn spine_cmds(&self, i: int) -> Seq<DrawCmd>
        decreases i,
    {
        let s = self.snake@;
        if i <= 1 {
            seq![]
        } else {
            self.spine_cmds(i - 1) + seq![
                self.spine_cmd(spec_cell_center(s[i - 1]), s[i - 1].spec_dir_to(s[i]), CELL_SIZE),
                self.spine_cmd(spec_cell_center(s[i]), s[i].spec_dir_to(s[i - 1]), CELL_SIZE),
            ]
        }
    }

    /// The spines at the head, grown by the part of the step that has run.
    #[verifier::opaque]
    pub open spec fn head_spine_cmds(&self) -> Seq<DrawCmd> {
        let s = self.snake@;
        let n = s.len();
        let t = self.step_cooldown as int;
        let len = lerp(0, CELL_SIZE as int, STEP_INTERVAL - t, STEP_INTERVAL as int) as i64;
        seq![
            self.spine_cmd(spec_cell_center(s[n - 2]), s[n - 2].spec_dir_to(s[n - 1]), len),
            self.spine_cmd(spec_cell_center(cell_plus(s[n - 1], self.dir.spec_opposite())), self.dir, len),
        ]
    }

    /// The spines at the tail, shrunk by the part of the step that has run,
    /// and gone while the snake grows.
    #[verifier::opaque]
    pub open spec fn tail_spine_cmds(&self) -> Seq<DrawCmd> {
        let s = self.snake@;
        let t = if self.eating_egg {
            0
        } else {
            self.step_cooldown as int
        };
        let len = lerp(0, CELL_SIZE as int, t, STEP_INTERVAL as int) as i64;
        seq![
            self.spine_cmd(spec_cell_center(s[1]), s[1].spec_dir_to(s[0]), len),
            self.spine_cmd(spec_cell_center(cell_plus(s[0], self.tail_dir())), self.tail_dir().spec_opposite(), len),
        ]
    }

    /// Developer outlines of segments `0` up to `i`, exclusive.
    pub open spec fn outline_cmds(&self, i: int) -> Seq<DrawCmd>
        decreases i,
    {
        if i <= 0 {
            seq![]
        } else {
            self.outline_cmds(i - 1).push(self.stroke_cmd(Rect::spec_from_cell(self.snake@[i - 1]), DEBUG_OUTLINE_COLOR))
        }
    }

    /// The live snake.
    pub open spec fn snake_cmds(&self) -> Seq<DrawCmd> {
        let n = self.snake@.len() as int;
        seq![self.head_cmd(), self.tail_cmd()] + self.body_cmds(n - 1) + self.spine_cmds(n - 2)
            + self.head_spine_cmds() + self.tail_spine_cmds() + if self.debug.enabled {
            self.outline_cmds(n)
        } else {
            seq![]
        }
    }

    #[verifier::rlimit(40)]
    fn push_ends(&self, out: &mut Vec<DrawCmd>)
        requires
            self.wf(),
            0 <= self.step_cooldown <= STEP_INTERVAL,
        ensures
            final(out)@ == old(out)@ + seq![self.head_cmd(), self.tail_cmd()],
    {
        let ghost start = out@;
        let t = self.step_cooldown;
        let n = self.snake.size();
        assert(self.snake@[n - 1].on_grid());
        assert(self.snake@[0].on_grid());
        assert(self.snake@[0].adjacent(self.snake@[1])) by {
            reveal(linked);
        }
        let head_cell = self.snake.items[n - 1];
        if self.eating_egg {
            let color = lerp_color(
                EGG_BODY_COLOR,
                SNAKE_HEAD_COLOR,
                sine_of_micros(self.eating_timer),
                FRACTION_ONE,
            );
            self.push_cell(out, &head_cell, color, FRACTION_ONE);
        } else {
            let mut head_slide = Sides::from_rect(&Rect::from_cell(&head_cell));
            head_slide.adjust_2_slide_sides(self.dir.opposite(), t, STEP_INTERVAL);
            self.push_sides(out, &head_slide, SNAKE_HEAD_COLOR);
        }
        let tail_cell = self.snake.items[0];
        let mut tail_slide = Sides::from_rect(&Rect::from_cell(&tail_cell));
        let tail_dir = tail_cell.determine_dir(&self.snake.items[1]);
        let tail_t = if self.eating_egg {
            STEP_INTERVAL
        } else {
            STEP_INTERVAL - t
        };
        tail_slide.adjust_2_slide_sides(tail_dir, tail_t, STEP_INTERVAL);
        self.push_sides(out, &tail_slide, SNAKE_TAIL_COLOR);
        assert(out@ =~= start + seq![self.head_cmd(), self.tail_cmd()]) by {
            reveal(Game::head_cmd);
            reveal(Game::tail_cmd);
        }
    }

    fn push_body(&self, out: &mut Vec<DrawCmd>)
        requires
            self.wf(),
        ensures
            final(out)@ == old(out)@ + self.body_cmds(self.snake@.len() - 1),
    {
        let ghost start = out@;
        let n = self.snake.size();
        let mut i: usize = 1;
        while i < n - 1
            invariant
                self.wf(),
                n == self.snake@.len(),
                1 <= i <= n - 1,
                out@ == start + self.body_cmds(i as int),
            decreases n - 1 - i,
        {
            let color = lerp_color(
                self.body_start_color,
                self.body_end_color,
                (i - 1) as i64,
                (n - 2) as i64,
            );
            let cell = self.snake.items[i];
            assert(self.snake@[i as int].on_grid());
            self.push_cell(out, &cell, color, FRACTION_ONE);
            assert(out@ =~= start + self.body_cmds(i + 1));
            i = i + 1;
        }
    }

    #[verifier::rlimit(40)]
    fn push_body_spines(&self, out: &mut Vec<DrawCmd>)
        requires
            self.wf(),
        ensures
            final(out)@ == old(out)@ + self.spine_cmds(self.snake@.len() - 2),
    {
        let ghost start = out@;
        let n = self.snake.size();
        proof {
            crate::snake::lemma_distinct_cells_fit_board(self.snake@);
        }
        let mut i: usize = 1;
        while i + 2 < n
            invariant
                self.wf(),
                n == self.snake@.len(),
                n <= 144,
                1 <= i <= n,
                i + 2 <= n,
                out@ == start + self.spine_cmds(i as int),
            decreases n - i,
        {
            let cell1 = self.snake.items[i];
            let cell2 = self.snake.items[i + 1];
            assert(cell1.on_grid() && cell2.on_grid());
            assert(cell1.adjacent(cell2)) by {
                reveal(linked);
            }
            proof {
                lemma_adjacent_symmetric(cell1, cell2);
            }
            self.push_spine(out, cell_center(&cell1), cell1.determine_dir(&cell2), CELL_SIZE);
            self.push_spine(out, cell_center(&cell2), cell2.determine_dir(&cell1), CELL_SIZE);
            assert(out@ =~= start + self.spine_cmds(i + 1));
            i = i + 1;
        }
        assert(i == n - 2);
    }

    fn push_head_spines(&self, out: &mut Vec<DrawCmd>)
        requires
            self.wf(),
            0 <= self.step_cooldown <= STEP_INTERVAL,
        ensures
            final(out)@ == old(out)@ + self.head_spine_cmds(),
    {
        let ghost start = out@;
        let t = self.step_cooldown;
        let n = self.snake.size();
        let s = &self.snake.items;
        assert(self.snake@[n - 1].on_grid() && self.snake@[n - 2].on_grid());
        assert(self.snake@[n - 2].adjacent(self.snake@[n - 1])) by {
            reveal(linked);
        }
        let head_dir = self.dir;
        let len = lerpi(0, CELL_SIZE, STEP_INTERVAL - t, STEP_INTERVAL);
        proof {
            crate::render::lemma_lerp_between(0, 100, (STEP_INTERVAL - t) as int, STEP_INTERVAL as int);
        }
        let c1 = cell_center(&s[n - 2]);
        let d1 = s[n - 2].determine_dir(&s[n - 1]);
        self.push_spine(out, c1, d1, len);
        let c2 = cell_center(&s[n - 1].plus(head_dir.opposite().delta()));
        self.push_spine(out, c2, head_dir, len);
        assert(out@ =~= start + self.head_spine_cmds()) by {
            reveal(Game::head_spine_cmds);
        }
    }

    fn push_tail_spines(&self, out: &mut Vec<DrawCmd>)
        requires
            self.wf(),
            0 <= self.step_cooldown <= STEP_INTERVAL,
        ensures
            final(out)@ == old(out)@ + self.tail_spine_cmds(),
    {
        let ghost start = out@;
        let s = &self.snake.items;
        assert(self.snake@[0].on_grid() && self.snake@[1].on_grid());
        assert(self.snake@[0].adjacent(self.snake@[1])) by {
            reveal(linked);
        }
        proof {
            lemma_adjacent_symmetric(self.snake@[0], self.snake@[1]);
        }
        let tail_dir = s[0].determine_dir(&s[1]);
        let num = if self.eating_egg {
            0
        } else {
            self.step_cooldown
        };
        let len = lerpi(0, CELL_SIZE, num, STEP_INTERVAL);
        proof {
            crate::render::lemma_lerp_between(0, 100, num as int, STEP_INTERVAL as int);
        }
        let c1 = cell_center(&s[1]);
        let d1 = s[1].determine_dir(&s[0]);
        self.push_spine(out, c1, d1, len);
        let c2 = cell_center(&s[0].plus(tail_dir.delta()));
        self.push_spine(out, c2, tail_dir.opposite(), len);
        assert(out@ =~= start + self.tail_spine_cmds()) by {
            reveal(Game::tail_spine_cmds);
        }
    }

    fn push_outlines(&self, out: &mut Vec<DrawCmd>)
        requires
            self.wf(),
        ensures
            final(out)@ == old(out)@ + self.outline_cmds(self.snake@.len() as int),
    {
        let ghost start = out@;
        let n = self.snake.size();
        let mut i: usize = 0;
        while i < n
            invariant
                self.wf(),
                n == self.snake@.len(),
                0 <= i <= n,
                out@ == start + self.outline_cmds(i as int),
            decreases n - i,
        {
            let cell = self.snake.items[i];
            assert(self.snake@[i as int].on_grid());
            self.push_stroke(out, &Rect::from_cell(&cell), DEBUG_OUTLINE_COLOR);
            assert(out@ =~= start + self.outline_cmds(i + 1));
            i = i + 1;
        }
    }

    fn push_snake(&self, out: &mut Vec<DrawCmd>)
        requires
            self.wf(),
            0 <= self.step_cooldown <= STEP_INTERVAL,
        ensures
            final(out)@ == old(out)@ + self.snake_cmds(),
    {
        let ghost start = out@;
        self.push_ends(out);
        self.push_body(out);
        self.push_body_spines(out);
        self.push_head_spines(out);
        self.push_tail_spines(out);
        if self.debug.enabled {
            self.push_outlines(out);
        }
        assert(out@ =~= start + self.snake_cmds());
    }

    /// Fragment `j`: its cell where it has drifted to, and the stubs of its
    /// torn spine.
    pub open spec fn fragment_cmds(&self, j: int) -> Seq<DrawCmd> {
        let r = fragment_rect(self.dead_snake.items@[j]);
        seq![self.fill_cmd(r, SNAKE_BODY_COLOR)] + self.arm_cmds(
            Sides::spec_from_rect(r),
            self.dead_snake.masks@[j],
            4,
        )
    }

    /// Fragments `0` up to `i`, exclusive.
    pub open spec fn dead_cmds(&self, i: int) -> Seq<DrawCmd>
        decreases i,
    {
        if i <= 0 {
            seq![]
        } else {
            self.dead_cmds(i - 1) + self.fragment_cmds(i - 1)
        }
    }

    fn push_dead(&self, out: &mut Vec<DrawCmd>)
        requires
            self.wf(),
        ensures
            final(out)@ == old(out)@ + self.dead_cmds(self.dead_snake.items@.len() as int),
    {
        let ghost start = out@;
        let n = self.dead_snake.items.len();
        let mut i: usize = 0;
        while i < n
            invariant
                self.wf(),
                n == self.dead_snake.items@.len(),
                0 <= i <= n,
                out@ == start + self.dead_cmds(i as int),
            decreases n - i,
        {
            let pos = self.dead_snake.items[i];
            let rect = Rect {
                x: div_trunc(pos.x, SUBPIXELS),
                y: div_trunc(pos.y, SUBPIXELS),
                w: CELL_SIZE,
                h: CELL_SIZE,
            };
            assert(rect == fragment_rect(pos));
            self.push_fill(out, &rect, SNAKE_BODY_COLOR);
            self.push_arms(out, &Sides::from_rect(&rect), self.dead_snake.masks[i]);
            assert(out@ =~= start + self.dead_cmds(i + 1));
            i = i + 1;
        }
    }

    /// The score, at the top-left corner of the screen.
    pub open spec fn score_cmd(&self) -> DrawCmd {
        DrawCmd::FillText {
            x: SCORE_PADDING,
            y: SCORE_PADDING,
            text: Text::Score(self.score),
            size: SCORE_FONT_SIZE,
            color: SCORE_FONT_COLOR,
        }
    }

    /// A caption at the centre of the view.
    pub open spec fn caption_cmd(&self, text: Text) -> DrawCmd {
        DrawCmd::FillText {
            x: screen(self.camera_pos.x as int),
            y: screen(self.camera_pos.y as int),
            text,
            size: SCORE_FONT_SIZE,
            color: SCORE_FONT_COLOR,
        }
    }

    /// The developer caption and the board's outline.
    pub open spec fn overlay_cmds(&self) -> Seq<DrawCmd> {
        seq![
            DrawCmd::FillText {
                x: screen(self.width - 5 * SCORE_PADDING),
                y: SCORE_PADDING,
                text: Text::Dev,
                size: SCORE_FONT_SIZE,
                color: SCORE_FONT_COLOR,
            },
            self.stroke_cmd(board_rect(), DEBUG_OUTLINE_COLOR),
        ]
    }

    /// Everything drawn in one frame, in order: the checkerboard, the egg,
    /// then the live snake and the score (and the pause caption), or, after
    /// a collision, the fragments, the score and the game-over caption;
    /// last the developer overlay when it is on.
    pub open spec fn frame_cmds(&self) -> Seq<DrawCmd> {
        let rest = match self.state {
            State::GamePlay => self.snake_cmds() + seq![self.score_cmd()],
            State::Pause => self.snake_cmds() + seq![self.score_cmd(), self.caption_cmd(Text::Pause)],
            State::GameOver => self.dead_cmds(self.dead_snake.items@.len() as int) + seq![
                self.score_cmd(),
                self.caption_cmd(Text::GameOver),
            ],
        };
        self.background_cmds() + self.egg_cmds() + rest + if self.debug.enabled {
            self.overlay_cmds()
        } else {
            seq![]
        }
    }

    /// The drawing calls of one frame.
    pub fn frame(&self) -> (cmds: Vec<DrawCmd>)
        requires
            self.wf(),
        ensures
            cmds@ == self.frame_cmds(),
    {
        let mut out: Vec<DrawCmd> = Vec::new();
        self.push_background(&mut out);
        self.push_egg(&mut out);
        let cx = to_screen(self.camera_pos.x);
        let cy = to_screen(self.camera_pos.y);
        let score = DrawCmd::FillText {
            x: SCORE_PADDING,
            y: SCORE_PADDING,
            text: Text::Score(self.score),
            size: SCORE_FONT_SIZE,
            color: SCORE_FONT_COLOR,
        };
        match self.state {
            State::GamePlay => {
                self.push_snake(&mut out);
                out.push(score);
            },
            State::Pause => {
                self.push_snake(&mut out);
                out.push(score);
                out.push(
                    DrawCmd::FillText {
                        x: cx,
                        y: cy,
                        text: Text::Pause,
                        size: SCORE_FONT_SIZE,
                        color: SCORE_FONT_COLOR,
                    },
                );
            },
            State::GameOver => {
                self.push_dead(&mut out);
                out.push(score);
                out.push(
                    DrawCmd::FillText {
                        x: cx,
                        y: cy,
                        text: Text::GameOver,
                        size: SCORE_FONT_SIZE,
                        color: SCORE_FONT_COLOR,
                    },
                );
            },
        }
        if self.debug.enabled {
            out.push(
                DrawCmd::FillText {
                    x: to_screen(self.width as i64 - 5 * SCORE_PADDING as i64),
                    y: SCORE_PADDING,
                    text: Text::Dev,
                    size: SCORE_FONT_SIZE,
                    color: SCORE_FONT_COLOR,
                },
            );
            self.push_stroke(
                &mut out,
                &Rect { x: 0, y: 0, w: COLS as i64 * CELL_SIZE, h: ROWS as i64 * CELL_SIZE },
                DEBUG_OUTLINE_COLOR,
            );
        }
        assert(out@ =~= self.frame_cmds());
        out
    }

    /// Paints one frame: hands each call of `frame` to the surface, writing
    /// each text out in full.
    pub fn render(&self)
        requires
            self.wf(),
    {
        let cmds = self.frame();
        let mut i: usize = 0;
        while i < cmds.len()
            decreases cmds.len() - i,
        {
            match cmds[i] {
                DrawCmd::FillRect { x, y, w, h, color } => {
                    self.platform_renderer.fill_rect(x, y, w, h, color);
                },
                DrawCmd::StrokeRect { x, y, w, h, color } => {
                    self.platform_renderer.stroke_rect(x, y, w, h, color);
                },
                DrawCmd::FillText { x, y, text, size, color } => {
                    match text {
                        Text::Score(n) => {
                            let s = score_text(n);
                            self.platform_renderer.fill_text(x, y, s.as_str(), size, color);
                        },
                        Text::Pause => {
                            self.platform_renderer.fill_text(x, y, "Pause", size, color);
                        },
                        Text::GameOver => {
                            self.platform_renderer.fill_text(x, y, "Game Over", size, color);
                        },
                        Text::Dev => {
                            self.platform_renderer.fill_text(x, y, "Dev", size, color);
                        },
                    }
                },
            }
            i = i + 1;
        }
    }
}

} // verus!
