//! The drawing surface the game paints on, and the geometry it hands to it:
//! rectangles in pixels, their four-edge form, colours and interpolation.
use crate::grid::{Cell, Direction, CELL_SIZE};
use crate::utils::{div_trunc, lerp, lerpi, trunc_div};
use vstd::prelude::*;

verus! {

/// A surface that fills and outlines rectangles and writes text, all in
/// screen pixels, with colours as `0xAARRGGBB`.
pub trait PlatformRenderer: Clone {
    fn fill_rect(&self, x: i32, y: i32, w: i32, h: i32, color: u32);

    fn stroke_rect(&self, x: i32, y: i32, w: i32, h: i32, color: u32);

    fn fill_text(&self, x: i32, y: i32, text: &str, font_size: u32, color: u32);
}

/// Denominator of the fractions used for scales and blends.
pub const FRACTION_ONE: i64 = 1_000_000;

/// Bound on the coordinates the geometry works with, in pixels.
pub const COORD_LIMIT: i64 = 100_000_000_000;

/// A rectangle in world pixels: top-left corner, width and height.
#[derive(Clone, Copy, Debug, PartialEq, Eq, Structural)]
pub struct Rect {
    pub x: i64,
    pub y: i64,
    pub w: i64,
    pub h: i64,
}

/// A rectangle as the positions of its four edges, so that one edge can move
/// on its own.
#[derive(Clone, Copy, Debug, PartialEq, Eq, Structural)]
pub struct Sides {
    pub right: i64,
    pub up: i64,
    pub left: i64,
    pub down: i64,
}

pub open spec fn small(v: int) -> bool {
    -COORD_LIMIT <= v <= COORD_LIMIT
}

impl Rect {
    pub open spec fn spec_from_cell(cell: Cell) -> Rect {
        Rect {
            x: (cell.x * CELL_SIZE) as i64,
            y: (cell.y * CELL_SIZE) as i64,
            w: CELL_SIZE,
            h: CELL_SIZE,
        }
    }

    /// The square of the cell `cell`.
    pub fn from_cell(cell: &Cell) -> (r: Rect)
        ensures
            r == Rect::spec_from_cell(*cell),
            r.x == cell.x * CELL_SIZE,
            r.y == cell.y * CELL_SIZE,
            r.w == CELL_SIZE,
            r.h == CELL_SIZE,
    {
        Rect {
            x: cell.x as i64 * CELL_SIZE,
            y: cell.y as i64 * CELL_SIZE,
            w: CELL_SIZE,
            h: CELL_SIZE,
        }
    }

    pub fn from_sides(sides: &Sides) -> (r: Rect)
        requires
            small(sides.left as int) && small(sides.right as int),
            small(sides.up as int) && small(sides.down as int),
        ensures
            r == Rect::spec_from_sides(*sides),
    {
        Rect {
            x: sides.left,
            y: sides.up,
            w: sides.right - sides.left,
            h: sides.down - sides.up,
        }
    }

    pub open spec fn spec_from_sides(sides: Sides) -> Rect {
        Rect {
            x: sides.left,
            y: sides.up,
            w: (sides.right - sides.left) as i64,
            h: (sides.down - sides.up) as i64,
        }
    }
}

impl Sides {
    pub open spec fn spec_from_rect(rect: Rect) -> Sides {
        Sides {
            right: (rect.x + rect.w) as i64,
            up: rect.y,
            left: rect.x,
            down: (rect.y + rect.h) as i64,
        }
    }

    pub open spec fn bounded(self) -> bool {
        small(self.left as int) && small(self.right as int) && small(self.up as int) && small(
            self.down as int,
        )
    }

    pub fn from_rect(rect: &Rect) -> (r: Sides)
        requires
            small(rect.x as int) && small(rect.w as int),
            small(rect.y as int) && small(rect.h as int),
        ensures
            r == Sides::spec_from_rect(*rect),
    {
        Sides { right: rect.x + rect.w, up: rect.y, left: rect.x, down: rect.y + rect.h }
    }

    /// Position of the edge facing `dir`.
    pub open spec fn spec_get(self, dir: Direction) -> i64 {
        match dir {
            Direction::Right => self.right,
            Direction::Up => self.up,
            Direction::Left => self.left,
            Direction::Down => self.down,
        }
    }

    pub open spec fn spec_set(self, dir: Direction, v: i64) -> Sides {
        match dir {
            Direction::Right => Sides { right: v, ..self },
            Direction::Up => Sides { up: v, ..self },
            Direction::Left => Sides { left: v, ..self },
            Direction::Down => Sides { down: v, ..self },
        }
    }

    pub fn get(&self, dir: Direction) -> (r: i64)
        ensures
            r == self.spec_get(dir),
    {
        match dir {
            Direction::Right => self.right,
            Direction::Up => self.up,
            Direction::Left => self.left,
            Direction::Down => self.down,
        }
    }

    pub fn set(&mut self, dir: Direction, v: i64)
        ensures
            *final(self) == old(self).spec_set(dir, v),
    {
        match dir {
            Direction::Right => self.right = v,
            Direction::Up => self.up = v,
            Direction::Left => self.left = v,
            Direction::Down => self.down = v,
        }
    }

    /// The edges after sliding the edge facing `dir` and the edge opposite
    /// it together, by the fraction `num / den` of the distance between them.
    pub open spec fn spec_slide(self, dir: Direction, num: int, den: int) -> Sides {
        let d = self.spec_get(dir) - self.spec_get(dir.spec_opposite());
        let step = lerp(0, d, num, den);
        self.spec_set(dir, (self.spec_get(dir) + step) as i64).spec_set(
            dir.spec_opposite(),
            (self.spec_get(dir.spec_opposite()) + step) as i64,
        )
    }

    /// Slides the edge facing `dir` and the edge opposite it together, by the
    /// fraction `num / den` of the distance between them; a fraction outside
    /// `[0, 1]` moves the rectangle past its own extent.
    pub fn adjust_2_slide_sides(&mut self, dir: Direction, num: i64, den: i64)
        requires
            old(self).bounded(),
            -4_000_000 <= num <= 4_000_000,
            0 < den <= 1_000_000,
        ensures
            *final(self) == old(self).spec_slide(dir, num as int, den as int),
            ({
                let d = old(self).spec_get(dir) - old(self).spec_get(dir.spec_opposite());
                let step = lerp(0, d, num as int, den as int);
                &&& 0 <= num <= den && d >= 0 ==> 0 <= step <= d
                &&& 0 <= num <= den && d <= 0 ==> d <= step <= 0
            }),
    {
        let back = dir.opposite();
        let d = self.get(dir) - self.get(back);
        let step = lerpi(0, d, num, den);
        proof {
            if 0 <= num <= den {
                lemma_lerp_between(0, d as int, num as int, den as int);
            }
            lemma_trunc_div_shrinks(d * num, den as int);
            assert(-800_000_000_000_000_000 <= d * num <= 800_000_000_000_000_000) by (nonlinear_arith)
                requires
                    -200_000_000_000 <= d <= 200_000_000_000,
                    -4_000_000 <= num <= 4_000_000,
            ;
        }
        let front = self.get(dir) + step;
        let rear = self.get(back) + step;
        self.set(dir, front);
        self.set(back, rear);
    }

    pub open spec fn spec_center(self) -> (i64, i64) {
        (
            (self.left + trunc_div(self.right - self.left, 2)) as i64,
            (self.up + trunc_div(self.down - self.up, 2)) as i64,
        )
    }

    /// The middle of the rectangle, rounded towards its top-left edge.
    pub fn center(&self) -> (r: (i64, i64))
        requires
            self.bounded(),
        ensures
            r.0 == self.left + trunc_div(self.right - self.left, 2),
            r.1 == self.up + trunc_div(self.down - self.up, 2),
            r == self.spec_center(),
    {
        (
            self.left + div_trunc(self.right - self.left, 2),
            self.up + div_trunc(self.down - self.up, 2),
        )
    }
}

/// Division by a positive number rounding towards zero never grows a value.
pub proof fn lemma_trunc_div_shrinks(x: int, den: int)
    requires
        den > 0,
    ensures
        x >= 0 ==> 0 <= trunc_div(x, den) <= x,
        x <= 0 ==> x <= trunc_div(x, den) <= 0,
{
    if x >= 0 {
        vstd::arithmetic::div_mod::lemma_div_is_ordered_by_denominator(x, 1, den);
        vstd::arithmetic::div_mod::lemma_div_pos_is_pos(x, den);
    } else {
        vstd::arithmetic::div_mod::lemma_div_is_ordered_by_denominator(-x, 1, den);
        vstd::arithmetic::div_mod::lemma_div_pos_is_pos(-x, den);
    }
}

/// A step of `num / den` of the way, with `0 <= num <= den`, goes no further
/// than the whole way.
pub proof fn lemma_lerp_between(a: int, b: int, num: int, den: int)
    requires
        0 <= num <= den,
        0 < den,
    ensures
        a <= b ==> a <= lerp(a, b, num, den) <= b,
        b <= a ==> b <= lerp(a, b, num, den) <= a,
{
    let d = b - a;
    if d >= 0 {
        assert(0 <= d * num <= d * den) by (nonlinear_arith)
            requires
                d >= 0,
                0 <= num <= den,
        ;
        vstd::arithmetic::div_mod::lemma_div_is_ordered(d * num, d * den, den);
        vstd::arithmetic::div_mod::lemma_div_multiples_vanish(d, den);
        vstd::arithmetic::div_mod::lemma_div_pos_is_pos(d * num, den);
        assert(d * den == den * d) by (nonlinear_arith);
    } else {
        assert(0 <= (-d) * num <= (-d) * den) by (nonlinear_arith)
            requires
                d < 0,
                0 <= num <= den,
        ;
        assert(d * num == -((-d) * num)) by (nonlinear_arith);
        vstd::arithmetic::div_mod::lemma_div_is_ordered((-d) * num, (-d) * den, den);
        vstd::arithmetic::div_mod::lemma_div_multiples_vanish(-d, den);
        vstd::arithmetic::div_mod::lemma_div_pos_is_pos((-d) * num, den);
        assert((-d) * den == den * (-d)) by (nonlinear_arith);
    }
}

/// The rectangle of a four-edge form built from a rectangle is the rectangle
/// itself, and the other way round.
pub proof fn lemma_rect_sides_round_trip(rect: Rect, sides: Sides)
    requires
        small(rect.x as int) && small(rect.w as int),
        small(rect.y as int) && small(rect.h as int),
        sides.bounded(),
    ensures
        Rect::spec_from_sides(Sides::spec_from_rect(rect)) == rect,
        Sides::spec_from_rect(Rect::spec_from_sides(sides)) == sides,
{
}

pub open spec fn spec_cell_center(cell: Cell) -> (i64, i64) {
    ((cell.x * CELL_SIZE + CELL_SIZE / 2) as i64, (cell.y * CELL_SIZE + CELL_SIZE / 2) as i64)
}

/// Centre of the cell `cell`, in pixels.
pub fn cell_center(cell: &Cell) -> (r: (i64, i64))
    ensures
        r == spec_cell_center(*cell),
        r.0 == cell.x * CELL_SIZE + CELL_SIZE / 2,
        r.1 == cell.y * CELL_SIZE + CELL_SIZE / 2,
{
    (cell.x as i64 * CELL_SIZE + CELL_SIZE / 2, cell.y as i64 * CELL_SIZE + CELL_SIZE / 2)
}

/// Channel `shift` (16 red, 8 green, 0 blue) of a colour.
pub open spec fn channel(c: u32, shift: u32) -> u32 {
    (c >> shift) & 0xFF
}

/// The blend of `a` and `b` at the fraction `num / den`, rounded to nearest.
pub open spec fn mix(a: int, b: int, num: int, den: int) -> int {
    (2 * (a * (den - num) + b * num) + den) / (2 * den)
}

fn mix_channel(a: u32, b: u32, num: i64, den: i64) -> (r: u32)
    requires
        a <= 255,
        b <= 255,
        0 <= num <= den <= 1_000_000_000_000,
        0 < den,
    ensures
        r == mix(a as int, b as int, num as int, den as int),
        r <= 255,
{
    let a = a as i64;
    let b = b as i64;
    assert(0 <= a * (den - num) + b * num <= 255 * den) by (nonlinear_arith)
        requires
            0 <= a <= 255,
            0 <= b <= 255,
            0 <= num <= den,
    ;
    let top: i64 = 2 * (a * (den - num) + b * num) + den;
    let r: i64 = top / (2 * den);
    proof {
        vstd::arithmetic::div_mod::lemma_div_is_ordered(top as int, 511 * den as int, 2 * den as int);
        assert(511 * den / (2 * den) <= 255) by {
            vstd::arithmetic::div_mod::lemma_fundamental_div_mod_converse(
                511 * den as int, 2 * den as int, 255, den as int);
        }
    }
    r as u32
}

/// The colour between `color1` and `color2` at the fraction `num / den`,
/// each channel rounded, fully opaque.
pub open spec fn spec_lerp_color(color1: u32, color2: u32, num: int, den: int) -> u32 {
    0xFF000000u32 | ((mix(channel(color1, 16) as int, channel(color2, 16) as int, num, den) as u32) << 16u32)
        | ((mix(channel(color1, 8) as int, channel(color2, 8) as int, num, den) as u32) << 8u32)
        | (mix(channel(color1, 0) as int, channel(color2, 0) as int, num, den) as u32)
}

pub fn lerp_color(color1: u32, color2: u32, num: i64, den: i64) -> (r: u32)
    requires
        0 <= num <= den <= 1_000_000_000_000,
        0 < den,
    ensures
        r == spec_lerp_color(color1, color2, num as int, den as int),
{
    let r1 = (color1 >> 16u32) & 0xFF;
    let g1 = (color1 >> 8u32) & 0xFF;
    let b1 = color1 & 0xFF;
    let r2 = (color2 >> 16u32) & 0xFF;
    let g2 = (color2 >> 8u32) & 0xFF;
    let b2 = color2 & 0xFF;
    assert(r1 <= 255 && g1 <= 255 && b1 <= 255) by (bit_vector)
        requires
            r1 == (color1 >> 16u32) & 0xFF,
            g1 == (color1 >> 8u32) & 0xFF,
            b1 == color1 & 0xFF,
    ;
    assert(r2 <= 255 && g2 <= 255 && b2 <= 255) by (bit_vector)
        requires
            r2 == (color2 >> 16u32) & 0xFF,
            g2 == (color2 >> 8u32) & 0xFF,
            b2 == color2 & 0xFF,
    ;
    assert(b1 == channel(color1, 0) && b2 == channel(color2, 0)) by (bit_vector)
        requires
            b1 == color1 & 0xFF,
            b2 == color2 & 0xFF,
    ;
    let r = mix_channel(r1, r2, num, den);
    let g = mix_channel(g1, g2, num, den);
    let b = mix_channel(b1, b2, num, den);
    0xFF000000u32 | (r << 16u32) | (g << 8u32) | b
}

/// The alpha byte for opacity `num / den`, clamped to `[0, 1]` and rounded.
pub open spec fn alpha_of(num: int, den: int) -> int {
    if num <= 0 {
        0
    } else if num >= den {
        255
    } else {
        (2 * 255 * num + den) / (2 * den)
    }
}

/// `color` with its alpha byte replaced by opacity `num / den`.
pub open spec fn spec_color_alpha(color: u32, num: int, den: int) -> u32 {
    (color & 0x00FF_FFFFu32) | ((alpha_of(num, den) as u32) << 24u32)
}

pub fn color_alpha(color: u32, num: i64, den: i64) -> (r: u32)
    requires
        0 < den <= 1_000_000_000_000,
        -1_000_000_000_000 <= num <= 1_000_000_000_000,
    ensures
        r == spec_color_alpha(color, num as int, den as int),
{
    let alpha: i64 = if num <= 0 {
        0
    } else if num >= den {
        255
    } else {
        assert(0 <= 2 * 255 * num + den <= 511 * den) by (nonlinear_arith)
            requires
                0 < num < den,
        ;
        let a = (2 * 255 * num + den) / (2 * den);
        proof {
            vstd::arithmetic::div_mod::lemma_div_is_ordered(
                2 * 255 * num + den as int, 511 * den as int, 2 * den as int);
            vstd::arithmetic::div_mod::lemma_fundamental_div_mod_converse(
                511 * den as int, 2 * den as int, 255, den as int);
            vstd::arithmetic::div_mod::lemma_div_pos_is_pos(2 * 255 * num + den as int, 2 * den as int);
        }
        a
    };
    (color & 0x00FF_FFFF) | ((alpha as u32) << 24u32)
}

/// `r` scaled by `num / den` about its centre.
pub open spec fn spec_scale_rect(r: Rect, num: int, den: int) -> Rect {
    Rect {
        x: lerp(r.x as int, r.x + r.w / 2, den - num, den) as i64,
        y: lerp(r.y as int, r.y + r.h / 2, den - num, den) as i64,
        w: lerp(0, r.w as int, num, den) as i64,
        h: lerp(0, r.h as int, num, den) as i64,
    }
}

pub fn scale_rect(r: Rect, num: i64, den: i64) -> (s: Rect)
    requires
        small(r.x as int) && small(r.y as int),
        0 <= r.w <= 1000 && 0 <= r.h <= 1000,
        0 <= num <= 2 * den,
        0 < den <= FRACTION_ONE,
    ensures
        s == spec_scale_rect(r, num as int, den as int),
{
    let x = lerpi(r.x, r.x + r.w / 2, den - num, den);
    let y = lerpi(r.y, r.y + r.h / 2, den - num, den);
    let w = lerpi(0, r.w, num, den);
    let h = lerpi(0, r.h, num, den);
    Rect { x, y, w, h }
}

} // verus!
