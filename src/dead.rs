//! The explosion shown after a self-collision: each former segment becomes a
//! fragment that drifts away from the point of impact and slows down.
use crate::grid::{lemma_adjacent_symmetric, Cell, Direction, CELL_SIZE};
use crate::snake::Snake;
use crate::utils::{isqrt, lcg_output, lcg_step, rand, trunc_div, Rng};
use vstd::prelude::*;

verus! {

/// Fractions of a pixel in which fragment positions and velocities are kept.
pub const SUBPIXELS: i64 = 100;

/// Distance, in pixels, beyond which a fragment gets no outward push.
pub const GAMEOVER_EXPLOSION_RADIUS: i64 = 1000;

/// Largest outward speed, in subpixels per second.
pub const GAMEOVER_EXPLOSION_MAX_VEL: i64 = 20000;

/// Random jitter added to each velocity component lies in `[0, NOISE_RANGE)`
/// subpixels per second.
pub const NOISE_RANGE: u32 = 1000;

/// Fragments stop at this distance from the origin, in subpixels.
pub const POSITION_LIMIT: i64 = 1_000_000_000_000;

/// Microseconds in a second.
pub const MICROS_PER_SECOND: i64 = 1_000_000;

/// A pair of integer coordinates: a position, or a velocity per second.
#[derive(Clone, Copy, Debug, PartialEq, Eq, Structural)]
pub struct Point {
    pub x: i64,
    pub y: i64,
}

/// The fragments, as three parallel arrays: position of each fragment's
/// top-left corner, its velocity, and the mask of its torn connectors.
pub struct DeadSnake {
    pub items: Vec<Point>,
    pub vels: Vec<Point>,
    pub masks: Vec<u8>,
}

pub open spec fn is_floor_sqrt(r: int, n: int) -> bool {
    0 <= r && r * r <= n < (r + 1) * (r + 1)
}

/// The integer square root of `n`, rounded down.
pub open spec fn floor_sqrt(n: int) -> int {
    choose|r: int| is_floor_sqrt(r, n)
}

pub open spec fn speed_sq(p: Point) -> int {
    p.x * p.x + p.y * p.y
}

/// The speed of `p` does not exceed the explosion's maximum.
#[verifier::opaque]
pub open spec fn within_max_speed(p: Point) -> bool {
    speed_sq(p) <= GAMEOVER_EXPLOSION_MAX_VEL * GAMEOVER_EXPLOSION_MAX_VEL
}

/// Outward speed at distance `dist` (pixels), times `dist * RADIUS`: the
/// push fades linearly to zero at the explosion radius.
pub open spec fn push_scale(dist: int) -> int {
    if dist < GAMEOVER_EXPLOSION_RADIUS {
        GAMEOVER_EXPLOSION_MAX_VEL * (GAMEOVER_EXPLOSION_RADIUS - dist)
    } else {
        0
    }
}

/// Offset in pixels between the centers of two cells along one axis.
pub open spec fn center_offset(a: i32, b: i32) -> int {
    (a - b) * CELL_SIZE
}

/// Distance in pixels between the centers of `c` and `h`, rounded down.
pub open spec fn center_distance(c: Cell, h: Cell) -> int {
    let dx = center_offset(c.x, h.x);
    let dy = center_offset(c.y, h.y);
    floor_sqrt(dx * dx + dy * dy)
}

/// The outward push of the fragment at `c`, away from the impact at `h`.
pub open spec fn push_velocity(c: Cell, h: Cell) -> (int, int) {
    let dist = center_distance(c, h);
    let den = dist * GAMEOVER_EXPLOSION_RADIUS;
    (
        trunc_div(center_offset(c.x, h.x) * push_scale(dist), den),
        trunc_div(center_offset(c.y, h.y) * push_scale(dist), den),
    )
}

/// Generator state before the fragment at index `i` draws its jitter: each
/// fragment other than the one at the impact draws twice.
pub open spec fn noise_state(s: Seq<Cell>, h: Cell, s0: u64, i: int) -> u64
    decreases i,
{
    if i <= 0 {
        s0
    } else {
        let prev = noise_state(s, h, s0, i - 1);
        if s[i - 1] != h {
            lcg_step(lcg_step(prev))
        } else {
            prev
        }
    }
}

/// Initial velocity of fragment `i`: zero at the impact, else the outward
/// push plus jitter drawn from the generator.
#[verifier::opaque]
pub open spec fn fragment_velocity(s: Seq<Cell>, h: Cell, s0: u64, i: int) -> Point {
    if s[i] == h {
        Point { x: 0, y: 0 }
    } else {
        let st = noise_state(s, h, s0, i);
        let nx = lcg_output(lcg_step(st)) as int % NOISE_RANGE as int;
        let ny = lcg_output(lcg_step(lcg_step(st))) as int % NOISE_RANGE as int;
        let (px, py) = push_velocity(s[i], h);
        Point { x: (px + nx) as i64, y: (py + ny) as i64 }
    }
}

/// Top-left corner of the cell `c`, in subpixels (`CELL_SIZE * SUBPIXELS`
/// of them per cell).
pub open spec fn fragment_origin(c: Cell) -> Point {
    Point { x: (c.x * 10000) as i64, y: (c.y * 10000) as i64 }
}

/// The connector bit of a direction.
pub open spec fn dir_bit(d: Direction) -> u8 {
    match d {
        Direction::Right => 1,
        Direction::Up => 2,
        Direction::Left => 4,
        Direction::Down => 8,
    }
}

/// Connector mask of segment `i`: a bit for the direction of each neighbour.
#[verifier::opaque]
pub open spec fn fragment_mask(s: Seq<Cell>, i: int) -> u8 {
    (if i > 0 {
        dir_bit(s[i].spec_dir_to(s[i - 1]))
    } else {
        0u8
    }) | (if i < s.len() - 1 {
        dir_bit(s[i].spec_dir_to(s[i + 1]))
    } else {
        0u8
    })
}

pub open spec fn damped(v: i64) -> i64 {
    trunc_div(v * 99, 100) as i64
}

pub open spec fn clamp_position(p: int) -> i64 {
    if p > POSITION_LIMIT {
        POSITION_LIMIT
    } else if p < -POSITION_LIMIT {
        (-POSITION_LIMIT) as i64
    } else {
        p as i64
    }
}

/// Position after drifting `dt` microseconds at velocity `v`.
pub open spec fn drifted(p: i64, v: i64, dt: u32) -> i64 {
    clamp_position(p + trunc_div(v as int * dt as int, MICROS_PER_SECOND as int))
}

pub fn dir_bit_of(d: Direction) -> (r: u8)
    ensures
        r == dir_bit(d),
{
    match d {
        Direction::Right => 1,
        Direction::Up => 2,
        Direction::Left => 4,
        Direction::Down => 8,
    }
}

proof fn lemma_floor_sqrt_unique(r: int, n: int)
    requires
        is_floor_sqrt(r, n),
    ensures
        floor_sqrt(n) == r,
{
    let q = floor_sqrt(n);
    assert(is_floor_sqrt(q, n));
    if q < r {
        assert((q + 1) * (q + 1) <= r * r) by (nonlinear_arith)
            requires
                0 <= q < r,
        ;
    } else if q > r {
        assert((r + 1) * (r + 1) <= q * q) by (nonlinear_arith)
            requires
                0 <= r < q,
        ;
    }
}

impl DeadSnake {
    /// The three arrays describe the same fragments, no fragment is faster
    /// than the maximum, and every position is within the limit.
    pub open spec fn wf(&self) -> bool {
        &&& self.vels@.len() == self.items@.len()
        &&& self.masks@.len() == self.items@.len()
        &&& forall|i: int|
            0 <= i < self.vels@.len() ==> within_max_speed(#[trigger] self.vels@[i])
        &&& forall|i: int|
            0 <= i < self.items@.len() ==> -POSITION_LIMIT <= (#[trigger] self.items@[i]).x
                <= POSITION_LIMIT && -POSITION_LIMIT <= self.items@[i].y <= POSITION_LIMIT
    }

    /// The fragments made from the body `s` after it ran into `h`, with the
    /// generator at state `s0` when the first fragment was made.
    pub open spec fn built_from(&self, s: Seq<Cell>, h: Cell, s0: u64) -> bool {
        &&& self.items@.len() == s.len()
        &&& self.vels@.len() == s.len()
        &&& self.masks@.len() == s.len()
        &&& forall|i: int|
            0 <= i < s.len() ==> {
                &&& #[trigger] self.items@[i] == fragment_origin(s[i])
                &&& self.vels@[i] == fragment_velocity(s, h, s0, i)
                &&& self.masks@[i] == fragment_mask(s, i)
            }
    }

    pub fn new() -> (r: DeadSnake)
        ensures
            r.items@.len() == 0,
            r.vels@.len() == 0,
            r.masks@.len() == 0,
            r.wf(),
    {
        DeadSnake { items: Vec::new(), vels: Vec::new(), masks: Vec::new() }
    }

    pub fn reset(&mut self)
        ensures
            final(self).items@.len() == 0,
            final(self).vels@.len() == 0,
            final(self).masks@.len() == 0,
            final(self).wf(),
    {
        self.items.clear();
        self.vels.clear();
        self.masks.clear();
    }

    /// Breaks `snake` into fragments after its head ran into `next_head`:
    /// the fragment at the impact stays put, the others fly outwards.
    pub fn build(snake: &Snake, next_head: &Cell, rng: &mut Rng) -> (r: DeadSnake)
        requires
            snake.wf(),
            next_head.on_grid(),
        ensures
            r.built_from(snake@, *next_head, old(rng).state),
            final(rng).state == noise_state(snake@, *next_head, old(rng).state, snake@.len() as int),
            r.wf(),
    {
        let ghost s0 = rng.state;
        let n = snake.size();
        let mut r = DeadSnake::new();
        let mut i: usize = 0;
        while i < n
            invariant
                snake.wf(),
                next_head.on_grid(),
                n == snake@.len(),
                0 <= i <= n,
                r.wf(),
                r.items@.len() == i,
                rng.state == noise_state(snake@, *next_head, s0, i as int),
                forall|j: int| 0 <= j < i ==> #[trigger] r.holds_fragment(snake@, *next_head, s0, j),
            decreases n - i,
        {
            r.push_fragment(snake, next_head, rng, i, Ghost(s0));
            i = i + 1;
        }
        proof {
            assert forall|j: int| 0 <= j < snake@.len() implies {
                &&& #[trigger] r.items@[j] == fragment_origin(snake@[j])
                &&& r.vels@[j] == fragment_velocity(snake@, *next_head, s0, j)
                &&& r.masks@[j] == fragment_mask(snake@, j)
            } by {
                assert(r.holds_fragment(snake@, *next_head, s0, j));
            }
        }
        r
    }

    /// `self` is `prev` after one drift of `dt` microseconds: each velocity
    /// loses one percent, then moves its fragment.
    pub open spec fn drifted_from(&self, prev: &DeadSnake, dt: u32) -> bool {
        &&& self.items@.len() == prev.items@.len()
        &&& self.vels@.len() == prev.vels@.len()
        &&& self.masks@ == prev.masks@
        &&& forall|i: int|
            0 <= i < prev.items@.len() ==> {
                &&& #[trigger] self.vels@[i].x == damped(prev.vels@[i].x)
                &&& self.vels@[i].y == damped(prev.vels@[i].y)
                &&& self.items@[i].x == drifted(prev.items@[i].x, self.vels@[i].x, dt)
                &&& self.items@[i].y == drifted(prev.items@[i].y, self.vels@[i].y, dt)
            }
    }

    /// Both hold the same fragments.
    pub open spec fn same_as(&self, other: &DeadSnake) -> bool {
        &&& self.items@ == other.items@
        &&& self.vels@ == other.vels@
        &&& self.masks@ == other.masks@
    }

    /// Entry `j` of the arrays is fragment `j` of the body `s`.
    pub open spec fn holds_fragment(&self, s: Seq<Cell>, h: Cell, s0: u64, j: int) -> bool {
        &&& self.items@[j] == fragment_origin(s[j])
        &&& self.vels@[j] == fragment_velocity(s, h, s0, j)
        &&& self.masks@[j] == fragment_mask(s, j)
    }

    /// Appends fragment `i` of `snake`.
    fn push_fragment(&mut self, snake: &Snake, next_head: &Cell, rng: &mut Rng, i: usize, Ghost(s0): Ghost<u64>)
        requires
            old(self).wf(),
            old(self).items@.len() == i,
            snake.wf(),
            next_head.on_grid(),
            i < snake@.len(),
            old(rng).state == noise_state(snake@, *next_head, s0, i as int),
        ensures
            final(self).wf(),
            final(self).items@.len() == i + 1,
            final(rng).state == noise_state(snake@, *next_head, s0, i + 1),
            forall|j: int| 0 <= j < i ==> old(self).holds_fragment(snake@, *next_head, s0, j) ==> final(self).holds_fragment(snake@, *next_head, s0, j),
            final(self).holds_fragment(snake@, *next_head, s0, i as int),
    {
        let cell = snake.items[i];
        assert(cell.on_grid());
        self.items.push(
            Point {
                x: cell.x as i64 * (CELL_SIZE * SUBPIXELS),
                y: cell.y as i64 * (CELL_SIZE * SUBPIXELS),
            },
        );
        let v = if cell != *next_head {
            launch_velocity(&cell, next_head, rng)
        } else {
            let rest = Point { x: 0, y: 0 };
            assert(within_max_speed(rest)) by {
                reveal(within_max_speed);
            }
            rest
        };
        assert(v == fragment_velocity(snake@, *next_head, s0, i as int)) by {
            reveal(fragment_velocity);
        }
        self.vels.push(v);
        self.masks.push(connector_mask(snake, i));
    }

    /// Lets every fragment drift for `dt` microseconds: its velocity first
    /// loses one percent, then moves it.
    pub fn integrate(&mut self, dt: u32)
        requires
            old(self).wf(),
        ensures
            final(self).wf(),
            final(self).drifted_from(old(self), dt),
    {
        let n = self.items.len();
        let mut i: usize = 0;
        while i < n
            invariant
                self.wf(),
                n == self.items@.len(),
                n == old(self).items@.len(),
                self.vels@.len() == old(self).vels@.len(),
                self.masks@ == old(self).masks@,
                0 <= i <= n,
                forall|j: int| i <= j < n ==> #[trigger] self.vels@[j] == old(self).vels@[j],
                forall|j: int| i <= j < n ==> #[trigger] self.items@[j] == old(self).items@[j],
                forall|j: int|
                    0 <= j < i ==> {
                        &&& #[trigger] self.vels@[j].x == damped(old(self).vels@[j].x)
                        &&& self.vels@[j].y == damped(old(self).vels@[j].y)
                        &&& self.items@[j].x == drifted(old(self).items@[j].x, self.vels@[j].x, dt)
                        &&& self.items@[j].y == drifted(old(self).items@[j].y, self.vels@[j].y, dt)
                    },
            decreases n - i,
        {
            let v = self.vels[i];
            let p = self.items[i];
            proof {
                reveal(within_max_speed);
                assert(speed_sq(v) <= 20000 * 20000);
                assert(-20000 <= v.x <= 20000 && -20000 <= v.y <= 20000) by (nonlinear_arith)
                    requires
                        v.x * v.x + v.y * v.y <= 20000 * 20000,
                ;
            }
            let vx = damp(v.x);
            let vy = damp(v.y);
            proof {
                assert(vx * vx + vy * vy <= v.x * v.x + v.y * v.y) by (nonlinear_arith)
                    requires
                        0 <= vx <= v.x || v.x <= vx <= 0,
                        0 <= vy <= v.y || v.y <= vy <= 0,
                ;
            }
            proof {
                assert(within_max_speed(Point { x: vx, y: vy }));
            }
            self.vels[i] = Point { x: vx, y: vy };
            self.items[i] = Point { x: drift(p.x, vx, dt), y: drift(p.y, vy, dt) };
            i = i + 1;
        }
    }
}

/// Initial velocity of the fragment at `cell`, away from the impact at `h`:
/// the outward push, plus jitter drawn from `rng` for each axis in turn.
fn launch_velocity(cell: &Cell, h: &Cell, rng: &mut Rng) -> (r: Point)
    requires
        cell.on_grid(),
        h.on_grid(),
        *cell != *h,
    ensures
        final(rng).state == lcg_step(lcg_step(old(rng).state)),
        r.x == push_velocity(*cell, *h).0 + lcg_output(lcg_step(old(rng).state)) as int
            % NOISE_RANGE as int,
        r.y == push_velocity(*cell, *h).1 + lcg_output(lcg_step(lcg_step(old(rng).state))) as int
            % NOISE_RANGE as int,
        within_max_speed(r),
{
    reveal(within_max_speed);
    let dx: i64 = (cell.x as i64 - h.x as i64) * CELL_SIZE;
    let dy: i64 = (cell.y as i64 - h.y as i64) * CELL_SIZE;
    assert(0 <= dx * dx <= 1500 * 1500) by (nonlinear_arith)
        requires
            -1500 <= dx <= 1500,
    ;
    assert(0 <= dy * dy <= 800 * 800) by (nonlinear_arith)
        requires
            -800 <= dy <= 800,
    ;
    let sq: u64 = (dx * dx + dy * dy) as u64;
    let root = isqrt(sq);
    let dist: i64 = root as i64;
    proof {
        assert(is_floor_sqrt(dist as int, sq as int));
        lemma_floor_sqrt_unique(dist as int, sq as int);
        assert(sq >= 1) by (nonlinear_arith)
            requires
                dx == (cell.x - h.x) * 100,
                dy == (cell.y - h.y) * 100,
                cell.x != h.x || cell.y != h.y,
                sq == dx * dx + dy * dy,
        ;
        assert(dist >= 1) by (nonlinear_arith)
            requires
                dist >= 0,
                sq >= 1,
                sq < (dist + 1) * (dist + 1),
        ;
    }
    let scale: i64 = if dist < GAMEOVER_EXPLOSION_RADIUS {
        GAMEOVER_EXPLOSION_MAX_VEL * (GAMEOVER_EXPLOSION_RADIUS - dist)
    } else {
        0
    };
    let den: i64 = dist * GAMEOVER_EXPLOSION_RADIUS;
    let px = scaled_axis(dx, scale, den);
    let py = scaled_axis(dy, scale, den);
    proof {
        lemma_push_bounded(*cell, *h);
        assert(push_velocity(*cell, *h) == (px as int, py as int));
        assert(-18180 <= px <= 18180 && -18180 <= py <= 18180) by (nonlinear_arith)
            requires
                px * px + py * py < 18180 * 18180,
        ;
    }
    let nx = rand(rng) % NOISE_RANGE;
    let ny = rand(rng) % NOISE_RANGE;
    proof {
        lemma_jittered_push_bounded(px as int, py as int, nx as int, ny as int);
    }
    Point { x: px + nx as i64, y: py + ny as i64 }
}

/// Connector mask of segment `i` of the snake.
fn connector_mask(snake: &Snake, i: usize) -> (r: u8)
    requires
        snake.wf(),
        i < snake@.len(),
    ensures
        r == fragment_mask(snake@, i as int),
{
    reveal(fragment_mask);
    reveal(crate::snake::linked);
    let cell = snake.items[i];
    let before: u8 = if i > 0 {
        proof {
            lemma_adjacent_symmetric(snake@[i - 1], cell);
        }
        dir_bit_of(cell.determine_dir(&snake.items[i - 1]))
    } else {
        0
    };
    let after: u8 = if i < snake.size() - 1 {
        dir_bit_of(cell.determine_dir(&snake.items[i + 1]))
    } else {
        0
    };
    before | after
}

/// `v` less one percent, rounded towards zero.
fn damp(v: i64) -> (r: i64)
    requires
        -20000 <= v <= 20000,
    ensures
        r == damped(v),
        0 <= r <= v || v <= r <= 0,
{
    if v >= 0 {
        v * 99 / 100
    } else {
        -((-v) * 99 / 100)
    }
}

/// `p` moved for `dt` microseconds at velocity `v`, kept within the limit.
fn drift(p: i64, v: i64, dt: u32) -> (r: i64)
    requires
        -POSITION_LIMIT <= p <= POSITION_LIMIT,
        -20000 <= v <= 20000,
    ensures
        r == drifted(p, v, dt),
        -POSITION_LIMIT <= r <= POSITION_LIMIT,
{
    assert(-20000 * 0xFFFF_FFFF <= v * dt <= 20000 * 0xFFFF_FFFF) by (nonlinear_arith)
        requires
            -20000 <= v <= 20000,
            0 <= dt <= 0xFFFF_FFFF,
    ;
    let moved: i64 = if v >= 0 {
        (v * dt as i64) / MICROS_PER_SECOND
    } else {
        assert((-v) * dt == -(v * dt)) by (nonlinear_arith);
        -(((-v) * dt as i64) / MICROS_PER_SECOND)
    };
    let q: i64 = p + moved;
    if q > POSITION_LIMIT {
        POSITION_LIMIT
    } else if q < -POSITION_LIMIT {
        -POSITION_LIMIT
    } else {
        q
    }
}

/// `a * s / d`, rounded towards zero.
fn scaled_axis(a: i64, s: i64, d: i64) -> (r: i64)
    requires
        -2000 <= a <= 2000,
        0 <= s <= GAMEOVER_EXPLOSION_MAX_VEL * GAMEOVER_EXPLOSION_RADIUS,
        d >= 1,
    ensures
        r == trunc_div(a as int * s as int, d as int),
{
    assert(-2000 * 20_000_000 <= a * s <= 2000 * 20_000_000) by (nonlinear_arith)
        requires
            -2000 <= a <= 2000,
            0 <= s <= 20_000_000,
    ;
    if a >= 0 {
        assert(a * s >= 0) by (nonlinear_arith)
            requires
                a >= 0,
                s >= 0,
        ;
        (a * s) / d
    } else {
        assert((-a) * s == -(a * s)) by (nonlinear_arith);
        assert(a * s <= 0) by (nonlinear_arith)
            requires
                a < 0,
                s >= 0,
        ;
        -(((-a) * s) / d)
    }
}

/// Every natural number has an integer square root.
proof fn lemma_floor_sqrt_exists(n: int)
    requires
        n >= 0,
    ensures
        is_floor_sqrt(floor_sqrt(n), n),
    decreases n,
{
    if n == 0 {
        assert(is_floor_sqrt(0, 0));
    } else {
        lemma_floor_sqrt_exists(n - 1);
        let r = floor_sqrt(n - 1);
        if (r + 1) * (r + 1) <= n {
            assert((r + 2) * (r + 2) > (r + 1) * (r + 1)) by (nonlinear_arith)
                requires
                    r >= 0,
            ;
            assert(is_floor_sqrt(r + 1, n));
        } else {
            assert(is_floor_sqrt(r, n));
        }
    }
}

/// The jitter-free part of a fragment's velocity is below 18180 subpixels
/// per second, which leaves room for the jitter under the maximum.
proof fn lemma_push_bounded(c: Cell, h: Cell)
    requires
        c.on_grid(),
        h.on_grid(),
        c != h,
    ensures
        ({
            let (px, py) = push_velocity(c, h);
            px * px + py * py < 18180 * 18180
        }),
{
    let dx = center_offset(c.x, h.x);
    let dy = center_offset(c.y, h.y);
    let n = dx * dx + dy * dy;
    let q = center_distance(c, h);
    assert(n >= 10000) by (nonlinear_arith)
        requires
            dx == (c.x - h.x) * 100,
            dy == (c.y - h.y) * 100,
            c.x != h.x || c.y != h.y,
            n == dx * dx + dy * dy,
    ;
    lemma_floor_sqrt_exists(n);
    assert(q >= 100) by (nonlinear_arith)
        requires
            n >= 10000,
            n < (q + 1) * (q + 1),
            q >= 0,
    ;
    let (px, py) = push_velocity(c, h);
    if q < GAMEOVER_EXPLOSION_RADIUS {
        let s = push_scale(q);
        let d = q * GAMEOVER_EXPLOSION_RADIUS;
        let a = if dx >= 0 { dx } else { -dx };
        let b = if dy >= 0 { dy } else { -dy };
        assert(a * a == dx * dx && b * b == dy * dy) by (nonlinear_arith)
            requires
                a == if dx >= 0 { dx } else { -dx },
                b == if dy >= 0 { dy } else { -dy },
        ;
        assert(a * s >= 0 && b * s >= 0) by (nonlinear_arith)
            requires
                a >= 0,
                b >= 0,
                s >= 0,
        ;
        assert(dx * s == if dx >= 0 { a * s } else { -(a * s) }) by (nonlinear_arith)
            requires
                a == if dx >= 0 { dx } else { -dx },
        ;
        assert(dy * s == if dy >= 0 { b * s } else { -(b * s) }) by (nonlinear_arith)
            requires
                b == if dy >= 0 { dy } else { -dy },
        ;
        let ax = (a * s) / d;
        let ay = (b * s) / d;
        assert(px * px == ax * ax) by (nonlinear_arith)
            requires
                px == ax || px == -ax,
        ;
        assert(py * py == ay * ay) by (nonlinear_arith)
            requires
                py == ay || py == -ay,
        ;
        vstd::arithmetic::div_mod::lemma_fundamental_div_mod(a * s, d);
        vstd::arithmetic::div_mod::lemma_fundamental_div_mod(b * s, d);
        vstd::arithmetic::div_mod::lemma_mod_bound(a * s, d);
        vstd::arithmetic::div_mod::lemma_mod_bound(b * s, d);
        vstd::arithmetic::div_mod::lemma_div_pos_is_pos(a * s, d);
        vstd::arithmetic::div_mod::lemma_div_pos_is_pos(b * s, d);
        assert(ax * d <= a * s && ay * d <= b * s) by (nonlinear_arith)
            requires
                a * s == d * ax + (a * s) % d,
                b * s == d * ay + (b * s) % d,
                (a * s) % d >= 0,
                (b * s) % d >= 0,
        ;
        assert((ax * ax + ay * ay) * (d * d) <= n * (s * s)) by (nonlinear_arith)
            requires
                0 <= ax * d <= a * s,
                0 <= ay * d <= b * s,
                ax >= 0,
                ay >= 0,
                d > 0,
                n == a * a + b * b,
        ;
        assert(n * (s * s) < (q + 1) * (q + 1) * (s * s)) by (nonlinear_arith)
            requires
                n < (q + 1) * (q + 1),
                s > 0,
        ;
        assert((q + 1) * s <= 18180 * d) by (nonlinear_arith)
            requires
                100 <= q < 1000,
                s == 20000 * (1000 - q),
                d == q * 1000,
        ;
        assert((q + 1) * (q + 1) * (s * s) <= (18180 * 18180) * (d * d)) by (nonlinear_arith)
            requires
                0 <= (q + 1) * s <= 18180 * d,
                q >= 0,
                s >= 0,
        ;
        assert(ax * ax + ay * ay < 18180 * 18180) by (nonlinear_arith)
            requires
                (ax * ax + ay * ay) * (d * d) < (18180 * 18180) * (d * d),
                d > 0,
        ;
    }
}

/// A component of the push plus jitter in `[0, NOISE_RANGE)` keeps the
/// fragment's speed at or under the maximum.
proof fn lemma_jittered_push_bounded(px: int, py: int, nx: int, ny: int)
    requires
        px * px + py * py < 18180 * 18180,
        0 <= nx < NOISE_RANGE,
        0 <= ny < NOISE_RANGE,
    ensures
        (px + nx) * (px + nx) + (py + ny) * (py + ny) <= GAMEOVER_EXPLOSION_MAX_VEL
            * GAMEOVER_EXPLOSION_MAX_VEL,
{
    let a = if px >= 0 { px } else { -px };
    let b = if py >= 0 { py } else { -py };
    assert(a * a + b * b < 18180 * 18180) by (nonlinear_arith)
        requires
            a == if px >= 0 { px } else { -px },
            b == if py >= 0 { py } else { -py },
            px * px + py * py < 18180 * 18180,
    ;
    assert(a + b < 25712) by (nonlinear_arith)
        requires
            a >= 0,
            b >= 0,
            a * a + b * b < 18180 * 18180,
    ;
    assert((px + nx) * (px + nx) <= (a + 999) * (a + 999)) by (nonlinear_arith)
        requires
            a == if px >= 0 { px } else { -px },
            0 <= nx <= 999,
    ;
    assert((py + ny) * (py + ny) <= (b + 999) * (b + 999)) by (nonlinear_arith)
        requires
            b == if py >= 0 { py } else { -py },
            0 <= ny <= 999,
    ;
    assert((a + 999) * (a + 999) + (b + 999) * (b + 999) <= 20000 * 20000) by (nonlinear_arith)
        requires
            a >= 0,
            b >= 0,
            a + b < 25712,
            a * a + b * b < 18180 * 18180,
    ;
}

/// The initial velocity of a fragment is zero at the impact and within the
/// maximum elsewhere.
proof fn lemma_velocity_bound_at(s: Seq<Cell>, h: Cell, s0: u64, i: int)
    requires
        0 <= i < s.len(),
        s[i].on_grid(),
        h.on_grid(),
    ensures
        s[i] == h ==> fragment_velocity(s, h, s0, i) == (Point { x: 0, y: 0 }),
        speed_sq(fragment_velocity(s, h, s0, i)) <= GAMEOVER_EXPLOSION_MAX_VEL
            * GAMEOVER_EXPLOSION_MAX_VEL,
{
    if s[i] != h {
        lemma_push_bounded(s[i], h);
        let st = noise_state(s, h, s0, i);
        let nx = lcg_output(lcg_step(st)) as int % NOISE_RANGE as int;
        let ny = lcg_output(lcg_step(lcg_step(st))) as int % NOISE_RANGE as int;
        let (px, py) = push_velocity(s[i], h);
        assert(-18180 <= px <= 18180 && -18180 <= py <= 18180) by (nonlinear_arith)
            requires
                px * px + py * py < 18180 * 18180,
        ;
        lemma_jittered_push_bounded(px, py, nx, ny);
        let v = fragment_velocity(s, h, s0, i);
        assert(v.x == px + nx && v.y == py + ny) by {
            reveal(fragment_velocity);
        }
        assert(v.x * v.x + v.y * v.y <= 20000 * 20000) by (nonlinear_arith)
            requires
                v.x == px + nx,
                v.y == py + ny,
                (px + nx) * (px + nx) + (py + ny) * (py + ny) <= 20000 * 20000,
        ;
        assert(speed_sq(v) <= GAMEOVER_EXPLOSION_MAX_VEL * GAMEOVER_EXPLOSION_MAX_VEL);
    } else {
        reveal(fragment_velocity);
        let v = fragment_velocity(s, h, s0, i);
        assert(v == (Point { x: 0, y: 0 }));
        assert(speed_sq(v) == 0);
    }
}

/// Right after a collision the fragment at the point of impact is at rest,
/// and no fragment moves faster than the explosion's maximum speed.
pub proof fn lemma_fragment_speed(d: &DeadSnake, s: Seq<Cell>, h: Cell, s0: u64, i: int)
    requires
        crate::snake::distinct_on_grid(s),
        h.on_grid(),
        d.built_from(s, h, s0),
        0 <= i < s.len(),
    ensures
        s[i] == h ==> d.vels@[i] == (Point { x: 0, y: 0 }),
        speed_sq(d.vels@[i]) <= GAMEOVER_EXPLOSION_MAX_VEL * GAMEOVER_EXPLOSION_MAX_VEL,
{
    assert(d.items@[i] == fragment_origin(s[i]));
    assert(s[i].on_grid());
    lemma_velocity_bound_at(s, h, s0, i);
}

} // verus!
