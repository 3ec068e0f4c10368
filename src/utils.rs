//! Small arithmetic and container helpers, and the pseudo-random generator.
use std::collections::VecDeque;
use vstd::arithmetic::div_mod::lemma_fundamental_div_mod_converse;
use vstd::prelude::*;

verus! {

/// Euclidean remainder: the result always lies in `[0, b)`.
pub fn emod(a: i32, b: i32) -> (r: i32)
    requires
        b > 0,
    ensures
        r as int == a as int % b as int,
        0 <= r < b,
{
    if a >= 0 {
        let r: i32 = (a as u32 % b as u32) as i32;
        r
    } else {
        let n: u64 = (-(a as i64)) as u64;
        let m: u64 = n % b as u64;
        proof {
            let q = n as int / b as int;
            assert(n as int == q * b as int + m as int) by (nonlinear_arith)
                requires
                    b > 0,
                    q == n as int / b as int,
                    m as int == n as int % b as int,
            ;
            if m == 0 {
                assert(a as int == (-q) * b as int) by (nonlinear_arith)
                    requires
                        n as int == q * b as int + m as int,
                        a as int == -(n as int),
                        m == 0,
                ;
                lemma_fundamental_div_mod_converse(a as int, b as int, -q, 0);
            } else {
                assert(a as int == (-q - 1) * b as int + (b - m)) by (nonlinear_arith)
                    requires
                        n as int == q * b as int + m as int,
                        a as int == -(n as int),
                ;
                lemma_fundamental_div_mod_converse(a as int, b as int, -q - 1, b - m);
            }
        }
        if m == 0 {
            0
        } else {
            (b as u64 - m) as i32
        }
    }
}

/// Appends `item` to a bounded FIFO; when the FIFO already holds `capacity`
/// items, the oldest one is dropped first.
pub fn ring_displace_back<T>(ring: &mut VecDeque<T>, item: T, capacity: usize)
    requires
        old(ring)@.len() <= capacity,
        capacity > 0,
    ensures
        final(ring)@ == if old(ring)@.len() == capacity {
            old(ring)@.subrange(1, old(ring)@.len() as int).push(item)
        } else {
            old(ring)@.push(item)
        },
        final(ring)@.len() <= capacity,
{
    if ring.len() == capacity {
        ring.pop_front();
    }
    ring.push_back(item);
}

pub const RAND_A: u64 = 6364136223846793005;

pub const RAND_C: u64 = 1442695040888963407;

/// State of a 64-bit linear congruential generator.
pub struct Rng {
    pub state: u64,
}

/// The generator state that follows `s`.
#[verifier::opaque]
pub open spec fn lcg_step(s: u64) -> u64 {
    ((s as int * RAND_A as int + RAND_C as int) % 0x1_0000_0000_0000_0000) as u64
}

/// The 32-bit output drawn when the generator moves to state `s`.
#[verifier::opaque]
pub open spec fn lcg_output(s: u64) -> u32 {
    (s as int / 0x1_0000_0000) as u32
}

impl Rng {
    pub fn new(seed: u64) -> (r: Rng)
        ensures
            r.state == seed,
    {
        Rng { state: seed }
    }
}

/// Advances the generator and returns the upper half of its new state.
pub fn rand(rng: &mut Rng) -> (r: u32)
    ensures
        final(rng).state == lcg_step(old(rng).state),
        r == lcg_output(final(rng).state),
{
    let s: u64 = rng.state.wrapping_mul(RAND_A).wrapping_add(RAND_C);
    proof {
        reveal(lcg_step);
        reveal(lcg_output);
        let p = (rng.state as int * RAND_A as int) % 0x1_0000_0000_0000_0000;
        assert(((p + RAND_C as int) % 0x1_0000_0000_0000_0000) == lcg_step(rng.state)) by {
            vstd::arithmetic::div_mod::lemma_add_mod_noop(
                rng.state as int * RAND_A as int,
                RAND_C as int,
                0x1_0000_0000_0000_0000,
            );
            vstd::arithmetic::div_mod::lemma_mod_twice(
                rng.state as int * RAND_A as int,
                0x1_0000_0000_0000_0000,
            );
        }
    }
    rng.state = s;
    let r: u32 = (s >> 32u64) as u32;
    assert(r as int == s as int / 0x1_0000_0000) by (bit_vector)
        requires
            r == (s >> 32u64) as u32,
    ;
    proof {
        reveal(lcg_output);
    }
    r
}

/// Division rounding towards zero, as machine division does.
pub open spec fn trunc_div(a: int, b: int) -> int {
    if a >= 0 {
        a / b
    } else {
        -((-a) / b)
    }
}

/// `a / b`, rounded towards zero.
pub fn div_trunc(a: i64, b: i64) -> (r: i64)
    requires
        b > 0,
        a > i64::MIN,
    ensures
        r == trunc_div(a as int, b as int),
{
    if a >= 0 {
        a / b
    } else {
        -((-a) / b)
    }
}

/// `a + (b - a) * num / den`, the step from `a` towards `b` rounded towards
/// zero.
pub open spec fn lerp(a: int, b: int, num: int, den: int) -> int {
    a + trunc_div((b - a) * num, den)
}

/// A step of at most twice the way from `a` to `b` stays within twice that
/// distance of `a`.
pub proof fn lemma_lerp_bounded(a: int, b: int, num: int, den: int)
    requires
        -2 * den <= num <= 2 * den,
        0 < den,
    ensures
        a - 2 * (if b >= a { b - a } else { a - b }) <= lerp(a, b, num, den)
            <= a + 2 * (if b >= a { b - a } else { a - b }),
{
    let d = if b >= a { b - a } else { a - b };
    let x = (b - a) * num;
    let ax = if x >= 0 { x } else { -x };
    assert(0 <= ax <= 2 * d * den) by (nonlinear_arith)
        requires
            x == (b - a) * num,
            ax == if x >= 0 { x } else { -x },
            d == if b >= a { b - a } else { a - b },
            -2 * den <= num <= 2 * den,
    ;
    vstd::arithmetic::div_mod::lemma_div_is_ordered(ax, 2 * d * den, den);
    vstd::arithmetic::div_mod::lemma_div_multiples_vanish(2 * d, den);
    assert(2 * d * den == den * (2 * d)) by (nonlinear_arith);
    vstd::arithmetic::div_mod::lemma_div_pos_is_pos(ax, den);
}

/// Linear interpolation from `a` to `b` at the fraction `num / den`.
pub fn lerpi(a: i64, b: i64, num: i64, den: i64) -> (r: i64)
    requires
        -1_000_000_000_000 <= a <= 1_000_000_000_000,
        -1_000_000_000_000 <= b <= 1_000_000_000_000,
        -4_000_000 <= num <= 4_000_000,
        0 < den <= 1_000_000_000,
    ensures
        r == lerp(a as int, b as int, num as int, den as int),
{
    let d: i64 = b - a;
    assert(-8_000_000_000_000_000_000 <= d * num <= 8_000_000_000_000_000_000) by (nonlinear_arith)
        requires
            -2_000_000_000_000 <= d <= 2_000_000_000_000,
            -4_000_000 <= num <= 4_000_000,
    ;
    let step = div_trunc(d * num, den);
    proof {
        vstd::arithmetic::div_mod::lemma_div_is_ordered_by_denominator(
            if d * num >= 0 { d * num } else { -(d * num) } as int, 1, den as int);
    }
    a + step
}

/// Largest `r` with `r * r <= n`.
pub fn isqrt(n: u64) -> (r: u64)
    requires
        n <= 0xFFFF_FFFF,
    ensures
        r * r <= n < (r + 1) * (r + 1),
        r <= 0xFFFF,
{
    let mut r: u64 = 0;
    let mut next_sq: u64 = 1;
    while next_sq <= n
        invariant
            r * r <= n <= 0xFFFF_FFFF,
            next_sq == (r + 1) * (r + 1),
            r <= 0xFFFF,
        decreases n - r * r,
    {
        assert((r + 1) * (r + 1) > r * r) by (nonlinear_arith);
        assert(r + 1 <= 0xFFFF) by (nonlinear_arith)
            requires
                (r + 1) * (r + 1) <= n,
                n <= 0xFFFF_FFFF,
        ;
        assert((r + 2) * (r + 2) == (r + 1) * (r + 1) + 2 * (r + 1) + 1) by (nonlinear_arith);
        r = r + 1;
        next_sq = next_sq + 2 * r + 1;
    }
    r
}

} // verus!
