//! Vector length, random draws and the stock animations.

use vstd::prelude::*;
use rand::Rng;
use rand::seq::SliceRandom;
use crate::animation::{plain_frame, with_sprite, AnimationFrame, HitboxAnimation};
use crate::geometry::Position;
use crate::units::{abs, div_toward_zero, divide, TICKS_PER_SECOND, UNIT};

verus! {

/// Whether `root` is the square root of `n`, rounded down.
pub open spec fn is_floor_sqrt(n: int, root: int) -> bool {
    0 <= root && root * root <= n < (root + 1) * (root + 1)
}

/// The square root of `n`, rounded down.
pub open spec fn floor_sqrt(n: int) -> int {
    choose|root: int| is_floor_sqrt(n, root)
}

/// A number has at most one rounded-down square root.
pub proof fn lemma_floor_sqrt_unique(n: int, a: int, b: int)
    requires
        is_floor_sqrt(n, a),
        is_floor_sqrt(n, b),
    ensures
        a == b,
{
    if a < b {
        assert((a + 1) * (a + 1) <= b * b) by (nonlinear_arith)
            requires
                0 <= a + 1 <= b,
        ;
    } else if b < a {
        assert((b + 1) * (b + 1) <= a * a) by (nonlinear_arith)
            requires
                0 <= b + 1 <= a,
        ;
    }
}

/// The square root of `n`, rounded down.
pub fn isqrt(n: u128) -> (root: u64)
    ensures
        is_floor_sqrt(n as int, root as int),
        root == floor_sqrt(n as int),
{
    let mut lo: u128 = 0;
    let mut hi: u128 = 0x1_0000_0000_0000_0000;
    assert(0x1_0000_0000_0000_0000int * 0x1_0000_0000_0000_0000int
        == 0x1_0000_0000_0000_0000_0000_0000_0000_0000int) by (nonlinear_arith);
    while hi - lo > 1
        invariant
            lo < hi <= 0x1_0000_0000_0000_0000,
            lo * lo <= n < hi * hi,
        decreases hi - lo,
    {
        let mid: u128 = lo + (hi - lo) / 2;
        assert(mid * mid <= 0xffff_ffff_ffff_ffff * 0xffff_ffff_ffff_ffff) by (nonlinear_arith)
            requires
                0 <= mid <= 0xffff_ffff_ffff_ffff,
        ;
        assert(0xffff_ffff_ffff_ffffint * 0xffff_ffff_ffff_ffffint
            < 0x1_0000_0000_0000_0000_0000_0000_0000_0000int) by (nonlinear_arith);
        if mid * mid <= n {
            lo = mid;
        } else {
            hi = mid;
        }
    }
    proof {
        let found = choose|r: int| is_floor_sqrt(n as int, r);
        assert(is_floor_sqrt(n as int, lo as int));
        lemma_floor_sqrt_unique(n as int, lo as int, found);
    }
    lo as u64
}

/// The length of the vector `(x, y)`, rounded down.
pub open spec fn length_of(x: int, y: int) -> int {
    floor_sqrt(x * x + y * y)
}

/// The length of the vector `(x, y)`, rounded down to a whole sub-unit.
pub fn length(x: i64, y: i64) -> (r: u64)
    ensures
        r == length_of(x as int, y as int),
        is_floor_sqrt(x * x + y * y, r as int),
{
    let ax: u128 = if x < 0 { (-(x as i128)) as u128 } else { x as u128 };
    let ay: u128 = if y < 0 { (-(y as i128)) as u128 } else { y as u128 };
    assert(ax * ax == x * x && ax * ax <= 0x8000_0000_0000_0000 * 0x8000_0000_0000_0000)
        by (nonlinear_arith)
        requires
            ax == abs(x as int),
            ax <= 0x8000_0000_0000_0000,
    ;
    assert(ay * ay == y * y && ay * ay <= 0x8000_0000_0000_0000 * 0x8000_0000_0000_0000)
        by (nonlinear_arith)
        requires
            ay == abs(y as int),
            ay <= 0x8000_0000_0000_0000,
    ;
    assert(0x8000_0000_0000_0000int * 0x8000_0000_0000_0000int
        == 0x4000_0000_0000_0000_0000_0000_0000_0000int) by (nonlinear_arith);
    isqrt(ax * ax + ay * ay)
}

/// The vector `(x, y)` brought to a length of one world unit: each part is
/// multiplied by [`UNIT`] and divided by the length of the vector, rounding
/// towards zero. The zero vector stays as it is.
pub open spec fn normalized(x: int, y: int) -> Position {
    if x == 0 && y == 0 {
        (0, 0)
    } else {
        (
            div_toward_zero(x * UNIT, length_of(x, y)) as i32,
            div_toward_zero(y * UNIT, length_of(x, y)) as i32,
        )
    }
}

/// No part of a vector is longer than the vector, and only the zero vector
/// has length zero.
pub proof fn lemma_length_bounds(x: int, y: int, len: int)
    requires
        is_floor_sqrt(x * x + y * y, len),
    ensures
        len == length_of(x, y),
        abs(x) <= len,
        abs(y) <= len,
        (x != 0 || y != 0) ==> len >= 1,
{
    lemma_floor_sqrt_unique(x * x + y * y, len, length_of(x, y));
    lemma_part_within(x, y, len);
    assert(y * y + x * x == x * x + y * y);
    lemma_part_within(y, x, len);
}

/// A part `a` of a vector whose squared length is below `(len + 1)^2` is at
/// most `len` in size.
proof fn lemma_part_within(a: int, b: int, len: int)
    requires
        0 <= len,
        a * a + b * b < (len + 1) * (len + 1),
    ensures
        abs(a) <= len,
{
    if abs(a) >= len + 1 {
        assert(abs(a) * abs(a) >= (len + 1) * (len + 1)) by (nonlinear_arith)
            requires
                abs(a) >= len + 1,
                len + 1 >= 0,
        ;
        assert(abs(a) * abs(a) == a * a) by (nonlinear_arith)
            requires
                abs(a) == a || abs(a) == -a,
        ;
        assert(b * b >= 0) by (nonlinear_arith);
    }
}

/// One part of a normalized vector.
fn unit_part(v: i64, len: u64) -> (r: i32)
    requires
        abs(v as int) <= len,
        len >= 1,
    ensures
        r == div_toward_zero(v * UNIT, len as int),
        -UNIT <= r <= UNIT,
{
    let unit: i128 = UNIT as i128;
    assert(unit == 1000);
    let scaled: i128 = v as i128 * unit;
    let q = divide(scaled, len);
    proof {
        let size: int = abs(scaled as int);
        let d: int = len as int;
        assert(UNIT == 1000);
        assert(scaled == v * 1000);
        assert(size <= 1000 * d);
        assert(size / d <= 1000) by (nonlinear_arith)
            requires
                0 <= size <= 1000 * d,
                d >= 1,
        ;
        assert(0 <= size / d) by (nonlinear_arith)
            requires
                0 <= size,
                d >= 1,
        ;
    }
    q as i32
}

/// The direction of `(x, y)` as a vector of one world unit.
pub fn normalize(x: i64, y: i64) -> (r: Position)
    ensures
        r == normalized(x as int, y as int),
        -UNIT <= r.0 <= UNIT,
        -UNIT <= r.1 <= UNIT,
{
    if x == 0 && y == 0 {
        (0, 0)
    } else {
        let len = length(x, y);
        proof {
            lemma_length_bounds(x as int, y as int, len as int);
        }
        (unit_part(x, len), unit_part(y, len))
    }
}

/// The value between `low` and `high` that the 32-bit sample `sample`
/// selects: `low` plus the fraction `sample / 2^32` of the way to `high`,
/// rounded towards `low`.
pub open spec fn spread_of(low: i64, high: i64, sample: u32) -> i64 {
    (low + div_toward_zero((high - low) * sample, 0x1_0000_0000)) as i64
}

/// The value between `low` and `high` that `sample` selects.
pub fn spread(low: i64, high: i64, sample: u32) -> (r: i64)
    ensures
        r == spread_of(low, high, sample),
        low <= high ==> low <= r <= high,
        low < high ==> r < high,
        high <= low ==> high <= r <= low,
{
    let span: i128 = high as i128 - low as i128;
    assert(-0x1_0000_0000_0000_0000 * 0x1_0000_0000 <= span * sample <= 0x1_0000_0000_0000_0000
        * 0x1_0000_0000) by (nonlinear_arith)
        requires
            -0x1_0000_0000_0000_0000 <= span <= 0x1_0000_0000_0000_0000,
            0 <= sample <= 0x1_0000_0000,
    ;
    let part = divide(span * sample as i128, 0x1_0000_0000);
    proof {
        let size: int = abs(span as int);
        let product: int = size * sample;
        assert(abs(span * sample) == product) by (nonlinear_arith)
            requires
                size == abs(span as int),
                product == size * sample,
                0 <= sample,
        ;
        assert(0 <= product <= size * 0x1_0000_0000 - size) by (nonlinear_arith)
            requires
                product == size * sample,
                0 <= size,
                0 <= sample <= 0xffff_ffff,
        ;
        assert(0 <= product / 0x1_0000_0000 <= size) by (nonlinear_arith)
            requires
                0 <= product <= size * 0x1_0000_0000 - size,
        ;
        assert(size > 0 ==> product / 0x1_0000_0000 < size) by (nonlinear_arith)
            requires
                0 <= product <= size * 0x1_0000_0000 - size,
        ;
        assert(span >= 0 ==> span * sample >= 0) by (nonlinear_arith)
            requires
                0 <= sample,
        ;
        assert(span < 0 ==> span * sample <= 0) by (nonlinear_arith)
            requires
                0 <= sample,
        ;
    }
    (low as i128 + part) as i64
}

/// An animation that shows the sprite `stand` for a second.
pub open spec fn idle_frames(stand: usize) -> Seq<AnimationFrame> {
    seq![with_sprite(plain_frame(None, TICKS_PER_SECOND), stand)]
}

/// An animation of four steps of `duration` ticks each: standing, one foot,
/// standing, the other foot.
pub open spec fn walking_frames(stand: usize, left: usize, right: usize, duration: u32) -> Seq<
    AnimationFrame,
> {
    seq![
        with_sprite(plain_frame(None, duration), stand),
        with_sprite(plain_frame(None, duration), left),
        with_sprite(plain_frame(None, duration), stand),
        with_sprite(plain_frame(None, duration), right),
    ]
}

/// The animation of an entity that stands still.
pub fn idle_animation(stand: usize) -> (r: HitboxAnimation)
    ensures
        r@ == idle_frames(stand),
{
    let mut idle = HitboxAnimation::new();
    let frame = idle.add_frame(TICKS_PER_SECOND);
    idle.set_sprite(frame, stand);
    assert(idle@ =~= idle_frames(stand));
    idle
}

/// The animation of an entity that walks.
pub fn walking_animation(
    stand: usize,
    left: usize,
    right: usize,
    duration: u32,
) -> (r: HitboxAnimation)
    ensures
        r@ == walking_frames(stand, left, right, duration),
{
    let mut walking = HitboxAnimation::new();
    let frame = walking.add_frame(duration);
    walking.set_sprite(frame, stand);
    let frame = walking.add_frame(duration);
    walking.set_sprite(frame, left);
    let frame = walking.add_frame(duration);
    walking.set_sprite(frame, stand);
    let frame = walking.add_frame(duration);
    walking.set_sprite(frame, right);
    assert(walking@ =~= walking_frames(stand, left, right, duration));
    walking
}

/// The thread-local generator of the `rand` crate.
#[verifier::external_type_specification]
#[verifier::external_body]
pub struct ExThreadRng(rand::rngs::ThreadRng);

/// Calls `rand::thread_rng`, which hands out the calling thread's generator.
/// Nothing is claimed of it. The call fails only where the system cannot
/// seed a generator.
#[verifier::external_body]
pub fn rng() -> (r: rand::rngs::ThreadRng) {
    rand::thread_rng()
}

/// Calls `Rng::gen::<u32>` on the generator. Any 32-bit value may come back,
/// so nothing is claimed of the result.
#[verifier::external_body]
fn draw_sample(generator: &mut rand::rngs::ThreadRng) -> (r: u32) {
    generator.gen::<u32>()
}

/// Calls `SliceRandom::choose` on `options`. The crate returns `None` for an
/// empty slice and otherwise one of the slice's elements; which one is left
/// open.
#[verifier::external_body]
fn draw_choice(options: &Vec<Position>, generator: &mut rand::rngs::ThreadRng) -> (r: Option<
    Position,
>)
    ensures
        r is None <==> options@.len() == 0,
        r is Some ==> options@.contains(r.unwrap()),
{
    options.choose(generator).copied()
}

/// A random value between `low` and `high`: the one that a fresh 32-bit
/// sample selects.
pub fn random_between(low: i64, high: i64) -> (r: i64)
    ensures
        exists|sample: u32| r == spread_of(low, high, sample),
        low <= high ==> low <= r <= high,
{
    let mut generator = rng();
    let sample = draw_sample(&mut generator);
    spread(low, high, sample)
}

/// A fresh 32-bit sample.
pub fn random_sample() -> (r: u32) {
    let mut generator = rng();
    draw_sample(&mut generator)
}

/// One of `options`, picked at random; `None` when there are none.
pub fn random_choice(options: &Vec<Position>) -> (r: Option<Position>)
    ensures
        r is None <==> options@.len() == 0,
        r is Some ==> options@.contains(r.unwrap()),
{
    let mut generator = rng();
    draw_choice(options, &mut generator)
}

} // verus!
