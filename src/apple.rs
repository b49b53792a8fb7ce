//! Apples: where and when they appear, when they expire, and the tests for
//! touching the snake's body and for being eaten by its head.
use crate::geometry::{circles_overlap, collides, Vector, UNITS_PER_PIXEL};
use crate::snake::Snake;
use rand::distributions::Distribution;
use rand::Rng;
use vstd::prelude::*;

verus! {

/// How long an uneaten apple lives, in milliseconds.
pub const APPLE_LIFE_TIME_MS: u64 = 40_000;

/// Denominator of the per-frame spawn chance: milliseconds per second times
/// the square pixels of a mebipixel. Four apples a second per mebipixel.
pub const SPAWN_DENOMINATOR: u32 = 1_048_576_000;

/// Apples expected per second on each mebipixel of play area.
pub const APPLES_PER_SECOND_PER_MEBIPIXEL: u64 = 4;

#[verifier::external_type_specification]
#[verifier::external_body]
pub struct ExThreadRng(rand::rngs::ThreadRng);

/// Relies on rand's `Rng::gen_range` on a half-open range of integers: the
/// value drawn lies in `[lo, hi)`; it panics on an empty range.
#[verifier::external_body]
fn random_in(random: &mut rand::rngs::ThreadRng, lo: i64, hi: i64) -> (r: i64)
    requires
        lo < hi,
    ensures
        lo <= r < hi,
{
    random.gen_range(lo..hi)
}

/// Relies on rand's `Bernoulli::from_ratio` and its `sample`: the ratio is
/// accepted when `numerator <= denominator` and `denominator > 0`; chance zero
/// never succeeds and chance one always does.
#[verifier::external_body]
fn bernoulli_trial(random: &mut rand::rngs::ThreadRng, numerator: u32, denominator: u32) -> (r:
    bool)
    requires
        numerator <= denominator,
        denominator > 0,
    ensures
        numerator == 0 ==> !r,
        numerator == denominator ==> r,
{
    rand::distributions::Bernoulli::from_ratio(numerator, denominator).unwrap().sample(random)
}

#[derive(Clone, Copy, Debug, PartialEq, Eq, Structural)]
pub struct Apple {
    /// Milliseconds.
    pub time_of_creation: u64,
    /// Radius in pixels, and the glucose the apple gives.
    pub size: u16,
    pub position: Vector,
}

/// Radius of an apple, in millipixels.
pub open spec fn apple_radius(a: Apple) -> int {
    a.size as int * UNITS_PER_PIXEL as int
}

/// Age of an apple at `now`; negative before its creation.
pub open spec fn age(a: Apple, now: u64) -> int {
    now as int - a.time_of_creation as int
}

/// The apple has lived its whole life by `now`.
pub open spec fn expired(a: Apple, now: u64) -> bool {
    age(a, now) >= APPLE_LIFE_TIME_MS as int
}

/// The apple touches the head circle of the given reference radius.
pub open spec fn eaten(a: Apple, head: Vector, reference_radius: u32) -> bool {
    circles_overlap(a.position, apple_radius(a), head, reference_radius as int)
}

/// Chance, over `SPAWN_DENOMINATOR`, that a frame of `frame_ms` on a play area
/// of `width` by `height` pixels spawns an apple, held at one.
pub open spec fn spawn_numerator(frame_ms: u64, width: u32, height: u32) -> int {
    let n = frame_ms as int * APPLES_PER_SECOND_PER_MEBIPIXEL as int * width as int * height as int;
    if n < SPAWN_DENOMINATOR as int {
        n
    } else {
        SPAWN_DENOMINATOR as int
    }
}

/// The numerator of the spawn chance over `SPAWN_DENOMINATOR`: proportional
/// to the frame's duration and to the play area, and never above one.
pub fn spawn_chance(frame_ms: u64, width: u32, height: u32) -> (r: u32)
    ensures
        r == spawn_numerator(frame_ms, width, height),
        r <= SPAWN_DENOMINATOR,
{
    proof {
        assert(width as int * height as int <= 0xffff_ffff * 0xffff_ffffnat) by (nonlinear_arith)
            requires
                width <= 0xffff_ffff,
                height <= 0xffff_ffff,
        ;
    }
    let area: u128 = width as u128 * height as u128;
    let capped: u128 = if frame_ms as u128 > SPAWN_DENOMINATOR as u128 {
        SPAWN_DENOMINATOR as u128 + 1
    } else {
        frame_ms as u128
    };
    proof {
        assert(capped * 4 * area <= (SPAWN_DENOMINATOR as int + 1) * 4 * (0xffff_ffff
            * 0xffff_ffffnat)) by (nonlinear_arith)
            requires
                0 <= capped <= SPAWN_DENOMINATOR as int + 1,
                0 <= area <= 0xffff_ffff * 0xffff_ffffnat,
        ;
        assert(frame_ms as int * 4 * area >= capped * 4 * area) by (nonlinear_arith)
            requires
                frame_ms >= capped,
                area >= 0,
        ;
        assert(area >= 1 ==> capped * 4 * area >= capped) by (nonlinear_arith)
            requires
                capped >= 0,
        ;
        assert(area == 0 ==> frame_ms as int * 4 * area == 0) by (nonlinear_arith);
        assert(frame_ms as int * 4 * width as int * height as int == frame_ms as int * 4 * area)
            by (nonlinear_arith)
            requires
                area == width as int * height as int,
        ;
    }
    let n: u128 = capped * APPLES_PER_SECOND_PER_MEBIPIXEL as u128 * area;
    if n < SPAWN_DENOMINATOR as u128 {
        n as u32
    } else {
        SPAWN_DENOMINATOR
    }
}

/// The per-frame Bernoulli trial that decides whether an apple is attempted:
/// never with a zero chance, always when the chance is held at one.
pub fn spawn_trial(random: &mut rand::rngs::ThreadRng, frame_ms: u64, width: u32, height: u32) -> (r:
    bool)
    ensures
        spawn_numerator(frame_ms, width, height) == 0 ==> !r,
        spawn_numerator(frame_ms, width, height) == SPAWN_DENOMINATOR ==> r,
{
    let numerator = spawn_chance(frame_ms, width, height);
    bernoulli_trial(random, numerator, SPAWN_DENOMINATOR)
}

/// A candidate apple created at `now`, of the given size, at a point drawn
/// uniformly from the play area of `width` by `height` pixels (from one pixel
/// in, up to the far edges exclusive).
pub fn create_apple_at_time(
    now: u64,
    size: u16,
    random: &mut rand::rngs::ThreadRng,
    width: u32,
    height: u32,
) -> (r: Apple)
    requires
        width > 1,
        height > 1,
    ensures
        r.time_of_creation == now,
        r.size == size,
        r.position.wf(),
        UNITS_PER_PIXEL <= r.position.x < width as int * UNITS_PER_PIXEL,
        UNITS_PER_PIXEL <= r.position.y < height as int * UNITS_PER_PIXEL,
{
    let x = random_in(random, UNITS_PER_PIXEL, width as i64 * UNITS_PER_PIXEL);
    let y = random_in(random, UNITS_PER_PIXEL, height as i64 * UNITS_PER_PIXEL);
    Apple { time_of_creation: now, size, position: Vector { x, y } }
}

impl Apple {
    /// Whether the apple has lived its whole life by `now`.
    pub fn is_expired(&self, now: u64) -> (r: bool)
        ensures
            r == expired(*self, now),
    {
        now >= self.time_of_creation && now - self.time_of_creation >= APPLE_LIFE_TIME_MS
    }

    /// Fresh apples are younger than half their life; the others are aging.
    pub fn is_fresh(&self, now: u64) -> (r: bool)
        ensures
            r == (age(*self, now) < APPLE_LIFE_TIME_MS as int / 2),
    {
        now < self.time_of_creation || now - self.time_of_creation < APPLE_LIFE_TIME_MS / 2
    }
}

/// Segment `i` of the body (radius `sizes[i]`) overlaps the apple.
pub open spec fn touches_segment(a: Apple, spine: Seq<Vector>, sizes: Seq<u32>, i: int) -> bool {
    &&& 0 <= i < spine.len()
    &&& circles_overlap(a.position, apple_radius(a), spine[i], sizes[i] as int)
}

/// Whether the apple overlaps any segment of the body; `sizes[i]` is the
/// radius of segment `i`.
pub fn does_apple_collide_with_snake(apple: &Apple, snake: &Snake, sizes: &Vec<u32>) -> (r: bool)
    requires
        apple.position.wf(),
        snake.wf(),
        sizes@.len() == snake.spine@.len(),
    ensures
        r == exists|i: int| touches_segment(*apple, snake.spine@, sizes@, i),
{
    let n = snake.spine.len();
    let radius: u32 = apple.size as u32 * UNITS_PER_PIXEL as u32;
    let mut i: usize = 0;
    while i < n
        invariant
            snake.wf(),
            apple.position.wf(),
            n == snake.spine@.len(),
            sizes@.len() == n,
            radius == apple_radius(*apple),
            0 <= i <= n,
            forall|j: int| 0 <= j < i ==> !touches_segment(*apple, snake.spine@, sizes@, j),
        decreases n - i,
    {
        if collides(apple.position, radius, snake.spine[i], sizes[i]) {
            assert(touches_segment(*apple, snake.spine@, sizes@, i as int));
            return true;
        }
        i = i + 1;
    }
    assert forall|j: int| !touches_segment(*apple, snake.spine@, sizes@, j) by {
        if 0 <= j < i {
        }
    }
    false
}

/// Index of the mid-body segment whose radius stands for the head's reach
/// when eating.
pub open spec fn reference_index(length: int) -> int {
    length / 2
}

/// Whether the head eats the apple. The head's reach is the radius of the
/// mid-body segment, not of the head itself.
pub fn is_apple_eaten_by_snake(apple: &Apple, snake: &Snake, sizes: &Vec<u32>) -> (r: bool)
    requires
        apple.position.wf(),
        snake.wf(),
        sizes@.len() == snake.spine@.len(),
    ensures
        r == eaten(*apple, snake.head, sizes@[reference_index(snake.spine@.len() as int)]),
{
    let n = snake.spine.len();
    collides(apple.position, apple.size as u32 * UNITS_PER_PIXEL as u32, snake.head, sizes[n / 2])
}

} // verus!
