//! Points, circle overlap and the clamp that bounds coordinates and turn rates.
use vstd::prelude::*;

verus! {

/// Millipixels in one pixel: the unit of every length in this crate.
pub const UNITS_PER_PIXEL: i64 = 1000;

/// Largest absolute value of a coordinate of a point of the plane.
pub const COORDINATE_LIMIT: i64 = 10_000_000_000_000;

/// A point, or a velocity in millipixels per second.
#[derive(Clone, Copy, Debug, PartialEq, Eq, Structural)]
pub struct Vector {
    pub x: i64,
    pub y: i64,
}

impl Vector {
    /// Both coordinates lie within the bounded plane.
    pub open spec fn wf(self) -> bool {
        -COORDINATE_LIMIT <= self.x <= COORDINATE_LIMIT && -COORDINATE_LIMIT <= self.y
            <= COORDINATE_LIMIT
    }

    pub fn new(x: i64, y: i64) -> (r: Vector)
        ensures
            r.x == x,
            r.y == y,
    {
        Vector { x, y }
    }
}

/// Squared Euclidean distance between two points.
pub open spec fn distance_squared(a: Vector, b: Vector) -> int {
    (a.x - b.x) * (a.x - b.x) + (a.y - b.y) * (a.y - b.y)
}

/// The circles of radii `ra` around `a` and `rb` around `b` overlap: the distance
/// between the centres is strictly less than the sum of the radii. For radii that
/// are not negative, comparing squares decides exactly that.
pub open spec fn circles_overlap(a: Vector, ra: int, b: Vector, rb: int) -> bool {
    distance_squared(a, b) < (ra + rb) * (ra + rb)
}

/// `x` held within `[lo, hi]`.
pub open spec fn clamped(x: int, lo: int, hi: int) -> int {
    if x < lo {
        lo
    } else if x > hi {
        hi
    } else {
        x
    }
}

/// Relies on num::clamp: for `lo <= hi` it returns `lo` below the range, `hi`
/// above it, and `x` itself inside it.
#[verifier::external_body]
pub(crate) fn clamp_to(x: i128, lo: i128, hi: i128) -> (r: i128)
    requires
        lo <= hi,
    ensures
        r == clamped(x as int, lo as int, hi as int),
{
    num::clamp(x, lo, hi)
}

/// Whether two circles overlap; radii in millipixels.
pub fn collides(a: Vector, ra: u32, b: Vector, rb: u32) -> (r: bool)
    requires
        a.wf(),
        b.wf(),
    ensures
        r == circles_overlap(a, ra as int, b, rb as int),
{
    let dx: i128 = a.x as i128 - b.x as i128;
    let dy: i128 = a.y as i128 - b.y as i128;
    let reach: i128 = ra as i128 + rb as i128;
    proof {
        assert(0 <= dx * dx <= 4 * COORDINATE_LIMIT * COORDINATE_LIMIT) by (nonlinear_arith)
            requires
                -2 * COORDINATE_LIMIT <= dx <= 2 * COORDINATE_LIMIT,
        ;
        assert(0 <= dy * dy <= 4 * COORDINATE_LIMIT * COORDINATE_LIMIT) by (nonlinear_arith)
            requires
                -2 * COORDINATE_LIMIT <= dy <= 2 * COORDINATE_LIMIT,
        ;
        assert(0 <= reach * reach <= 0x4_0000_0000 * 0x4_0000_0000) by (nonlinear_arith)
            requires
                0 <= reach <= 0x4_0000_0000,
        ;
    }
    dx * dx + dy * dy < reach * reach
}

/// A coordinate moved by `speed` millipixels per second for `millis`
/// milliseconds, the distance rounded toward zero.
pub open spec fn moved(coordinate: int, speed: int, millis: int) -> int {
    let travel = speed * millis;
    let step = if travel >= 0 {
        travel / 1000
    } else {
        -((-travel) / 1000)
    };
    clamped(coordinate + step, -COORDINATE_LIMIT as int, COORDINATE_LIMIT as int)
}

fn move_coordinate(coordinate: i64, speed: i64, millis: u64) -> (r: i64)
    requires
        -COORDINATE_LIMIT <= coordinate <= COORDINATE_LIMIT,
        -COORDINATE_LIMIT <= speed <= COORDINATE_LIMIT,
    ensures
        r == moved(coordinate as int, speed as int, millis as int),
        -COORDINATE_LIMIT <= r <= COORDINATE_LIMIT,
{
    let m: i128 = millis as i128;
    let s: i128 = speed as i128;
    proof {
        assert(-COORDINATE_LIMIT * 0x1_0000_0000_0000_0000 <= s * m <= COORDINATE_LIMIT
            * 0x1_0000_0000_0000_0000) by (nonlinear_arith)
            requires
                -COORDINATE_LIMIT <= s <= COORDINATE_LIMIT,
                0 <= m <= 0x1_0000_0000_0000_0000,
        ;
    }
    let travel: i128 = s * m;
    let step: i128 = if travel >= 0 {
        travel / 1000
    } else {
        -((-travel) / 1000)
    };
    let r = clamp_to(coordinate as i128 + step, -COORDINATE_LIMIT as i128, COORDINATE_LIMIT as i128);
    r as i64
}

impl Vector {
    pub open spec fn translated_spec(self, velocity: Vector, millis: int) -> Vector {
        Vector {
            x: moved(self.x as int, velocity.x as int, millis) as i64,
            y: moved(self.y as int, velocity.y as int, millis) as i64,
        }
    }

    /// This point moved along `velocity` (millipixels per second) for `millis`
    /// milliseconds, by explicit Euler integration, held within the plane.
    pub fn translated(self, velocity: Vector, millis: u64) -> (r: Vector)
        requires
            self.wf(),
            velocity.wf(),
        ensures
            r.wf(),
            r == self.translated_spec(velocity, millis as int),
            r.x == moved(self.x as int, velocity.x as int, millis as int),
            r.y == moved(self.y as int, velocity.y as int, millis as int),
    {
        Vector { x: move_coordinate(self.x, velocity.x, millis), y: move_coordinate(self.y, velocity.y, millis) }
    }
}

/// Overlap of two circles does not depend on which of them comes first.
pub proof fn lemma_collides_symmetric(a: Vector, ra: int, b: Vector, rb: int)
    ensures
        circles_overlap(a, ra, b, rb) == circles_overlap(b, rb, a, ra),
{
    assert((a.x - b.x) * (a.x - b.x) == (b.x - a.x) * (b.x - a.x)) by (nonlinear_arith);
    assert((a.y - b.y) * (a.y - b.y) == (b.y - a.y) * (b.y - a.y)) by (nonlinear_arith);
}

} // verus!
