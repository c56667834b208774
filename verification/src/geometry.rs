//! Points of the bounded plane and the distances between them.

use vstd::prelude::*;
use crate::units::{clamped, floor_sqrt, isqrt, lemma_floor_sqrt, lemma_square_monotone, quotient};

verus! {

/// No coordinate of the plane lies farther than this from the origin.
pub const WORLD_LIMIT: i64 = 1_000_000_000_000;

/// A position, or a displacement, in fixed-point world units. The origin is
/// the centre of the screen and `y` grows upward.
#[derive(Clone, Copy, Debug, PartialEq, Eq, Structural)]
pub struct Point {
    pub x: i64,
    pub y: i64,
}

/// Whether a single coordinate lies on the bounded plane.
pub open spec fn in_world(c: int) -> bool {
    -WORLD_LIMIT <= c <= WORLD_LIMIT
}

/// The squared Euclidean distance between two points.
pub open spec fn distance_squared(a: Point, b: Point) -> nat {
    ((a.x - b.x) * (a.x - b.x) + (a.y - b.y) * (a.y - b.y)) as nat
}

/// The Euclidean distance between two points, rounded down to a whole step.
pub open spec fn distance_between(a: Point, b: Point) -> int {
    floor_sqrt(distance_squared(a, b)) as int
}

/// The point halfway between two points, each coordinate rounded toward zero.
pub open spec fn midpoint_of(a: Point, b: Point) -> Point {
    Point { x: quotient(a.x + b.x, 2) as i64, y: quotient(a.y + b.y, 2) as i64 }
}

/// The coordinate `c` moved by `d` and held on the plane.
pub open spec fn shifted(c: int, d: int) -> int {
    clamped(c + d, -WORLD_LIMIT as int, WORLD_LIMIT as int)
}

/// The origin of the plane.
pub open spec fn origin() -> Point {
    Point { x: 0, y: 0 }
}

/// Between points of the plane a distance is never negative and stays below
/// three times the plane's limit.
pub proof fn lemma_distance_bounds(a: Point, b: Point)
    requires
        a.wf(),
        b.wf(),
    ensures
        0 <= distance_between(a, b) < 3 * WORLD_LIMIT,
{
    let dx = a.x - b.x;
    let dy = a.y - b.y;
    let n = distance_squared(a, b);
    let r = floor_sqrt(n);
    lemma_floor_sqrt(n);
    assert(0 <= dx * dx <= 4_000_000_000_000_000_000_000_000) by (nonlinear_arith)
        requires
            -2_000_000_000_000 <= dx <= 2_000_000_000_000,
    ;
    assert(0 <= dy * dy <= 4_000_000_000_000_000_000_000_000) by (nonlinear_arith)
        requires
            -2_000_000_000_000 <= dy <= 2_000_000_000_000,
    ;
    if r >= 3_000_000_000_000 {
        lemma_square_monotone(3_000_000_000_000, r);
        assert(3_000_000_000_000nat * 3_000_000_000_000nat > 8_000_000_000_000_000_000_000_000)
            by (nonlinear_arith);
    }
}

/// The midpoint of two points of the plane lies on the plane.
pub proof fn lemma_midpoint_on_plane(a: Point, b: Point)
    requires
        a.wf(),
        b.wf(),
    ensures
        midpoint_of(a, b).wf(),
{
}

impl Point {
    /// Both coordinates lie on the bounded plane.
    pub open spec fn wf(self) -> bool {
        in_world(self.x as int) && in_world(self.y as int)
    }

    /// The point `(x, y)`, if it lies on the bounded plane.
    pub fn new(x: i64, y: i64) -> (p: Option<Point>)
        ensures
            p == (if in_world(x as int) && in_world(y as int) {
                Some(Point { x, y })
            } else {
                None
            }),
    {
        let p = Point { x, y };
        if p.is_wf() {
            Some(p)
        } else {
            None
        }
    }

    /// Tells whether the point lies on the bounded plane.
    pub fn is_wf(&self) -> (ok: bool)
        ensures
            ok == self.wf(),
    {
        -WORLD_LIMIT <= self.x && self.x <= WORLD_LIMIT && -WORLD_LIMIT <= self.y && self.y
            <= WORLD_LIMIT
    }

    /// The distance from `self` to `other`, rounded down.
    pub fn distance(&self, other: &Point) -> (d: i64)
        requires
            self.wf(),
            other.wf(),
        ensures
            d == distance_between(*self, *other),
            0 <= d < 3 * WORLD_LIMIT,
    {
        let dx: i128 = self.x as i128 - other.x as i128;
        let dy: i128 = self.y as i128 - other.y as i128;
        assert(0 <= dx * dx <= 4_000_000_000_000_000_000_000_000) by (nonlinear_arith)
            requires
                -2_000_000_000_000 <= dx <= 2_000_000_000_000,
        ;
        assert(0 <= dy * dy <= 4_000_000_000_000_000_000_000_000) by (nonlinear_arith)
            requires
                -2_000_000_000_000 <= dy <= 2_000_000_000_000,
        ;
        let sum: u128 = (dx * dx + dy * dy) as u128;
        let root: u64 = isqrt(sum);
        proof {
            lemma_distance_bounds(*self, *other);
        }
        root as i64
    }

    /// The distance from the origin, rounded down.
    pub fn length(&self) -> (d: i64)
        requires
            self.wf(),
        ensures
            d == distance_between(*self, origin()),
            0 <= d < 3 * WORLD_LIMIT,
    {
        let centre = Point { x: 0, y: 0 };
        self.distance(&centre)
    }

    /// The point halfway between `self` and `other`.
    pub fn midpoint(&self, other: &Point) -> (m: Point)
        requires
            self.wf(),
            other.wf(),
        ensures
            m == midpoint_of(*self, *other),
            m.wf(),
    {
        Point { x: (self.x + other.x) / 2, y: (self.y + other.y) / 2 }
    }

    /// The point moved by `(dx, dy)`; a coordinate that would leave the plane
    /// stops at its edge.
    pub fn offset(&self, dx: i128, dy: i128) -> (p: Point)
        requires
            self.wf(),
        ensures
            p.x == shifted(self.x as int, dx as int),
            p.y == shifted(self.y as int, dy as int),
            p.wf(),
    {
        Point { x: shift_coordinate(self.x, dx), y: shift_coordinate(self.y, dy) }
    }
}

/// One coordinate moved by `d` and held on the plane.
fn shift_coordinate(c: i64, d: i128) -> (r: i64)
    requires
        in_world(c as int),
    ensures
        r == shifted(c as int, d as int),
{
    let limit: i128 = WORLD_LIMIT as i128;
    if d >= 2 * limit {
        WORLD_LIMIT
    } else if d <= -2 * limit {
        -WORLD_LIMIT
    } else {
        let moved: i128 = c as i128 + d;
        if moved < -limit {
            -WORLD_LIMIT
        } else if moved > limit {
            WORLD_LIMIT
        } else {
            moved as i64
        }
    }
}

} // verus!
