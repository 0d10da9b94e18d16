use crate::geometry::Coord;
use vstd::prelude::*;

verus! {

/// Decides whether a cell at a given offset from the eye lies within sight range.
pub trait VisionDistance {
    /// Whether the offset `(dx, dy)` from the eye is within range.
    spec fn spec_in_range(&self, dx: int, dy: int) -> bool;

    fn in_range(&self, delta: Coord) -> (r: bool)
        ensures
            r == self.spec_in_range(delta.x as int, delta.y as int),
    ;
}

/// In range when the squared Euclidean distance is at most the squared radius.
#[derive(Debug, Clone, Copy)]
pub struct Circle {
    distance_squared: u64,
}

impl Circle {
    pub closed spec fn spec_distance_squared(self) -> int {
        self.distance_squared as int
    }

    pub fn new(distance: u32) -> (r: Circle)
        ensures
            r.spec_distance_squared() == distance * distance,
    {
        assert((distance as u64) * (distance as u64) <= u64::MAX) by (nonlinear_arith);
        Circle { distance_squared: (distance as u64) * (distance as u64) }
    }
}

impl VisionDistance for Circle {
    open spec fn spec_in_range(&self, dx: int, dy: int) -> bool {
        dx * dx + dy * dy <= self.spec_distance_squared()
    }

    fn in_range(&self, delta: Coord) -> (r: bool) {
        let dx = delta.x as i64;
        let dy = delta.y as i64;
        assert(0 <= dx * dx <= 0x4000_0000_0000_0000) by (nonlinear_arith)
            requires
                i32::MIN <= dx <= i32::MAX,
        ;
        assert(0 <= dy * dy <= 0x4000_0000_0000_0000) by (nonlinear_arith)
            requires
                i32::MIN <= dy <= i32::MAX,
        ;
        let sum = ((dx * dx) as u64) + ((dy * dy) as u64);
        sum <= self.distance_squared
    }
}

/// In range when the Chebyshev distance (the larger axis offset) is at most the distance.
#[derive(Debug, Clone, Copy)]
pub struct Square {
    distance: u32,
}

impl Square {
    pub closed spec fn spec_distance(self) -> int {
        self.distance as int
    }

    pub fn new(distance: u32) -> (r: Square)
        ensures
            r.spec_distance() == distance,
    {
        Square { distance }
    }
}

pub open spec fn abs(v: int) -> int {
    if v < 0 {
        -v
    } else {
        v
    }
}

fn abs_i64(v: i32) -> (r: i64)
    ensures
        r == abs(v as int),
{
    if v < 0 {
        -(v as i64)
    } else {
        v as i64
    }
}

impl VisionDistance for Square {
    open spec fn spec_in_range(&self, dx: int, dy: int) -> bool {
        abs(dx) <= self.spec_distance() && abs(dy) <= self.spec_distance()
    }

    fn in_range(&self, delta: Coord) -> (r: bool) {
        let ax = abs_i64(delta.x);
        let ay = abs_i64(delta.y);
        let m = if ax < ay {
            ay
        } else {
            ax
        };
        m <= self.distance as i64
    }
}

/// In range when the Manhattan distance is at most the distance.
#[derive(Debug, Clone, Copy)]
pub struct Diamond {
    distance: u32,
}

impl Diamond {
    pub closed spec fn spec_distance(self) -> int {
        self.distance as int
    }

    pub fn new(distance: u32) -> (r: Diamond)
        ensures
            r.spec_distance() == distance,
    {
        Diamond { distance }
    }
}

impl VisionDistance for Diamond {
    open spec fn spec_in_range(&self, dx: int, dy: int) -> bool {
        abs(dx) + abs(dy) <= self.spec_distance()
    }

    fn in_range(&self, delta: Coord) -> (r: bool) {
        abs_i64(delta.x) + abs_i64(delta.y) <= self.distance as i64
    }
}

/// A larger circle keeps every offset that a smaller one keeps.
pub proof fn lemma_circle_monotone(near: Circle, far: Circle)
    requires
        near.spec_distance_squared() <= far.spec_distance_squared(),
    ensures
        forall|dx: int, dy: int| near.spec_in_range(dx, dy) ==> far.spec_in_range(dx, dy),
{
}

/// A larger square keeps every offset that a smaller one keeps.
pub proof fn lemma_square_monotone(near: Square, far: Square)
    requires
        near.spec_distance() <= far.spec_distance(),
    ensures
        forall|dx: int, dy: int| near.spec_in_range(dx, dy) ==> far.spec_in_range(dx, dy),
{
}

/// A larger diamond keeps every offset that a smaller one keeps.
pub proof fn lemma_diamond_monotone(near: Diamond, far: Diamond)
    requires
        near.spec_distance() <= far.spec_distance(),
    ensures
        forall|dx: int, dy: int| near.spec_in_range(dx, dy) ==> far.spec_in_range(dx, dy),
{
}

} // verus!
