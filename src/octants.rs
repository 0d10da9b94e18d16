use crate::geometry::{Coord, Direction, DirectionBitmap};
use crate::vision_distance::abs;
use vstd::prelude::*;

verus! {

/// The largest magnitude of a lateral offset, depth or depth index handed to an octant.
pub const SPAN: i64 = 0x10_0000_0000;

/// A bound on the magnitude of `Octant::lateral_max`.
pub const LATERAL_LIMIT: i64 = 0x2_0000_0000;

/// One of the eight 45-degree sectors around the eye, swept row by row along
/// its depth axis, with the lateral axis running away from that axis.
pub trait Octant {
    /// The absolute row or column of the strip `depth` steps away from the
    /// eye, or `None` when that strip lies outside the grid.
    spec fn spec_depth_index(&self, centre: Coord, depth: int) -> Option<i64>;

    /// The cell at a lateral offset within the strip at `depth_index`.
    spec fn spec_make_coord(&self, centre: Coord, lateral_offset: int, depth_index: int) -> (int, int);

    /// The largest lateral offset that stays inside the grid.
    spec fn spec_lateral_max(&self, centre: Coord) -> int;

    /// The cell edge that faces the eye.
    spec fn spec_facing(&self) -> DirectionBitmap;

    /// The cell edge that a beam entering from the side crosses.
    spec fn spec_across(&self) -> DirectionBitmap;

    /// The corner between the facing and the across edges.
    spec fn spec_facing_corner(&self) -> DirectionBitmap;

    /// Whether this octant reports the cell at a lateral offset; of each pair
    /// exactly one octant reports the axis column.
    spec fn spec_should_see(&self, lateral_offset: int) -> bool;

    fn depth_index(&self, centre: Coord, depth: i64) -> (r: Option<i64>)
        requires
            0 <= depth <= SPAN,
        ensures
            r == self.spec_depth_index(centre, depth as int),
            r is Some ==> i32::MIN <= r.unwrap() <= i32::MAX,
    ;

    fn make_coord(&self, centre: Coord, lateral_offset: i64, depth_index: i64) -> (r: (i64, i64))
        requires
            -SPAN <= lateral_offset <= SPAN,
            -SPAN <= depth_index <= SPAN,
        ensures
            r.0 == self.spec_make_coord(centre, lateral_offset as int, depth_index as int).0,
            r.1 == self.spec_make_coord(centre, lateral_offset as int, depth_index as int).1,
    ;

    fn lateral_max(&self, centre: Coord) -> (r: i64)
        ensures
            r == self.spec_lateral_max(centre),
            -LATERAL_LIMIT <= r <= LATERAL_LIMIT,
    ;

    fn facing_bitmap(&self) -> (r: DirectionBitmap)
        ensures
            r == self.spec_facing(),
            r.raw != 0,
    ;

    fn across_bitmap(&self) -> (r: DirectionBitmap)
        ensures
            r == self.spec_across(),
            r.raw != 0,
    ;

    fn facing_corner_bitmap(&self) -> (r: DirectionBitmap)
        ensures
            r == self.spec_facing_corner(),
            r.raw != 0,
    ;

    fn should_see(&self, lateral_offset: i64) -> (r: bool)
        ensures
            r == self.spec_should_see(lateral_offset as int),
    ;

    /// A cell of the strip at `depth` lies exactly `depth` steps from the eye
    /// along one axis.
    proof fn lemma_depth_offset(&self, centre: Coord, lateral_offset: int, depth: int)
        requires
            0 <= depth <= SPAN,
            self.spec_depth_index(centre, depth) is Some,
        ensures
            ({
                let c = self.spec_make_coord(
                    centre,
                    lateral_offset,
                    self.spec_depth_index(centre, depth).unwrap() as int,
                );
                abs(c.0 - centre.x) == depth || abs(c.1 - centre.y) == depth
            }),
    ;
}

/// The octant of rows above the eye, swept leftwards from the vertical axis.
pub struct TopLeft;

impl Octant for TopLeft {
    open spec fn spec_depth_index(&self, centre: Coord, depth: int) -> Option<i64> {
        let index = centre.y - depth;
        if index >= 0 {
            Some(index as i64)
        } else {
            None
        }
    }

    open spec fn spec_make_coord(&self, centre: Coord, lateral_offset: int, depth_index: int) -> (int, int) {
        (centre.x - lateral_offset, depth_index)
    }

    open spec fn spec_lateral_max(&self, centre: Coord) -> int {
        centre.x as int
    }

    open spec fn spec_facing(&self) -> DirectionBitmap {
        DirectionBitmap { raw: 0x10 }
    }

    open spec fn spec_across(&self) -> DirectionBitmap {
        DirectionBitmap { raw: 0x04 }
    }

    open spec fn spec_facing_corner(&self) -> DirectionBitmap {
        DirectionBitmap { raw: 0x08 }
    }

    open spec fn spec_should_see(&self, lateral_offset: int) -> bool {
        lateral_offset != 0
    }

    fn depth_index(&self, centre: Coord, depth: i64) -> (r: Option<i64>) {
        let index = centre.y as i64 - depth;
        if index >= 0 {
            Some(index)
        } else {
            None
        }
    }

    fn make_coord(&self, centre: Coord, lateral_offset: i64, depth_index: i64) -> (r: (i64, i64)) {
        (centre.x as i64 - lateral_offset, depth_index)
    }

    fn lateral_max(&self, centre: Coord) -> (r: i64) {
        centre.x as i64
    }

    fn facing_bitmap(&self) -> (r: DirectionBitmap) {
        Direction::South.bitmap()
    }

    fn across_bitmap(&self) -> (r: DirectionBitmap) {
        Direction::East.bitmap()
    }

    fn facing_corner_bitmap(&self) -> (r: DirectionBitmap) {
        Direction::SouthEast.bitmap()
    }

    fn should_see(&self, lateral_offset: i64) -> (r: bool) {
        lateral_offset != 0
    }

    proof fn lemma_depth_offset(&self, centre: Coord, lateral_offset: int, depth: int) {
    }
}

/// The octant of columns left of the eye, swept upwards from the horizontal axis.
pub struct LeftTop;

impl Octant for LeftTop {
    open spec fn spec_depth_index(&self, centre: Coord, depth: int) -> Option<i64> {
        let index = centre.x - depth;
        if index >= 0 {
            Some(index as i64)
        } else {
            None
        }
    }

    open spec fn spec_make_coord(&self, centre: Coord, lateral_offset: int, depth_index: int) -> (int, int) {
        (depth_index, centre.y - lateral_offset)
    }

    open spec fn spec_lateral_max(&self, centre: Coord) -> int {
        centre.y as int
    }

    open spec fn spec_facing(&self) -> DirectionBitmap {
        DirectionBitmap { raw: 0x04 }
    }

    open spec fn spec_across(&self) -> DirectionBitmap {
        DirectionBitmap { raw: 0x10 }
    }

    open spec fn spec_facing_corner(&self) -> DirectionBitmap {
        DirectionBitmap { raw: 0x08 }
    }

    open spec fn spec_should_see(&self, lateral_offset: int) -> bool {
        true
    }

    fn depth_index(&self, centre: Coord, depth: i64) -> (r: Option<i64>) {
        let index = centre.x as i64 - depth;
        if index >= 0 {
            Some(index)
        } else {
            None
        }
    }

    fn make_coord(&self, centre: Coord, lateral_offset: i64, depth_index: i64) -> (r: (i64, i64)) {
        (depth_index, centre.y as i64 - lateral_offset)
    }

    fn lateral_max(&self, centre: Coord) -> (r: i64) {
        centre.y as i64
    }

    fn facing_bitmap(&self) -> (r: DirectionBitmap) {
        Direction::East.bitmap()
    }

    fn across_bitmap(&self) -> (r: DirectionBitmap) {
        Direction::South.bitmap()
    }

    fn facing_corner_bitmap(&self) -> (r: DirectionBitmap) {
        Direction::SouthEast.bitmap()
    }

    fn should_see(&self, lateral_offset: i64) -> (r: bool) {
        true
    }

    proof fn lemma_depth_offset(&self, centre: Coord, lateral_offset: int, depth: int) {
    }
}

/// The octant of rows above the eye, swept rightwards from the vertical axis.
pub struct TopRight {
    pub width: i32,
}

impl Octant for TopRight {
    open spec fn spec_depth_index(&self, centre: Coord, depth: int) -> Option<i64> {
        let index = centre.y - depth;
        if index >= 0 {
            Some(index as i64)
        } else {
            None
        }
    }

    open spec fn spec_make_coord(&self, centre: Coord, lateral_offset: int, depth_index: int) -> (int, int) {
        (centre.x + lateral_offset, depth_index)
    }

    open spec fn spec_lateral_max(&self, centre: Coord) -> int {
        self.width - centre.x - 1
    }

    open spec fn spec_facing(&self) -> DirectionBitmap {
        DirectionBitmap { raw: 0x10 }
    }

    open spec fn spec_across(&self) -> DirectionBitmap {
        DirectionBitmap { raw: 0x40 }
    }

    open spec fn spec_facing_corner(&self) -> DirectionBitmap {
        DirectionBitmap { raw: 0x20 }
    }

    open spec fn spec_should_see(&self, lateral_offset: int) -> bool {
        true
    }

    fn depth_index(&self, centre: Coord, depth: i64) -> (r: Option<i64>) {
        let index = centre.y as i64 - depth;
        if index >= 0 {
            Some(index)
        } else {
            None
        }
    }

    fn make_coord(&self, centre: Coord, lateral_offset: i64, depth_index: i64) -> (r: (i64, i64)) {
        (centre.x as i64 + lateral_offset, depth_index)
    }

    fn lateral_max(&self, centre: Coord) -> (r: i64) {
        self.width as i64 - centre.x as i64 - 1
    }

    fn facing_bitmap(&self) -> (r: DirectionBitmap) {
        Direction::South.bitmap()
    }

    fn across_bitmap(&self) -> (r: DirectionBitmap) {
        Direction::West.bitmap()
    }

    fn facing_corner_bitmap(&self) -> (r: DirectionBitmap) {
        Direction::SouthWest.bitmap()
    }

    fn should_see(&self, lateral_offset: i64) -> (r: bool) {
        true
    }

    proof fn lemma_depth_offset(&self, centre: Coord, lateral_offset: int, depth: int) {
    }
}

/// The octant of columns right of the eye, swept upwards from the horizontal axis.
pub struct RightTop {
    pub width: i32,
}

impl Octant for RightTop {
    open spec fn spec_depth_index(&self, centre: Coord, depth: int) -> Option<i64> {
        let index = centre.x + depth;
        if index < self.width {
            Some(index as i64)
        } else {
            None
        }
    }

    open spec fn spec_make_coord(&self, centre: Coord, lateral_offset: int, depth_index: int) -> (int, int) {
        (depth_index, centre.y - lateral_offset)
    }

    open spec fn spec_lateral_max(&self, centre: Coord) -> int {
        centre.y as int
    }

    open spec fn spec_facing(&self) -> DirectionBitmap {
        DirectionBitmap { raw: 0x40 }
    }

    open spec fn spec_across(&self) -> DirectionBitmap {
        DirectionBitmap { raw: 0x10 }
    }

    open spec fn spec_facing_corner(&self) -> DirectionBitmap {
        DirectionBitmap { raw: 0x20 }
    }

    open spec fn spec_should_see(&self, lateral_offset: int) -> bool {
        lateral_offset != 0
    }

    fn depth_index(&self, centre: Coord, depth: i64) -> (r: Option<i64>) {
        let index = centre.x as i64 + depth;
        if index < self.width as i64 {
            Some(index)
        } else {
            None
        }
    }

    fn make_coord(&self, centre: Coord, lateral_offset: i64, depth_index: i64) -> (r: (i64, i64)) {
        (depth_index, centre.y as i64 - lateral_offset)
    }

    fn lateral_max(&self, centre: Coord) -> (r: i64) {
        centre.y as i64
    }

    fn facing_bitmap(&self) -> (r: DirectionBitmap) {
        Direction::West.bitmap()
    }

    fn across_bitmap(&self) -> (r: DirectionBitmap) {
        Direction::South.bitmap()
    }

    fn facing_corner_bitmap(&self) -> (r: DirectionBitmap) {
        Direction::SouthWest.bitmap()
    }

    fn should_see(&self, lateral_offset: i64) -> (r: bool) {
        lateral_offset != 0
    }

    proof fn lemma_depth_offset(&self, centre: Coord, lateral_offset: int, depth: int) {
    }
}

/// The octant of rows below the eye, swept leftwards from the vertical axis.
pub struct BottomLeft {
    pub height: i32,
}

impl Octant for BottomLeft {
    open spec fn spec_depth_index(&self, centre: Coord, depth: int) -> Option<i64> {
        let index = centre.y + depth;
        if index < self.height {
            Some(index as i64)
        } else {
            None
        }
    }

    open spec fn spec_make_coord(&self, centre: Coord, lateral_offset: int, depth_index: int) -> (int, int) {
        (centre.x - lateral_offset, depth_index)
    }

    open spec fn spec_lateral_max(&self, centre: Coord) -> int {
        centre.x as int
    }

    open spec fn spec_facing(&self) -> DirectionBitmap {
        DirectionBitmap { raw: 0x01 }
    }

    open spec fn spec_across(&self) -> DirectionBitmap {
        DirectionBitmap { raw: 0x04 }
    }

    open spec fn spec_facing_corner(&self) -> DirectionBitmap {
        DirectionBitmap { raw: 0x02 }
    }

    open spec fn spec_should_see(&self, lateral_offset: int) -> bool {
        true
    }

    fn depth_index(&self, centre: Coord, depth: i64) -> (r: Option<i64>) {
        let index = centre.y as i64 + depth;
        if index < self.height as i64 {
            Some(index)
        } else {
            None
        }
    }

    fn make_coord(&self, centre: Coord, lateral_offset: i64, depth_index: i64) -> (r: (i64, i64)) {
        (centre.x as i64 - lateral_offset, depth_index)
    }

    fn lateral_max(&self, centre: Coord) -> (r: i64) {
        centre.x as i64
    }

    fn facing_bitmap(&self) -> (r: DirectionBitmap) {
        Direction::North.bitmap()
    }

    fn across_bitmap(&self) -> (r: DirectionBitmap) {
        Direction::East.bitmap()
    }

    fn facing_corner_bitmap(&self) -> (r: DirectionBitmap) {
        Direction::NorthEast.bitmap()
    }

    fn should_see(&self, lateral_offset: i64) -> (r: bool) {
        true
    }

    proof fn lemma_depth_offset(&self, centre: Coord, lateral_offset: int, depth: int) {
    }
}

/// The octant of columns left of the eye, swept downwards from the horizontal axis.
pub struct LeftBottom {
    pub height: i32,
}

impl Octant for LeftBottom {
    open spec fn spec_depth_index(&self, centre: Coord, depth: int) -> Option<i64> {
        let index = centre.x - depth;
        if index >= 0 {
            Some(index as i64)
        } else {
            None
        }
    }

    open spec fn spec_make_coord(&self, centre: Coord, lateral_offset: int, depth_index: int) -> (int, int) {
        (depth_index, centre.y + lateral_offset)
    }

    open spec fn spec_lateral_max(&self, centre: Coord) -> int {
        self.height - centre.y - 1
    }

    open spec fn spec_facing(&self) -> DirectionBitmap {
        DirectionBitmap { raw: 0x04 }
    }

    open spec fn spec_across(&self) -> DirectionBitmap {
        DirectionBitmap { raw: 0x01 }
    }

    open spec fn spec_facing_corner(&self) -> DirectionBitmap {
        DirectionBitmap { raw: 0x02 }
    }

    open spec fn spec_should_see(&self, lateral_offset: int) -> bool {
        lateral_offset != 0
    }

    fn depth_index(&self, centre: Coord, depth: i64) -> (r: Option<i64>) {
        let index = centre.x as i64 - depth;
        if index >= 0 {
            Some(index)
        } else {
            None
        }
    }

    fn make_coord(&self, centre: Coord, lateral_offset: i64, depth_index: i64) -> (r: (i64, i64)) {
        (depth_index, centre.y as i64 + lateral_offset)
    }

    fn lateral_max(&self, centre: Coord) -> (r: i64) {
        self.height as i64 - centre.y as i64 - 1
    }

    fn facing_bitmap(&self) -> (r: DirectionBitmap) {
        Direction::East.bitmap()
    }

    fn across_bitmap(&self) -> (r: DirectionBitmap) {
        Direction::North.bitmap()
    }

    fn facing_corner_bitmap(&self) -> (r: DirectionBitmap) {
        Direction::NorthEast.bitmap()
    }

    fn should_see(&self, lateral_offset: i64) -> (r: bool) {
        lateral_offset != 0
    }

    proof fn lemma_depth_offset(&self, centre: Coord, lateral_offset: int, depth: int) {
    }
}

/// The octant of rows below the eye, swept rightwards from the vertical axis.
pub struct BottomRight {
    pub width: i32,
    pub height: i32,
}

impl Octant for BottomRight {
    open spec fn spec_depth_index(&self, centre: Coord, depth: int) -> Option<i64> {
        let index = centre.y + depth;
        if index < self.height {
            Some(index as i64)
        } else {
            None
        }
    }

    open spec fn spec_make_coord(&self, centre: Coord, lateral_offset: int, depth_index: int) -> (int, int) {
        (centre.x + lateral_offset, depth_index)
    }

    open spec fn spec_lateral_max(&self, centre: Coord) -> int {
        self.width - centre.x - 1
    }

    open spec fn spec_facing(&self) -> DirectionBitmap {
        DirectionBitmap { raw: 0x01 }
    }

    open spec fn spec_across(&self) -> DirectionBitmap {
        DirectionBitmap { raw: 0x40 }
    }

    open spec fn spec_facing_corner(&self) -> DirectionBitmap {
        DirectionBitmap { raw: 0x80 }
    }

    open spec fn spec_should_see(&self, lateral_offset: int) -> bool {
        lateral_offset != 0
    }

    fn depth_index(&self, centre: Coord, depth: i64) -> (r: Option<i64>) {
        let index = centre.y as i64 + depth;
        if index < self.height as i64 {
            Some(index)
        } else {
            None
        }
    }

    fn make_coord(&self, centre: Coord, lateral_offset: i64, depth_index: i64) -> (r: (i64, i64)) {
        (centre.x as i64 + lateral_offset, depth_index)
    }

    fn lateral_max(&self, centre: Coord) -> (r: i64) {
        self.width as i64 - centre.x as i64 - 1
    }

    fn facing_bitmap(&self) -> (r: DirectionBitmap) {
        Direction::North.bitmap()
    }

    fn across_bitmap(&self) -> (r: DirectionBitmap) {
        Direction::West.bitmap()
    }

    fn facing_corner_bitmap(&self) -> (r: DirectionBitmap) {
        Direction::NorthWest.bitmap()
    }

    fn should_see(&self, lateral_offset: i64) -> (r: bool) {
        lateral_offset != 0
    }

    proof fn lemma_depth_offset(&self, centre: Coord, lateral_offset: int, depth: int) {
    }
}

/// The octant of columns right of the eye, swept downwards from the horizontal axis.
pub struct RightBottom {
    pub width: i32,
    pub height: i32,
}

impl Octant for RightBottom {
    open spec fn spec_depth_index(&self, centre: Coord, depth: int) -> Option<i64> {
        let index = centre.x + depth;
        if index < self.width {
            Some(index as i64)
        } else {
            None
        }
    }

    open spec fn spec_make_coord(&self, centre: Coord, lateral_offset: int, depth_index: int) -> (int, int) {
        (depth_index, centre.y + lateral_offset)
    }

    open spec fn spec_lateral_max(&self, centre: Coord) -> int {
        self.height - centre.y - 1
    }

    open spec fn spec_facing(&self) -> DirectionBitmap {
        DirectionBitmap { raw: 0x40 }
    }

    open spec fn spec_across(&self) -> DirectionBitmap {
        DirectionBitmap { raw: 0x01 }
    }

    open spec fn spec_facing_corner(&self) -> DirectionBitmap {
        DirectionBitmap { raw: 0x80 }
    }

    open spec fn spec_should_see(&self, lateral_offset: int) -> bool {
        true
    }

    fn depth_index(&self, centre: Coord, depth: i64) -> (r: Option<i64>) {
        let index = centre.x as i64 + depth;
        if index < self.width as i64 {
            Some(index)
        } else {
            None
        }
    }

    fn make_coord(&self, centre: Coord, lateral_offset: i64, depth_index: i64) -> (r: (i64, i64)) {
        (depth_index, centre.y as i64 + lateral_offset)
    }

    fn lateral_max(&self, centre: Coord) -> (r: i64) {
        self.height as i64 - centre.y as i64 - 1
    }

    fn facing_bitmap(&self) -> (r: DirectionBitmap) {
        Direction::West.bitmap()
    }

    fn across_bitmap(&self) -> (r: DirectionBitmap) {
        Direction::North.bitmap()
    }

    fn facing_corner_bitmap(&self) -> (r: DirectionBitmap) {
        Direction::NorthWest.bitmap()
    }

    fn should_see(&self, lateral_offset: i64) -> (r: bool) {
        true
    }

    proof fn lemma_depth_offset(&self, centre: Coord, lateral_offset: int, depth: int) {
    }
}

} // verus!
