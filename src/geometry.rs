use vstd::prelude::*;

verus! {

/// A cell position on the grid; `x` grows eastwards and `y` southwards.
#[derive(Clone, Copy, Debug, PartialEq, Eq, Structural, Hash)]
pub struct Coord {
    pub x: i32,
    pub y: i32,
}

impl Coord {
    pub fn new(x: i32, y: i32) -> (r: Coord)
        ensures
            r.x == x,
            r.y == y,
    {
        Coord { x, y }
    }

    /// True when the coordinate names a cell of a grid of the given size.
    pub open spec fn spec_is_valid(self, size: Size) -> bool {
        0 <= self.x < size.width && 0 <= self.y < size.height
    }

    pub fn is_valid(&self, size: Size) -> (r: bool)
        ensures
            r == self.spec_is_valid(size),
    {
        0 <= self.x && (self.x as i64) < (size.width as i64) && 0 <= self.y && (self.y as i64)
            < (size.height as i64)
    }

    /// The offset from `origin` to this coordinate.
    pub fn minus(self, origin: Coord) -> (r: Coord)
        requires
            i32::MIN <= self.x - origin.x <= i32::MAX,
            i32::MIN <= self.y - origin.y <= i32::MAX,
        ensures
            r.x == self.x - origin.x,
            r.y == self.y - origin.y,
    {
        Coord { x: self.x - origin.x, y: self.y - origin.y }
    }
}

/// The dimensions of a grid, in cells.
#[derive(Clone, Copy, Debug, PartialEq, Eq, Structural, Hash)]
pub struct Size {
    pub width: u32,
    pub height: u32,
}

impl Size {
    pub fn new(width: u32, height: u32) -> (r: Size)
        ensures
            r.width == width,
            r.height == height,
    {
        Size { width, height }
    }

    pub fn width(&self) -> (r: u32)
        ensures
            r == self.width,
    {
        self.width
    }

    pub fn height(&self) -> (r: u32)
        ensures
            r == self.height,
    {
        self.height
    }
}

/// The eight compass directions, clockwise from north.
#[derive(Clone, Copy, Debug, PartialEq, Eq, Structural, Hash)]
pub enum Direction {
    North,
    NorthEast,
    East,
    SouthEast,
    South,
    SouthWest,
    West,
    NorthWest,
}

impl Direction {
    /// The bit that stands for this direction in a `DirectionBitmap`.
    pub open spec fn spec_bit(self) -> u8 {
        match self {
            Direction::North => 0x01,
            Direction::NorthEast => 0x02,
            Direction::East => 0x04,
            Direction::SouthEast => 0x08,
            Direction::South => 0x10,
            Direction::SouthWest => 0x20,
            Direction::West => 0x40,
            Direction::NorthWest => 0x80,
        }
    }

    pub fn bitmap(self) -> (r: DirectionBitmap)
        ensures
            r.raw == self.spec_bit(),
    {
        match self {
            Direction::North => DirectionBitmap { raw: 0x01 },
            Direction::NorthEast => DirectionBitmap { raw: 0x02 },
            Direction::East => DirectionBitmap { raw: 0x04 },
            Direction::SouthEast => DirectionBitmap { raw: 0x08 },
            Direction::South => DirectionBitmap { raw: 0x10 },
            Direction::SouthWest => DirectionBitmap { raw: 0x20 },
            Direction::West => DirectionBitmap { raw: 0x40 },
            Direction::NorthWest => DirectionBitmap { raw: 0x80 },
        }
    }
}

/// The raw bits of the four cardinal directions.
pub const CARDINAL_BITS: u8 = 0x55;

/// A set of compass directions, one bit per direction.
#[derive(Clone, Copy, Debug, PartialEq, Eq, Structural, Hash)]
pub struct DirectionBitmap {
    pub raw: u8,
}

impl DirectionBitmap {
    pub fn new(raw: u8) -> (r: DirectionBitmap)
        ensures
            r.raw == raw,
    {
        DirectionBitmap { raw }
    }

    pub fn empty() -> (r: DirectionBitmap)
        ensures
            r.raw == 0,
    {
        DirectionBitmap { raw: 0 }
    }

    pub fn all() -> (r: DirectionBitmap)
        ensures
            r.raw == 0xff,
    {
        DirectionBitmap { raw: 0xff }
    }

    pub fn all_cardinal() -> (r: DirectionBitmap)
        ensures
            r.raw == CARDINAL_BITS,
    {
        DirectionBitmap { raw: CARDINAL_BITS }
    }

    pub open spec fn spec_union(self, other: DirectionBitmap) -> DirectionBitmap {
        DirectionBitmap { raw: self.raw | other.raw }
    }

    pub open spec fn spec_intersection(self, other: DirectionBitmap) -> DirectionBitmap {
        DirectionBitmap { raw: self.raw & other.raw }
    }

    pub fn union(self, other: DirectionBitmap) -> (r: DirectionBitmap)
        ensures
            r == self.spec_union(other),
    {
        DirectionBitmap { raw: self.raw | other.raw }
    }

    pub fn intersection(self, other: DirectionBitmap) -> (r: DirectionBitmap)
        ensures
            r == self.spec_intersection(other),
    {
        DirectionBitmap { raw: self.raw & other.raw }
    }

    pub fn is_empty(self) -> (r: bool)
        ensures
            r == (self.raw == 0),
    {
        self.raw == 0
    }

    pub fn is_full(self) -> (r: bool)
        ensures
            r == (self.raw == 0xff),
    {
        self.raw == 0xff
    }

    pub fn contains(self, direction: Direction) -> (r: bool)
        ensures
            r == (self.raw & direction.spec_bit() != 0),
    {
        self.raw & direction.bitmap().raw != 0
    }
}

} // verus!
