use vstd::prelude::*;

verus! {

/// An immutable pair of non-negative integer coordinates, used both for
/// positions on the board and for the board size itself.
#[derive(Clone, Copy, PartialEq, Eq, Structural, Debug)]
pub struct Vec2 {
    pub x: u64,
    pub y: u64,
}

/// A position lies on a board of the given size when each coordinate is at
/// most the matching coordinate of the size (the boundary cell is included).
pub open spec fn in_bounds(p: Vec2, size: Vec2) -> bool {
    p.x <= size.x && p.y <= size.y
}

/// Distance between two coordinates along one axis.
pub open spec fn axis_dist(a: u64, b: u64) -> nat {
    if a <= b {
        (b - a) as nat
    } else {
        (a - b) as nat
    }
}

/// Manhattan distance between two positions.
pub open spec fn manhattan(a: Vec2, b: Vec2) -> nat {
    axis_dist(a.x, b.x) + axis_dist(a.y, b.y)
}

impl Vec2 {
    pub fn new(x: u64, y: u64) -> (r: Vec2)
        ensures
            r == (Vec2 { x, y }),
    {
        Vec2 { x, y }
    }

    /// Component-wise addition; the caller keeps the sums in range.
    pub fn add(self, other: Vec2) -> (r: Vec2)
        requires
            self.x + other.x <= u64::MAX,
            self.y + other.y <= u64::MAX,
        ensures
            r.x == self.x + other.x,
            r.y == self.y + other.y,
    {
        Vec2 { x: self.x + other.x, y: self.y + other.y }
    }

    /// Component-wise subtraction; the caller keeps the differences
    /// non-negative.
    pub fn sub(self, other: Vec2) -> (r: Vec2)
        requires
            other.x <= self.x,
            other.y <= self.y,
        ensures
            r.x == self.x - other.x,
            r.y == self.y - other.y,
    {
        Vec2 { x: self.x - other.x, y: self.y - other.y }
    }

    /// True when the position lies on a board of the given size.
    pub fn within(self, size: Vec2) -> (r: bool)
        ensures
            r == in_bounds(self, size),
    {
        self.x <= size.x && self.y <= size.y
    }
}

} // verus!
