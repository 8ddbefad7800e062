//! Grid coordinates, relative offsets and the rotation operator.

use vstd::prelude::*;

verus! {

/// Number of columns of the playing field.
pub const WIDTH: usize = 10;

/// Number of rows of the playing field.
pub const HEIGHT: usize = 18;

/// Largest distance, along one axis, between a cell of a piece and the pivot.
pub const MAX_REACH: i32 = 2;

/// A square of the grid. `x` counts columns from the left wall, `y` counts
/// rows upward from the floor.
#[derive(Clone, Copy, Debug, PartialEq, Eq, Structural)]
pub struct Position {
    pub x: i32,
    pub y: i32,
}

/// Where a cell of a piece lies relative to the pivot of that piece.
#[derive(Clone, Copy, Debug, PartialEq, Eq, Structural)]
pub struct Offset {
    pub dx: i32,
    pub dy: i32,
}

impl Position {
    /// The square lies inside the playing field.
    pub open spec fn in_field(self) -> bool {
        0 <= self.x < WIDTH && 0 <= self.y < HEIGHT
    }

    /// The square `dx` columns to the right and `dy` rows up.
    pub open spec fn moved(self, dx: int, dy: int) -> Position {
        Position { x: (self.x + dx) as i32, y: (self.y + dy) as i32 }
    }

    /// Tells whether the square lies inside the playing field.
    pub fn is_in_field(&self) -> (inside: bool)
        ensures
            inside == self.in_field(),
    {
        0 <= self.x && self.x < WIDTH as i32 && 0 <= self.y && self.y < HEIGHT as i32
    }
}

impl Offset {
    /// The offset turned by a quarter turn clockwise: the image of
    /// `(dx, dy)` under the matrix `[[0, 1], [-1, 0]]`.
    pub open spec fn rotated(self) -> Offset {
        Offset { dx: self.dy, dy: (-self.dx) as i32 }
    }

    /// Neither component is further than `MAX_REACH` from the pivot.
    pub open spec fn within_reach(self) -> bool {
        -MAX_REACH <= self.dx <= MAX_REACH && -MAX_REACH <= self.dy <= MAX_REACH
    }

    /// Turns the offset by a quarter turn clockwise.
    pub fn rotate(&self) -> (turned: Offset)
        requires
            self.dx > i32::MIN,
        ensures
            turned == self.rotated(),
    {
        Offset { dx: self.dy, dy: -self.dx }
    }
}

/// Four quarter turns bring every offset back to where it started.
pub proof fn lemma_four_rotations_are_identity(o: Offset)
    requires
        o.dx > i32::MIN,
        o.dy > i32::MIN,
    ensures
        o.rotated().rotated().rotated().rotated() == o,
{
}

/// A quarter turn keeps an offset within reach of the pivot.
pub proof fn lemma_rotation_keeps_reach(o: Offset)
    requires
        o.within_reach(),
    ensures
        o.rotated().within_reach(),
        o.rotated().dx == o.dy,
        o.rotated().dy == -o.dx,
{
}

/// Two different offsets stay different after a quarter turn.
pub proof fn lemma_rotation_is_injective(a: Offset, b: Offset)
    requires
        a.within_reach(),
        b.within_reach(),
        a != b,
    ensures
        a.rotated() != b.rotated(),
{
}

} // verus!
