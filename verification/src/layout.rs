//! Where the squares of the grid lie on the screen.

use vstd::prelude::*;
use crate::geometry::Position;

verus! {

/// Width of a square, in pixels.
pub const UNIT_WIDTH: i64 = 40;

/// Height of a square, in pixels.
pub const UNIT_HEIGHT: i64 = 40;

/// Width of the field, in pixels.
pub const SCREEN_WIDTH: i64 = 400;

/// Height of the field, in pixels.
pub const SCREEN_HEIGHT: i64 = 720;

/// The center of square `p` in pixels, measured from the center of the
/// screen: to the right and upward.
pub open spec fn pixel_center(p: Position) -> (int, int) {
    (
        UNIT_WIDTH / 2 - SCREEN_WIDTH / 2 + p.x * UNIT_WIDTH,
        UNIT_HEIGHT / 2 - SCREEN_HEIGHT / 2 + p.y * UNIT_HEIGHT,
    )
}

/// Computes the center of square `p` in pixels, measured from the center of
/// the screen.
pub fn screen_position(p: Position) -> (center: (i64, i64))
    ensures
        center.0 == pixel_center(p).0,
        center.1 == pixel_center(p).1,
{
    let origin_x: i64 = UNIT_WIDTH / 2 - SCREEN_WIDTH / 2;
    let origin_y: i64 = UNIT_HEIGHT / 2 - SCREEN_HEIGHT / 2;
    (origin_x + p.x as i64 * UNIT_WIDTH, origin_y + p.y as i64 * UNIT_HEIGHT)
}

} // verus!
