//! The seven shapes, the palette, and the random choice among them.

use vstd::prelude::*;
use rand::Rng;
use crate::geometry::Offset;

verus! {

/// Number of shapes in the catalog.
pub const SHAPE_COUNT: usize = 7;

/// Number of colors in the palette.
pub const PALETTE_LEN: usize = 6;

/// The shapes of the catalog, in catalog order.
#[derive(Clone, Copy, Debug, PartialEq, Eq, Structural)]
pub enum ShapeKind {
    I,
    L,
    J,
    Z,
    S,
    O,
    T,
}

/// A color of the palette, as red, green and blue.
#[derive(Clone, Copy, Debug, PartialEq, Eq, Structural)]
pub struct Color {
    pub r: u8,
    pub g: u8,
    pub b: u8,
}

/// The offset `(dx, dy)`.
pub open spec fn offset(dx: int, dy: int) -> Offset {
    Offset { dx: dx as i32, dy: dy as i32 }
}

/// The four offsets of a shape, in catalog order; the first is the pivot.
pub open spec fn shape_offsets(kind: ShapeKind) -> [Offset; 4] {
    match kind {
        ShapeKind::I => [offset(0, 0), offset(0, -1), offset(0, 1), offset(0, 2)],
        ShapeKind::L => [offset(0, 0), offset(0, -1), offset(0, 1), offset(-1, 1)],
        ShapeKind::J => [offset(0, 0), offset(0, -1), offset(0, 1), offset(1, 1)],
        ShapeKind::Z => [offset(0, 0), offset(0, -1), offset(1, 0), offset(1, 1)],
        ShapeKind::S => [offset(0, 0), offset(1, 0), offset(0, 1), offset(1, -1)],
        ShapeKind::O => [offset(0, 0), offset(0, 1), offset(1, 0), offset(1, 1)],
        ShapeKind::T => [offset(0, 0), offset(-1, 0), offset(1, 0), offset(0, 1)],
    }
}

/// The shape at place `index` of the catalog.
pub open spec fn shape_at(index: int) -> ShapeKind {
    if index == 0 {
        ShapeKind::I
    } else if index == 1 {
        ShapeKind::L
    } else if index == 2 {
        ShapeKind::J
    } else if index == 3 {
        ShapeKind::Z
    } else if index == 4 {
        ShapeKind::S
    } else if index == 5 {
        ShapeKind::O
    } else {
        ShapeKind::T
    }
}

/// The shape that the random draw `draw` selects: the draw, reduced modulo
/// the number of shapes, is a place of the catalog.
pub open spec fn drawn_shape(draw: usize) -> ShapeKind {
    shape_at((draw as int) % (SHAPE_COUNT as int))
}

/// The palette index that the random draw `draw` selects: the draw, reduced
/// modulo the number of colors.
pub open spec fn drawn_color(draw: usize) -> usize {
    ((draw as int) % (PALETTE_LEN as int)) as usize
}

/// The color at place `index` of the palette.
pub open spec fn palette_at(index: int) -> Color {
    if index == 0 {
        Color { r: 64, g: 230, b: 100 }
    } else if index == 1 {
        Color { r: 220, g: 64, b: 90 }
    } else if index == 2 {
        Color { r: 70, g: 150, b: 210 }
    } else if index == 3 {
        Color { r: 220, g: 230, b: 70 }
    } else if index == 4 {
        Color { r: 35, g: 220, b: 241 }
    } else {
        Color { r: 240, g: 140, b: 70 }
    }
}

impl ShapeKind {
    /// The four offsets of the shape.
    pub fn offsets(self) -> (cells: [Offset; 4])
        ensures
            cells == shape_offsets(self),
    {
        let cells = match self {
            ShapeKind::I => [
                Offset { dx: 0, dy: 0 },
                Offset { dx: 0, dy: -1 },
                Offset { dx: 0, dy: 1 },
                Offset { dx: 0, dy: 2 },
            ],
            ShapeKind::L => [
                Offset { dx: 0, dy: 0 },
                Offset { dx: 0, dy: -1 },
                Offset { dx: 0, dy: 1 },
                Offset { dx: -1, dy: 1 },
            ],
            ShapeKind::J => [
                Offset { dx: 0, dy: 0 },
                Offset { dx: 0, dy: -1 },
                Offset { dx: 0, dy: 1 },
                Offset { dx: 1, dy: 1 },
            ],
            ShapeKind::Z => [
                Offset { dx: 0, dy: 0 },
                Offset { dx: 0, dy: -1 },
                Offset { dx: 1, dy: 0 },
                Offset { dx: 1, dy: 1 },
            ],
            ShapeKind::S => [
                Offset { dx: 0, dy: 0 },
                Offset { dx: 1, dy: 0 },
                Offset { dx: 0, dy: 1 },
                Offset { dx: 1, dy: -1 },
            ],
            ShapeKind::O => [
                Offset { dx: 0, dy: 0 },
                Offset { dx: 0, dy: 1 },
                Offset { dx: 1, dy: 0 },
                Offset { dx: 1, dy: 1 },
            ],
            ShapeKind::T => [
                Offset { dx: 0, dy: 0 },
                Offset { dx: -1, dy: 0 },
                Offset { dx: 1, dy: 0 },
                Offset { dx: 0, dy: 1 },
            ],
        };
        assert(cells =~= shape_offsets(self));
        cells
    }
}

/// The offsets of every shape are within reach of the pivot and differ from
/// one another.
pub proof fn lemma_shapes_are_sound(kind: ShapeKind)
    ensures
        forall|i: int| 0 <= i < 4 ==> (#[trigger] shape_offsets(kind)[i]).within_reach(),
        forall|i: int, j: int|
            0 <= i < j < 4 ==> #[trigger] shape_offsets(kind)[i] != #[trigger] shape_offsets(
                kind,
            )[j],
{
}

/// The shape that a random draw selects.
pub fn shape_for_draw(draw: usize) -> (kind: ShapeKind)
    ensures
        kind == drawn_shape(draw),
{
    let index: usize = draw % SHAPE_COUNT;
    if index == 0 {
        ShapeKind::I
    } else if index == 1 {
        ShapeKind::L
    } else if index == 2 {
        ShapeKind::J
    } else if index == 3 {
        ShapeKind::Z
    } else if index == 4 {
        ShapeKind::S
    } else if index == 5 {
        ShapeKind::O
    } else {
        ShapeKind::T
    }
}

/// The palette index that a random draw selects.
pub fn color_for_draw(draw: usize) -> (color: usize)
    ensures
        color == drawn_color(draw),
        color < PALETTE_LEN,
{
    draw % PALETTE_LEN
}

/// The color at place `index` of the palette, if there is such a place.
pub fn palette_color(index: usize) -> (color: Option<Color>)
    ensures
        index < PALETTE_LEN ==> color == Some(palette_at(index as int)),
        index >= PALETTE_LEN ==> color is None,
{
    if index == 0 {
        Some(Color { r: 64, g: 230, b: 100 })
    } else if index == 1 {
        Some(Color { r: 220, g: 64, b: 90 })
    } else if index == 2 {
        Some(Color { r: 70, g: 150, b: 210 })
    } else if index == 3 {
        Some(Color { r: 220, g: 230, b: 70 })
    } else if index == 4 {
        Some(Color { r: 35, g: 220, b: 241 })
    } else if index == 5 {
        Some(Color { r: 240, g: 140, b: 70 })
    } else {
        None
    }
}

/// The random number generator of the current thread, as `rand` keeps it.
#[verifier::external_type_specification]
#[verifier::external_body]
pub struct ExThreadRng(rand::rngs::ThreadRng);

/// Calls `rand::thread_rng`, which hands out the generator of the current
/// thread. Nothing is claimed of the generator.
#[verifier::external_body]
fn thread_rng() -> (rng: rand::rngs::ThreadRng) {
    rand::thread_rng()
}

/// Calls `rand::Rng::gen` for a `usize`, which takes the next value from the
/// generator. Nothing is claimed of the value: every `usize` can come back.
#[verifier::external_body]
fn next_draw(rng: &mut rand::rngs::ThreadRng) -> (draw: usize) {
    rng.gen::<usize>()
}

/// Draws a random number from the generator of the current thread.
pub(crate) fn random_draw() -> (draw: usize) {
    let mut rng = thread_rng();
    next_draw(&mut rng)
}

/// Picks a shape of the catalog at random.
pub fn random_shape() -> (kind: ShapeKind)
    ensures
        exists|draw: usize| kind == #[trigger] drawn_shape(draw),
{
    let draw: usize = random_draw();
    shape_for_draw(draw)
}

/// Picks a palette index at random.
pub fn random_color() -> (color: usize)
    ensures
        color < PALETTE_LEN,
{
    let draw: usize = random_draw();
    color_for_draw(draw)
}

} // verus!
