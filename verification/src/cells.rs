//! The two kinds of live cell: cells of the piece under control, and cells
//! that have landed.

use vstd::prelude::*;
use crate::geometry::{Offset, Position};

verus! {

/// A cell of the piece under control: where it is, and where it lies
/// relative to the pivot of its piece.
#[derive(Clone, Copy, Debug, PartialEq, Eq, Structural)]
pub struct FreeCell {
    pub pos: Position,
    pub offset: Offset,
}

/// A cell that has landed. `color` is an index into the palette.
#[derive(Clone, Copy, Debug, PartialEq, Eq, Structural)]
pub struct FixedCell {
    pub pos: Position,
    pub color: usize,
}

impl FreeCell {
    /// The cell `dx` columns to the right and `dy` rows up, at the same
    /// offset from the pivot.
    pub open spec fn moved(self, dx: int, dy: int) -> FreeCell {
        FreeCell { pos: self.pos.moved(dx, dy), offset: self.offset }
    }

    /// The square that the pivot of the piece lies on, as seen from this cell.
    pub open spec fn pivot(self) -> (int, int) {
        (self.pos.x - self.offset.dx, self.pos.y - self.offset.dy)
    }

    /// The cell after a quarter turn of its piece about the pivot.
    pub open spec fn rotated(self) -> FreeCell {
        let turned = self.offset.rotated();
        FreeCell {
            pos: Position {
                x: (self.pivot().0 + turned.dx) as i32,
                y: (self.pivot().1 + turned.dy) as i32,
            },
            offset: turned,
        }
    }

    /// The cell that lies at `offset` from a pivot on square `anchor`.
    pub open spec fn at(anchor: Position, offset: Offset) -> FreeCell {
        FreeCell { pos: anchor.moved(offset.dx as int, offset.dy as int), offset }
    }
}

impl FixedCell {
    /// The cell `rows` rows further down.
    pub open spec fn lowered(self, rows: int) -> FixedCell {
        FixedCell { pos: self.pos.moved(0, -rows), color: self.color }
    }
}

/// The squares on which the cells of `cells` lie.
pub open spec fn squares_of(cells: Seq<FixedCell>) -> Set<Position> {
    Set::new(|p: Position| exists|i: int| 0 <= i < cells.len() && (#[trigger] cells[i]).pos == p)
}

/// No two cells of `cells` lie on the same square.
pub open spec fn no_overlap(cells: Seq<FixedCell>) -> bool {
    forall|i: int, j: int|
        0 <= i < j < cells.len() ==> (#[trigger] cells[i]).pos != (#[trigger] cells[j]).pos
}

/// Every cell of `cells` lies inside the field.
pub open spec fn all_in_field(cells: Seq<FixedCell>) -> bool {
    forall|i: int| 0 <= i < cells.len() ==> (#[trigger] cells[i]).pos.in_field()
}

/// Adding a cell adds its square.
pub proof fn lemma_squares_of_push(cells: Seq<FixedCell>, cell: FixedCell)
    ensures
        squares_of(cells.push(cell)) == squares_of(cells).insert(cell.pos),
{
    let longer = cells.push(cell);
    assert forall|p: Position|
        squares_of(longer).contains(p) <==> squares_of(cells).insert(cell.pos).contains(p) by {
        if squares_of(longer).contains(p) {
            let k = choose|k: int| 0 <= k < longer.len() && (#[trigger] longer[k]).pos == p;
            if k < cells.len() {
                assert(cells[k].pos == p);
            }
        }
        if squares_of(cells).contains(p) {
            let k = choose|k: int| 0 <= k < cells.len() && (#[trigger] cells[k]).pos == p;
            assert(longer[k].pos == p);
        }
        if p == cell.pos {
            assert(longer[cells.len() as int].pos == p);
        }
    }
    assert(squares_of(longer) =~= squares_of(cells).insert(cell.pos));
}

/// No cells, no squares.
pub proof fn lemma_squares_of_empty()
    ensures
        squares_of(Seq::<FixedCell>::empty()) == Set::<Position>::empty(),
{
    assert(squares_of(Seq::<FixedCell>::empty()) =~= Set::<Position>::empty());
}

} // verus!
