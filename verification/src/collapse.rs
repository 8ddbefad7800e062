//! Removal of completed rows and the fall of the rows above them.

use vstd::prelude::*;
use crate::board::{restamped, rows_below, Board, RowSet};
use crate::cells::{lemma_squares_of_empty, lemma_squares_of_push, squares_of, FixedCell};
use crate::geometry::Position;

verus! {

/// The cells that stay when the rows of `rows` are removed.
pub open spec fn survives(rows: Set<int>) -> spec_fn(FixedCell) -> bool {
    |c: FixedCell| !rows.contains(c.pos.y as int)
}

/// Where a cell comes to rest when the rows of `rows` are removed: as many
/// rows further down as there are removed rows strictly below it.
pub open spec fn settle(rows: Set<int>) -> spec_fn(FixedCell) -> FixedCell {
    |c: FixedCell| c.lowered(rows_below(rows, c.pos.y as int))
}

/// The landed cells after the rows of `rows` are removed: the cells of those
/// rows are gone, the others have come down, in their old order.
pub open spec fn collapsed_cells(cells: Seq<FixedCell>, rows: Set<int>) -> Seq<FixedCell> {
    cells.filter(survives(rows)).map_values(settle(rows))
}

impl Board {
    /// Removes the rows of `rows`: the landed cells of those rows leave
    /// `fixed`, every other landed cell comes down by the number of removed
    /// rows strictly below it, and the grid follows in two passes, first
    /// clearing the mark of every cell, then marking the new squares.
    pub fn collapse(&mut self, rows: &RowSet, fixed: &mut Vec<FixedCell>)
        ensures
            final(fixed)@ == collapsed_cells(old(fixed)@, rows@),
            final(self)@ == restamped(
                old(self)@,
                squares_of(old(fixed)@),
                squares_of(final(fixed)@),
            ),
    {
        let ghost before = fixed@;
        let ghost occupied = self@;
        let mut i: usize = 0;
        proof {
            lemma_squares_of_empty();
            assert(before.take(0) =~= Seq::<FixedCell>::empty());
        }
        while i < fixed.len()
            invariant
                0 <= i <= fixed.len(),
                fixed@ == before,
                self@ == occupied.difference(squares_of(before.take(i as int))),
            decreases fixed.len() - i,
        {
            self.mark(fixed[i].pos, false);
            proof {
                assert(before.take(i + 1) =~= before.take(i as int).push(before[i as int]));
                lemma_squares_of_push(before.take(i as int), before[i as int]);
            }
            i = i + 1;
        }
        assert(before.take(fixed.len() as int) =~= before);
        let ghost cleared = self@;
        let mut kept: Vec<FixedCell> = Vec::new();
        i = 0;
        proof {
            reveal(Seq::filter);
            assert(collapsed_cells(before.take(0), rows@) =~= Seq::<FixedCell>::empty());
        }
        while i < fixed.len()
            invariant
                0 <= i <= fixed.len(),
                fixed@ == before,
                self@ == cleared,
                kept@ == collapsed_cells(before.take(i as int), rows@),
            decreases fixed.len() - i,
        {
            let cell = fixed[i];
            proof {
                let earlier = before.take(i as int);
                assert(before.take(i + 1) =~= earlier.push(cell));
                earlier.lemma_filter_push(cell, survives(rows@));
            }
            if !rows.contains(cell.pos.y) {
                let down: i32 = rows.count_below(cell.pos.y);
                let landed = FixedCell {
                    pos: Position { x: cell.pos.x, y: cell.pos.y - down },
                    color: cell.color,
                };
                assert(landed == settle(rows@)(cell));
                kept.push(landed);
                assert(kept@ =~= collapsed_cells(before.take(i + 1), rows@));
            }
            i = i + 1;
        }
        let mut j: usize = 0;
        assert(kept@.take(0) =~= Seq::<FixedCell>::empty());
        while j < kept.len()
            invariant
                0 <= j <= kept.len(),
                cleared == occupied.difference(squares_of(before)),
                forall|p: Position| occupied.contains(p) ==> p.in_field(),
                self@ == Set::new(
                    |p: Position|
                        p.in_field() && (cleared.contains(p) || squares_of(
                            kept@.take(j as int),
                        ).contains(p)),
                ),
            decreases kept.len() - j,
        {
            self.mark(kept[j].pos, true);
            proof {
                assert(kept@.take(j + 1) =~= kept@.take(j as int).push(kept@[j as int]));
                lemma_squares_of_push(kept@.take(j as int), kept@[j as int]);
            }
            j = j + 1;
        }
        assert(kept@.take(kept.len() as int) =~= kept@);
        assert(self@ =~= restamped(occupied, squares_of(before), squares_of(kept@)));
        *fixed = kept;
    }
}

} // verus!
