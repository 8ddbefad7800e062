//! How many landed cells the removal of completed rows takes away.

use vstd::prelude::*;
use vstd::seq_lib::seq_to_set_is_finite;
use vstd::set_lib::{lemma_set_difference_len, lemma_set_disjoint_lens};
use crate::board::{complete_rows, row_complete, rows_below, square};
use crate::cells::{no_overlap, squares_of, FixedCell};
use crate::collapse::{collapsed_cells, survives};
use crate::game::GameState;
use crate::geometry::{Position, HEIGHT, WIDTH};
use crate::invariants::lemma_filter_keeps_cells;

verus! {

/// The squares of the first `w` columns of row `y`.
pub open spec fn row_squares(y: int, w: int) -> Set<Position>
    decreases w,
{
    if w <= 0 {
        Set::empty()
    } else {
        row_squares(y, w - 1).insert(square(w - 1, y))
    }
}

/// The squares of those rows of `rows` that lie below row `k`.
pub open spec fn squares_in_rows(rows: Set<int>, k: int) -> Set<Position>
    decreases k,
{
    if k <= 0 {
        Set::empty()
    } else if rows.contains(k - 1) {
        squares_in_rows(rows, k - 1) + row_squares(k - 1, WIDTH as int)
    } else {
        squares_in_rows(rows, k - 1)
    }
}

/// The squares on which the cells lie, in the order of the cells.
pub open spec fn squares_in_order(cells: Seq<FixedCell>) -> Seq<Position> {
    cells.map_values(|c: FixedCell| c.pos)
}

/// The first `w` columns of a row are `w` squares.
pub proof fn lemma_row_squares(y: int, w: int)
    requires
        0 <= y < HEIGHT,
        0 <= w <= WIDTH,
    ensures
        row_squares(y, w).finite(),
        row_squares(y, w).len() == w,
        forall|p: Position| #[trigger] row_squares(y, w).contains(p) <==> p.y == y && 0 <= p.x < w,
    decreases w,
{
    if w > 0 {
        lemma_row_squares(y, w - 1);
        assert(!row_squares(y, w - 1).contains(square(w - 1, y)));
    }
}

/// The rows of `rows` below row `k` hold as many squares as the field is
/// wide, each.
pub proof fn lemma_squares_in_rows(rows: Set<int>, k: int)
    requires
        0 <= k <= HEIGHT,
    ensures
        squares_in_rows(rows, k).finite(),
        squares_in_rows(rows, k).len() == WIDTH * rows_below(rows, k),
        forall|p: Position|
            #[trigger] squares_in_rows(rows, k).contains(p) <==> p.in_field() && p.y < k
                && rows.contains(p.y as int),
    decreases k,
{
    if k > 0 {
        lemma_squares_in_rows(rows, k - 1);
        lemma_row_squares(k - 1, WIDTH as int);
        if rows.contains(k - 1) {
            let lower = squares_in_rows(rows, k - 1);
            let row = row_squares(k - 1, WIDTH as int);
            assert(lower.disjoint(row));
            lemma_set_disjoint_lens(lower, row);
        }
    }
}

/// Cells of which no two lie on one square are as many as their squares.
pub proof fn lemma_cells_are_as_many_as_their_squares(cells: Seq<FixedCell>)
    requires
        no_overlap(cells),
    ensures
        squares_of(cells).finite(),
        squares_of(cells).len() == cells.len(),
{
    let squares = squares_in_order(cells);
    assert forall|i: int, j: int| 0 <= i < squares.len() && 0 <= j < squares.len() && i != j
        implies squares[i] != squares[j] by {
        if i < j {
            assert(cells[i].pos != cells[j].pos);
        } else {
            assert(cells[j].pos != cells[i].pos);
        }
    }
    assert(squares.no_duplicates());
    squares.unique_seq_to_set();
    seq_to_set_is_finite(squares);
    assert forall|p: Position| squares.to_set().contains(p) <==> squares_of(cells).contains(p) by {
        if squares.to_set().contains(p) {
            let k = choose|k: int| 0 <= k < squares.len() && squares[k] == p;
            assert(cells[k].pos == p);
        }
        if squares_of(cells).contains(p) {
            let k = choose|k: int| 0 <= k < cells.len() && (#[trigger] cells[k]).pos == p;
            assert(squares[k] == p);
        }
    }
    assert(squares.to_set() =~= squares_of(cells));
}

/// The removal of the completed rows takes away as many landed cells as the
/// field is wide, for each completed row, where the landed cells were
/// consistent.
pub proof fn lemma_collapse_removes_whole_rows(s: GameState)
    requires
        s.consistent(),
        s.gravity.finished,
    ensures
        s.after_collapse().fixed.len() == s.fixed.len() - WIDTH * rows_below(
            complete_rows(s.occupied),
            HEIGHT as int,
        ),
{
    let rows = complete_rows(s.occupied);
    let kept = s.fixed.filter(survives(rows));
    let gone = squares_in_rows(rows, HEIGHT as int);
    lemma_squares_in_rows(rows, HEIGHT as int);
    lemma_filter_keeps_cells(s.fixed, survives(rows));
    lemma_cells_are_as_many_as_their_squares(s.fixed);
    lemma_cells_are_as_many_as_their_squares(kept);
    assert forall|p: Position| gone.contains(p) implies s.occupied.contains(p) by {
        assert(row_complete(s.occupied, p.y as int));
        assert(square(p.x as int, p.y as int) == p);
        assert(s.occupied.contains(square(p.x as int, p.y as int)));
    }
    assert forall|p: Position| squares_of(kept).contains(p) <==> s.occupied.difference(
        gone,
    ).contains(p) by {
        if squares_of(kept).contains(p) {
            let k = choose|k: int| 0 <= k < kept.len() && (#[trigger] kept[k]).pos == p;
            assert(s.fixed.contains(kept[k]));
            let a = choose|a: int| 0 <= a < s.fixed.len() && s.fixed[a] == kept[k];
            assert(s.fixed[a].pos == p);
            assert(survives(rows)(kept[k]));
        }
        if s.occupied.difference(gone).contains(p) {
            let a = choose|a: int| 0 <= a < s.fixed.len() && (#[trigger] s.fixed[a]).pos == p;
            assert(s.fixed[a].pos.in_field());
            assert(survives(rows)(s.fixed[a]));
            assert(kept.contains(s.fixed[a]));
            let k = choose|k: int| 0 <= k < kept.len() && kept[k] == s.fixed[a];
            assert(kept[k].pos == p);
        }
    }
    assert(squares_of(kept) =~= s.occupied.difference(gone));
    lemma_set_difference_len(s.occupied, gone);
    assert(s.occupied.intersect(gone) =~= gone);
    assert(collapsed_cells(s.fixed, rows).len() == kept.len());
}

} // verus!
