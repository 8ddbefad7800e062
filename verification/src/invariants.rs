//! What holds of the landed cells from frame to frame: they lie inside the
//! field, no two of them on one square, and the grid marks their squares and
//! no others.

use vstd::prelude::*;
use crate::board::{
    complete_rows, lemma_rows_below_monotone, lemma_rows_below_range, row_complete, rows_below,
    square,
};
use crate::cells::{all_in_field, no_overlap, squares_of, FixedCell};
use crate::collapse::{collapsed_cells, settle, survives};
use vstd::arithmetic::div_mod::lemma_mod_bound;
use crate::game::{entering_piece, landed, lemma_entering_piece_fits, FrameInput, GameState};
use crate::geometry::{Position, HEIGHT, WIDTH};
use crate::piece::{
    cell_wf, fits_turned, lemma_dropped_is_wf, lemma_hard_drop_lands, lemma_moved_is_wf,
    lemma_rotated_is_wf, may_shift, rests, touches_down, Direction, Piece, CEILING,
};

verus! {

impl GameState {
    /// Every landed cell lies inside the field, no two landed cells lie on
    /// the same square, and the occupied squares are the squares of the
    /// landed cells.
    pub open spec fn consistent(self) -> bool {
        &&& all_in_field(self.fixed)
        &&& no_overlap(self.fixed)
        &&& self.occupied == squares_of(self.fixed)
    }
}

/// The cells that a filter keeps are cells of the sequence, in their old
/// order: a sequence without overlap stays without overlap, and a sequence
/// inside the field stays inside the field.
pub proof fn lemma_filter_keeps_cells(cells: Seq<FixedCell>, pred: spec_fn(FixedCell) -> bool)
    ensures
        forall|k: int|
            0 <= k < cells.filter(pred).len() ==> pred(#[trigger] cells.filter(pred)[k])
                && cells.contains(cells.filter(pred)[k]),
        forall|i: int|
            0 <= i < cells.len() && pred(cells[i]) ==> cells.filter(pred).contains(#[trigger] cells[i],
            ),
        no_overlap(cells) ==> no_overlap(cells.filter(pred)),
        all_in_field(cells) ==> all_in_field(cells.filter(pred)),
    decreases cells.len(),
{
    reveal(Seq::filter);
    let kept = cells.filter(pred);
    if cells.len() > 0 {
        let shorter = cells.drop_last();
        let sub = shorter.filter(pred);
        lemma_filter_keeps_cells(shorter, pred);
        assert forall|k: int| 0 <= k < kept.len() implies pred(#[trigger] kept[k])
            && cells.contains(kept[k]) by {
            if k < sub.len() {
                assert(kept[k] == sub[k]);
                assert(shorter.contains(sub[k]));
                let a = choose|a: int| 0 <= a < shorter.len() && shorter[a] == sub[k];
                assert(cells[a] == kept[k]);
            } else {
                assert(kept[k] == cells.last());
                assert(cells[cells.len() - 1] == kept[k]);
            }
        }
        assert forall|i: int| 0 <= i < cells.len() && pred(cells[i]) implies
            kept.contains(#[trigger] cells[i],
        ) by {
            if i < shorter.len() {
                assert(shorter[i] == cells[i]);
                assert(sub.contains(shorter[i]));
                let b = choose|b: int| 0 <= b < sub.len() && sub[b] == shorter[i];
                assert(kept[b] == cells[i]);
            } else {
                assert(kept[kept.len() - 1] == cells[i]);
            }
        }
        if no_overlap(cells) {
            assert(no_overlap(shorter)) by {
                assert forall|i: int, j: int| 0 <= i < j < shorter.len() implies
                    (#[trigger] shorter[i]).pos != (#[trigger] shorter[j]).pos
                by {
                    assert(cells[i].pos != cells[j].pos);
                }
            }
            assert forall|i: int, j: int| 0 <= i < j < kept.len() implies (#[trigger] kept[i]).pos
                != (#[trigger] kept[j]).pos by {
                if j < sub.len() {
                    assert(sub[i].pos != sub[j].pos);
                } else {
                    assert(kept[j] == cells.last());
                    assert(kept[i] == sub[i]);
                    assert(shorter.contains(sub[i]));
                    let a = choose|a: int| 0 <= a < shorter.len() && shorter[a] == sub[i];
                    assert(cells[a].pos != cells[cells.len() - 1].pos);
                }
            }
        }
        if all_in_field(cells) {
            assert forall|k: int| 0 <= k < kept.len() implies
                (#[trigger] kept[k]).pos.in_field()
            by {
                assert(cells.contains(kept[k]));
                let a = choose|a: int| 0 <= a < cells.len() && cells[a] == kept[k];
                assert(cells[a].pos.in_field());
            }
        }
    }
}

/// Landed cells that lie inside the field without overlap still do so after
/// any rows of the field are removed.
pub proof fn lemma_collapsed_cells_are_sound(cells: Seq<FixedCell>, rows: Set<int>)
    requires
        all_in_field(cells),
        no_overlap(cells),
    ensures
        all_in_field(collapsed_cells(cells, rows)),
        no_overlap(collapsed_cells(cells, rows)),
{
    let kept = cells.filter(survives(rows));
    let after = collapsed_cells(cells, rows);
    lemma_filter_keeps_cells(cells, survives(rows));
    assert forall|k: int| 0 <= k < after.len() implies (#[trigger] after[k]).pos.in_field() by {
        let c = kept[k];
        assert(c.pos.in_field());
        lemma_rows_below_range(rows, c.pos.y as int);
        assert(after[k] == settle(rows)(c));
    }
    assert forall|i: int, j: int| 0 <= i < j < after.len() implies
        (#[trigger] after[i]).pos != (#[trigger] after[j]).pos
    by {
        let a = kept[i];
        let b = kept[j];
        assert(a.pos != b.pos);
        assert(a.pos.in_field() && b.pos.in_field());
        assert(survives(rows)(a) && survives(rows)(b));
        assert(after[i] == settle(rows)(a));
        assert(after[j] == settle(rows)(b));
        lemma_rows_below_range(rows, a.pos.y as int);
        lemma_rows_below_range(rows, b.pos.y as int);
        if a.pos.x == b.pos.x {
            if a.pos.y < b.pos.y {
                lemma_rows_below_monotone(rows, a.pos.y as int, b.pos.y as int);
            } else {
                lemma_rows_below_monotone(rows, b.pos.y as int, a.pos.y as int);
            }
        }
    }
}

/// The pass that handles a lost game leaves a consistent state, and on the
/// signal it leaves the field empty, without any cell, and asks for a piece.
pub proof fn lemma_game_over_keeps_consistency(s: GameState)
    ensures
        s.consistent() || s.game_over ==> s.after_game_over().consistent(),
        s.game_over ==> {
            let t = s.after_game_over();
            t.occupied == Set::<Position>::empty() && t.fixed == Seq::<FixedCell>::empty()
                && t.piece is None && t.spawn_requested && !t.game_over
        },
{
    if s.game_over {
        assert(squares_of(Seq::<FixedCell>::empty()) =~= Set::<Position>::empty());
    }
}

/// The removal of completed rows keeps the landed cells consistent.
pub proof fn lemma_collapse_keeps_consistency(s: GameState)
    requires
        s.consistent(),
    ensures
        s.after_collapse().consistent(),
{
    if s.gravity.finished {
        let t = s.after_collapse();
        lemma_collapsed_cells_are_sound(s.fixed, complete_rows(s.occupied));
        assert forall|p: Position| squares_of(t.fixed).contains(p) implies p.in_field() by {
            let k = choose|k: int| 0 <= k < t.fixed.len() && (#[trigger] t.fixed[k]).pos == p;
            assert(t.fixed[k].pos.in_field());
        }
        assert(t.occupied =~= squares_of(t.fixed));
    }
}

/// A piece that may go sideways is still well formed when it has gone.
pub proof fn lemma_nudged_is_wf(p: Piece, occupied: Set<Position>, dir: Direction)
    requires
        p.wf(),
    ensures
        GameState::nudged(p, occupied, dir).wf(),
{
    if p.can_shift(occupied, dir.step()) {
        assert forall|i: int| 0 <= i < 4 implies 0 <= (#[trigger] p.cells[i]).pos.x + dir.step()
            < WIDTH && 0 <= p.cells[i].pos.y + 0 <= CEILING by {
            assert(cell_wf(p.cells[i]));
            assert(may_shift(p.cells[i], occupied, dir.step()));
        }
        lemma_moved_is_wf(p, dir.step(), 0);
    }
}

/// Every pass of a frame takes a well-formed state to a well-formed state.
pub proof fn lemma_passes_keep_wf(
    s: GameState,
    input: FrameInput,
    shape_draw: usize,
    color_draw: usize,
)
    requires
        s.wf(),
    ensures
        s.after_game_over().wf(),
        s.after_collapse().wf(),
        s.after_spawn(shape_draw, color_draw).wf(),
        s.after_tick(input.delta_us).wf(),
        s.after_sideways(input.left_held, input.right_held).wf(),
        s.after_hard_drop(input.down_pressed).wf(),
        s.after_rotate(input.up_pressed).wf(),
        s.after_fall().wf(),
{
    lemma_entering_piece_fits(shape_draw, color_draw);
    assert(s.after_tick(input.delta_us).wf()) by {
        lemma_mod_bound(
            s.gravity.elapsed_us + input.delta_us,
            s.gravity.period_us as int,
        );
        lemma_mod_bound(s.input.elapsed_us + input.delta_us, s.input.period_us as int);
    }
    match s.piece {
        Some(p) => {
            lemma_nudged_is_wf(p, s.occupied, Direction::Left);
            lemma_nudged_is_wf(p, s.occupied, Direction::Right);
            lemma_nudged_is_wf(
                GameState::nudged(p, s.occupied, Direction::Left),
                s.occupied,
                Direction::Right,
            );
            lemma_dropped_is_wf(p, s.occupied);
            if p.can_rotate(s.occupied) {
                assert forall|i: int| 0 <= i < 4 implies
                    (#[trigger] p.cells[i]).rotated().pos.in_field()
                by {
                    assert(fits_turned(p.cells[i], s.occupied));
                }
                lemma_rotated_is_wf(p);
            }
            if !p.grounded(s.occupied) {
                assert forall|i: int| 0 <= i < 4 implies 0 <= (#[trigger] p.cells[i]).pos.x + 0
                    < WIDTH && 0 <= p.cells[i].pos.y + (-1) <= CEILING by {
                    assert(cell_wf(p.cells[i]));
                    assert(!rests(p.cells[i], s.occupied));
                }
                lemma_moved_is_wf(p, 0, -1);
            }
        },
        None => {},
    }
}

/// A whole frame takes a well-formed state to a well-formed state.
pub proof fn lemma_frame_keeps_wf(
    s: GameState,
    input: FrameInput,
    shape_draw: usize,
    color_draw: usize,
)
    requires
        s.wf(),
    ensures
        s.before_spawn().wf(),
        s.before_hard_drop(input, shape_draw, color_draw).wf(),
        s.before_fall(input, shape_draw, color_draw).wf(),
        s.after_frame(input, shape_draw, color_draw).wf(),
{
    let s1 = s.after_game_over();
    lemma_passes_keep_wf(s, input, shape_draw, color_draw);
    let s2 = s1.after_collapse();
    lemma_passes_keep_wf(s1, input, shape_draw, color_draw);
    let s3 = s2.after_spawn(shape_draw, color_draw);
    lemma_passes_keep_wf(s2, input, shape_draw, color_draw);
    let s4 = s3.after_tick(input.delta_us);
    lemma_passes_keep_wf(s3, input, shape_draw, color_draw);
    let s5 = s4.after_sideways(input.left_held, input.right_held);
    lemma_passes_keep_wf(s4, input, shape_draw, color_draw);
    let s6 = s5.after_hard_drop(input.down_pressed);
    lemma_passes_keep_wf(s5, input, shape_draw, color_draw);
    let s7 = s6.after_rotate(input.up_pressed);
    lemma_passes_keep_wf(s6, input, shape_draw, color_draw);
    lemma_passes_keep_wf(s7, input, shape_draw, color_draw);
}

impl GameState {
    /// Where the piece is fixed by the pass for gravity, every one of its
    /// cells lies inside the field on a square that is not occupied.
    pub open spec fn lands_cleanly(self) -> bool {
        self.piece matches Some(p) ==> self.gravity.finished && p.grounded(self.occupied) ==> {
            &&& !p.overlaps(self.occupied)
            &&& p.cells[0].pos.in_field()
            &&& p.cells[1].pos.in_field()
            &&& p.cells[2].pos.in_field()
            &&& p.cells[3].pos.in_field()
        }
    }

    /// The pass for the hard drop leaves the grid as it is: there is no
    /// piece, or the down key did not go down.
    pub open spec fn drop_is_idle(self, down_pressed: bool) -> bool {
        self.piece is None || !down_pressed
    }
}

/// The cells of a well-formed piece lie on four different squares.
pub proof fn lemma_piece_cells_are_apart(p: Piece)
    requires
        p.wf(),
    ensures
        forall|i: int, j: int|
            0 <= i < j < 4 ==> (#[trigger] p.cells[i]).pos != (#[trigger] p.cells[j]).pos,
{
    assert forall|i: int, j: int| 0 <= i < j < 4 implies
        (#[trigger] p.cells[i]).pos != (#[trigger] p.cells[j]).pos
    by {
        assert(p.cells[i].pivot() == p.cells[0].pivot());
        assert(p.cells[j].pivot() == p.cells[0].pivot());
        assert(p.cells[i].offset != p.cells[j].offset);
    }
}

/// The entry of a piece, the timers, the lateral move and the rotation leave
/// the landed cells and the grid as they are.
pub proof fn lemma_moves_leave_landed_cells(
    s: GameState,
    input: FrameInput,
    shape_draw: usize,
    color_draw: usize,
)
    ensures
        s.after_spawn(shape_draw, color_draw).fixed == s.fixed,
        s.after_spawn(shape_draw, color_draw).occupied == s.occupied,
        s.after_tick(input.delta_us).fixed == s.fixed,
        s.after_tick(input.delta_us).occupied == s.occupied,
        s.after_sideways(input.left_held, input.right_held).fixed == s.fixed,
        s.after_sideways(input.left_held, input.right_held).occupied == s.occupied,
        s.after_rotate(input.up_pressed).fixed == s.fixed,
        s.after_rotate(input.up_pressed).occupied == s.occupied,
        s.after_hard_drop(input.down_pressed).fixed == s.fixed,
        s.drop_is_idle(input.down_pressed) ==> s.after_hard_drop(input.down_pressed) == s,
{
}

/// The pass for gravity keeps the landed cells consistent, where the piece
/// that it fixes lies inside the field on squares that are not occupied.
pub proof fn lemma_fall_keeps_consistency(s: GameState)
    requires
        s.wf(),
        s.consistent(),
        s.lands_cleanly(),
    ensures
        s.after_fall().consistent(),
{
    let t = s.after_fall();
    match s.piece {
        Some(p) => {
            if s.gravity.finished && p.grounded(s.occupied) {
                lemma_piece_cells_are_apart(p);
                let added = landed(p);
                assert forall|k: int| 0 <= k < t.fixed.len() implies
                    (#[trigger] t.fixed[k]).pos.in_field()
                by {
                    if k < s.fixed.len() {
                        assert(t.fixed[k] == s.fixed[k]);
                    } else {
                        assert(t.fixed[k] == added[k - s.fixed.len()]);
                    }
                }
                assert forall|i: int, j: int| 0 <= i < j < t.fixed.len() implies
                    (#[trigger] t.fixed[i]).pos != (#[trigger] t.fixed[j]).pos
                by {
                    let n = s.fixed.len() as int;
                    if j < n {
                        assert(s.fixed[i].pos != s.fixed[j].pos);
                    } else if i < n {
                        assert(t.fixed[j] == added[j - n]);
                        assert(t.fixed[i] == s.fixed[i]);
                        assert(squares_of(s.fixed).contains(s.fixed[i].pos));
                        assert(!s.occupied.contains(p.cells[j - n].pos));
                    } else {
                        assert(t.fixed[i] == added[i - n]);
                        assert(t.fixed[j] == added[j - n]);
                        assert(p.cells[i - n].pos != p.cells[j - n].pos);
                    }
                }
                assert forall|q: Position| t.occupied.contains(q) <==> squares_of(
                    t.fixed,
                ).contains(q) by {
                    let n = s.fixed.len() as int;
                    if squares_of(t.fixed).contains(q) {
                        let k = choose|k: int| 0 <= k < t.fixed.len() && (#[trigger] t.fixed[k]).pos == q;
                        if k < n {
                            assert(s.fixed[k].pos == q);
                            assert(squares_of(s.fixed).contains(q));
                        } else {
                            assert(t.fixed[k] == added[k - n]);
                        }
                    }
                    if s.occupied.contains(q) {
                        let k = choose|k: int| 0 <= k < s.fixed.len() && (#[trigger] s.fixed[k]).pos == q;
                        assert(t.fixed[k].pos == q);
                    }
                    if p.squares().contains(q) {
                        assert(t.fixed[n].pos == p.cells[0].pos);
                        assert(t.fixed[n + 1].pos == p.cells[1].pos);
                        assert(t.fixed[n + 2].pos == p.cells[2].pos);
                        assert(t.fixed[n + 3].pos == p.cells[3].pos);
                    }
                }
                assert(t.occupied =~= squares_of(t.fixed));
            }
        },
        None => {},
    }
}

/// A frame keeps the landed cells consistent: at its end every landed cell
/// lies inside the field, no two landed cells lie on one square, and the
/// grid marks the squares of the landed cells and no others. This holds of
/// every frame in which the hard drop does not act and in which a piece, if
/// one is fixed, lies inside the field on squares that are not occupied.
pub proof fn lemma_frame_keeps_consistency(
    s: GameState,
    input: FrameInput,
    shape_draw: usize,
    color_draw: usize,
)
    requires
        s.wf(),
        s.consistent(),
        s.before_hard_drop(input, shape_draw, color_draw).drop_is_idle(input.down_pressed),
        s.before_fall(input, shape_draw, color_draw).lands_cleanly(),
    ensures
        s.after_frame(input, shape_draw, color_draw).consistent(),
{
    lemma_frame_keeps_wf(s, input, shape_draw, color_draw);
    let s1 = s.after_game_over();
    lemma_game_over_keeps_consistency(s);
    let s2 = s1.after_collapse();
    lemma_collapse_keeps_consistency(s1);
    let s3 = s2.after_spawn(shape_draw, color_draw);
    lemma_moves_leave_landed_cells(s2, input, shape_draw, color_draw);
    let s4 = s3.after_tick(input.delta_us);
    lemma_moves_leave_landed_cells(s3, input, shape_draw, color_draw);
    let s5 = s4.after_sideways(input.left_held, input.right_held);
    lemma_moves_leave_landed_cells(s4, input, shape_draw, color_draw);
    let s6 = s5.after_hard_drop(input.down_pressed);
    lemma_moves_leave_landed_cells(s5, input, shape_draw, color_draw);
    let s7 = s6.after_rotate(input.up_pressed);
    lemma_moves_leave_landed_cells(s6, input, shape_draw, color_draw);
    lemma_fall_keeps_consistency(s7);
}

/// After the removal of the completed rows no row of the field is complete,
/// where the landed cells were consistent.
pub proof fn lemma_collapse_leaves_no_complete_row(s: GameState)
    requires
        s.consistent(),
        s.gravity.finished,
    ensures
        complete_rows(s.after_collapse().occupied) == Set::<int>::empty(),
{
    let t = s.after_collapse();
    let rows = complete_rows(s.occupied);
    let kept = s.fixed.filter(survives(rows));
    lemma_collapse_keeps_consistency(s);
    lemma_filter_keeps_cells(s.fixed, survives(rows));
    assert forall|r: int| !row_complete(t.occupied, r) by {
        if row_complete(t.occupied, r) {
            assert(t.occupied.contains(square(0, r)));
            let k0 = choose|k: int|
                0 <= k < t.fixed.len() && (#[trigger] t.fixed[k]).pos == square(0, r);
            let c0 = kept[k0];
            assert(t.fixed[k0] == settle(rows)(c0));
            assert(survives(rows)(c0));
            let y0 = c0.pos.y as int;
            assert(c0.pos.in_field());
            lemma_rows_below_range(rows, y0);
            assert forall|x: int| 0 <= x < WIDTH implies
                s.occupied.contains(#[trigger] square(x, y0),
            ) by {
                assert(t.occupied.contains(square(x, r)));
                let k = choose|k: int|
                    0 <= k < t.fixed.len() && (#[trigger] t.fixed[k]).pos == square(x, r);
                let c = kept[k];
                assert(t.fixed[k] == settle(rows)(c));
                assert(survives(rows)(c));
                assert(c.pos.in_field());
                let y = c.pos.y as int;
                lemma_rows_below_range(rows, y);
                if y < y0 {
                    lemma_rows_below_monotone(rows, y, y0);
                } else if y0 < y {
                    lemma_rows_below_monotone(rows, y0, y);
                }
                assert(c.pos == square(x, y0));
                assert(s.fixed.contains(c));
                let a = choose|a: int| 0 <= a < s.fixed.len() && s.fixed[a] == c;
                assert(s.fixed[a].pos == square(x, y0));
                assert(squares_of(s.fixed).contains(square(x, y0)));
            }
            assert(row_complete(s.occupied, y0));
            assert(rows.contains(y0));
        }
    }
    assert(complete_rows(t.occupied) =~= Set::<int>::empty());
}

/// A piece that would enter on an occupied square does not enter: the state
/// keeps its cells and its grid, and the game is lost. The pass that handles
/// the lost game then empties the grid, destroys every cell, and asks for a
/// new piece.
pub proof fn lemma_blocked_entry_ends_game(s: GameState, shape_draw: usize, color_draw: usize)
    requires
        s.spawn_requested,
        entering_piece(shape_draw, color_draw).overlaps(s.occupied),
    ensures
        ({
            let t = s.after_spawn(shape_draw, color_draw);
            t.piece == s.piece && t.fixed == s.fixed && t.occupied == s.occupied && t.game_over
                && !t.spawn_requested
        }),
        ({
            let u = s.after_spawn(shape_draw, color_draw).after_game_over();
            u.occupied == Set::<Position>::empty() && u.fixed == Seq::<FixedCell>::empty()
                && u.piece is None && u.spawn_requested && !u.game_over
        }),
{
}

/// A lateral move that one cell cannot make is made by no cell: where the
/// piece can go neither way that is asked of it, the pass for lateral moves
/// leaves the state as it is.
pub proof fn lemma_blocked_move_moves_nothing(s: GameState, left_held: bool, right_held: bool)
    requires
        s.piece matches Some(p) && (left_held ==> !p.can_shift(s.occupied, -1)) && (right_held
            ==> !p.can_shift(s.occupied, 1)),
    ensures
        s.after_sideways(left_held, right_held) == s,
{
}

/// Where no row is in `rows`, no row is counted below any row.
pub proof fn lemma_rows_below_of_no_rows(rows: Set<int>, y: int)
    requires
        forall|r: int| !rows.contains(r),
    ensures
        rows_below(rows, y) == 0,
    decreases y,
{
    if y > 0 {
        lemma_rows_below_of_no_rows(rows, y - 1);
    }
}

/// A filter that every cell passes keeps the sequence as it is.
pub proof fn lemma_filter_of_all(cells: Seq<FixedCell>, pred: spec_fn(FixedCell) -> bool)
    requires
        forall|i: int| 0 <= i < cells.len() ==> pred(#[trigger] cells[i]),
    ensures
        cells.filter(pred) == cells,
    decreases cells.len(),
{
    reveal(Seq::filter);
    if cells.len() > 0 {
        let shorter = cells.drop_last();
        assert forall|i: int| 0 <= i < shorter.len() implies pred(#[trigger] shorter[i]) by {
            assert(shorter[i] == cells[i]);
        }
        lemma_filter_of_all(shorter, pred);
        assert(pred(cells[cells.len() - 1]));
        assert(shorter.push(cells.last()) =~= cells);
    }
}

/// The removal of no rows leaves the landed cells and the grid as they are,
/// where they were consistent.
pub proof fn lemma_collapse_of_no_rows(s: GameState)
    requires
        s.consistent(),
        complete_rows(s.occupied) == Set::<int>::empty(),
    ensures
        s.after_collapse() == s,
{
    if s.gravity.finished {
        let rows = complete_rows(s.occupied);
        assert forall|i: int| 0 <= i < s.fixed.len() implies survives(rows)(#[trigger] s.fixed[i],
        ) by {}
        lemma_filter_of_all(s.fixed, survives(rows));
        let after = collapsed_cells(s.fixed, rows);
        assert forall|i: int| 0 <= i < s.fixed.len() implies after[i] == s.fixed[i] by {
            lemma_rows_below_of_no_rows(rows, s.fixed[i].pos.y as int);
        }
        assert(after =~= s.fixed);
        assert forall|p: Position| squares_of(s.fixed).contains(p) implies p.in_field() by {
            let k = choose|k: int| 0 <= k < s.fixed.len() && (#[trigger] s.fixed[k]).pos == p;
            assert(s.fixed[k].pos.in_field());
        }
        assert(s.after_collapse().occupied =~= s.occupied);
        assert(s.after_collapse() =~= s);
    }
}

impl GameState {
    /// No cell of the piece lies on an occupied square.
    pub open spec fn clear(self) -> bool {
        self.piece matches Some(p) ==> !p.overlaps(self.occupied)
    }

    /// The landed cells are consistent, the piece lies clear of them, and a
    /// completed row is there only between the fixing of a piece and the
    /// next removal of rows: with the gravity timer fired and no piece.
    pub open spec fn steady(self) -> bool {
        &&& self.consistent()
        &&& self.clear()
        &&& complete_rows(self.occupied) != Set::<int>::empty() ==> self.gravity.finished
            && self.piece is None
    }

    /// The landed cells are consistent, the piece lies clear of them, and no
    /// row is complete.
    pub open spec fn calm(self) -> bool {
        &&& self.consistent()
        &&& self.clear()
        &&& complete_rows(self.occupied) == Set::<int>::empty()
    }

    /// The pass for gravity would fix the piece although one of its cells
    /// lies above the field, or would let it fall onto an occupied square.
    pub open spec fn tops_out(self) -> bool {
        self.piece matches Some(p) && self.gravity.finished && if p.grounded(self.occupied) {
            !(p.cells[0].pos.in_field() && p.cells[1].pos.in_field() && p.cells[2].pos.in_field()
                && p.cells[3].pos.in_field())
        } else {
            p.moved(0, -1).overlaps(self.occupied)
        }
    }
}

/// A game begins in a steady state.
pub proof fn lemma_initial_state_is_steady()
    ensures
        GameState::initial().wf(),
        GameState::initial().steady(),
{
    let s = GameState::initial();
    assert(squares_of(s.fixed) =~= s.occupied);
    lemma_empty_board_has_no_complete_row();
}

/// The board without any occupied square has no complete row.
pub proof fn lemma_empty_board_has_no_complete_row()
    ensures
        complete_rows(Set::<Position>::empty()) == Set::<int>::empty(),
{
    let none = Set::<Position>::empty();
    assert forall|y: int| !row_complete(none, y) by {
        if 0 <= y < HEIGHT {
            assert(!none.contains(square(0, y)));
        }
    }
    assert(complete_rows(none) =~= Set::<int>::empty());
}

/// The pass that handles a lost game keeps a steady state steady.
pub proof fn lemma_game_over_keeps_steady(s: GameState)
    requires
        s.steady(),
    ensures
        s.after_game_over().steady(),
{
    lemma_game_over_keeps_consistency(s);
    lemma_empty_board_has_no_complete_row();
}

/// The removal of completed rows takes a steady state to a calm one.
pub proof fn lemma_collapse_makes_calm(s: GameState)
    requires
        s.steady(),
    ensures
        s.after_collapse().calm(),
{
    lemma_collapse_keeps_consistency(s);
    if complete_rows(s.occupied) == Set::<int>::empty() {
        lemma_collapse_of_no_rows(s);
    } else {
        lemma_collapse_leaves_no_complete_row(s);
    }
}

/// The entry of a piece and the advance of the timers keep a calm state
/// calm.
pub proof fn lemma_entry_and_tick_keep_calm(
    s: GameState,
    delta_us: u64,
    shape_draw: usize,
    color_draw: usize,
)
    requires
        s.calm(),
    ensures
        s.after_spawn(shape_draw, color_draw).calm(),
        s.after_tick(delta_us).calm(),
{
}

/// A piece that lies clear of the occupied squares still does after an
/// attempt to move it sideways.
pub proof fn lemma_nudged_is_clear(p: Piece, occupied: Set<Position>, dir: Direction)
    requires
        forall|q: Position| occupied.contains(q) ==> q.in_field(),
        p.wf(),
        !p.overlaps(occupied),
    ensures
        !GameState::nudged(p, occupied, dir).overlaps(occupied),
{
    if p.can_shift(occupied, dir.step()) {
        let q = p.moved(dir.step(), 0);
        assert forall|i: int| 0 <= i < 4 implies
            !occupied.contains((#[trigger] q.cells[i]).pos)
        by {
            assert(q.cells[i] == p.cells[i].moved(dir.step(), 0));
            assert(cell_wf(p.cells[i]));
            assert(may_shift(p.cells[i], occupied, dir.step()));
            if !p.cells[i].pos.in_field() {
                assert(!q.cells[i].pos.in_field());
            }
        }
    }
}

/// The pass for lateral moves keeps a calm state calm.
pub proof fn lemma_sideways_keeps_calm(s: GameState, left_held: bool, right_held: bool)
    requires
        s.wf(),
        s.calm(),
    ensures
        s.after_sideways(left_held, right_held).calm(),
{
    match s.piece {
        Some(p) => {
            let after_left = GameState::nudged(p, s.occupied, Direction::Left);
            lemma_nudged_is_wf(p, s.occupied, Direction::Left);
            lemma_nudged_is_clear(p, s.occupied, Direction::Left);
            lemma_nudged_is_clear(p, s.occupied, Direction::Right);
            lemma_nudged_is_clear(after_left, s.occupied, Direction::Right);
        },
        None => {},
    }
}

/// The pass for rotation keeps a calm state calm.
pub proof fn lemma_rotate_keeps_calm(s: GameState, up_pressed: bool)
    requires
        s.calm(),
    ensures
        s.after_rotate(up_pressed).calm(),
{
}

/// The pass for gravity takes a calm state to a steady one, unless the
/// piece tops out.
pub proof fn lemma_fall_keeps_steady(s: GameState)
    requires
        s.wf(),
        s.calm(),
        !s.tops_out(),
    ensures
        s.after_fall().steady(),
{
    lemma_fall_keeps_consistency(s);
}

/// In a frame that begins in a steady state, the state is calm when the
/// hard drop is about to act.
pub proof fn lemma_frame_is_calm_before_hard_drop(
    s: GameState,
    input: FrameInput,
    shape_draw: usize,
    color_draw: usize,
)
    requires
        s.wf(),
        s.steady(),
    ensures
        s.before_hard_drop(input, shape_draw, color_draw).wf(),
        s.before_hard_drop(input, shape_draw, color_draw).calm(),
{
    lemma_frame_keeps_wf(s, input, shape_draw, color_draw);
    let s1 = s.after_game_over();
    lemma_game_over_keeps_steady(s);
    let s2 = s1.after_collapse();
    lemma_collapse_makes_calm(s1);
    let s3 = s2.after_spawn(shape_draw, color_draw);
    lemma_entry_and_tick_keep_calm(s2, input.delta_us, shape_draw, color_draw);
    let s4 = s3.after_tick(input.delta_us);
    lemma_entry_and_tick_keep_calm(s3, input.delta_us, shape_draw, color_draw);
    lemma_passes_keep_wf(s, input, shape_draw, color_draw);
    lemma_passes_keep_wf(s1, input, shape_draw, color_draw);
    lemma_passes_keep_wf(s2, input, shape_draw, color_draw);
    lemma_passes_keep_wf(s3, input, shape_draw, color_draw);
    lemma_sideways_keeps_calm(s4, input.left_held, input.right_held);
}

/// A frame takes a steady state to a steady state: at its end, as at its
/// beginning, every landed cell lies inside the field, no two landed cells
/// lie on one square, the grid marks the squares of the landed cells and no
/// others, and the piece lies on none of them. This holds of every frame in
/// which the hard drop does not act and the piece does not top out.
pub proof fn lemma_frame_keeps_steady(
    s: GameState,
    input: FrameInput,
    shape_draw: usize,
    color_draw: usize,
)
    requires
        s.wf(),
        s.steady(),
        s.before_hard_drop(input, shape_draw, color_draw).drop_is_idle(input.down_pressed),
        !s.before_fall(input, shape_draw, color_draw).tops_out(),
    ensures
        s.after_frame(input, shape_draw, color_draw).wf(),
        s.after_frame(input, shape_draw, color_draw).steady(),
{
    lemma_frame_keeps_wf(s, input, shape_draw, color_draw);
    lemma_frame_is_calm_before_hard_drop(s, input, shape_draw, color_draw);
    let s5 = s.before_hard_drop(input, shape_draw, color_draw);
    let s6 = s5.after_hard_drop(input.down_pressed);
    assert(s6 == s5);
    let s7 = s6.after_rotate(input.up_pressed);
    lemma_rotate_keeps_calm(s6, input.up_pressed);
    lemma_fall_keeps_steady(s7);
}

/// A hard drop marks the squares on which the piece lands although the piece
/// is not fixed yet, so that the grid and the landed cells disagree until it
/// is. Where gravity acts right after the drop, they agree again: the piece
/// is fixed where it landed, and a calm state has become a steady one. This
/// holds where the piece lands with every cell inside the field.
pub proof fn lemma_hard_drop_then_fall_keeps_steady(s: GameState)
    requires
        s.wf(),
        s.calm(),
        s.gravity.finished,
        s.piece matches Some(p) && ({
            let q = p.moved(0, -p.drop_height(s.occupied));
            q.cells[0].pos.in_field() && q.cells[1].pos.in_field() && q.cells[2].pos.in_field()
                && q.cells[3].pos.in_field()
        }),
    ensures
        s.after_hard_drop(true).after_fall().steady(),
        s.after_hard_drop(true).after_fall().piece is None,
        s.after_hard_drop(true).after_fall().fixed == s.fixed + landed(
            s.piece.unwrap().moved(0, -s.piece.unwrap().drop_height(s.occupied)),
        ),
{
    let p = s.piece.unwrap();
    let h = p.drop_height(s.occupied);
    let q = p.moved(0, -h);
    let t = s.after_hard_drop(true);
    lemma_dropped_is_wf(p, s.occupied);
    lemma_hard_drop_lands(p, s.occupied);
    assert(cell_wf(p.cells[0]) && cell_wf(p.cells[1]) && cell_wf(p.cells[2]) && cell_wf(
        p.cells[3],
    ));
    assert(q.cells[0] == p.cells[0].moved(0, -h));
    assert(q.cells[1] == p.cells[1].moved(0, -h));
    assert(q.cells[2] == p.cells[2].moved(0, -h));
    assert(q.cells[3] == p.cells[3].moved(0, -h));
    if h >= 1 {
        assert(!p.collides(s.occupied, h));
    }
    assert(!q.overlaps(s.occupied));
    assert(t.occupied =~= s.occupied.union(q.squares()));
    assert(q.grounded(t.occupied)) by {
        assert forall|i: int| 0 <= i < 4 && touches_down(q.cells[i], s.occupied) implies rests(
            q.cells[i],
            t.occupied,
        ) by {
            if q.cells[i].pos.y != 0 {
                assert(t.occupied.contains(q.cells[i].pos.moved(0, -1)));
            }
        }
    }
    let u = t.after_fall();
    let mid = GameState { occupied: s.occupied, piece: Some(q), ..s };
    assert(mid.wf());
    assert(mid.consistent());
    assert(mid.lands_cleanly());
    lemma_fall_keeps_consistency(mid);
    let v = mid.after_fall();
    assert(q.grounded(s.occupied));
    assert(u.fixed == v.fixed);
    assert(u.occupied =~= v.occupied);
}

} // verus!
