//! The piece under the player's control: four cells that move as one.

use vstd::prelude::*;
use crate::board::{restamped, Board};
use crate::catalog::{lemma_shapes_are_sound, shape_offsets, ShapeKind, PALETTE_LEN};
use crate::cells::FreeCell;
use crate::geometry::{
    lemma_rotation_is_injective, lemma_rotation_keeps_reach, Position, MAX_REACH, WIDTH,
};

verus! {

/// The highest row on which a cell of a piece can lie: a piece enters with
/// its pivot one row above the field.
pub const CEILING: i32 = 20;

/// The piece under control. All four cells share one color, an index into
/// the palette.
#[derive(Clone, Copy, Debug, PartialEq, Eq)]
pub struct Piece {
    pub cells: [FreeCell; 4],
    pub color: usize,
}

/// The cell is within reach of its pivot, between the walls, and between the
/// floor and the ceiling.
pub open spec fn cell_wf(c: FreeCell) -> bool {
    c.offset.within_reach() && 0 <= c.pos.x < WIDTH && 0 <= c.pos.y <= CEILING
}

/// The cell blocks the descent of its piece: it lies inside the field, and on
/// the floor or directly above an occupied square.
pub open spec fn rests(c: FreeCell, occupied: Set<Position>) -> bool {
    c.pos.in_field() && (c.pos.y == 0 || occupied.contains(c.pos.moved(0, -1)))
}

/// The cell can go `dir` columns sideways: the column is between the walls
/// and, for a cell inside the field, the square there is not occupied.
pub open spec fn may_shift(c: FreeCell, occupied: Set<Position>, dir: int) -> bool {
    0 <= c.pos.x + dir < WIDTH && (c.pos.in_field() ==> !occupied.contains(c.pos.moved(dir, 0)))
}

/// The cell collides when it goes `k` rows down: it would pass the floor or
/// come to lie on an occupied square.
pub open spec fn hits(c: FreeCell, occupied: Set<Position>, k: int) -> bool {
    c.pos.y - k < 0 || occupied.contains(c.pos.moved(0, -k))
}

/// After a quarter turn of its piece the cell lies inside the field on a
/// square that is not occupied.
pub open spec fn fits_turned(c: FreeCell, occupied: Set<Position>) -> bool {
    c.rotated().pos.in_field() && !occupied.contains(c.rotated().pos)
}

impl Piece {
    /// The four cells are well formed, agree on the pivot, and lie at four
    /// different offsets from it; the color is one of the palette.
    pub open spec fn wf(self) -> bool {
        &&& self.color < PALETTE_LEN
        &&& forall|i: int|
            0 <= i < 4 ==> cell_wf(#[trigger] self.cells[i]) && self.cells[i].pivot()
                == self.cells[0].pivot()
        &&& forall|i: int, j: int|
            0 <= i < j < 4 ==>
                (#[trigger] self.cells[i]).offset != (#[trigger] self.cells[j]).offset
    }

    /// The piece of shape `kind` with its pivot on square `anchor`.
    pub open spec fn placed(kind: ShapeKind, color: usize, anchor: Position) -> Piece {
        Piece {
            cells: [
                FreeCell::at(anchor, shape_offsets(kind)[0]),
                FreeCell::at(anchor, shape_offsets(kind)[1]),
                FreeCell::at(anchor, shape_offsets(kind)[2]),
                FreeCell::at(anchor, shape_offsets(kind)[3]),
            ],
            color,
        }
    }

    /// A piece of shape `kind` with its pivot on `anchor` has every cell
    /// between the walls and between the floor and the ceiling, and `color`
    /// is one of the palette.
    pub open spec fn fits(kind: ShapeKind, color: usize, anchor: Position) -> bool {
        &&& color < PALETTE_LEN
        &&& forall|i: int|
            0 <= i < 4 ==> {
                let o = #[trigger] shape_offsets(kind)[i];
                0 <= anchor.x + o.dx < WIDTH && 0 <= anchor.y + o.dy <= CEILING
            }
    }

    /// The piece `dx` columns to the right and `dy` rows up.
    pub open spec fn moved(self, dx: int, dy: int) -> Piece {
        Piece {
            cells: [
                self.cells[0].moved(dx, dy),
                self.cells[1].moved(dx, dy),
                self.cells[2].moved(dx, dy),
                self.cells[3].moved(dx, dy),
            ],
            color: self.color,
        }
    }

    /// The piece after a quarter turn about its pivot.
    pub open spec fn rotated(self) -> Piece {
        Piece {
            cells: [
                self.cells[0].rotated(),
                self.cells[1].rotated(),
                self.cells[2].rotated(),
                self.cells[3].rotated(),
            ],
            color: self.color,
        }
    }

    /// The squares on which the cells of the piece lie.
    pub open spec fn squares(self) -> Set<Position> {
        set![self.cells[0].pos, self.cells[1].pos, self.cells[2].pos, self.cells[3].pos]
    }

    /// The piece cannot fall: one of its cells rests.
    pub open spec fn grounded(self, occupied: Set<Position>) -> bool {
        rests(self.cells[0], occupied) || rests(self.cells[1], occupied) || rests(
            self.cells[2],
            occupied,
        ) || rests(self.cells[3], occupied)
    }

    /// Every cell of the piece can go `dir` columns sideways.
    pub open spec fn can_shift(self, occupied: Set<Position>, dir: int) -> bool {
        may_shift(self.cells[0], occupied, dir) && may_shift(self.cells[1], occupied, dir)
            && may_shift(self.cells[2], occupied, dir) && may_shift(self.cells[3], occupied, dir)
    }

    /// One of the cells collides when the piece goes `k` rows down.
    pub open spec fn collides(self, occupied: Set<Position>, k: int) -> bool {
        hits(self.cells[0], occupied, k) || hits(self.cells[1], occupied, k) || hits(
            self.cells[2],
            occupied,
            k,
        ) || hits(self.cells[3], occupied, k)
    }

    /// The first distance, from `k` on, at which the piece collides.
    pub open spec fn first_collision(self, occupied: Set<Position>, k: int) -> int
        decreases self.cells[0].pos.y + 1 - k,
    {
        if self.collides(occupied, k) {
            k
        } else {
            self.first_collision(occupied, k + 1)
        }
    }

    /// How far a hard drop carries the piece: one row short of the first
    /// distance at which it collides.
    pub open spec fn drop_height(self, occupied: Set<Position>) -> int {
        self.first_collision(occupied, 1) - 1
    }

    /// Every cell of the piece fits after a quarter turn.
    pub open spec fn can_rotate(self, occupied: Set<Position>) -> bool {
        fits_turned(self.cells[0], occupied) && fits_turned(self.cells[1], occupied)
            && fits_turned(self.cells[2], occupied) && fits_turned(self.cells[3], occupied)
    }

    /// One of the squares of the piece is occupied.
    pub open spec fn overlaps(self, occupied: Set<Position>) -> bool {
        occupied.contains(self.cells[0].pos) || occupied.contains(self.cells[1].pos)
            || occupied.contains(self.cells[2].pos) || occupied.contains(self.cells[3].pos)
    }

    /// The lowest row on which a cell of the piece lies.
    pub open spec fn lowest_row(self) -> int {
        let a = if self.cells[0].pos.y <= self.cells[1].pos.y {
            self.cells[0].pos.y
        } else {
            self.cells[1].pos.y
        };
        let b = if self.cells[2].pos.y <= self.cells[3].pos.y {
            self.cells[2].pos.y
        } else {
            self.cells[3].pos.y
        };
        if a <= b {
            a as int
        } else {
            b as int
        }
    }
}

/// The two directions of a lateral move.
#[derive(Clone, Copy, Debug, PartialEq, Eq, Structural)]
pub enum Direction {
    Left,
    Right,
}

impl Direction {
    /// The change of column that one step in this direction makes.
    pub open spec fn step(self) -> int {
        match self {
            Direction::Left => -1,
            Direction::Right => 1,
        }
    }

    /// The change of column that one step in this direction makes.
    pub fn delta(self) -> (dx: i32)
        ensures
            dx == self.step(),
    {
        match self {
            Direction::Left => -1,
            Direction::Right => 1,
        }
    }
}

/// A piece that fits where it is placed is well formed.
pub proof fn lemma_placed_is_wf(kind: ShapeKind, color: usize, anchor: Position)
    requires
        Piece::fits(kind, color, anchor),
    ensures
        Piece::placed(kind, color, anchor).wf(),
{
    lemma_shapes_are_sound(kind);
    let p = Piece::placed(kind, color, anchor);
    assert forall|i: int| 0 <= i < 4 implies cell_wf(#[trigger] p.cells[i]) && p.cells[i].pivot()
        == p.cells[0].pivot() by {
        assert(p.cells[i] == FreeCell::at(anchor, shape_offsets(kind)[i]));
        assert(shape_offsets(kind)[i].within_reach());
        assert(shape_offsets(kind)[0].within_reach());
    }
    assert forall|i: int, j: int| 0 <= i < j < 4 implies
        (#[trigger] p.cells[i]).offset != (#[trigger] p.cells[j]).offset
    by {
        assert(p.cells[i].offset == shape_offsets(kind)[i]);
        assert(p.cells[j].offset == shape_offsets(kind)[j]);
    }
}

/// A well-formed piece stays well formed when it moves, as long as every
/// cell stays between the walls and between the floor and the ceiling.
pub proof fn lemma_moved_is_wf(p: Piece, dx: int, dy: int)
    requires
        p.wf(),
        forall|i: int|
            0 <= i < 4 ==> 0 <= (#[trigger] p.cells[i]).pos.x + dx < WIDTH && 0 <= p.cells[i].pos.y
                + dy <= CEILING,
    ensures
        p.moved(dx, dy).wf(),
{
    let q = p.moved(dx, dy);
    assert forall|i: int| 0 <= i < 4 implies cell_wf(#[trigger] q.cells[i]) && q.cells[i].pivot()
        == q.cells[0].pivot() by {
        assert(q.cells[i] == p.cells[i].moved(dx, dy));
        assert(q.cells[0] == p.cells[0].moved(dx, dy));
        assert(cell_wf(p.cells[i]));
        assert(cell_wf(p.cells[0]));
    }
    assert forall|i: int, j: int| 0 <= i < j < 4 implies
        (#[trigger] q.cells[i]).offset != (#[trigger] q.cells[j]).offset
    by {
        assert(q.cells[i].offset == p.cells[i].offset);
        assert(q.cells[j].offset == p.cells[j].offset);
    }
}

/// A well-formed piece stays well formed under a quarter turn that leaves
/// every cell inside the field.
pub proof fn lemma_rotated_is_wf(p: Piece)
    requires
        p.wf(),
        forall|i: int| 0 <= i < 4 ==> (#[trigger] p.cells[i]).rotated().pos.in_field(),
    ensures
        p.rotated().wf(),
{
    let q = p.rotated();
    assert forall|i: int| 0 <= i < 4 implies cell_wf(#[trigger] q.cells[i]) && q.cells[i].pivot()
        == q.cells[0].pivot() by {
        assert(q.cells[i] == p.cells[i].rotated());
        assert(q.cells[0] == p.cells[0].rotated());
        assert(cell_wf(p.cells[i]));
        assert(cell_wf(p.cells[0]));
        lemma_rotation_keeps_reach(p.cells[i].offset);
        lemma_rotation_keeps_reach(p.cells[0].offset);
    }
    assert forall|i: int, j: int| 0 <= i < j < 4 implies
        (#[trigger] q.cells[i]).offset != (#[trigger] q.cells[j]).offset
    by {
        assert(q.cells[i].offset == p.cells[i].offset.rotated());
        assert(q.cells[j].offset == p.cells[j].offset.rotated());
        assert(cell_wf(p.cells[i]));
        assert(cell_wf(p.cells[j]));
        lemma_rotation_is_injective(p.cells[i].offset, p.cells[j].offset);
    }
}

/// From distance `k` on, the piece first collides at `first_collision`: not
/// before, and no later than one row below its first cell.
pub proof fn lemma_first_collision(p: Piece, occupied: Set<Position>, k: int)
    requires
        k <= p.cells[0].pos.y + 1,
    ensures
        k <= p.first_collision(occupied, k) <= p.cells[0].pos.y + 1,
        p.collides(occupied, p.first_collision(occupied, k)),
        forall|j: int| k <= j < p.first_collision(occupied, k) ==> !p.collides(occupied, j),
    decreases p.cells[0].pos.y + 1 - k,
{
    if !p.collides(occupied, k) {
        lemma_first_collision(p, occupied, k + 1);
    }
}

impl Piece {
    /// Places a piece of shape `kind` with its pivot on `anchor`, if every
    /// cell then lies between the walls and between the floor and the
    /// ceiling and `color` is one of the palette.
    pub fn place(kind: ShapeKind, color: usize, anchor: Position) -> (piece: Option<Piece>)
        ensures
            Piece::fits(kind, color, anchor) ==> piece == Some(Piece::placed(kind, color, anchor)),
            !Piece::fits(kind, color, anchor) ==> piece is None,
            piece matches Some(p) ==> p.wf(),
    {
        if color >= PALETTE_LEN {
            return None;
        }
        let offsets = kind.offsets();
        proof {
            lemma_shapes_are_sound(kind);
        }
        let pivot = FreeCell { pos: anchor, offset: offsets[0] };
        let mut cells: [FreeCell; 4] = [pivot; 4];
        let mut i: usize = 0;
        while i < 4
            invariant
                0 <= i <= 4,
                offsets == shape_offsets(kind),
                color < PALETTE_LEN,
                forall|j: int| 0 <= j < 4 ==> (#[trigger] offsets[j]).within_reach(),
                forall|j: int|
                    0 <= j < i ==> {
                        let o = #[trigger] shape_offsets(kind)[j];
                        0 <= anchor.x + o.dx < WIDTH && 0 <= anchor.y + o.dy <= CEILING
                    },
                forall|j: int| 0 <= j < i ==> #[trigger] cells[j] == FreeCell::at(anchor, offsets[j]),
            decreases 4 - i,
        {
            let o = offsets[i];
            assert(o.within_reach());
            let x: i64 = anchor.x as i64 + o.dx as i64;
            let y: i64 = anchor.y as i64 + o.dy as i64;
            if x < 0 || x >= WIDTH as i64 || y < 0 || y > CEILING as i64 {
                assert(!Piece::fits(kind, color, anchor)) by {
                    let bad = shape_offsets(kind)[i as int];
                    assert(!(0 <= anchor.x + bad.dx < WIDTH && 0 <= anchor.y + bad.dy <= CEILING));
                }
                return None;
            }
            cells[i] = FreeCell { pos: Position { x: x as i32, y: y as i32 }, offset: o };
            i = i + 1;
        }
        let piece = Piece { cells, color };
        proof {
            assert(Piece::fits(kind, color, anchor));
            assert(piece.cells =~= Piece::placed(kind, color, anchor).cells);
            lemma_placed_is_wf(kind, color, anchor);
        }
        Some(piece)
    }

    /// Tells whether the piece is well formed.
    pub fn is_valid(&self) -> (valid: bool)
        ensures
            valid == self.wf(),
    {
        if self.color >= PALETTE_LEN {
            return false;
        }
        let first = self.cells[0];
        let mut i: usize = 0;
        while i < 4
            invariant
                0 <= i <= 4,
                first == self.cells[0],
                forall|j: int|
                    0 <= j < i ==> cell_wf(#[trigger] self.cells[j]) && self.cells[j].pivot()
                        == self.cells[0].pivot(),
                forall|a: int, b: int|
                    0 <= a < b < i ==>
                        (#[trigger] self.cells[a]).offset != (#[trigger] self.cells[b]).offset,
            decreases 4 - i,
        {
            let c = self.cells[i];
            let reach_ok = -MAX_REACH <= c.offset.dx && c.offset.dx <= MAX_REACH && -MAX_REACH
                <= c.offset.dy && c.offset.dy <= MAX_REACH;
            let square_ok = 0 <= c.pos.x && c.pos.x < WIDTH as i32 && 0 <= c.pos.y && c.pos.y
                <= CEILING;
            if !reach_ok || !square_ok {
                assert(!cell_wf(self.cells[i as int]));
                return false;
            }
            if i > 0 && (c.pos.x - c.offset.dx != first.pos.x - first.offset.dx || c.pos.y
                - c.offset.dy != first.pos.y - first.offset.dy) {
                assert(self.cells[i as int].pivot() != self.cells[0].pivot());
                return false;
            }
            let mut k: usize = 0;
            while k < i
                invariant
                    0 <= k <= i < 4,
                    c == self.cells[i as int],
                    forall|a: int| 0 <= a < k ==> (#[trigger] self.cells[a]).offset != c.offset,
                decreases i - k,
            {
                let other = self.cells[k];
                if other.offset.dx == c.offset.dx && other.offset.dy == c.offset.dy {
                    assert(self.cells[k as int].offset == self.cells[i as int].offset);
                    return false;
                }
                k = k + 1;
            }
            i = i + 1;
        }
        true
    }

    /// Moves every cell `dx` columns to the right and `dy` rows up.
    fn shift_by(&mut self, dx: i32, dy: i32)
        requires
            old(self).wf(),
            -CEILING <= dx <= CEILING,
            -CEILING <= dy <= CEILING,
        ensures
            *final(self) == old(self).moved(dx as int, dy as int),
    {
        let mut i: usize = 0;
        while i < 4
            invariant
                0 <= i <= 4,
                old(self).wf(),
                -CEILING <= dx <= CEILING,
                -CEILING <= dy <= CEILING,
                self.color == old(self).color,
                forall|j: int|
                    0 <= j < i ==> #[trigger] self.cells[j] == old(self).cells[j].moved(
                        dx as int,
                        dy as int,
                    ),
                forall|j: int| i <= j < 4 ==> #[trigger] self.cells[j] == old(self).cells[j],
            decreases 4 - i,
        {
            let c = self.cells[i];
            assert(cell_wf(old(self).cells[i as int]));
            self.cells[i] = FreeCell {
                pos: Position { x: c.pos.x + dx, y: c.pos.y + dy },
                offset: c.offset,
            };
            i = i + 1;
        }
        assert(self.cells =~= old(self).moved(dx as int, dy as int).cells);
    }

    /// Tells whether the piece cannot fall: whether one of its cells lies
    /// inside the field on the floor or directly above an occupied square.
    pub fn is_grounded(&self, board: &Board) -> (grounded: bool)
        requires
            self.wf(),
        ensures
            grounded == self.grounded(board@),
    {
        let mut i: usize = 0;
        while i < 4
            invariant
                0 <= i <= 4,
                self.wf(),
                forall|j: int| 0 <= j < i ==> !rests(#[trigger] self.cells[j], board@),
            decreases 4 - i,
        {
            let c = self.cells[i];
            assert(cell_wf(self.cells[i as int]));
            if c.pos.is_in_field() && (c.pos.y == 0 || board.occupied_at(
                Position { x: c.pos.x, y: c.pos.y - 1 },
            )) {
                assert(rests(self.cells[i as int], board@));
                return true;
            }
            i = i + 1;
        }
        false
    }

    /// Lets the piece fall by one row, unless it is grounded. Says whether it
    /// fell; a grounded piece stays as it is.
    pub fn descend(&mut self, board: &Board) -> (fell: bool)
        requires
            old(self).wf(),
        ensures
            fell == !old(self).grounded(board@),
            fell ==> *final(self) == old(self).moved(0, -1),
            !fell ==> *final(self) == *old(self),
            final(self).wf(),
    {
        if self.is_grounded(board) {
            false
        } else {
            proof {
                assert forall|i: int| 0 <= i < 4 implies 0 <= (#[trigger] self.cells[i]).pos.x + 0
                    < WIDTH && 0 <= self.cells[i].pos.y + (-1) <= CEILING by {
                    assert(cell_wf(self.cells[i]));
                    assert(!rests(self.cells[i], board@));
                }
                lemma_moved_is_wf(*self, 0, -1);
            }
            self.shift_by(0, -1);
            true
        }
    }

    /// Tells whether every cell can go one column in direction `dir`.
    pub fn shift_allowed(&self, board: &Board, dir: Direction) -> (allowed: bool)
        requires
            self.wf(),
        ensures
            allowed == self.can_shift(board@, dir.step()),
    {
        let dx: i32 = dir.delta();
        let mut i: usize = 0;
        while i < 4
            invariant
                0 <= i <= 4,
                self.wf(),
                dx == dir.step(),
                forall|j: int| 0 <= j < i ==> may_shift(#[trigger] self.cells[j], board@, dx as int),
            decreases 4 - i,
        {
            let c = self.cells[i];
            assert(cell_wf(self.cells[i as int]));
            let x: i32 = c.pos.x + dx;
            if x < 0 || x >= WIDTH as i32 {
                assert(!may_shift(self.cells[i as int], board@, dx as int));
                return false;
            }
            if c.pos.is_in_field() && board.is_occupied(x, c.pos.y) {
                assert(!may_shift(self.cells[i as int], board@, dx as int));
                return false;
            }
            assert(may_shift(self.cells[i as int], board@, dx as int));
            i = i + 1;
        }
        true
    }

    /// Moves the piece one column in direction `dir` if every cell can go
    /// there, and leaves every cell where it is if one of them cannot. Says
    /// whether the piece moved.
    pub fn try_shift(&mut self, board: &Board, dir: Direction) -> (shifted: bool)
        requires
            old(self).wf(),
        ensures
            shifted == old(self).can_shift(board@, dir.step()),
            shifted ==> *final(self) == old(self).moved(dir.step(), 0),
            !shifted ==> *final(self) == *old(self),
            final(self).wf(),
    {
        if self.shift_allowed(board, dir) {
            proof {
                assert forall|i: int| 0 <= i < 4 implies 0 <= (#[trigger] self.cells[i]).pos.x
                    + dir.step() < WIDTH && 0 <= self.cells[i].pos.y + 0 <= CEILING by {
                    assert(cell_wf(self.cells[i]));
                    assert(may_shift(self.cells[i], board@, dir.step()));
                }
                lemma_moved_is_wf(*self, dir.step(), 0);
            }
            self.shift_by(dir.delta(), 0);
            true
        } else {
            false
        }
    }

    /// Tells whether one of the cells collides when the piece goes `k` rows
    /// down.
    pub fn collides_at(&self, board: &Board, k: i32) -> (collides: bool)
        requires
            self.wf(),
            0 <= k <= CEILING + 1,
        ensures
            collides == self.collides(board@, k as int),
    {
        let mut i: usize = 0;
        while i < 4
            invariant
                0 <= i <= 4,
                self.wf(),
                0 <= k <= CEILING + 1,
                forall|j: int| 0 <= j < i ==> !hits(#[trigger] self.cells[j], board@, k as int),
            decreases 4 - i,
        {
            let c = self.cells[i];
            assert(cell_wf(self.cells[i as int]));
            if c.pos.y - k < 0 || board.occupied_at(Position { x: c.pos.x, y: c.pos.y - k }) {
                assert(hits(self.cells[i as int], board@, k as int));
                return true;
            }
            i = i + 1;
        }
        false
    }

    /// Finds how far a hard drop carries the piece, by probing one row
    /// further down at a time until a cell would pass the floor or come to
    /// lie on an occupied square.
    pub fn drop_distance(&self, board: &Board) -> (height: i32)
        requires
            self.wf(),
        ensures
            height == self.drop_height(board@),
            0 <= height <= self.lowest_row(),
            self.collides(board@, height + 1),
            forall|k: int| 1 <= k <= height ==> !self.collides(board@, k),
    {
        proof {
            assert(cell_wf(self.cells[0]));
            assert(cell_wf(self.cells[1]));
            assert(cell_wf(self.cells[2]));
            assert(cell_wf(self.cells[3]));
            lemma_first_collision(*self, board@, 1);
        }
        let mut k: i32 = 1;
        while !self.collides_at(board, k)
            invariant
                1 <= k <= CEILING + 1,
                self.wf(),
                self.first_collision(board@, k as int) == self.first_collision(board@, 1),
            decreases CEILING + 1 - k,
        {
            assert(cell_wf(self.cells[0]));
            k = k + 1;
        }
        proof {
            let h = k - 1;
            if h >= 1 {
                assert(!self.collides(board@, h as int));
            }
        }
        k - 1
    }

    /// Tells whether one of the squares of the piece is occupied.
    pub fn is_blocked(&self, board: &Board) -> (blocked: bool)
        ensures
            blocked == self.overlaps(board@),
    {
        board.occupied_at(self.cells[0].pos) || board.occupied_at(self.cells[1].pos)
            || board.occupied_at(self.cells[2].pos) || board.occupied_at(self.cells[3].pos)
    }

    /// Writes `occupied` into the grid at every square of the piece that lies
    /// inside the field.
    pub fn stamp(&self, board: &mut Board, occupied: bool)
        ensures
            final(board)@ == if occupied {
                restamped(old(board)@, Set::<Position>::empty(), self.squares())
            } else {
                restamped(old(board)@, self.squares(), Set::<Position>::empty())
            },
    {
        board.mark(self.cells[0].pos, occupied);
        board.mark(self.cells[1].pos, occupied);
        board.mark(self.cells[2].pos, occupied);
        board.mark(self.cells[3].pos, occupied);
        assert(board@ =~= if occupied {
            restamped(old(board)@, Set::<Position>::empty(), self.squares())
        } else {
            restamped(old(board)@, self.squares(), Set::<Position>::empty())
        });
    }

    /// Drops the piece as far as it goes without a collision. The marks on
    /// the squares that the piece leaves are cleared first, then the squares
    /// on which it lands are marked. Returns the number of rows it fell.
    pub fn hard_drop(&mut self, board: &mut Board) -> (height: i32)
        requires
            old(self).wf(),
        ensures
            height == old(self).drop_height(old(board)@),
            *final(self) == old(self).moved(0, -height),
            final(board)@ == restamped(old(board)@, old(self).squares(), final(self).squares()),
            final(self).wf(),
    {
        let height: i32 = self.drop_distance(board);
        proof {
            lemma_dropped_is_wf(*self, board@);
        }
        self.stamp(board, false);
        self.shift_by(0, -height);
        self.stamp(board, true);
        assert(board@ =~= restamped(old(board)@, old(self).squares(), self.squares()));
        height
    }

    /// Tells whether every cell, after a quarter turn of the piece, lies
    /// inside the field on a square that is not occupied.
    pub fn rotation_allowed(&self, board: &Board) -> (allowed: bool)
        requires
            self.wf(),
        ensures
            allowed == self.can_rotate(board@),
    {
        let mut i: usize = 0;
        while i < 4
            invariant
                0 <= i <= 4,
                self.wf(),
                forall|j: int| 0 <= j < i ==> fits_turned(#[trigger] self.cells[j], board@),
            decreases 4 - i,
        {
            let c = self.cells[i];
            assert(cell_wf(self.cells[i as int]));
            let turned = turn_cell(c);
            if !turned.pos.is_in_field() || board.is_occupied(turned.pos.x, turned.pos.y) {
                assert(!fits_turned(self.cells[i as int], board@));
                return false;
            }
            i = i + 1;
        }
        true
    }

    /// Turns the piece by a quarter turn about its pivot if every cell then
    /// lies inside the field on a square that is not occupied, and leaves
    /// every cell as it is if one of them does not. Says whether the piece
    /// turned.
    pub fn try_rotate(&mut self, board: &Board) -> (turned: bool)
        requires
            old(self).wf(),
        ensures
            turned == old(self).can_rotate(board@),
            turned ==> *final(self) == old(self).rotated(),
            !turned ==> *final(self) == *old(self),
            final(self).wf(),
    {
        if !self.rotation_allowed(board) {
            return false;
        }
        proof {
            assert forall|i: int| 0 <= i < 4 implies
                (#[trigger] self.cells[i]).rotated().pos.in_field()
            by {
                assert(fits_turned(self.cells[i], board@));
            }
            lemma_rotated_is_wf(*self);
        }
        let mut i: usize = 0;
        while i < 4
            invariant
                0 <= i <= 4,
                old(self).wf(),
                self.color == old(self).color,
                forall|j: int| 0 <= j < i ==> #[trigger] self.cells[j] == old(self).cells[j].rotated(),
                forall|j: int| i <= j < 4 ==> #[trigger] self.cells[j] == old(self).cells[j],
            decreases 4 - i,
        {
            assert(cell_wf(old(self).cells[i as int]));
            let c = self.cells[i];
            self.cells[i] = turn_cell(c);
            i = i + 1;
        }
        assert(self.cells =~= old(self).rotated().cells);
        true
    }
}

/// The cell after a quarter turn of its piece about the pivot: the pivot is
/// the cell's square less its offset, and the new square is the pivot plus
/// the turned offset.
pub fn turn_cell(c: FreeCell) -> (turned: FreeCell)
    requires
        cell_wf(c),
    ensures
        turned == c.rotated(),
{
    let pivot_x: i32 = c.pos.x - c.offset.dx;
    let pivot_y: i32 = c.pos.y - c.offset.dy;
    let offset = c.offset.rotate();
    FreeCell { pos: Position { x: pivot_x + offset.dx, y: pivot_y + offset.dy }, offset }
}

/// A hard drop carries a well-formed piece to where it is still well formed,
/// by a distance that is not negative.
pub proof fn lemma_dropped_is_wf(p: Piece, occupied: Set<Position>)
    requires
        p.wf(),
    ensures
        0 <= p.drop_height(occupied) <= p.lowest_row(),
        p.moved(0, -p.drop_height(occupied)).wf(),
{
    let h = p.drop_height(occupied);
    assert(cell_wf(p.cells[0]) && cell_wf(p.cells[1]) && cell_wf(p.cells[2]) && cell_wf(
        p.cells[3],
    ));
    lemma_first_collision(p, occupied, 1);
    if h >= 1 {
        assert(!p.collides(occupied, h));
    }
    assert forall|i: int| 0 <= i < 4 implies 0 <= (#[trigger] p.cells[i]).pos.x + 0 < WIDTH && 0
        <= p.cells[i].pos.y + (-h) <= CEILING by {
        assert(cell_wf(p.cells[i]));
        if h >= 1 {
            assert(!hits(p.cells[i], occupied, h));
        }
    }
    lemma_moved_is_wf(p, 0, -h);
}

/// The cell lies on the floor or directly above an occupied square.
pub open spec fn touches_down(c: FreeCell, occupied: Set<Position>) -> bool {
    c.pos.y == 0 || occupied.contains(c.pos.moved(0, -1))
}

/// The square `k` rows below the cell is not occupied, for every `k` from
/// one on.
pub open spec fn nothing_below(c: FreeCell, occupied: Set<Position>) -> bool {
    forall|k: int| 1 <= k ==> !occupied.contains(#[trigger] c.pos.moved(0, -k))
}

/// A hard drop lands the piece: after it, one of the cells lies on the floor
/// or directly above a square that was occupied, and on the way down no cell
/// collided.
pub proof fn lemma_hard_drop_lands(p: Piece, occupied: Set<Position>)
    requires
        p.wf(),
    ensures
        ({
            let h = p.drop_height(occupied);
            let q = p.moved(0, -h);
            &&& 0 <= h
            &&& forall|k: int| 1 <= k <= h ==> !p.collides(occupied, k)
            &&& touches_down(q.cells[0], occupied) || touches_down(q.cells[1], occupied)
                || touches_down(q.cells[2], occupied) || touches_down(q.cells[3], occupied)
        }),
{
    let h = p.drop_height(occupied);
    lemma_dropped_is_wf(p, occupied);
    lemma_first_collision(p, occupied, 1);
    assert(cell_wf(p.cells[0]) && cell_wf(p.cells[1]) && cell_wf(p.cells[2]) && cell_wf(
        p.cells[3],
    ));
    assert(p.collides(occupied, h + 1));
    if h >= 1 {
        assert(!p.collides(occupied, h));
    }
}

/// A hard drop of a piece with nothing below it carries the piece down by
/// as many rows as its lowest cell is above the floor.
pub proof fn lemma_free_hard_drop_reaches_floor(p: Piece, occupied: Set<Position>)
    requires
        p.wf(),
        nothing_below(p.cells[0], occupied),
        nothing_below(p.cells[1], occupied),
        nothing_below(p.cells[2], occupied),
        nothing_below(p.cells[3], occupied),
    ensures
        p.drop_height(occupied) == p.lowest_row(),
{
    let low = p.lowest_row();
    assert(cell_wf(p.cells[0]) && cell_wf(p.cells[1]) && cell_wf(p.cells[2]) && cell_wf(
        p.cells[3],
    ));
    lemma_first_collision(p, occupied, 1);
    let r = p.first_collision(occupied, 1);
    assert forall|k: int| 1 <= k implies (p.collides(occupied, k) <==> k > low) by {
        let _ = p.cells[0].pos.moved(0, -k);
        let _ = p.cells[1].pos.moved(0, -k);
        let _ = p.cells[2].pos.moved(0, -k);
        let _ = p.cells[3].pos.moved(0, -k);
    }
    if r > low + 1 {
        assert(p.collides(occupied, low + 1));
    }
}

} // verus!
