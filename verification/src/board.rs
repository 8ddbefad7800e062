//! The occupancy grid of the playing field.

use vstd::prelude::*;
use crate::geometry::{Position, HEIGHT, WIDTH};

verus! {

/// The occupancy grid: one flag for each square of the field, `true` where a
/// landed cell lies. `cells[y][x]` is the flag of column `x` in row `y`.
#[derive(Clone, Copy, Debug)]
pub struct Board {
    pub cells: [[bool; WIDTH]; HEIGHT],
}

impl View for Board {
    type V = Set<Position>;

    /// The set of occupied squares.
    open spec fn view(&self) -> Set<Position> {
        Set::new(|p: Position| p.in_field() && self.cells[p.y as int][p.x as int])
    }
}

/// The square in column `x` of row `y`.
pub open spec fn square(x: int, y: int) -> Position {
    Position { x: x as i32, y: y as i32 }
}

/// Every square of row `y` is in `occupied`.
pub open spec fn row_complete(occupied: Set<Position>, y: int) -> bool {
    0 <= y < HEIGHT && forall|x: int| 0 <= x < WIDTH ==> occupied.contains(#[trigger] square(x, y))
}

/// The rows of the field that `occupied` fills from wall to wall.
pub open spec fn complete_rows(occupied: Set<Position>) -> Set<int> {
    Set::new(|y: int| row_complete(occupied, y))
}

/// The occupied squares after the marks on the squares of `cleared` are
/// cleared and then the squares of `marked` are marked, as far as they lie
/// inside the field.
pub open spec fn restamped(
    occupied: Set<Position>,
    cleared: Set<Position>,
    marked: Set<Position>,
) -> Set<Position> {
    Set::new(
        |p: Position|
            p.in_field() && (marked.contains(p) || (occupied.contains(p) && !cleared.contains(p))),
    )
}

/// How many rows of `rows` lie strictly below row `y`.
pub open spec fn rows_below(rows: Set<int>, y: int) -> int
    decreases y,
{
    if y <= 0 {
        0
    } else {
        rows_below(rows, y - 1) + if rows.contains(y - 1) {
            1int
        } else {
            0int
        }
    }
}

impl Board {
    /// The board with no square occupied.
    pub fn new() -> (board: Board)
        ensures
            board@ == Set::<Position>::empty(),
    {
        let board = Board { cells: [[false; WIDTH]; HEIGHT] };
        assert(board@ =~= Set::<Position>::empty());
        board
    }

    /// Reads the flag of the square in column `x` of row `y`. The square must
    /// lie inside the field.
    pub fn is_occupied(&self, x: i32, y: i32) -> (occupied: bool)
        requires
            0 <= x < WIDTH,
            0 <= y < HEIGHT,
        ensures
            occupied == self@.contains(Position { x, y }),
    {
        self.cells[y as usize][x as usize]
    }

    /// Reads the flag of square `p`; a square outside the field is never
    /// occupied.
    pub fn occupied_at(&self, p: Position) -> (occupied: bool)
        ensures
            occupied == self@.contains(p),
    {
        p.is_in_field() && self.cells[p.y as usize][p.x as usize]
    }

    /// Writes the flag of the square in column `x` of row `y`. The square
    /// must lie inside the field.
    pub fn set(&mut self, x: i32, y: i32, occupied: bool)
        requires
            0 <= x < WIDTH,
            0 <= y < HEIGHT,
        ensures
            final(self)@ == if occupied {
                old(self)@.insert(Position { x, y })
            } else {
                old(self)@.remove(Position { x, y })
            },
    {
        self.cells[y as usize][x as usize] = occupied;
        assert(self@ =~= if occupied {
            old(self)@.insert(Position { x, y })
        } else {
            old(self)@.remove(Position { x, y })
        });
    }

    /// Writes the flag of square `p` where `p` lies inside the field, and
    /// leaves the board as it is where it does not.
    pub fn mark(&mut self, p: Position, occupied: bool)
        ensures
            final(self)@ == if !p.in_field() {
                old(self)@
            } else if occupied {
                old(self)@.insert(p)
            } else {
                old(self)@.remove(p)
            },
    {
        if p.is_in_field() {
            self.set(p.x, p.y, occupied);
        }
    }

    /// Tells whether every square of row `y` is occupied.
    pub fn is_row_complete(&self, y: i32) -> (complete: bool)
        ensures
            complete == row_complete(self@, y as int),
    {
        if y < 0 || y >= HEIGHT as i32 {
            return false;
        }
        let mut x: i32 = 0;
        while x < WIDTH as i32
            invariant
                0 <= x <= WIDTH,
                0 <= y < HEIGHT,
                forall|k: int| 0 <= k < x ==> self@.contains(#[trigger] square(k, y as int)),
            decreases WIDTH - x,
        {
            if !self.cells[y as usize][x as usize] {
                assert(!self@.contains(square(x as int, y as int)));
                return false;
            }
            assert(self@.contains(square(x as int, y as int)));
            x = x + 1;
        }
        true
    }

    /// Finds the rows in which every square is occupied.
    pub fn find_complete_rows(&self) -> (rows: RowSet)
        ensures
            rows@ == complete_rows(self@),
    {
        let mut rows = RowSet::empty();
        let mut y: i32 = 0;
        while y < HEIGHT as i32
            invariant
                0 <= y <= HEIGHT,
                forall|r: int| rows@.contains(r) <==> 0 <= r < y && row_complete(self@, r),
            decreases HEIGHT - y,
        {
            if self.is_row_complete(y) {
                rows.insert(y);
            }
            y = y + 1;
        }
        assert(rows@ =~= complete_rows(self@));
        rows
    }
}

/// A set of rows of the field.
#[derive(Clone, Copy, Debug)]
pub struct RowSet {
    pub flags: [bool; HEIGHT],
}

impl View for RowSet {
    type V = Set<int>;

    /// The rows that belong to the set.
    open spec fn view(&self) -> Set<int> {
        Set::new(|y: int| 0 <= y < HEIGHT && self.flags[y])
    }
}

impl RowSet {
    /// The set without any row.
    pub fn empty() -> (rows: RowSet)
        ensures
            rows@ == Set::<int>::empty(),
    {
        let rows = RowSet { flags: [false; HEIGHT] };
        assert(rows@ =~= Set::<int>::empty());
        rows
    }

    /// Adds row `y` to the set. A row outside the field is not added.
    pub fn insert(&mut self, y: i32)
        ensures
            final(self)@ == if 0 <= y < HEIGHT {
                old(self)@.insert(y as int)
            } else {
                old(self)@
            },
    {
        if 0 <= y && y < HEIGHT as i32 {
            self.flags[y as usize] = true;
        }
        assert(self@ =~= if 0 <= y < HEIGHT {
            old(self)@.insert(y as int)
        } else {
            old(self)@
        });
    }

    /// Tells whether row `y` belongs to the set.
    pub fn contains(&self, y: i32) -> (found: bool)
        ensures
            found == self@.contains(y as int),
    {
        0 <= y && y < HEIGHT as i32 && self.flags[y as usize]
    }

    /// Counts the rows of the set that lie strictly below row `y`.
    pub fn count_below(&self, y: i32) -> (count: i32)
        ensures
            count == rows_below(self@, y as int),
            0 <= count <= HEIGHT,
            y >= 0 ==> count <= y,
    {
        let mut count: i32 = 0;
        let mut r: i32 = 0;
        while r < y && r < HEIGHT as i32
            invariant
                0 <= r <= HEIGHT,
                y >= 0 ==> r <= y,
                y < 0 ==> r == 0,
                0 <= count <= r,
                count == rows_below(self@, r as int),
            decreases HEIGHT - r,
        {
            if self.flags[r as usize] {
                count = count + 1;
            }
            r = r + 1;
        }
        proof {
            if y > r {
                lemma_rows_below_above_field(self@, y as int);
            }
        }
        count
    }

    /// The number of rows in the set.
    pub fn len(&self) -> (count: i32)
        ensures
            count == rows_below(self@, HEIGHT as int),
            0 <= count <= HEIGHT,
    {
        self.count_below(HEIGHT as i32)
    }
}

/// Rows outside the field do not count: from the top of the field upward the
/// count stays what it is at the top.
pub proof fn lemma_rows_below_above_field(rows: Set<int>, y: int)
    requires
        forall|r: int| rows.contains(r) ==> 0 <= r < HEIGHT,
        y >= HEIGHT,
    ensures
        rows_below(rows, y) == rows_below(rows, HEIGHT as int),
    decreases y,
{
    if y > HEIGHT {
        lemma_rows_below_above_field(rows, y - 1);
    }
}

/// The count of rows below `y` is never negative, and from the floor upward
/// it is at most `y`.
pub proof fn lemma_rows_below_range(rows: Set<int>, y: int)
    ensures
        0 <= rows_below(rows, y),
        y >= 0 ==> rows_below(rows, y) <= y,
    decreases y,
{
    if y > 0 {
        lemma_rows_below_range(rows, y - 1);
    }
}

/// Going up from row `a` to row `b` the count grows, by at most the
/// distance, and by less than the distance where row `a` itself is not
/// counted.
pub proof fn lemma_rows_below_monotone(rows: Set<int>, a: int, b: int)
    requires
        a <= b,
    ensures
        rows_below(rows, a) <= rows_below(rows, b),
        rows_below(rows, b) - rows_below(rows, a) <= b - a,
        a < b && !rows.contains(a) ==> rows_below(rows, b) - rows_below(rows, a) < b - a,
    decreases b - a,
{
    if a < b {
        lemma_rows_below_monotone(rows, a, b - 1);
        lemma_rows_below_range(rows, a);
    }
}

} // verus!
