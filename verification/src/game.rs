//! The game as a whole: its state, the passes of a frame, and the frame.
//!
//! A frame runs its passes in a fixed order: the lost game is handled,
//! completed rows are removed, a piece enters, the timers advance, and then
//! the lateral move, the hard drop, the rotation and gravity act. The passes
//! leave each other two signals, "a new piece is needed" and "the game is
//! lost". A signal waits in the state until the pass that it is meant for
//! runs next, which consumes it: the removal of rows and the entry of a piece
//! thus follow the fixing of a piece in the next frame, and the reset follows
//! a blocked entry in the next frame.

use vstd::prelude::*;
use crate::board::{complete_rows, restamped, Board};
use crate::catalog::{
    color_for_draw, drawn_color, drawn_shape, lemma_shapes_are_sound, random_draw,
    shape_for_draw, shape_offsets,
};
use crate::cells::{squares_of, FixedCell};
use crate::collapse::collapsed_cells;
use crate::geometry::{Position, HEIGHT, MAX_REACH, WIDTH};
use crate::piece::{lemma_placed_is_wf, Direction, Piece, CEILING};
use crate::timer::Timer;

verus! {

/// Period of the gravity timer, in milliseconds.
pub const GRAVITY_INTERVAL_MS: u32 = 400;

/// Period of the timer that paces repeated lateral moves, in milliseconds.
pub const INPUT_INTERVAL_MS: u32 = 100;

/// Column of the pivot of a piece that enters: the middle of the field.
pub const SPAWN_X: i32 = 5;

/// Row of the pivot of a piece that enters: one row above the field.
pub const SPAWN_Y: i32 = 18;

/// What the player and the clock contribute to one frame.
#[derive(Clone, Copy, Debug, PartialEq, Eq, Structural)]
pub struct FrameInput {
    /// Time since the last frame, in microseconds.
    pub delta_us: u64,
    /// The left key is held down.
    pub left_held: bool,
    /// The right key is held down.
    pub right_held: bool,
    /// The down key went down in this frame.
    pub down_pressed: bool,
    /// The up key went down in this frame.
    pub up_pressed: bool,
}

/// The game: the grid, the landed cells, the piece under control if there is
/// one, the two timers, and the two signals that one pass leaves for another.
#[derive(Debug)]
pub struct Game {
    pub board: Board,
    pub fixed: Vec<FixedCell>,
    pub piece: Option<Piece>,
    pub gravity: Timer,
    pub input: Timer,
    /// A new piece is needed.
    pub spawn_requested: bool,
    /// The game is lost and has to start over.
    pub game_over: bool,
}

/// The game as a mathematical value.
#[verifier::ext_equal]
pub struct GameState {
    pub occupied: Set<Position>,
    pub fixed: Seq<FixedCell>,
    pub piece: Option<Piece>,
    pub gravity: Timer,
    pub input: Timer,
    pub spawn_requested: bool,
    pub game_over: bool,
}

impl View for Game {
    type V = GameState;

    open spec fn view(&self) -> GameState {
        GameState {
            occupied: self.board@,
            fixed: self.fixed@,
            piece: self.piece,
            gravity: self.gravity,
            input: self.input,
            spawn_requested: self.spawn_requested,
            game_over: self.game_over,
        }
    }
}

/// The square on which the pivot of an entering piece lies.
pub open spec fn spawn_anchor() -> Position {
    Position { x: SPAWN_X, y: SPAWN_Y }
}

/// The piece that enters for the two random draws.
pub open spec fn entering_piece(shape_draw: usize, color_draw: usize) -> Piece {
    Piece::placed(drawn_shape(shape_draw), drawn_color(color_draw), spawn_anchor())
}

/// The cells of a piece as landed cells, in the order of the piece.
pub open spec fn landed(p: Piece) -> Seq<FixedCell> {
    seq![
        FixedCell { pos: p.cells[0].pos, color: p.color },
        FixedCell { pos: p.cells[1].pos, color: p.color },
        FixedCell { pos: p.cells[2].pos, color: p.color },
        FixedCell { pos: p.cells[3].pos, color: p.color },
    ]
}

impl GameState {
    /// The state in which a game begins: an empty field, both timers at
    /// rest, and a new piece asked for.
    pub open spec fn initial() -> GameState {
        GameState {
            occupied: Set::empty(),
            fixed: Seq::empty(),
            piece: None,
            gravity: Timer { period_us: 400_000, elapsed_us: 0, finished: false },
            input: Timer { period_us: 100_000, elapsed_us: 0, finished: false },
            spawn_requested: true,
            game_over: false,
        }
    }

    /// Every live cell with its square and its color: the landed cells in
    /// their order, then the cells of the piece.
    pub open spec fn live_cells(self) -> Seq<FixedCell> {
        match self.piece {
            Some(p) => self.fixed + landed(p),
            None => self.fixed,
        }
    }

    /// The piece, if there is one, and both timers are well formed; every
    /// occupied square lies inside the field; and while a new piece is
    /// awaited there is no piece.
    pub open spec fn wf(self) -> bool {
        &&& self.piece matches Some(p) ==> p.wf()
        &&& self.gravity.wf()
        &&& self.input.wf()
        &&& forall|p: Position| self.occupied.contains(p) ==> p.in_field()
        &&& self.spawn_requested ==> self.piece is None
    }

    /// The state after the pass that handles a lost game: on the signal the
    /// grid is emptied, every cell is destroyed, and a new piece is asked for.
    pub open spec fn after_game_over(self) -> GameState {
        if self.game_over {
            GameState {
                occupied: Set::empty(),
                fixed: Seq::empty(),
                piece: None,
                spawn_requested: true,
                game_over: false,
                ..self
            }
        } else {
            self
        }
    }

    /// The state after the pass that removes completed rows, which acts when
    /// the gravity timer has fired.
    pub open spec fn after_collapse(self) -> GameState {
        if self.gravity.finished {
            let cells = collapsed_cells(self.fixed, complete_rows(self.occupied));
            GameState {
                occupied: restamped(self.occupied, squares_of(self.fixed), squares_of(cells)),
                fixed: cells,
                ..self
            }
        } else {
            self
        }
    }

    /// The state after the pass that lets a piece enter: on the signal, the
    /// piece for the two draws enters, unless one of its squares is
    /// occupied; then no piece enters and the game is lost.
    pub open spec fn after_spawn(self, shape_draw: usize, color_draw: usize) -> GameState {
        if self.spawn_requested {
            let p = entering_piece(shape_draw, color_draw);
            if p.overlaps(self.occupied) {
                GameState { spawn_requested: false, game_over: true, ..self }
            } else {
                GameState { spawn_requested: false, piece: Some(p), ..self }
            }
        } else {
            self
        }
    }

    /// The state after both timers have advanced by `delta_us` microseconds.
    pub open spec fn after_tick(self, delta_us: u64) -> GameState {
        GameState {
            gravity: self.gravity.ticked(delta_us),
            input: self.input.ticked(delta_us),
            ..self
        }
    }

    /// The piece after an attempt to move one column in direction `dir`.
    pub open spec fn nudged(p: Piece, occupied: Set<Position>, dir: Direction) -> Piece {
        if p.can_shift(occupied, dir.step()) {
            p.moved(dir.step(), 0)
        } else {
            p
        }
    }

    /// The state after the pass for lateral moves, which acts when the input
    /// timer has fired: first to the left if the left key is held, then to
    /// the right if the right key is held.
    pub open spec fn after_sideways(self, left_held: bool, right_held: bool) -> GameState {
        match self.piece {
            Some(p) if self.input.finished => {
                let after_left = if left_held {
                    Self::nudged(p, self.occupied, Direction::Left)
                } else {
                    p
                };
                let after_right = if right_held {
                    Self::nudged(after_left, self.occupied, Direction::Right)
                } else {
                    after_left
                };
                GameState { piece: Some(after_right), ..self }
            },
            _ => self,
        }
    }

    /// The state after the pass for the hard drop, which acts when the down
    /// key went down.
    pub open spec fn after_hard_drop(self, down_pressed: bool) -> GameState {
        match self.piece {
            Some(p) if down_pressed => {
                let q = p.moved(0, -p.drop_height(self.occupied));
                GameState {
                    occupied: restamped(self.occupied, p.squares(), q.squares()),
                    piece: Some(q),
                    ..self
                }
            },
            _ => self,
        }
    }

    /// The state after the pass for rotation, which acts when the up key
    /// went down.
    pub open spec fn after_rotate(self, up_pressed: bool) -> GameState {
        match self.piece {
            Some(p) if up_pressed && p.can_rotate(self.occupied) => GameState {
                piece: Some(p.rotated()),
                ..self
            },
            _ => self,
        }
    }

    /// The state after the pass for gravity, which acts when the gravity
    /// timer has fired: a grounded piece is fixed where it is and a new piece
    /// is asked for; any other piece falls by one row.
    pub open spec fn after_fall(self) -> GameState {
        match self.piece {
            Some(p) if self.gravity.finished => {
                if p.grounded(self.occupied) {
                    GameState {
                        occupied: restamped(self.occupied, Set::empty(), p.squares()),
                        fixed: self.fixed + landed(p),
                        piece: None,
                        spawn_requested: true,
                        ..self
                    }
                } else {
                    GameState { piece: Some(p.moved(0, -1)), ..self }
                }
            },
            _ => self,
        }
    }

    /// The state before a piece may enter in a frame: after the lost game is
    /// handled and completed rows are removed.
    pub open spec fn before_spawn(self) -> GameState {
        self.after_game_over().after_collapse()
    }

    /// The state after the passes that follow the entry of a piece: the
    /// timers advance, then the lateral move, the hard drop, the rotation
    /// and gravity act in this order.
    pub open spec fn after_moves(self, input: FrameInput) -> GameState {
        self.after_tick(input.delta_us).after_sideways(
            input.left_held,
            input.right_held,
        ).after_hard_drop(input.down_pressed).after_rotate(input.up_pressed).after_fall()
    }

    /// The state in a frame when the hard drop is about to act.
    pub open spec fn before_hard_drop(
        self,
        input: FrameInput,
        shape_draw: usize,
        color_draw: usize,
    ) -> GameState {
        self.before_spawn().after_spawn(shape_draw, color_draw).after_tick(
            input.delta_us,
        ).after_sideways(input.left_held, input.right_held)
    }

    /// The state in a frame when gravity is about to act.
    pub open spec fn before_fall(
        self,
        input: FrameInput,
        shape_draw: usize,
        color_draw: usize,
    ) -> GameState {
        self.before_hard_drop(input, shape_draw, color_draw).after_hard_drop(
            input.down_pressed,
        ).after_rotate(input.up_pressed)
    }

    /// The state after a whole frame.
    pub open spec fn after_frame(
        self,
        input: FrameInput,
        shape_draw: usize,
        color_draw: usize,
    ) -> GameState {
        self.before_spawn().after_spawn(shape_draw, color_draw).after_moves(input)
    }
}

/// Pieces enter in the middle column, one row above the field.
pub proof fn lemma_spawn_anchor_is_above_the_middle()
    ensures
        spawn_anchor().x == WIDTH / 2,
        spawn_anchor().y == HEIGHT,
        CEILING == HEIGHT + MAX_REACH,
{
}

/// Every shape fits where pieces enter.
pub proof fn lemma_entering_piece_fits(shape_draw: usize, color_draw: usize)
    ensures
        Piece::fits(drawn_shape(shape_draw), drawn_color(color_draw), spawn_anchor()),
        entering_piece(shape_draw, color_draw).wf(),
{
    let kind = drawn_shape(shape_draw);
    let color = drawn_color(color_draw);
    lemma_shapes_are_sound(kind);
    assert forall|i: int| 0 <= i < 4 implies {
        let o = #[trigger] shape_offsets(kind)[i];
        0 <= spawn_anchor().x + o.dx < WIDTH && 0 <= spawn_anchor().y + o.dy <= CEILING
    } by {
        assert(shape_offsets(kind)[i].within_reach());
    }
    lemma_placed_is_wf(kind, color, spawn_anchor());
}

impl Game {
    /// The game at its start: an empty field, a gravity timer of 400 ms, an
    /// input timer of 100 ms, and a new piece asked for.
    pub fn new() -> (game: Game)
        ensures
            game@ == GameState::initial(),
            game@.wf(),
    {
        Game {
            board: Board::new(),
            fixed: Vec::new(),
            piece: None,
            gravity: Timer {
                period_us: GRAVITY_INTERVAL_MS as u64 * 1000,
                elapsed_us: 0,
                finished: false,
            },
            input: Timer {
                period_us: INPUT_INTERVAL_MS as u64 * 1000,
                elapsed_us: 0,
                finished: false,
            },
            spawn_requested: true,
            game_over: false,
        }
    }

    /// Tells whether the game is well formed.
    pub fn is_valid(&self) -> (valid: bool)
        ensures
            valid == self@.wf(),
    {
        let piece_ok = match self.piece {
            Some(p) => p.is_valid() && !self.spawn_requested,
            None => true,
        };
        piece_ok && self.gravity.is_valid() && self.input.is_valid()
    }

    /// Lists every live cell with its square and its color, for whoever draws
    /// the game: the landed cells in their order, then the cells of the
    /// piece.
    pub fn live_cells(&self) -> (cells: Vec<FixedCell>)
        ensures
            cells@ == self@.live_cells(),
    {
        let mut cells: Vec<FixedCell> = Vec::new();
        let mut i: usize = 0;
        while i < self.fixed.len()
            invariant
                0 <= i <= self.fixed.len(),
                cells@ == self.fixed@.take(i as int),
            decreases self.fixed.len() - i,
        {
            cells.push(self.fixed[i]);
            assert(self.fixed@.take(i + 1) =~= self.fixed@.take(i as int).push(
                self.fixed@[i as int],
            ));
            i = i + 1;
        }
        assert(self.fixed@.take(self.fixed.len() as int) =~= self.fixed@);
        match self.piece {
            Some(p) => {
                cells.push(FixedCell { pos: p.cells[0].pos, color: p.color });
                cells.push(FixedCell { pos: p.cells[1].pos, color: p.color });
                cells.push(FixedCell { pos: p.cells[2].pos, color: p.color });
                cells.push(FixedCell { pos: p.cells[3].pos, color: p.color });
                assert(cells@ =~= self.fixed@ + landed(p));
            },
            None => {},
        }
        cells
    }

    /// Handles a lost game: on the signal, empties the grid, destroys every
    /// cell, and asks for a new piece.
    pub fn handle_game_over(&mut self)
        requires
            old(self)@.wf(),
        ensures
            final(self)@ == old(self)@.after_game_over(),
            final(self)@.wf(),
    {
        if self.game_over {
            self.board = Board::new();
            self.fixed = Vec::new();
            self.piece = None;
            self.spawn_requested = true;
            self.game_over = false;
        }
    }

    /// Removes the completed rows, if the gravity timer has fired.
    pub fn collapse_rows(&mut self)
        requires
            old(self)@.wf(),
        ensures
            final(self)@ == old(self)@.after_collapse(),
            final(self)@.wf(),
    {
        if self.gravity.finished() {
            let rows = self.board.find_complete_rows();
            self.board.collapse(&rows, &mut self.fixed);
        }
    }

    /// Lets the piece for the two draws enter, if a new piece is asked for.
    /// Where one of its squares is occupied, no piece enters and the game is
    /// lost.
    pub fn spawn_with(&mut self, shape_draw: usize, color_draw: usize)
        requires
            old(self)@.wf(),
        ensures
            final(self)@ == old(self)@.after_spawn(shape_draw, color_draw),
            final(self)@.wf(),
    {
        if self.spawn_requested {
            self.spawn_requested = false;
            let kind = shape_for_draw(shape_draw);
            let color: usize = color_for_draw(color_draw);
            proof {
                lemma_entering_piece_fits(shape_draw, color_draw);
            }
            match Piece::place(kind, color, Position { x: SPAWN_X, y: SPAWN_Y }) {
                Some(p) => {
                    if p.is_blocked(&self.board) {
                        self.game_over = true;
                    } else {
                        self.piece = Some(p);
                    }
                },
                None => {
                    // Every shape of the catalog fits at the anchor.
                    assert(false);
                },
            }
        }
    }

    /// Lets a piece of random shape and color enter, if a new piece is asked
    /// for.
    pub fn spawn(&mut self)
        requires
            old(self)@.wf(),
        ensures
            exists|shape_draw: usize, color_draw: usize|
                final(self)@ == #[trigger] old(self)@.after_spawn(shape_draw, color_draw),
            final(self)@.wf(),
    {
        if self.spawn_requested {
            let shape_draw: usize = random_draw();
            let color_draw: usize = random_draw();
            self.spawn_with(shape_draw, color_draw);
        } else {
            assert(self@ == old(self)@.after_spawn(0, 0));
        }
    }

    /// Advances both timers by `delta_us` microseconds.
    pub fn tick(&mut self, delta_us: u64)
        requires
            old(self)@.wf(),
        ensures
            final(self)@ == old(self)@.after_tick(delta_us),
            final(self)@.wf(),
    {
        self.gravity.tick(delta_us);
        self.input.tick(delta_us);
    }

    /// Moves the piece sideways, if the input timer has fired: one column to
    /// the left if the left key is held, then one column to the right if the
    /// right key is held. Each move is made by all four cells or by none.
    pub fn move_sideways(&mut self, left_held: bool, right_held: bool)
        requires
            old(self)@.wf(),
        ensures
            final(self)@ == old(self)@.after_sideways(left_held, right_held),
            final(self)@.wf(),
    {
        if self.input.finished() {
            match self.piece {
                Some(p) => {
                    let mut p = p;
                    if left_held {
                        p.try_shift(&self.board, Direction::Left);
                    }
                    if right_held {
                        p.try_shift(&self.board, Direction::Right);
                    }
                    self.piece = Some(p);
                },
                None => {},
            }
        }
    }

    /// Drops the piece as far as it goes, if the down key went down.
    pub fn hard_drop(&mut self, down_pressed: bool)
        requires
            old(self)@.wf(),
        ensures
            final(self)@ == old(self)@.after_hard_drop(down_pressed),
            final(self)@.wf(),
    {
        if down_pressed {
            match self.piece {
                Some(p) => {
                    let mut p = p;
                    p.hard_drop(&mut self.board);
                    self.piece = Some(p);
                },
                None => {},
            }
        }
    }

    /// Turns the piece by a quarter turn, if the up key went down and every
    /// cell fits after the turn.
    pub fn rotate(&mut self, up_pressed: bool)
        requires
            old(self)@.wf(),
        ensures
            final(self)@ == old(self)@.after_rotate(up_pressed),
            final(self)@.wf(),
    {
        if up_pressed {
            match self.piece {
                Some(p) => {
                    let mut p = p;
                    p.try_rotate(&self.board);
                    self.piece = Some(p);
                },
                None => {},
            }
        }
    }

    /// Applies gravity, if the gravity timer has fired: a grounded piece is
    /// fixed where it is, its squares are marked in the grid, and a new piece
    /// is asked for; any other piece falls by one row.
    pub fn fall(&mut self)
        requires
            old(self)@.wf(),
        ensures
            final(self)@ == old(self)@.after_fall(),
            final(self)@.wf(),
    {
        if self.gravity.finished() {
            match self.piece {
                Some(p) => {
                    let mut p = p;
                    if p.descend(&self.board) {
                        self.piece = Some(p);
                    } else {
                        p.stamp(&mut self.board, true);
                        self.fixed.push(FixedCell { pos: p.cells[0].pos, color: p.color });
                        self.fixed.push(FixedCell { pos: p.cells[1].pos, color: p.color });
                        self.fixed.push(FixedCell { pos: p.cells[2].pos, color: p.color });
                        self.fixed.push(FixedCell { pos: p.cells[3].pos, color: p.color });
                        self.piece = None;
                        self.spawn_requested = true;
                        assert(self.fixed@ =~= old(self).fixed@ + landed(p));
                    }
                },
                None => {},
            }
        }
    }

    /// Runs the passes that follow the entry of a piece.
    fn finish_frame(&mut self, input: FrameInput)
        requires
            old(self)@.wf(),
        ensures
            final(self)@ == old(self)@.after_moves(input),
            final(self)@.wf(),
    {
        self.tick(input.delta_us);
        self.move_sideways(input.left_held, input.right_held);
        self.hard_drop(input.down_pressed);
        self.rotate(input.up_pressed);
        self.fall();
    }

    /// Runs one frame with the two draws given: the lost game is handled,
    /// completed rows are removed, a piece enters, the timers advance, and
    /// the lateral move, the hard drop, the rotation and gravity act.
    pub fn frame_with(&mut self, input: FrameInput, shape_draw: usize, color_draw: usize)
        requires
            old(self)@.wf(),
        ensures
            final(self)@ == old(self)@.after_frame(input, shape_draw, color_draw),
            final(self)@.wf(),
    {
        self.handle_game_over();
        self.collapse_rows();
        self.spawn_with(shape_draw, color_draw);
        self.finish_frame(input);
    }

    /// Runs one frame; a piece that enters has a random shape and color.
    pub fn frame(&mut self, input: FrameInput)
        requires
            old(self)@.wf(),
        ensures
            exists|shape_draw: usize, color_draw: usize|
                final(self)@ == #[trigger] old(self)@.after_frame(input, shape_draw, color_draw),
            final(self)@.wf(),
    {
        self.handle_game_over();
        self.collapse_rows();
        let ghost entry = self@;
        self.spawn();
        let ghost (shape_draw, color_draw) = choose|shape_draw: usize, color_draw: usize|
            self@ == #[trigger] entry.after_spawn(shape_draw, color_draw);
        self.finish_frame(input);
        assert(self@ == old(self)@.after_frame(input, shape_draw, color_draw));
    }
}

} // verus!
