use tetris_rules::board::Board;
use tetris_rules::catalog::ShapeKind;
use tetris_rules::cells::FixedCell;
use tetris_rules::game::{FrameInput, Game, GRAVITY_INTERVAL_MS, INPUT_INTERVAL_MS, SPAWN_X, SPAWN_Y};
use tetris_rules::geometry::Position;
use tetris_rules::piece::Piece;
use tetris_rules::timer::Timer;

const I_DRAW: usize = 0;
const O_DRAW: usize = 5;
const T_DRAW: usize = 6;

fn at(x: i32, y: i32) -> Position {
    Position { x, y }
}

fn idle(delta_us: u64) -> FrameInput {
    FrameInput {
        delta_us,
        left_held: false,
        right_held: false,
        down_pressed: false,
        up_pressed: false,
    }
}

fn squares(game: &Game) -> Vec<(i32, i32)> {
    match game.piece {
        Some(piece) => piece.cells.iter().map(|c| (c.pos.x, c.pos.y)).collect(),
        None => Vec::new(),
    }
}

fn marked(board: &Board) -> Vec<(i32, i32)> {
    let mut out = Vec::new();
    for y in 0..18 {
        for x in 0..10 {
            if board.is_occupied(x, y) {
                out.push((x, y));
            }
        }
    }
    out
}

fn land(game: &mut Game, x: i32, y: i32) {
    game.board.set(x, y, true);
    game.fixed.push(FixedCell { pos: at(x, y), color: 1 });
}

fn with_piece(kind: ShapeKind, x: i32, y: i32) -> Game {
    let mut game = Game::new();
    game.spawn_requested = false;
    game.piece = Some(Piece::place(kind, 4, at(x, y)).unwrap());
    game
}

fn landed_cells_are_consistent(game: &Game) -> bool {
    for (i, a) in game.fixed.iter().enumerate() {
        if !a.pos.is_in_field() {
            return false;
        }
        for b in game.fixed.iter().skip(i + 1) {
            if a.pos == b.pos {
                return false;
            }
        }
    }
    let mut from_cells: Vec<(i32, i32)> = game.fixed.iter().map(|c| (c.pos.y, c.pos.x)).collect();
    from_cells.sort();
    let from_grid: Vec<(i32, i32)> = marked(&game.board).iter().map(|(x, y)| (*y, *x)).collect();
    from_cells == from_grid
}

#[test]
fn new_game_is_empty_and_asks_for_a_piece() {
    let game = Game::new();
    assert_eq!(GRAVITY_INTERVAL_MS, 400);
    assert_eq!(INPUT_INTERVAL_MS, 100);
    assert!(marked(&game.board).is_empty());
    assert!(game.fixed.is_empty());
    assert!(game.piece.is_none());
    assert_eq!(game.gravity, Timer { period_us: 400_000, elapsed_us: 0, finished: false });
    assert_eq!(game.input, Timer { period_us: 100_000, elapsed_us: 0, finished: false });
    assert_eq!(Some(game.gravity), Timer::from_millis(GRAVITY_INTERVAL_MS));
    assert_eq!(Some(game.input), Timer::from_millis(INPUT_INTERVAL_MS));
    assert!(game.spawn_requested);
    assert!(!game.game_over);
}

#[test]
fn piece_enters_at_the_anchor_above_the_field() {
    assert_eq!((SPAWN_X, SPAWN_Y), (5, 18));
    let mut game = Game::new();
    game.spawn_with(T_DRAW, 9);
    assert!(!game.spawn_requested);
    assert!(!game.game_over);
    let piece = game.piece.unwrap();
    assert_eq!(piece.color, 3);
    assert_eq!(squares(&game), vec![(5, 18), (4, 18), (6, 18), (5, 19)]);
    assert_eq!(Some(piece), Piece::place(ShapeKind::T, 3, at(5, 18)));
}

#[test]
fn no_piece_enters_without_the_signal() {
    let mut game = Game::new();
    game.spawn_requested = false;
    game.spawn_with(I_DRAW, 0);
    assert!(game.piece.is_none());
    assert!(!game.game_over);
    game.spawn();
    assert!(game.piece.is_none());
}

#[test]
fn random_entry_places_a_piece_of_the_catalog_at_the_anchor() {
    for _ in 0..200 {
        let mut game = Game::new();
        game.spawn();
        let piece = game.piece.unwrap();
        assert!(piece.color < 6);
        assert_eq!(piece.cells[0].pos, at(5, 18));
        let found = [
            ShapeKind::I,
            ShapeKind::L,
            ShapeKind::J,
            ShapeKind::Z,
            ShapeKind::S,
            ShapeKind::O,
            ShapeKind::T,
        ]
        .iter()
        .any(|kind| Piece::place(*kind, piece.color, at(5, 18)) == Some(piece));
        assert!(found);
        assert!(!game.spawn_requested);
    }
}

#[test]
fn blocked_entry_loses_the_game_and_the_next_pass_starts_over() {
    let mut game = Game::new();
    land(&mut game, 5, 17);
    land(&mut game, 0, 0);
    game.spawn_with(I_DRAW, 2);
    assert!(game.piece.is_none());
    assert!(game.game_over);
    assert!(!game.spawn_requested);
    assert_eq!(game.fixed.len(), 2);
    assert_eq!(marked(&game.board), vec![(0, 0), (5, 17)]);

    game.handle_game_over();
    assert!(marked(&game.board).is_empty());
    assert!(game.fixed.is_empty());
    assert!(game.piece.is_none());
    assert!(game.spawn_requested);
    assert!(!game.game_over);
}

#[test]
fn entry_beside_occupied_squares_is_not_blocked() {
    let mut game = Game::new();
    land(&mut game, 4, 17);
    land(&mut game, 6, 17);
    game.spawn_with(I_DRAW, 2);
    assert!(game.piece.is_some());
    assert!(!game.game_over);
    let mut game = Game::new();
    land(&mut game, 5, 17);
    game.spawn_with(T_DRAW, 2);
    assert!(game.piece.is_some());
    assert!(!game.game_over);
    let mut game = Game::new();
    land(&mut game, 6, 17);
    game.spawn_with(4, 2);
    assert!(game.piece.is_none());
    assert!(game.game_over);
}

#[test]
fn game_over_pass_does_nothing_without_the_signal() {
    let mut game = with_piece(ShapeKind::O, 3, 5);
    land(&mut game, 0, 0);
    game.handle_game_over();
    assert_eq!(game.fixed.len(), 1);
    assert!(game.piece.is_some());
    assert_eq!(marked(&game.board), vec![(0, 0)]);
    assert!(!game.spawn_requested);
}

#[test]
fn game_over_pass_destroys_free_and_landed_cells_alike() {
    let mut game = with_piece(ShapeKind::O, 3, 5);
    land(&mut game, 0, 0);
    game.game_over = true;
    game.handle_game_over();
    assert!(game.fixed.is_empty());
    assert!(game.piece.is_none());
    assert!(marked(&game.board).is_empty());
    assert!(game.spawn_requested);
    assert!(!game.game_over);
}

#[test]
fn tick_advances_both_timers() {
    let mut game = Game::new();
    game.tick(100_000);
    assert!(game.input.finished());
    assert!(!game.gravity.finished());
    assert_eq!(game.gravity.elapsed_us, 100_000);
    game.tick(300_000);
    assert!(game.input.finished());
    assert!(game.gravity.finished());
    assert_eq!(game.gravity.elapsed_us, 0);
    game.tick(50_000);
    assert!(!game.input.finished());
    assert!(!game.gravity.finished());
}

#[test]
fn gravity_acts_only_when_its_timer_has_fired() {
    let mut game = with_piece(ShapeKind::O, 3, 5);
    game.fall();
    assert_eq!(squares(&game), vec![(3, 5), (3, 6), (4, 5), (4, 6)]);
    game.tick(400_000);
    game.fall();
    assert_eq!(squares(&game), vec![(3, 4), (3, 5), (4, 4), (4, 5)]);
    game.tick(100_000);
    game.fall();
    assert_eq!(squares(&game), vec![(3, 4), (3, 5), (4, 4), (4, 5)]);
}

#[test]
fn grounded_piece_is_fixed_and_a_new_piece_is_asked_for() {
    let mut game = with_piece(ShapeKind::T, 4, 0);
    game.tick(400_000);
    game.fall();
    assert!(game.piece.is_none());
    assert!(game.spawn_requested);
    let cells: Vec<(i32, i32, usize)> =
        game.fixed.iter().map(|c| (c.pos.x, c.pos.y, c.color)).collect();
    assert_eq!(cells, vec![(4, 0, 4), (3, 0, 4), (5, 0, 4), (4, 1, 4)]);
    assert_eq!(marked(&game.board), vec![(3, 0), (4, 0), (5, 0), (4, 1)]);
    assert!(landed_cells_are_consistent(&game));
}

#[test]
fn lateral_move_waits_for_the_input_timer() {
    let mut game = with_piece(ShapeKind::O, 3, 5);
    game.move_sideways(true, false);
    assert_eq!(squares(&game), vec![(3, 5), (3, 6), (4, 5), (4, 6)]);
    game.tick(100_000);
    game.move_sideways(true, false);
    assert_eq!(squares(&game), vec![(2, 5), (2, 6), (3, 5), (3, 6)]);
    game.move_sideways(false, true);
    game.move_sideways(false, true);
    assert_eq!(squares(&game), vec![(4, 5), (4, 6), (5, 5), (5, 6)]);
    game.move_sideways(false, false);
    assert_eq!(squares(&game), vec![(4, 5), (4, 6), (5, 5), (5, 6)]);
}

#[test]
fn both_keys_held_move_left_and_then_right() {
    let mut game = with_piece(ShapeKind::O, 3, 5);
    game.tick(100_000);
    game.move_sideways(true, true);
    assert_eq!(squares(&game), vec![(3, 5), (3, 6), (4, 5), (4, 6)]);
    let mut at_wall = with_piece(ShapeKind::O, 0, 5);
    at_wall.tick(100_000);
    at_wall.move_sideways(true, true);
    assert_eq!(squares(&at_wall), vec![(1, 5), (1, 6), (2, 5), (2, 6)]);
}

#[test]
fn blocked_lateral_move_moves_no_cell() {
    let mut game = with_piece(ShapeKind::L, 5, 10);
    land(&mut game, 6, 11);
    land(&mut game, 3, 11);
    game.tick(100_000);
    let before = game.piece;
    game.move_sideways(false, true);
    assert_eq!(game.piece, before);
    game.move_sideways(true, false);
    assert_eq!(game.piece, before);
    game.move_sideways(true, true);
    assert_eq!(game.piece, before);
    assert_eq!(game.fixed.len(), 2);
}

#[test]
fn hard_drop_answers_the_key_at_once() {
    let mut game = with_piece(ShapeKind::I, 5, 12);
    game.hard_drop(false);
    assert_eq!(squares(&game), vec![(5, 12), (5, 11), (5, 13), (5, 14)]);
    game.hard_drop(true);
    assert_eq!(squares(&game), vec![(5, 1), (5, 0), (5, 2), (5, 3)]);
    assert_eq!(marked(&game.board), vec![(5, 0), (5, 1), (5, 2), (5, 3)]);
    assert!(game.fixed.is_empty());
    assert!(game.piece.is_some());
    game.tick(400_000);
    game.fall();
    assert!(game.piece.is_none());
    assert_eq!(game.fixed.len(), 4);
    assert!(landed_cells_are_consistent(&game));
}

#[test]
fn rotation_answers_the_key_and_is_all_or_nothing() {
    let mut game = with_piece(ShapeKind::L, 5, 10);
    game.rotate(false);
    assert_eq!(squares(&game), vec![(5, 10), (5, 9), (5, 11), (4, 11)]);
    game.rotate(true);
    assert_eq!(squares(&game), vec![(5, 10), (4, 10), (6, 10), (6, 11)]);
    land(&mut game, 5, 11);
    let before = game.piece;
    game.rotate(true);
    assert_eq!(game.piece, before);
}

#[test]
fn passes_without_a_piece_do_nothing() {
    let mut game = Game::new();
    game.spawn_requested = false;
    game.tick(400_000);
    game.move_sideways(true, true);
    game.hard_drop(true);
    game.rotate(true);
    game.fall();
    assert!(game.piece.is_none());
    assert!(game.fixed.is_empty());
    assert!(marked(&game.board).is_empty());
    assert!(!game.spawn_requested);
}

#[test]
fn completed_rows_are_removed_when_the_gravity_timer_has_fired() {
    let mut game = Game::new();
    for x in 0..10 {
        land(&mut game, x, 0);
    }
    land(&mut game, 7, 1);
    game.collapse_rows();
    assert_eq!(game.fixed.len(), 11);
    game.tick(400_000);
    game.collapse_rows();
    assert_eq!(game.fixed, vec![FixedCell { pos: at(7, 0), color: 1 }]);
    assert_eq!(marked(&game.board), vec![(7, 0)]);
    assert!(landed_cells_are_consistent(&game));
}

#[test]
fn frame_runs_its_passes_in_order() {
    let mut game = Game::new();
    let input = FrameInput {
        delta_us: 400_000,
        left_held: true,
        right_held: false,
        down_pressed: false,
        up_pressed: false,
    };
    game.frame_with(input, O_DRAW, 1);
    assert_eq!(squares(&game), vec![(4, 17), (4, 18), (5, 17), (5, 18)]);
    assert!(!game.spawn_requested);
    assert!(game.gravity.finished() && game.input.finished());

    let mut turn = idle(100_000);
    turn.up_pressed = true;
    game.frame_with(turn, I_DRAW, 0);
    assert_eq!(squares(&game), vec![(4, 17), (5, 17), (4, 16), (5, 16)]);
    assert!(!game.gravity.finished());

    let mut drop = idle(300_000);
    drop.down_pressed = true;
    game.frame_with(drop, I_DRAW, 0);
    assert!(game.piece.is_none());
    assert!(game.spawn_requested);
    assert_eq!(marked(&game.board), vec![(4, 0), (5, 0), (4, 1), (5, 1)]);
    assert_eq!(game.fixed.len(), 4);

    game.frame_with(idle(10_000), I_DRAW, 2);
    assert_eq!(squares(&game), vec![(5, 18), (5, 17), (5, 19), (5, 20)]);
    assert_eq!(game.fixed.len(), 4);
}

#[test]
fn five_squares_fill_two_rows_which_collapse_before_the_next_piece_enters() {
    let mut game = Game::new();
    let targets = [0, 2, 4, 6, 8];
    let mut landed_pieces = 0;
    let mut frames = 0;
    let mut seen_full = false;
    while landed_pieces < 5 || game.fixed.len() > 0 {
        let mut input = idle(100_000);
        if let Some(piece) = game.piece {
            let target = targets[landed_pieces];
            input.left_held = piece.cells[0].pos.x > target;
            input.right_held = piece.cells[0].pos.x < target;
        }
        let had_piece = game.piece.is_some();
        game.frame_with(input, O_DRAW, frames);
        frames += 1;
        assert!(frames < 1000);
        if had_piece && game.piece.is_none() {
            landed_pieces += 1;
            assert_eq!(game.fixed.len(), 4 * landed_pieces);
        }
        if game.fixed.len() == 20 {
            seen_full = true;
            assert!(game.board.is_row_complete(0) && game.board.is_row_complete(1));
            assert!(game.piece.is_none() && game.spawn_requested);
        }
        assert!(landed_cells_are_consistent(&game));
    }
    assert!(seen_full);
    assert_eq!(landed_pieces, 5);
    assert!(marked(&game.board).is_empty());
    assert_eq!(squares(&game), vec![(5, 18), (5, 19), (6, 18), (6, 19)]);
}

#[test]
fn landed_cells_stay_consistent_while_pieces_move_turn_and_land() {
    let mut game = Game::new();
    let mut state: u64 = 0x2545_f491_4f6c_dd1d;
    for frame in 0..1500usize {
        state = state.wrapping_mul(6364136223846793005).wrapping_add(1442695040888963407);
        let bits = state >> 33;
        let input = FrameInput {
            delta_us: 50_000,
            left_held: bits & 1 == 1 && frame % 40 < 20,
            right_held: bits & 2 == 2 && frame % 40 >= 20,
            down_pressed: false,
            up_pressed: bits & 12 == 12,
        };
        let tall = game.fixed.iter().any(|c| c.pos.y >= 12);
        if tall {
            break;
        }
        game.frame_with(input, (bits >> 4) as usize, (bits >> 9) as usize);
        assert!(landed_cells_are_consistent(&game));
        if let Some(piece) = game.piece {
            for cell in piece.cells.iter() {
                assert!(0 <= cell.pos.x && cell.pos.x < 10);
                assert!(0 <= cell.pos.y && cell.pos.y <= 20);
                assert!(!game.board.occupied_at(cell.pos));
            }
        }
    }
    assert!(!game.fixed.is_empty());
}

#[test]
fn stack_that_reaches_the_top_ends_the_game_and_the_game_starts_over() {
    let mut game = Game::new();
    let mut lost = false;
    let mut frames = 0;
    while !lost {
        game.frame_with(idle(400_000), I_DRAW, 0);
        frames += 1;
        assert!(frames < 200);
        lost = game.game_over;
    }
    assert!(game.piece.is_none());
    assert!(game.board.is_occupied(5, 17));
    assert_eq!(game.fixed.len(), 20);
    game.frame_with(idle(1_000), I_DRAW, 0);
    assert!(!game.game_over);
    assert!(game.fixed.is_empty());
    assert!(marked(&game.board).is_empty());
    assert_eq!(squares(&game), vec![(5, 18), (5, 17), (5, 19), (5, 20)]);
}

#[test]
fn random_frames_keep_the_piece_between_the_walls() {
    let mut game = Game::new();
    let mut state: u64 = 99;
    for _ in 0..3000 {
        state = state.wrapping_mul(6364136223846793005).wrapping_add(1442695040888963407);
        let bits = state >> 33;
        let input = FrameInput {
            delta_us: 60_000,
            left_held: bits & 1 == 1,
            right_held: bits & 2 == 2,
            down_pressed: bits & 60 == 60,
            up_pressed: bits & 192 == 192,
        };
        game.frame(input);
        if let Some(piece) = game.piece {
            assert!(piece.color < 6);
            let pivot = (
                piece.cells[0].pos.x - piece.cells[0].offset.dx,
                piece.cells[0].pos.y - piece.cells[0].offset.dy,
            );
            for cell in piece.cells.iter() {
                assert!(0 <= cell.pos.x && cell.pos.x < 10);
                assert!(0 <= cell.pos.y && cell.pos.y <= 20);
                assert_eq!((cell.pos.x - cell.offset.dx, cell.pos.y - cell.offset.dy), pivot);
            }
        }
        assert!(!(game.spawn_requested && game.piece.is_some()));
    }
}

#[test]
fn live_cells_lists_landed_cells_and_then_the_piece() {
    let mut game = with_piece(ShapeKind::T, 4, 9);
    land(&mut game, 0, 0);
    land(&mut game, 9, 3);
    let cells: Vec<(i32, i32, usize)> =
        game.live_cells().iter().map(|c| (c.pos.x, c.pos.y, c.color)).collect();
    assert_eq!(
        cells,
        vec![(0, 0, 1), (9, 3, 1), (4, 9, 4), (3, 9, 4), (5, 9, 4), (4, 10, 4)]
    );
    game.piece = None;
    assert_eq!(game.live_cells(), game.fixed);
    assert!(Game::new().live_cells().is_empty());
}
