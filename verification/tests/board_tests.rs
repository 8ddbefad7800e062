use tetris_rules::board::{Board, RowSet};
use tetris_rules::cells::FixedCell;
use tetris_rules::geometry::{Position, HEIGHT, WIDTH};

fn cell(x: i32, y: i32) -> FixedCell {
    FixedCell { pos: Position { x, y }, color: (x as usize + y as usize) % 6 }
}

fn fill(board: &mut Board, fixed: &mut Vec<FixedCell>, x: i32, y: i32) {
    board.set(x, y, true);
    fixed.push(cell(x, y));
}

fn grid_matches(board: &Board, fixed: &Vec<FixedCell>) -> bool {
    for y in 0..HEIGHT as i32 {
        for x in 0..WIDTH as i32 {
            let marked = board.is_occupied(x, y);
            let held = fixed.iter().any(|c| c.pos == Position { x, y });
            if marked != held {
                return false;
            }
        }
    }
    true
}

#[test]
fn new_board_is_empty() {
    let board = Board::new();
    for y in 0..HEIGHT as i32 {
        for x in 0..WIDTH as i32 {
            assert!(!board.is_occupied(x, y));
        }
    }
    assert!(!board.occupied_at(Position { x: 3, y: 3 }));
}

#[test]
fn set_writes_one_square() {
    let mut board = Board::new();
    board.set(3, 7, true);
    assert!(board.is_occupied(3, 7));
    assert!(!board.is_occupied(7, 3));
    assert!(!board.is_occupied(2, 7));
    assert!(!board.is_occupied(3, 6));
    board.set(3, 7, false);
    assert!(!board.is_occupied(3, 7));
}

#[test]
fn squares_outside_the_field_are_never_occupied() {
    let mut board = Board::new();
    for y in 0..HEIGHT as i32 {
        for x in 0..WIDTH as i32 {
            board.set(x, y, true);
        }
    }
    assert!(board.occupied_at(Position { x: 9, y: 17 }));
    assert!(!board.occupied_at(Position { x: 10, y: 17 }));
    assert!(!board.occupied_at(Position { x: 9, y: 18 }));
    assert!(!board.occupied_at(Position { x: -1, y: 0 }));
    assert!(!board.occupied_at(Position { x: 0, y: -1 }));
    assert!(!board.occupied_at(Position { x: i32::MAX, y: i32::MIN }));
}

#[test]
fn mark_skips_squares_outside_the_field() {
    let mut board = Board::new();
    board.mark(Position { x: 4, y: 18 }, true);
    board.mark(Position { x: -1, y: 3 }, true);
    board.mark(Position { x: 4, y: 17 }, true);
    assert!(board.is_occupied(4, 17));
    let marked = (0..HEIGHT as i32)
        .flat_map(|y| (0..WIDTH as i32).map(move |x| (x, y)))
        .filter(|(x, y)| board.is_occupied(*x, *y))
        .count();
    assert_eq!(marked, 1);
    board.mark(Position { x: 4, y: 17 }, false);
    assert!(!board.is_occupied(4, 17));
}

#[test]
fn row_is_complete_only_when_every_column_is_occupied() {
    let mut board = Board::new();
    for x in 0..9 {
        board.set(x, 4, true);
    }
    assert!(!board.is_row_complete(4));
    board.set(9, 4, true);
    assert!(board.is_row_complete(4));
    assert!(!board.is_row_complete(3));
    assert!(!board.is_row_complete(-1));
    assert!(!board.is_row_complete(18));
}

#[test]
fn find_complete_rows_returns_exactly_the_full_rows() {
    let mut board = Board::new();
    for x in 0..10 {
        board.set(x, 0, true);
        board.set(x, 17, true);
        if x != 6 {
            board.set(x, 9, true);
        }
    }
    let rows = board.find_complete_rows();
    for y in -2..20 {
        assert_eq!(rows.contains(y), y == 0 || y == 17);
    }
    assert_eq!(rows.len(), 2);
    assert_eq!(Board::new().find_complete_rows().len(), 0);
}

#[test]
fn row_set_counts_rows_strictly_below() {
    let mut rows = RowSet::empty();
    rows.insert(2);
    rows.insert(5);
    rows.insert(5);
    rows.insert(-1);
    rows.insert(18);
    assert!(rows.contains(2) && rows.contains(5));
    assert!(!rows.contains(-1) && !rows.contains(18) && !rows.contains(3));
    assert_eq!(rows.len(), 2);
    assert_eq!(rows.count_below(-3), 0);
    assert_eq!(rows.count_below(0), 0);
    assert_eq!(rows.count_below(2), 0);
    assert_eq!(rows.count_below(3), 1);
    assert_eq!(rows.count_below(5), 1);
    assert_eq!(rows.count_below(6), 2);
    assert_eq!(rows.count_below(17), 2);
    assert_eq!(rows.count_below(25), 2);
    assert_eq!(rows.count_below(i32::MAX), 2);
}

#[test]
fn collapse_removes_rows_two_and_five_and_lowers_the_rest() {
    let mut board = Board::new();
    let mut fixed: Vec<FixedCell> = Vec::new();
    for y in 0..8 {
        for x in 0..10 {
            let full = y == 2 || y == 5;
            if full || x == y || x == y + 1 {
                fill(&mut board, &mut fixed, x, y);
            }
        }
    }
    let before = fixed.clone();
    let rows = board.find_complete_rows();
    assert!(rows.contains(2) && rows.contains(5));
    assert_eq!(rows.len(), 2);

    board.collapse(&rows, &mut fixed);

    assert_eq!(fixed.len(), before.len() - 2 * WIDTH);
    assert_eq!(board.find_complete_rows().len(), 0);
    for y in 0..HEIGHT as i32 {
        assert!(!board.is_row_complete(y));
    }
    let survivors: Vec<FixedCell> =
        before.iter().copied().filter(|c| c.pos.y != 2 && c.pos.y != 5).collect();
    assert_eq!(fixed.len(), survivors.len());
    for (now, was) in fixed.iter().zip(survivors.iter()) {
        let down = if was.pos.y > 5 {
            2
        } else if was.pos.y > 2 {
            1
        } else {
            0
        };
        assert_eq!(now.pos, Position { x: was.pos.x, y: was.pos.y - down });
        assert_eq!(now.color, was.color);
    }
    assert!(grid_matches(&board, &fixed));
    assert!(board.is_occupied(0, 0) && board.is_occupied(1, 0));
    assert!(board.is_occupied(3, 2) && board.is_occupied(4, 2));
    assert!(board.is_occupied(7, 5) && board.is_occupied(8, 5));
    assert!(!board.is_occupied(7, 7));
    assert!(!board.is_occupied(0, 2));
}

#[test]
fn collapse_of_no_rows_changes_nothing() {
    let mut board = Board::new();
    let mut fixed: Vec<FixedCell> = Vec::new();
    fill(&mut board, &mut fixed, 0, 0);
    fill(&mut board, &mut fixed, 4, 3);
    let before = fixed.clone();
    board.collapse(&RowSet::empty(), &mut fixed);
    assert_eq!(fixed, before);
    assert!(grid_matches(&board, &fixed));
}

#[test]
fn collapse_of_the_bottom_row_brings_a_full_stack_down_by_one() {
    let mut board = Board::new();
    let mut fixed: Vec<FixedCell> = Vec::new();
    for x in 0..10 {
        fill(&mut board, &mut fixed, x, 0);
    }
    for y in 1..18 {
        fill(&mut board, &mut fixed, 3, y);
    }
    let rows = board.find_complete_rows();
    board.collapse(&rows, &mut fixed);
    assert_eq!(fixed.len(), 17);
    for (i, c) in fixed.iter().enumerate() {
        assert_eq!(c.pos, Position { x: 3, y: i as i32 });
    }
    assert!(grid_matches(&board, &fixed));
    assert!(!board.is_occupied(3, 17));
}

#[test]
fn collapse_keeps_marks_that_belong_to_no_landed_cell() {
    let mut board = Board::new();
    let mut fixed: Vec<FixedCell> = Vec::new();
    for x in 0..10 {
        fill(&mut board, &mut fixed, x, 0);
    }
    fill(&mut board, &mut fixed, 2, 1);
    board.set(7, 6, true);
    let rows = board.find_complete_rows();
    board.collapse(&rows, &mut fixed);
    assert_eq!(fixed, vec![cell(2, 1)].iter().map(|c| FixedCell { pos: Position { x: 2, y: 0 }, color: c.color }).collect::<Vec<_>>());
    assert!(board.is_occupied(2, 0));
    assert!(board.is_occupied(7, 6));
    assert!(!board.is_occupied(2, 1));
}

#[test]
fn collapse_lowers_a_cell_above_the_field_into_it() {
    let mut board = Board::new();
    let mut fixed: Vec<FixedCell> = Vec::new();
    for x in 0..10 {
        fill(&mut board, &mut fixed, x, 0);
    }
    fixed.push(cell(4, 18));
    let rows = board.find_complete_rows();
    board.collapse(&rows, &mut fixed);
    assert_eq!(fixed.len(), 1);
    assert_eq!(fixed[0].pos, Position { x: 4, y: 17 });
    assert!(board.is_occupied(4, 17));
}
