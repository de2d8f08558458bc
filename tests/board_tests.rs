use minesweeper::board::{Board, BoardValue};
use minesweeper::clues::build_clues;
use minesweeper::generator::{build_random_board, generate, place_mines, BoardError};
use minesweeper::mask::{build_mask, MaskValue};
use minesweeper::pointer::{map_pointer, GridCoordinates, Vec2i};

fn bombs_in(board: &Board) -> usize {
    board
        .values
        .iter()
        .map(|row| row.iter().filter(|v| **v == BoardValue::Bomb).count())
        .sum()
}

fn count_around(board: &Board, row: i32, col: i32) -> i32 {
    let mut n = 0;
    for dr in -1..=1 {
        for dc in -1..=1 {
            let (r, c) = (row + dr, col + dc);
            if (dr, dc) != (0, 0)
                && r >= 0
                && c >= 0
                && r < board.height
                && c < board.width
                && board.values[r as usize][c as usize] == BoardValue::Bomb
            {
                n += 1;
            }
        }
    }
    n
}

#[test]
fn centre_mine_gives_ones_around() {
    let mines = place_mines(3, 3, &vec![(1, 1)], 1);
    let board = build_clues(&mines);
    for r in 0..3 {
        for c in 0..3 {
            let expected = if (r, c) == (1, 1) { BoardValue::Bomb } else { BoardValue::Clue(1) };
            assert_eq!(board.value(r, c), expected);
        }
    }
}

#[test]
fn no_mines_gives_empty_board() {
    let board = generate(2, 2, 0).unwrap();
    assert_eq!(board.height(), 2);
    assert_eq!(board.width(), 2);
    for r in 0..2 {
        for c in 0..2 {
            assert_eq!(board.value(r, c), BoardValue::Empty);
        }
    }
}

#[test]
fn two_mines_in_top_row() {
    let mines = place_mines(3, 3, &vec![(0, 0), (0, 1)], 2);
    let board = build_clues(&mines);
    assert_eq!(board.value(1, 0), BoardValue::Clue(2));
    assert_eq!(board.value(2, 2), BoardValue::Empty);
    assert_eq!(board.value(0, 2), BoardValue::Clue(1));
    assert_eq!(board.value(1, 2), BoardValue::Clue(1));
}

#[test]
fn generated_board_has_exact_mines_and_true_clues() {
    for _ in 0..20 {
        let board = generate(9, 9, 10).unwrap();
        assert_eq!(bombs_in(&board), 10);
        for r in 0..9 {
            for c in 0..9 {
                let v = board.values[r as usize][c as usize];
                if v != BoardValue::Bomb {
                    let n = count_around(&board, r, c);
                    let expected = if n == 0 { BoardValue::Empty } else { BoardValue::Clue(n) };
                    assert_eq!(v, expected);
                }
            }
        }
    }
}

#[test]
fn full_board_of_mines() {
    let board = generate(4, 5, 20).unwrap();
    assert_eq!(bombs_in(&board), 20);
}

#[test]
fn clues_stay_between_one_and_eight() {
    let cells = vec![(0, 0), (0, 1), (0, 2), (1, 0), (1, 2), (2, 0), (2, 1), (2, 2)];
    let board = build_clues(&place_mines(3, 3, &cells, 8));
    assert_eq!(board.value(1, 1), BoardValue::Clue(8));
    for _ in 0..20 {
        let board = generate(6, 7, 30).unwrap();
        for row in board.values.iter() {
            for v in row.iter() {
                if let BoardValue::Clue(n) = v {
                    assert!(1 <= *n && *n <= 8);
                }
            }
        }
    }
}

#[test]
fn deriving_clues_twice_changes_nothing() {
    let mines = place_mines(4, 4, &vec![(0, 0), (2, 1), (3, 3)], 3);
    let once = build_clues(&mines);
    let twice = build_clues(&once);
    assert_eq!(once.values, twice.values);
}

#[test]
fn clues_depend_only_on_mine_layout() {
    let a = build_clues(&place_mines(4, 3, &vec![(0, 2), (3, 0), (1, 1)], 3));
    let b = build_clues(&place_mines(4, 3, &vec![(1, 1), (0, 2), (3, 0), (2, 2)], 3));
    assert_eq!(a.values, b.values);
}

#[test]
fn corner_counts_only_its_three_neighbours() {
    let mines = place_mines(2, 2, &vec![(0, 1), (1, 0), (1, 1)], 3);
    let board = build_clues(&mines);
    assert_eq!(board.value(0, 0), BoardValue::Clue(3));
    let edge = build_clues(&place_mines(3, 3, &vec![(0, 0), (0, 2), (1, 0), (1, 1), (1, 2), (2, 2)], 6));
    assert_eq!(edge.value(0, 1), BoardValue::Clue(5));
}

#[test]
fn invalid_configurations_are_refused() {
    assert_eq!(generate(0, 3, 1).unwrap_err(), BoardError::InvalidConfiguration);
    assert_eq!(generate(3, -1, 0).unwrap_err(), BoardError::InvalidConfiguration);
    assert_eq!(generate(3, 3, 10).unwrap_err(), BoardError::InvalidConfiguration);
    assert_eq!(generate(3, 3, -1).unwrap_err(), BoardError::InvalidConfiguration);
    assert_eq!(build_random_board(2, 2, 5).unwrap_err(), BoardError::InvalidConfiguration);
}

#[test]
fn random_board_holds_only_mines_and_empty_cells() {
    let board = build_random_board(5, 4, 7).unwrap();
    assert_eq!(bombs_in(&board), 7);
    for row in board.values.iter() {
        assert_eq!(row.len(), 4);
        for v in row.iter() {
            assert!(*v == BoardValue::Bomb || *v == BoardValue::Empty);
        }
    }
}

#[test]
fn mine_placement_is_shuffled() {
    let mut positions = Vec::new();
    for _ in 0..50 {
        let board = build_random_board(10, 10, 1).unwrap();
        for r in 0..10 {
            for c in 0..10 {
                if board.value(r, c) == BoardValue::Bomb {
                    positions.push((r, c));
                }
            }
        }
    }
    assert_eq!(positions.len(), 50);
    assert!(positions.iter().any(|p| *p != (0, 0)));
}

#[test]
fn cell_centre_maps_back() {
    let surface = Vec2i { x: 800, y: 600 };
    for r in 0..9 {
        for c in 0..9 {
            let pointer = Vec2i { x: 400 - 180 + 40 * c, y: 300 - 180 + 40 * r };
            assert_eq!(
                map_pointer(Some(pointer), surface, 9, 9, 40),
                Some(GridCoordinates { x: c, y: r })
            );
        }
    }
}

#[test]
fn pointer_mapping_rounds_and_does_not_clamp() {
    let surface = Vec2i { x: 800, y: 600 };
    assert_eq!(map_pointer(None, surface, 9, 9, 40), None);
    assert_eq!(
        map_pointer(Some(Vec2i { x: 400, y: 300 }), surface, 9, 9, 40),
        Some(GridCoordinates { x: 5, y: 5 })
    );
    assert_eq!(
        map_pointer(Some(Vec2i { x: 790, y: 10 }), surface, 9, 9, 40),
        Some(GridCoordinates { x: 14, y: -3 })
    );
    assert_eq!(
        map_pointer(Some(Vec2i { x: 210, y: 300 }), surface, 9, 9, 40),
        Some(GridCoordinates { x: 0, y: 5 })
    );
}

#[test]
fn pointer_just_outside_board_maps_outside() {
    let surface = Vec2i { x: 800, y: 800 };
    assert_eq!(
        map_pointer(Some(Vec2i { x: 180, y: 400 }), surface, 9, 9, 40),
        Some(GridCoordinates { x: -1, y: 5 })
    );
    assert_eq!(
        map_pointer(Some(Vec2i { x: 400, y: 199 }), surface, 9, 9, 40),
        Some(GridCoordinates { x: 5, y: -1 })
    );
    assert_eq!(
        map_pointer(Some(Vec2i { x: 400, y: 200 }), surface, 9, 9, 40),
        Some(GridCoordinates { x: 5, y: 0 })
    );
}

#[test]
fn board_text_lists_rows() {
    let board = build_clues(&place_mines(3, 3, &vec![(0, 0), (0, 1)], 2));
    assert_eq!(board.to_text(), "3x3\nBB1\n221\n...\n");
    assert_eq!(BoardValue::Clue(3).to_text(), "3");
    assert_eq!(BoardValue::Clue(-12).to_text(), "-12");
    assert_eq!(BoardValue::Bomb.to_text(), "B");
    assert_eq!(BoardValue::Empty.to_text(), ".");
    let wide = generate(2, 12, 0).unwrap();
    assert_eq!(wide.to_text(), "2x12\n............\n............\n");
}

#[test]
fn mask_starts_closed_and_updates_one_cell() {
    let mut mask = build_mask(2, 3);
    assert_eq!(mask.to_text(), "2x3\n...\n...\n");
    mask.set_state(0, 1, MaskValue::Open);
    mask.set_state(1, 0, MaskValue::Flagged);
    mask.set_state(1, 2, MaskValue::Question);
    assert_eq!(mask.state(0, 1), MaskValue::Open);
    assert_eq!(mask.state(0, 0), MaskValue::Closed);
    assert_eq!(mask.to_text(), "2x3\n. .\nF.?\n");
    assert_eq!(MaskValue::Flagged.to_text(), "F");
}
