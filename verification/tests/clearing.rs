use lp_tetris::board::Board;
use lp_tetris::piece::{Piece, Tetromino};

fn flat_i() -> Piece {
    Piece::new(Tetromino::I).rotated_left()
}

fn cells(board: &Board) -> Vec<Vec<u8>> {
    board.shadow(&Piece::new(Tetromino::O), 0, 8).as_rows()
}

fn fill_row(board: &mut Board, y: usize) {
    board.place(&flat_i(), 0, y);
    board.place(&flat_i(), 4, y);
}

#[test]
fn clear_rows_without_a_full_row_changes_nothing() {
    let mut board = Board::new();
    board.place(&Piece::new(Tetromino::L), 0, 0);
    board.place(&flat_i(), 3, 0);
    board.place(&Piece::new(Tetromino::S), 4, 6);
    let before = cells(&board);
    board.clear_rows();
    assert_eq!(cells(&board), before);
    let mut empty = Board::new();
    empty.clear_rows();
    assert_eq!(cells(&empty), vec![vec![0u8; 8]; 8]);
}

#[test]
fn bottom_row_scenario_moves_the_second_row_down() {
    let mut board = Board::new();
    board.place(&Piece::new(Tetromino::L), 0, 0);
    board.place(&Piece::new(Tetromino::J), 6, 0);
    board.place(&Piece::new(Tetromino::I).rotated_left(), 2, 0);
    assert_eq!(board.row_filled(0), 8);
    assert_eq!(board.row_filled(1), 2);
    let before = cells(&board);
    assert_eq!(before[0], vec![21, 21, 3, 3, 3, 3, 13, 13]);
    assert_eq!(before[1], vec![21, 0, 0, 0, 0, 0, 0, 13]);
    assert_eq!(board.column_height(0), 3);
    assert_eq!(board.column_height(7), 3);
    board.clear_rows();
    let after = cells(&board);
    assert_eq!(after[0], before[1]);
    assert_eq!(after[1], before[2]);
    assert_eq!(after[2], vec![0; 8]);
    assert_eq!(after[7], vec![0; 8]);
    assert_eq!(board.column_height(0), 2);
    assert_eq!(board.column_height(7), 2);
}

#[test]
fn two_full_rows_next_to_each_other_both_leave() {
    let mut board = Board::new();
    fill_row(&mut board, 0);
    fill_row(&mut board, 1);
    board.place(&Piece::new(Tetromino::L), 0, 2);
    assert_eq!(board.row_filled(0), 8);
    assert_eq!(board.row_filled(1), 8);
    board.clear_rows();
    let after = cells(&board);
    assert_eq!(after[0], vec![21, 21, 0, 0, 0, 0, 0, 0]);
    assert_eq!(after[1], vec![21, 0, 0, 0, 0, 0, 0, 0]);
    assert_eq!(after[2], vec![21, 0, 0, 0, 0, 0, 0, 0]);
    for y in 3..8 {
        assert_eq!(after[y], vec![0; 8]);
    }
    assert_eq!(board.column_height(0), 3);
    assert_eq!(board.column_height(1), 1);
}

#[test]
fn full_rows_apart_both_leave() {
    let mut board = Board::new();
    fill_row(&mut board, 0);
    board.place(&flat_i(), 0, 1);
    fill_row(&mut board, 2);
    board.place(&flat_i(), 2, 3);
    board.clear_rows();
    let after = cells(&board);
    assert_eq!(after[0], vec![3, 3, 3, 3, 0, 0, 0, 0]);
    assert_eq!(after[1], vec![0, 0, 3, 3, 3, 3, 0, 0]);
    for y in 2..8 {
        assert_eq!(after[y], vec![0; 8]);
    }
}

#[test]
fn a_board_of_full_rows_is_emptied() {
    let mut board = Board::new();
    for y in 0..8 {
        fill_row(&mut board, y);
    }
    assert!(board.finished());
    board.clear_rows();
    assert_eq!(cells(&board), vec![vec![0u8; 8]; 8]);
    assert!(!board.finished());
}

#[test]
fn full_top_row_leaves_and_the_top_is_empty() {
    let mut board = Board::new();
    fill_row(&mut board, 7);
    board.place(&Piece::new(Tetromino::O), 3, 0);
    board.clear_rows();
    let after = cells(&board);
    assert_eq!(after[7], vec![0; 8]);
    assert_eq!(after[0], vec![0, 0, 0, 53, 53, 0, 0, 0]);
    assert_eq!(after[1], vec![0, 0, 0, 53, 53, 0, 0, 0]);
    assert!(!board.finished());
}

#[test]
fn no_full_row_is_left_after_clearing() {
    let mut board = Board::new();
    fill_row(&mut board, 1);
    fill_row(&mut board, 2);
    fill_row(&mut board, 3);
    board.place(&Piece::new(Tetromino::T), 0, 4);
    board.place(&Piece::new(Tetromino::O), 6, 0);
    board.clear_rows();
    for y in 0..8 {
        assert!(board.row_filled(y) < 8);
    }
    let after = cells(&board);
    assert_eq!(after[0], vec![0, 0, 0, 0, 0, 0, 53, 53]);
    assert_eq!(after[1], vec![0, 37, 0, 0, 0, 0, 0, 0]);
    assert_eq!(after[2], vec![37, 37, 37, 0, 0, 0, 0, 0]);
    assert_eq!(after[3], vec![0; 8]);
}
