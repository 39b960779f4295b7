use lp_tetris::board::{Board, CollisionResult};
use lp_tetris::piece::{Piece, Tetromino};

fn zero() -> Vec<Vec<bool>> {
    vec![
        vec![false, true],
        vec![false, true],
        vec![true, true],
    ]
}

fn half_pi() -> Vec<Vec<bool>> {
    vec![
        vec![true, true, true],
        vec![false, false, true],
    ]
}

fn pi() -> Vec<Vec<bool>> {
    vec![
        vec![true, true],
        vec![true, false],
        vec![true, false],
    ]
}

fn one_half_pi() -> Vec<Vec<bool>> {
    vec![
        vec![true, false, false],
        vec![true, true, true],
    ]
}

#[test]
fn rotations() {
    let mut piece = Piece::new(Tetromino::J);
    let zero_ren = piece.render();
    piece.rotate_left();
    let half_pi_ren = piece.render();
    for _ in 0..3 {
        piece.rotate_left();
    }
    assert_eq!(zero_ren, piece.render());
    for _ in 0..3 {
        piece.rotate_right();
    }
    assert_eq!(half_pi_ren, piece.render());
}

#[test]
fn render() {
    let mut piece = Piece::new(Tetromino::J);
    assert_eq!(zero(), piece.render().as_rows());
    piece.rotate_left();
    assert_eq!(one_half_pi(), piece.render().as_rows());
    piece.rotate_left();
    assert_eq!(pi(), piece.render().as_rows());
    piece.rotate_left();
    assert_eq!(half_pi(), piece.render().as_rows());
    piece.rotate_left();
    assert_eq!(zero(), piece.render().as_rows());
}

#[test]
fn rotated_equiv() {
    let mut rotate = Piece::new(Tetromino::L);
    rotate.rotate_left();
    let rotated = Piece::new(Tetromino::L).rotated_left();
    assert_eq!(rotate.render(), rotated.render());
}

#[test]
fn empty_board() {
    let board = Board::new();
    for iy in 0..8 {
        assert_eq!(board.row_filled(iy), 0);
    }
    for ix in 0..8 {
        assert_eq!(board.column_height(ix), 0);
    }
}

#[test]
fn added_piece() {
    let mut board = Board::new();
    let piece = Piece::new(Tetromino::L);
    board.place(&piece, 0, 0);
    println!("{:?}", board);
    assert_eq!(board.column_height(0), 3);
    assert_eq!(board.column_height(1), 1);
    assert_eq!(board.column_height(2), 0);
    assert_eq!(board.row_filled(0), 2);
    assert_eq!(board.row_filled(1), 1);
    assert_eq!(board.row_filled(2), 1);
    assert_eq!(board.row_filled(3), 0);
}

#[test]
fn clear_bottom_row() {
    let mut board = Board::new();
    board.place(&Piece::new(Tetromino::L), 0, 0);
    board.place(&Piece::new(Tetromino::J), 6, 0);
    board.place(&Piece::new(Tetromino::I).rotated_left(), 2, 0);
    assert_eq!(board.column_height(0), 3);
    assert_eq!(board.column_height(1), 1);
    assert_eq!(board.column_height(2), 1);
    assert_eq!(board.column_height(5), 1);
    assert_eq!(board.column_height(6), 1);
    assert_eq!(board.column_height(7), 3);
    assert_eq!(board.row_filled(0), 8);
    assert_eq!(board.row_filled(1), 2);
    assert_eq!(board.row_filled(2), 2);
    assert_eq!(board.row_filled(3), 0);
    board.clear_rows();
    assert_eq!(board.column_height(0), 2);
    assert_eq!(board.column_height(1), 0);
    assert_eq!(board.column_height(2), 0);
    assert_eq!(board.column_height(5), 0);
    assert_eq!(board.column_height(6), 0);
    assert_eq!(board.column_height(7), 2);
    assert_eq!(board.row_filled(0), 2);
    assert_eq!(board.row_filled(1), 2);
    assert_eq!(board.row_filled(2), 0);
    assert_eq!(board.row_filled(3), 0);
}

#[test]
fn clear_floating_row() {
    let mut board = Board::new();
    board.place(&Piece::new(Tetromino::L).rotated_left().rotated_left(), 6, 0);
    board.place(&Piece::new(Tetromino::J).rotated_left().rotated_left(), 0, 0);
    board.place(&Piece::new(Tetromino::I).rotated_left(), 2, 2);
    assert_eq!(board.column_height(0), 3);
    assert_eq!(board.column_height(1), 3);
    assert_eq!(board.column_height(2), 3);
    assert_eq!(board.column_height(5), 3);
    assert_eq!(board.column_height(6), 3);
    assert_eq!(board.column_height(7), 3);
    assert_eq!(board.row_filled(0), 2);
    assert_eq!(board.row_filled(1), 2);
    assert_eq!(board.row_filled(2), 8);
    assert_eq!(board.row_filled(3), 0);
    board.clear_rows();
    assert_eq!(board.column_height(0), 2);
    assert_eq!(board.column_height(1), 0);
    assert_eq!(board.column_height(2), 0);
    assert_eq!(board.column_height(5), 0);
    assert_eq!(board.column_height(6), 0);
    assert_eq!(board.column_height(7), 2);
    assert_eq!(board.row_filled(0), 2);
    assert_eq!(board.row_filled(1), 2);
    assert_eq!(board.row_filled(2), 0);
    assert_eq!(board.row_filled(3), 0);
}

#[test]
fn collide_hbound() {
    let board = Board::new();
    let piece = Piece::new(Tetromino::I).rotated_left();
    assert_eq!(board.collides(&piece, 4, 4), CollisionResult::Unobstructed);
    assert_eq!(board.collides(&piece, 5, 4), CollisionResult::CollidesHBound);
}

#[test]
fn collide_roof() {
    let board = Board::new();
    let mut piece = Piece::new(Tetromino::I).rotated_left();
    assert_eq!(board.collides(&piece, 2, 7), CollisionResult::Unobstructed);
    assert_eq!(board.collides(&piece, 2, 8), CollisionResult::Unobstructed);
    piece.rotate_left();
    assert_eq!(board.collides(&piece, 2, 7), CollisionResult::Unobstructed);
    assert_eq!(board.collides(&piece, 2, 8), CollisionResult::Unobstructed);
    assert_eq!(board.collides(&piece, 2, 9), CollisionResult::Unobstructed);
    assert_eq!(board.collides(&piece, 2, 10), CollisionResult::Unobstructed);
    assert_eq!(board.collides(&piece, 2, 11), CollisionResult::Unobstructed);
}
