use lp_tetris::piece::{Piece, Tetromino};

fn shapes() -> Vec<Tetromino> {
    vec![
        Tetromino::S,
        Tetromino::J,
        Tetromino::L,
        Tetromino::I,
        Tetromino::T,
        Tetromino::Z,
        Tetromino::O,
    ]
}

#[test]
fn base_layouts_and_colours() {
    let s = Piece::new(Tetromino::S);
    assert_eq!(s.render().as_rows(), vec![vec![false, true, true], vec![true, true, false]]);
    assert_eq!(s.color, 5);
    let j = Piece::new(Tetromino::J);
    assert_eq!(j.render().as_rows(), vec![vec![false, true], vec![false, true], vec![true, true]]);
    assert_eq!(j.color, 13);
    let l = Piece::new(Tetromino::L);
    assert_eq!(l.render().as_rows(), vec![vec![true, false], vec![true, false], vec![true, true]]);
    assert_eq!(l.color, 21);
    let i = Piece::new(Tetromino::I);
    assert_eq!(i.render().as_rows(), vec![vec![true], vec![true], vec![true], vec![true]]);
    assert_eq!(i.color, 3);
    let t = Piece::new(Tetromino::T);
    assert_eq!(t.render().as_rows(), vec![vec![true, true, true], vec![false, true, false]]);
    assert_eq!(t.color, 37);
    let z = Piece::new(Tetromino::Z);
    assert_eq!(z.render().as_rows(), vec![vec![true, true, false], vec![false, true, true]]);
    assert_eq!(z.color, 45);
    let o = Piece::new(Tetromino::O);
    assert_eq!(o.render().as_rows(), vec![vec![true, true], vec![true, true]]);
    assert_eq!(o.color, 53);
}

#[test]
fn colour_getter_matches_field() {
    for shape in shapes() {
        let piece = Piece::new(shape);
        assert_eq!(piece.color(), piece.color);
        assert!(piece.color >= 1 && piece.color <= 63);
    }
}

#[test]
fn quarter_turns_of_the_t_shape() {
    let mut piece = Piece::new(Tetromino::T);
    piece.rotate_left();
    assert_eq!(
        piece.render().as_rows(),
        vec![vec![false, true], vec![true, true], vec![false, true]]
    );
    piece.rotate_left();
    assert_eq!(piece.render().as_rows(), vec![vec![false, true, false], vec![true, true, true]]);
    piece.rotate_left();
    assert_eq!(
        piece.render().as_rows(),
        vec![vec![true, false], vec![true, true], vec![true, false]]
    );
}

#[test]
fn a_left_turn_goes_to_the_orientation_before() {
    let mut piece = Piece::new(Tetromino::J);
    piece.rotate_left();
    assert_eq!(
        piece.render().as_rows(),
        vec![vec![true, false, false], vec![true, true, true]]
    );
    let mut piece = Piece::new(Tetromino::L);
    piece.rotate_left();
    assert_eq!(
        piece.render().as_rows(),
        vec![vec![true, true, true], vec![true, false, false]]
    );
    piece.rotate_right();
    piece.rotate_right();
    assert_eq!(
        piece.render().as_rows(),
        vec![vec![false, false, true], vec![true, true, true]]
    );
}

#[test]
fn quarter_turn_of_the_i_shape_lies_flat() {
    let piece = Piece::new(Tetromino::I).rotated_left();
    assert_eq!(piece.render().as_rows(), vec![vec![true, true, true, true]]);
    assert_eq!(piece.render().num_rows(), 1);
    assert_eq!(piece.render().num_columns(), 4);
}

#[test]
fn rotated_right_turns_to_the_right() {
    let piece = Piece::new(Tetromino::J).rotated_right();
    assert_eq!(
        piece.render().as_rows(),
        vec![vec![true, true, true], vec![false, false, true]]
    );
    let mut other = Piece::new(Tetromino::J);
    other.rotate_right();
    assert_eq!(piece.render(), other.render());
}

#[test]
fn four_turns_restore_every_shape_in_every_orientation() {
    for shape in shapes() {
        for start in 0..4 {
            let mut piece = Piece::new(shape);
            for _ in 0..start {
                piece.rotate_left();
            }
            let before = piece.render();
            for _ in 0..4 {
                piece.rotate_left();
            }
            assert_eq!(before, piece.render());
            for _ in 0..4 {
                piece.rotate_right();
            }
            assert_eq!(before, piece.render());
        }
    }
}

#[test]
fn left_and_right_turns_undo_each_other() {
    for shape in shapes() {
        for start in 0..4 {
            let mut piece = Piece::new(shape);
            for _ in 0..start {
                piece.rotate_left();
            }
            let before = piece.render();
            piece.rotate_left();
            piece.rotate_right();
            assert_eq!(before, piece.render());
            piece.rotate_right();
            piece.rotate_left();
            assert_eq!(before, piece.render());
        }
    }
}

#[test]
fn three_left_turns_are_one_right_turn() {
    for shape in shapes() {
        let left = Piece::new(shape).rotated_left().rotated_left().rotated_left();
        let right = Piece::new(shape).rotated_right();
        assert_eq!(left.render(), right.render());
    }
}

#[test]
fn render_leaves_the_piece_as_it_is() {
    let piece = Piece::new(Tetromino::Z).rotated_left();
    let first = piece.render();
    let second = piece.render();
    assert_eq!(first, second);
    assert_eq!(first.as_rows(), vec![vec![false, true], vec![true, true], vec![true, false]]);
}

#[test]
fn shapes_by_index() {
    assert_eq!(Tetromino::from_index(0), Tetromino::S);
    assert_eq!(Tetromino::from_index(1), Tetromino::J);
    assert_eq!(Tetromino::from_index(2), Tetromino::L);
    assert_eq!(Tetromino::from_index(3), Tetromino::I);
    assert_eq!(Tetromino::from_index(4), Tetromino::T);
    assert_eq!(Tetromino::from_index(5), Tetromino::Z);
    assert_eq!(Tetromino::from_index(6), Tetromino::O);
    assert_eq!(Tetromino::from_index(7), Tetromino::O);
    assert_eq!(Tetromino::from_index(255), Tetromino::O);
}

#[test]
fn random_shapes_vary() {
    let first = Tetromino::random();
    let mut other = false;
    for _ in 0..400 {
        if Tetromino::random() != first {
            other = true;
        }
    }
    assert!(other);
}
