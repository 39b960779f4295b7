//! Tetrominoes: the seven shapes, their four orientations and the occupancy
//! grid of a piece in its current orientation.

use crate::grid::{
    bool_grid_as_columns, bool_grid_as_row_major, bool_grid_as_rows, bool_grid_from_columns,
    bool_grid_from_row_major, bool_grid_from_rows, bool_grid_num_columns, bool_grid_num_rows,
    bool_rows, rectangular, reshaped, reverse_in_place, transposed, width,
};
use array2d::Array2D;
use vstd::prelude::*;

verus! {

/// The orientation of a piece: the number of quarter turns to the right
/// that lead to it from the base layout.
#[derive(Debug, Clone, Copy, PartialEq, Eq, Structural)]
pub enum Rotation {
    Zero,
    HalfPi,
    Pi,
    OneHalfPi,
}

/// The seven shapes.
#[derive(Debug, Clone, Copy, PartialEq, Eq, Structural)]
pub enum Tetromino {
    S,
    J,
    L,
    I,
    T,
    Z,
    O,
}

/// How many shapes there are.
pub const SHAPE_COUNT: u8 = 7;

impl Rotation {
    /// The number of quarter turns, from 0 to 3.
    pub open spec fn index(self) -> int {
        match self {
            Rotation::Zero => 0,
            Rotation::HalfPi => 1,
            Rotation::Pi => 2,
            Rotation::OneHalfPi => 3,
        }
    }

    /// The orientation one quarter turn to the left: the previous index, and
    /// 3 before 0.
    pub open spec fn left(self) -> Rotation {
        match self {
            Rotation::Zero => Rotation::OneHalfPi,
            Rotation::HalfPi => Rotation::Zero,
            Rotation::Pi => Rotation::HalfPi,
            Rotation::OneHalfPi => Rotation::Pi,
        }
    }

    /// The orientation one quarter turn to the right: the next index, and 0
    /// after 3.
    pub open spec fn right(self) -> Rotation {
        match self {
            Rotation::Zero => Rotation::HalfPi,
            Rotation::HalfPi => Rotation::Pi,
            Rotation::Pi => Rotation::OneHalfPi,
            Rotation::OneHalfPi => Rotation::Zero,
        }
    }
}

impl Tetromino {
    /// The shape's cells in orientation zero, top row first.
    pub open spec fn layout(self) -> Seq<Seq<bool>> {
        match self {
            Tetromino::S => seq![seq![false, true, true], seq![true, true, false]],
            Tetromino::J => seq![seq![false, true], seq![false, true], seq![true, true]],
            Tetromino::L => seq![seq![true, false], seq![true, false], seq![true, true]],
            Tetromino::I => seq![seq![true], seq![true], seq![true], seq![true]],
            Tetromino::T => seq![seq![true, true, true], seq![false, true, false]],
            Tetromino::Z => seq![seq![true, true, false], seq![false, true, true]],
            Tetromino::O => seq![seq![true, true], seq![true, true]],
        }
    }

    /// The shape's palette colour.
    pub open spec fn color(self) -> u8 {
        match self {
            Tetromino::S => 5,
            Tetromino::J => 13,
            Tetromino::L => 21,
            Tetromino::I => 3,
            Tetromino::T => 37,
            Tetromino::Z => 45,
            Tetromino::O => 53,
        }
    }

    /// The shape with the given number; every number from 6 on names `O`.
    pub open spec fn at(index: u8) -> Tetromino {
        if index == 0 {
            Tetromino::S
        } else if index == 1 {
            Tetromino::J
        } else if index == 2 {
            Tetromino::L
        } else if index == 3 {
            Tetromino::I
        } else if index == 4 {
            Tetromino::T
        } else if index == 5 {
            Tetromino::Z
        } else {
            Tetromino::O
        }
    }

    /// The shape with the given number.
    pub fn from_index(index: u8) -> (shape: Tetromino)
        ensures
            shape == Tetromino::at(index),
    {
        match index {
            0 => Tetromino::S,
            1 => Tetromino::J,
            2 => Tetromino::L,
            3 => Tetromino::I,
            4 => Tetromino::T,
            5 => Tetromino::Z,
            _ => Tetromino::O,
        }
    }

    /// A shape drawn uniformly from the seven, independently of earlier
    /// draws.
    pub fn random() -> (shape: Tetromino)
        ensures
            exists|index: u8| index < SHAPE_COUNT && shape == Tetromino::at(index),
    {
        let index: u8 = draw_below(SHAPE_COUNT);
        Tetromino::from_index(index)
    }
}

/// `rand::Rng::gen_range` on `rand::thread_rng()`: a number from 0 up to
/// but not including `bound`. The call panics when `bound` is 0.
#[verifier::external_body]
fn draw_below(bound: u8) -> (n: u8)
    requires
        bound > 0,
    ensures
        n < bound,
{
    rand::Rng::gen_range(&mut rand::thread_rng(), 0u8, bound)
}

/// The occupancy grid of `layout` in the given orientation.
///
/// Orientation zero is the layout itself. Orientation one takes the
/// layout's columns from last to first and makes each a row. Orientation
/// two reverses the order of all cells and keeps the dimensions.
/// Orientation three takes the layout's rows from last to first and makes
/// each a column.
pub open spec fn turned(layout: Seq<Seq<bool>>, rotation: Rotation) -> Seq<Seq<bool>> {
    let h = layout.len();
    let w = width(layout);
    match rotation {
        Rotation::Zero => layout,
        Rotation::HalfPi => Seq::new(w, |i: int| Seq::new(h, |j: int| layout[j][w - 1 - i])),
        Rotation::Pi => Seq::new(h, |i: int| Seq::new(w, |j: int| layout[h - 1 - i][w - 1 - j])),
        Rotation::OneHalfPi => Seq::new(w, |i: int| Seq::new(h, |j: int| layout[h - 1 - j][i])),
    }
}

/// A shape in one of its four orientations.
#[derive(Debug)]
pub struct Piece {
    layout: Array2D<bool>,
    pub color: u8,
    rotation: Rotation,
}

impl Piece {
    /// The cells of the piece in orientation zero, top row first.
    pub closed spec fn layout(&self) -> Seq<Seq<bool>> {
        bool_rows(self.layout)
    }

    /// The current orientation.
    pub closed spec fn rotation(&self) -> Rotation {
        self.rotation
    }

    /// The palette colour that the piece paints its cells with.
    pub closed spec fn color_id(&self) -> u8 {
        self.color
    }

    /// The same piece in another orientation.
    pub closed spec fn with_rotation(self, rotation: Rotation) -> Piece {
        Piece { layout: self.layout, color: self.color, rotation }
    }

    /// The piece after a quarter turn to the left.
    pub open spec fn turned_left(self) -> Piece {
        self.with_rotation(self.rotation().left())
    }

    /// The piece after a quarter turn to the right.
    pub open spec fn turned_right(self) -> Piece {
        self.with_rotation(self.rotation().right())
    }

    /// A piece has a rectangular layout of one to four rows and columns and
    /// a colour from 1 to 63.
    pub open spec fn wf(&self) -> bool {
        &&& rectangular(self.layout())
        &&& 1 <= self.layout().len() <= 4
        &&& 1 <= width(self.layout()) <= 4
        &&& 1 <= self.color_id() <= 63
    }

    /// The occupancy grid in the current orientation, top row first.
    pub open spec fn occupancy(&self) -> Seq<Seq<bool>> {
        turned(self.layout(), self.rotation())
    }

    /// What `with_rotation` changes and what it keeps.
    pub proof fn lemma_with_rotation(self, rotation: Rotation)
        ensures
            self.with_rotation(rotation).layout() == self.layout(),
            self.with_rotation(rotation).color_id() == self.color_id(),
            self.with_rotation(rotation).rotation() == rotation,
            self.with_rotation(rotation).wf() == self.wf(),
            self.with_rotation(self.rotation()) == self,
            forall|other: Rotation|
                #[trigger] self.with_rotation(rotation).with_rotation(other) == self.with_rotation(
                    other,
                ),
    {
    }

    /// The occupancy grid of a piece is rectangular, with one to four rows
    /// and columns. A quarter turn or three swap the layout's dimensions.
    pub proof fn lemma_occupancy_dimensions(self)
        requires
            self.wf(),
        ensures
            rectangular(self.occupancy()),
            1 <= self.occupancy().len() <= 4,
            1 <= width(self.occupancy()) <= 4,
            self.rotation() == Rotation::Zero || self.rotation() == Rotation::Pi ==> {
                &&& self.occupancy().len() == self.layout().len()
                &&& width(self.occupancy()) == width(self.layout())
            },
            self.rotation() == Rotation::HalfPi || self.rotation() == Rotation::OneHalfPi ==> {
                &&& self.occupancy().len() == width(self.layout())
                &&& width(self.occupancy()) == self.layout().len()
            },
    {
    }

    /// Returns the palette colour of the piece.
    pub fn color(&self) -> (color: u8)
        ensures
            color == self.color_id(),
    {
        self.color
    }

    /// Returns a new piece of the given shape, in orientation zero.
    pub fn new(id: Tetromino) -> (piece: Piece)
        ensures
            piece.wf(),
            piece.layout() == id.layout(),
            piece.color_id() == id.color(),
            piece.rotation() == Rotation::Zero,
    {
        let rows: Vec<Vec<bool>> = match id {
            Tetromino::S => vec![vec![false, true, true], vec![true, true, false]],
            Tetromino::J => vec![vec![false, true], vec![false, true], vec![true, true]],
            Tetromino::L => vec![vec![true, false], vec![true, false], vec![true, true]],
            Tetromino::I => vec![vec![true], vec![true], vec![true], vec![true]],
            Tetromino::T => vec![vec![true, true, true], vec![false, true, false]],
            Tetromino::Z => vec![vec![true, true, false], vec![false, true, true]],
            Tetromino::O => vec![vec![true, true], vec![true, true]],
        };
        let color: u8 = match id {
            Tetromino::S => 5,
            Tetromino::J => 13,
            Tetromino::L => 21,
            Tetromino::I => 3,
            Tetromino::T => 37,
            Tetromino::Z => 45,
            Tetromino::O => 53,
        };
        assert(rows.deep_view() =~~= id.layout());
        Piece { layout: bool_grid_from_rows(&rows), color, rotation: Rotation::Zero }
    }

    /// Turns the piece a quarter turn to the left.
    pub fn rotate_left(&mut self)
        ensures
            *final(self) == old(self).turned_left(),
            final(self).layout() == old(self).layout(),
            final(self).color_id() == old(self).color_id(),
            final(self).rotation() == old(self).rotation().left(),
    {
        self.rotation =
        match self.rotation {
            Rotation::Zero => Rotation::OneHalfPi,
            Rotation::HalfPi => Rotation::Zero,
            Rotation::Pi => Rotation::HalfPi,
            Rotation::OneHalfPi => Rotation::Pi,
        }
    }

    /// Turns the piece a quarter turn to the right.
    pub fn rotate_right(&mut self)
        ensures
            *final(self) == old(self).turned_right(),
            final(self).layout() == old(self).layout(),
            final(self).color_id() == old(self).color_id(),
            final(self).rotation() == old(self).rotation().right(),
    {
        self.rotation =
        match self.rotation {
            Rotation::Zero => Rotation::HalfPi,
            Rotation::HalfPi => Rotation::Pi,
            Rotation::Pi => Rotation::OneHalfPi,
            Rotation::OneHalfPi => Rotation::Zero,
        }
    }

    /// Returns the piece turned a quarter turn to the left.
    pub fn rotated_left(self) -> (piece: Piece)
        ensures
            piece == self.turned_left(),
            piece.layout() == self.layout(),
            piece.color_id() == self.color_id(),
            piece.rotation() == self.rotation().left(),
    {
        let mut piece = self;
        piece.rotate_left();
        piece
    }

    /// Returns the piece turned a quarter turn to the right.
    pub fn rotated_right(self) -> (piece: Piece)
        ensures
            piece == self.turned_right(),
            piece.layout() == self.layout(),
            piece.color_id() == self.color_id(),
            piece.rotation() == self.rotation().right(),
    {
        let mut piece = self;
        piece.rotate_right();
        piece
    }

    /// Returns the occupancy grid of the piece in its current orientation.
    pub fn render(&self) -> (grid: Array2D<bool>)
        requires
            self.wf(),
        ensures
            bool_rows(grid) == self.occupancy(),
    {
        let ghost layout = self.layout();
        match self.rotation {
            Rotation::Zero => {
                let rows = bool_grid_as_rows(&self.layout);
                bool_grid_from_rows(&rows)
            },
            Rotation::HalfPi => {
                let mut columns = bool_grid_as_columns(&self.layout);
                let ghost forward = columns.deep_view();
                reverse_in_place(&mut columns);
                proof {
                    assert(columns.deep_view() =~= forward.reverse());
                    lemma_reversed_columns(layout);
                }
                bool_grid_from_rows(&columns)
            },
            Rotation::Pi => {
                let mut cells = bool_grid_as_row_major(&self.layout);
                let ghost forward = cells@;
                reverse_in_place(&mut cells);
                let num_rows = bool_grid_num_rows(&self.layout);
                let num_columns = bool_grid_num_columns(&self.layout);
                proof {
                    lemma_reversed_row_major(layout, forward);
                }
                bool_grid_from_row_major(&cells, num_rows, num_columns)
            },
            Rotation::OneHalfPi => {
                let mut rows = bool_grid_as_rows(&self.layout);
                reverse_in_place(&mut rows);
                proof {
                    assert(rows.deep_view() =~= layout.reverse());
                    lemma_reversed_rows(layout);
                }
                bool_grid_from_columns(&rows)
            },
        }
    }
}

/// A quarter turn to the left lowers the orientation index by one and a
/// quarter turn to the right raises it by one, both modulo 4.
pub proof fn lemma_turn_index(rotation: Rotation)
    ensures
        0 <= rotation.index() < 4,
        rotation.left().index() == (rotation.index() - 1) % 4,
        rotation.right().index() == (rotation.index() + 1) % 4,
{
}

/// Four quarter turns in one direction bring a piece back to where it was,
/// and with it its occupancy grid.
pub proof fn lemma_four_turns(piece: Piece)
    ensures
        piece.turned_left().turned_left().turned_left().turned_left() == piece,
        piece.turned_right().turned_right().turned_right().turned_right() == piece,
        piece.turned_left().turned_left().turned_left().turned_left().occupancy()
            == piece.occupancy(),
        piece.turned_right().turned_right().turned_right().turned_right().occupancy()
            == piece.occupancy(),
{
    let l1 = piece.turned_left();
    let l2 = l1.turned_left();
    let l3 = l2.turned_left();
    piece.lemma_with_rotation(piece.rotation().left());
    l1.lemma_with_rotation(l1.rotation().left());
    l2.lemma_with_rotation(l2.rotation().left());
    l3.lemma_with_rotation(l3.rotation().left());
    let r1 = piece.turned_right();
    let r2 = r1.turned_right();
    let r3 = r2.turned_right();
    piece.lemma_with_rotation(piece.rotation().right());
    r1.lemma_with_rotation(r1.rotation().right());
    r2.lemma_with_rotation(r2.rotation().right());
    r3.lemma_with_rotation(r3.rotation().right());
}

/// A quarter turn to the left and one to the right undo each other.
pub proof fn lemma_opposite_turns(piece: Piece)
    ensures
        piece.turned_left().turned_right() == piece,
        piece.turned_right().turned_left() == piece,
{
    let l = piece.turned_left();
    let r = piece.turned_right();
    piece.lemma_with_rotation(piece.rotation().left());
    piece.lemma_with_rotation(piece.rotation().right());
    l.lemma_with_rotation(l.rotation().right());
    r.lemma_with_rotation(r.rotation().left());
}

/// The columns of a rectangular grid, from last to first, are the rows of the
/// grid in orientation one.
proof fn lemma_reversed_columns(layout: Seq<Seq<bool>>)
    requires
        rectangular(layout),
        layout.len() > 0,
    ensures
        transposed(layout).reverse() == turned(layout, Rotation::HalfPi),
        rectangular(transposed(layout).reverse()),
{
    assert(transposed(layout).reverse() =~~= turned(layout, Rotation::HalfPi));
}

/// The rows of a rectangular grid, from last to first, are the columns of the
/// grid in orientation three.
proof fn lemma_reversed_rows(layout: Seq<Seq<bool>>)
    requires
        rectangular(layout),
        layout.len() > 0,
    ensures
        transposed(layout.reverse()) == turned(layout, Rotation::OneHalfPi),
        rectangular(layout.reverse()),
{
    assert(transposed(layout.reverse()) =~~= turned(layout, Rotation::OneHalfPi));
}

/// Reading the cells of a rectangular grid row after row, reversing them and
/// cutting them into rows again gives the half-turned grid.
proof fn lemma_reversed_row_major(layout: Seq<Seq<bool>>, forward: Seq<bool>)
    requires
        rectangular(layout),
        layout.len() > 0,
        forward.len() == layout.len() * width(layout),
        forall|r: int, c: int|
            0 <= r < layout.len() && 0 <= c < width(layout) ==> forward[r * width(layout) + c]
                == #[trigger] layout[r][c],
    ensures
        reshaped(forward.reverse(), layout.len(), width(layout)) == turned(layout, Rotation::Pi),
{
    let h = layout.len() as int;
    let w = width(layout) as int;
    let cut = reshaped(forward.reverse(), layout.len(), width(layout));
    let goal = turned(layout, Rotation::Pi);
    assert forall|i: int, j: int| 0 <= i < h && 0 <= j < w implies cut[i][j] == goal[i][j] by {
        let r = h - 1 - i;
        let c = w - 1 - j;
        assert(0 <= i * w + j < h * w && r * w + c == h * w - 1 - (i * w + j)) by (nonlinear_arith)
            requires
                0 <= i < h,
                0 <= j < w,
                r == h - 1 - i,
                c == w - 1 - j,
        ;
        assert(forward[r * w + c] == layout[r][c]);
    }
    assert(cut =~~= goal);
}

} // verus!
