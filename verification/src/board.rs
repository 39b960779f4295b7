//! The 8×8 board: placement, collision testing, stack heights and line
//! clearing.
//!
//! Row 0 of the board is the floor and row 7 the ceiling. A piece stands at
//! an anchor `(x, y)`: `x` is the column of its leftmost cells and `y` the
//! row of its lowest cells. Every function here reads rows from the floor
//! up.

use crate::grid::{
    bool_grid_get, bool_grid_num_columns, bool_grid_num_rows, bool_rows, byte_grid_as_rows,
    byte_grid_filled_with, byte_grid_from_rows, byte_grid_get, byte_grid_row, byte_grid_set,
    byte_rows, width,
};
use crate::piece::Piece;
use array2d::Array2D;
use vstd::prelude::*;

verus! {

/// The number of rows and of columns of the board.
pub const SIDE: usize = 8;

/// The greatest palette colour.
pub const MAX_COLOR: u8 = 63;

/// What stands in the way of a piece at an anchor.
#[derive(Debug, Clone, Copy, PartialEq, Eq, Structural)]
pub enum CollisionResult {
    /// Nothing: the piece fits.
    Unobstructed,
    /// A cell of the piece lies on an occupied cell of the board.
    Collides,
    /// The piece reaches beyond the right edge of the board.
    CollidesHBound,
}

/// An 8×8 grid of palette colours from 0 to 63, where 0 is an empty cell.
pub open spec fn is_board(cells: Seq<Seq<u8>>) -> bool {
    &&& cells.len() == SIDE
    &&& forall|r: int| 0 <= r < SIDE ==> (#[trigger] cells[r]).len() == SIDE
    &&& forall|r: int, c: int|
        0 <= r < SIDE && 0 <= c < SIDE ==> #[trigger] cells[r][c] <= MAX_COLOR
}

/// A row of eight empty cells.
pub open spec fn empty_row() -> Seq<u8> {
    Seq::new(SIDE as nat, |c: int| 0u8)
}

/// The board without any occupied cell.
pub open spec fn empty_cells() -> Seq<Seq<u8>> {
    Seq::new(SIDE as nat, |r: int| empty_row())
}

/// The number of occupied cells in a row.
pub open spec fn occupied(row: Seq<u8>) -> nat {
    row.filter(|cell: u8| cell != 0).len()
}

/// One more than the highest occupied row below `limit` in column `x`, or 0
/// when the column is empty below `limit`.
pub open spec fn top_below(cells: Seq<Seq<u8>>, x: int, limit: int) -> int
    decreases limit,
{
    if limit <= 0 {
        0
    } else if cells[limit - 1][x] != 0 {
        limit
    } else {
        top_below(cells, x, limit - 1)
    }
}

/// The height of the stack in column `x`: one more than its highest
/// occupied row, or 0 when the column is empty or lies outside the board.
pub open spec fn stack_height(cells: Seq<Seq<u8>>, x: int) -> int {
    if 0 <= x < SIDE {
        top_below(cells, x, SIDE as int)
    } else {
        0
    }
}

/// Whether some column is stacked up to the ceiling.
pub open spec fn topped_out(cells: Seq<Seq<u8>>) -> bool {
    exists|x: int| 0 <= x < SIDE && stack_height(cells, x) == SIDE
}

/// Whether a piece with occupancy grid `shape`, anchored at `(x, y)`, covers
/// the cell at `row` and `col`. Row `y` holds the lowest row of the piece,
/// which is the last row of `shape`.
pub open spec fn covers(shape: Seq<Seq<bool>>, x: int, y: int, row: int, col: int) -> bool {
    &&& x <= col < x + width(shape)
    &&& y <= row < y + shape.len()
    &&& shape[shape.len() - 1 - (row - y)][col - x]
}

/// The board after a piece was painted on it in `color`: the cells that the
/// piece covers hold `color` and all others are as before. What the piece
/// covers outside the board is lost.
pub open spec fn painted(
    cells: Seq<Seq<u8>>,
    shape: Seq<Seq<bool>>,
    color: u8,
    x: int,
    y: int,
) -> Seq<Seq<u8>> {
    Seq::new(
        SIDE as nat,
        |r: int|
            Seq::new(
                SIDE as nat,
                |c: int|
                    if covers(shape, x, y, r, c) {
                        color
                    } else {
                        cells[r][c]
                    },
            ),
    )
}

/// The board while a piece is being painted: of the cells that the piece
/// covers, those in its lowest `rows` rows hold `color`, and so do the first
/// `cols` of the row above them.
spec fn painted_until(
    cells: Seq<Seq<u8>>,
    shape: Seq<Seq<bool>>,
    color: u8,
    x: int,
    y: int,
    rows: int,
    cols: int,
) -> Seq<Seq<u8>> {
    Seq::new(
        SIDE as nat,
        |r: int|
            Seq::new(
                SIDE as nat,
                |c: int|
                    if covers(shape, x, y, r, c) && (r - y < rows || (r - y == rows && c - x
                        < cols)) {
                        color
                    } else {
                        cells[r][c]
                    },
            ),
    )
}

/// Whether the piece covers the cell at `row` and `col` and the board holds
/// something there.
pub open spec fn hits(
    cells: Seq<Seq<u8>>,
    shape: Seq<Seq<bool>>,
    x: int,
    y: int,
    row: int,
    col: int,
) -> bool {
    covers(shape, x, y, row, col) && cells[row][col] != 0
}

/// What stands in the way of a piece at `(x, y)`. A piece that reaches
/// beyond column 7 meets the horizontal bound. Otherwise it collides when it
/// covers an occupied cell of the board. Rows from 8 up are always free.
pub open spec fn collision(
    cells: Seq<Seq<u8>>,
    shape: Seq<Seq<bool>>,
    x: int,
    y: int,
) -> CollisionResult {
    if x + width(shape) > SIDE {
        CollisionResult::CollidesHBound
    } else if exists|r: int, c: int|
        0 <= r < SIDE && 0 <= c < SIDE && #[trigger] hits(cells, shape, x, y, r, c) {
        CollisionResult::Collides
    } else {
        CollisionResult::Unobstructed
    }
}

/// The first free anchor to the left of `x`, trying the offsets `from`,
/// `from + 1` and so on as long as they are smaller than the width of the
/// piece.
pub open spec fn first_free_left(
    cells: Seq<Seq<u8>>,
    shape: Seq<Seq<bool>>,
    x: int,
    y: int,
    from: int,
) -> Option<(int, int)>
    decreases width(shape) - from,
{
    if from >= width(shape) {
        None
    } else if x - from >= 0 && collision(cells, shape, x - from, y)
        == CollisionResult::Unobstructed {
        Some((x - from, y))
    } else {
        first_free_left(cells, shape, x, y, from + 1)
    }
}

/// Where a freshly turned piece comes to stand. A piece that fits stays at
/// `(x, y)`. One that reaches beyond the right edge moves left to the first
/// free anchor less than its width away. One that lies on occupied cells
/// moves one column to the right or else one to the left. `None` means that
/// none of these anchors is free.
pub open spec fn kicked(
    cells: Seq<Seq<u8>>,
    shape: Seq<Seq<bool>>,
    x: int,
    y: int,
) -> Option<(int, int)> {
    match collision(cells, shape, x, y) {
        CollisionResult::Unobstructed => Some((x, y)),
        CollisionResult::CollidesHBound => first_free_left(cells, shape, x, y, 1),
        CollisionResult::Collides => if collision(cells, shape, x + 1, y)
            == CollisionResult::Unobstructed {
            Some((x + 1, y))
        } else if x >= 1 && collision(cells, shape, x - 1, y) == CollisionResult::Unobstructed {
            Some((x - 1, y))
        } else {
            None
        },
    }
}

/// Whether every cell of a row is occupied.
pub open spec fn full(row: Seq<u8>) -> bool {
    forall|c: int| 0 <= c < row.len() ==> row[c] != 0
}

/// The board after its full rows were taken out: the other rows in their
/// order, from the floor up, and empty rows above them.
pub open spec fn cleared(cells: Seq<Seq<u8>>) -> Seq<Seq<u8>> {
    let kept = cells.filter(|row: Seq<u8>| !full(row));
    kept + Seq::new((SIDE - kept.len()) as nat, |r: int| empty_row())
}

/// The 8×8 playing field.
#[derive(Debug)]
pub struct Board {
    matrix: Array2D<u8>,
}

impl Board {
    /// The cells of the board: `cells()[r][c]` is the colour at row `r`,
    /// counted from the floor, and column `c`.
    pub closed spec fn cells(&self) -> Seq<Seq<u8>> {
        byte_rows(self.matrix)
    }

    /// A board is 8×8 and holds palette colours.
    pub open spec fn wf(&self) -> bool {
        is_board(self.cells())
    }

    /// Returns a new, empty board.
    pub fn new() -> (board: Board)
        ensures
            board.wf(),
            board.cells() == empty_cells(),
    {
        let board = Board { matrix: byte_grid_filled_with(0, SIDE, SIDE) };
        assert(board.cells() =~~= empty_cells());
        board
    }

    fn place_impl(&self, piece: &Piece, x: usize, y: usize) -> (grid: Array2D<u8>)
        requires
            self.wf(),
            piece.wf(),
        ensures
            byte_rows(grid) == painted(
                self.cells(),
                piece.occupancy(),
                piece.color_id(),
                x as int,
                y as int,
            ),
            is_board(byte_rows(grid)),
    {
        let rows = byte_grid_as_rows(&self.matrix);
        let mut new_matrix = byte_grid_from_rows(&rows);
        let render = piece.render();
        let num_rows = bool_grid_num_rows(&render);
        let num_columns = bool_grid_num_columns(&render);
        let color = piece.color();
        let ghost before = self.cells();
        let ghost shape = piece.occupancy();
        proof {
            piece.lemma_occupancy_dimensions();
            lemma_paint_ends(before, shape, color, x as int, y as int);
        }
        for iy in 0..num_rows
            invariant
                is_board(before),
                color <= MAX_COLOR,
                shape == bool_rows(render),
                num_rows == shape.len(),
                num_columns == width(shape),
                forall|i: int| 0 <= i < shape.len() ==> (#[trigger] shape[i]).len() == num_columns,
                byte_rows(new_matrix) == painted_until(
                    before,
                    shape,
                    color,
                    x as int,
                    y as int,
                    iy as int,
                    0,
                ),
        {
            for ix in 0..num_columns
                invariant
                    is_board(before),
                    color <= MAX_COLOR,
                    shape == bool_rows(render),
                    num_rows == shape.len(),
                    num_columns == width(shape),
                    iy < num_rows,
                    forall|i: int|
                        0 <= i < shape.len() ==> (#[trigger] shape[i]).len() == num_columns,
                    byte_rows(new_matrix) == painted_until(
                        before,
                        shape,
                        color,
                        x as int,
                        y as int,
                        iy as int,
                        ix as int,
                    ),
            {
                proof {
                    lemma_paint_step(before, shape, color, x as int, y as int, iy as int, ix as int);
                }
                match bool_grid_get(&render, (num_rows - 1) - iy, ix) {
                    Some(true) => {
                        if y < SIDE && iy < SIDE - y && x < SIDE && ix < SIDE - x {
                            byte_grid_set(&mut new_matrix, y + iy, x + ix, color);
                        }
                    },
                    _ => (),
                }
            }
            proof {
                lemma_paint_row(before, shape, color, x as int, y as int, iy as int);
            }
        }
        new_matrix
    }

    /// Places a given piece at the given location: writes its colour into
    /// every cell that it covers on the board.
    pub fn place(&mut self, piece: &Piece, x: usize, y: usize)
        requires
            old(self).wf(),
            piece.wf(),
        ensures
            final(self).wf(),
            final(self).cells() == painted(
                old(self).cells(),
                piece.occupancy(),
                piece.color_id(),
                x as int,
                y as int,
            ),
    {
        self.matrix = self.place_impl(piece, x, y);
    }

    /// Returns a copy of the cells with the given piece painted on top. The
    /// board itself stays as it is.
    pub fn shadow(&self, piece: &Piece, x: usize, y: usize) -> (grid: Array2D<u8>)
        requires
            self.wf(),
            piece.wf(),
        ensures
            byte_rows(grid) == painted(
                self.cells(),
                piece.occupancy(),
                piece.color_id(),
                x as int,
                y as int,
            ),
            is_board(byte_rows(grid)),
    {
        self.place_impl(piece, x, y)
    }

    /// Returns a count of how many cells in a row are filled.
    pub fn row_filled(&self, y: usize) -> (count: u8)
        requires
            self.wf(),
            y < SIDE,
        ensures
            count == occupied(self.cells()[y as int]),
    {
        let row = byte_grid_row(&self.matrix, y);
        let mut count: u8 = 0;
        for ix in 0..SIDE
            invariant
                row@.len() == SIDE,
                count == occupied(row@.take(ix as int)),
                count <= ix,
        {
            proof {
                assert(row@.take(ix + 1) =~= row@.take(ix as int).push(row@[ix as int]));
                row@.take(ix as int).lemma_filter_push(row@[ix as int], |cell: u8| cell != 0);
            }
            if row[ix] != 0 {
                count += 1;
            }
        }
        assert(row@.take(SIDE as int) =~= row@);
        count
    }

    /// Returns the height of a column.
    pub fn column_height(&self, x: usize) -> (height: u8)
        requires
            self.wf(),
        ensures
            height == stack_height(self.cells(), x as int),
    {
        let mut iy: usize = SIDE;
        while iy > 0
            invariant
                self.wf(),
                iy <= SIDE,
                stack_height(self.cells(), x as int) == if x < SIDE {
                    top_below(self.cells(), x as int, iy as int)
                } else {
                    0
                },
            decreases iy,
        {
            iy -= 1;
            match byte_grid_get(&self.matrix, iy, x) {
                Some(0) => (),
                None => (),
                Some(_) => {
                    return (iy + 1) as u8;
                },
            }
        }
        0
    }

    /// Clears all filled rows: takes each of them out, lets the rows above it
    /// sink by one and adds an empty row under the ceiling.
    pub fn clear_rows(&mut self)
        requires
            old(self).wf(),
        ensures
            final(self).wf(),
            final(self).cells() == cleared(old(self).cells()),
    {
        let ghost before = self.cells();
        let mut iy: usize = 0;
        proof {
            lemma_sift_ends(before);
        }
        for scanned in 0..SIDE
            invariant
                is_board(before),
                self.wf(),
                iy == kept_rows(before, scanned as int).len(),
                self.cells() == sifted(before, scanned as int),
        {
            proof {
                lemma_sift_step(before, scanned as int);
                lemma_full_row(before[scanned as int]);
            }
            if self.row_filled(iy) == 8 {
                let mut rows = byte_grid_as_rows(&self.matrix);
                let ghost whole = rows.deep_view();
                rows.remove(iy);
                assert(rows.deep_view() =~= whole.remove(iy as int));
                let mut new_rows = vec![vec![0u8, 0u8, 0u8, 0u8, 0u8, 0u8, 0u8, 0u8]];
                assert(new_rows.deep_view() =~~= seq![empty_row()]);
                rows.append(&mut new_rows);
                assert(rows.deep_view() =~= whole.remove(iy as int) + seq![empty_row()]);
                self.matrix = byte_grid_from_rows(&rows);
            } else {
                iy += 1;
            }
        }
        proof {
            lemma_sift_ends(before);
        }
    }

    /// Tells what stands in the way of the piece at the anchor `(x, y)`.
    pub fn collides(&self, piece: &Piece, x: usize, y: usize) -> (result: CollisionResult)
        requires
            self.wf(),
            piece.wf(),
        ensures
            result == collision(self.cells(), piece.occupancy(), x as int, y as int),
    {
        let render = piece.render();
        let num_rows = bool_grid_num_rows(&render);
        let num_columns = bool_grid_num_columns(&render);
        let ghost cells = self.cells();
        let ghost shape = piece.occupancy();
        proof {
            piece.lemma_occupancy_dimensions();
        }
        if x > SIDE || num_columns > SIDE - x {
            return CollisionResult::CollidesHBound;
        }
        for iy in 0..num_rows
            invariant
                self.wf(),
                cells == self.cells(),
                shape == piece.occupancy(),
                shape == bool_rows(render),
                num_rows == shape.len(),
                num_columns == width(shape),
                x + num_columns <= SIDE,
                forall|i: int| 0 <= i < shape.len() ==> (#[trigger] shape[i]).len() == num_columns,
                forall|r: int, c: int|
                    0 <= r < SIDE && 0 <= c < SIDE && r - y < iy ==> !#[trigger] hits(
                        cells,
                        shape,
                        x as int,
                        y as int,
                        r,
                        c,
                    ),
        {
            for ix in 0..num_columns
                invariant
                    self.wf(),
                    cells == self.cells(),
                    shape == piece.occupancy(),
                    shape == bool_rows(render),
                    num_rows == shape.len(),
                    num_columns == width(shape),
                    x + num_columns <= SIDE,
                    iy < num_rows,
                    forall|i: int|
                        0 <= i < shape.len() ==> (#[trigger] shape[i]).len() == num_columns,
                    forall|r: int, c: int|
                        0 <= r < SIDE && 0 <= c < SIDE && (r - y < iy || (r - y == iy && c - x
                            < ix)) ==> !#[trigger] hits(cells, shape, x as int, y as int, r, c),
            {
                if y < SIDE && iy < SIDE - y {
                    let covered = bool_grid_get(&render, num_rows - (iy + 1), ix).unwrap();
                    let under = byte_grid_get(&self.matrix, y + iy, x + ix).unwrap();
                    if covered && under > 0 {
                        assert(hits(cells, shape, x as int, y as int, y + iy, x + ix));
                        return CollisionResult::Collides;
                    }
                }
            }
        }
        CollisionResult::Unobstructed
    }

    /// Given a rotated piece and its position, attempts a rotation: returns
    /// the anchor at which the piece comes to stand, or `None` when it fits
    /// nowhere near.
    pub fn try_rotation(&self, piece: &Piece, x: usize, y: usize) -> (anchor: Option<(usize, usize)>)
        requires
            self.wf(),
            piece.wf(),
        ensures
            match anchor {
                Some((new_x, new_y)) => kicked(
                    self.cells(),
                    piece.occupancy(),
                    x as int,
                    y as int,
                ) == Some((new_x as int, new_y as int)),
                None => kicked(self.cells(), piece.occupancy(), x as int, y as int).is_none(),
            },
    {
        let ghost cells = self.cells();
        let ghost shape = piece.occupancy();
        proof {
            piece.lemma_occupancy_dimensions();
        }
        match self.collides(piece, x, y) {
            CollisionResult::Unobstructed => Some((x, y)),
            CollisionResult::CollidesHBound => {
                let render = piece.render();
                let num_columns = bool_grid_num_columns(&render);
                for i in 1..num_columns
                    invariant
                        self.wf(),
                        piece.wf(),
                        cells == self.cells(),
                        shape == piece.occupancy(),
                        num_columns == width(shape),
                        1 <= num_columns <= 4,
                        x + num_columns > SIDE,
                        kicked(cells, shape, x as int, y as int) == first_free_left(
                            cells,
                            shape,
                            x as int,
                            y as int,
                            i as int,
                        ),
                {
                    match self.collides(piece, x - i, y) {
                        CollisionResult::Unobstructed => {
                            return Some((x - i, y));
                        },
                        _ => (),
                    }
                }
                None
            },
            CollisionResult::Collides => {
                match self.collides(piece, x.saturating_add(1), y) {
                    CollisionResult::Unobstructed => {
                        return Some((x + 1, y));
                    },
                    _ => (),
                }
                match self.collides(piece, x.saturating_sub(1), y) {
                    CollisionResult::Unobstructed => {
                        return Some((x - 1, y));
                    },
                    _ => (),
                }
                None
            },
        }
    }

    /// Returns whether the game is over: some column is stacked up to the
    /// ceiling.
    pub fn finished(&self) -> (over: bool)
        requires
            self.wf(),
        ensures
            over == topped_out(self.cells()),
    {
        for ix in 0..SIDE
            invariant
                self.wf(),
                forall|x: int| 0 <= x < ix ==> stack_height(self.cells(), x) != SIDE,
        {
            if self.column_height(ix) == 8 {
                return true;
            }
        }
        false
    }
}

/// Painting starts from the board as it is and ends, when every row of the
/// piece is done, with the painted board.
proof fn lemma_paint_ends(cells: Seq<Seq<u8>>, shape: Seq<Seq<bool>>, color: u8, x: int, y: int)
    requires
        is_board(cells),
        color <= MAX_COLOR,
    ensures
        painted_until(cells, shape, color, x, y, 0, 0) == cells,
        painted_until(cells, shape, color, x, y, shape.len() as int, 0) == painted(
            cells,
            shape,
            color,
            x,
            y,
        ),
        is_board(painted(cells, shape, color, x, y)),
{
    assert(painted_until(cells, shape, color, x, y, 0, 0) =~~= cells);
    assert(painted_until(cells, shape, color, x, y, shape.len() as int, 0) =~~= painted(
        cells,
        shape,
        color,
        x,
        y,
    ));
}

/// Painting one more cell of the piece: where the piece is occupied and the
/// cell lies on the board, the board's cell takes the colour; otherwise the
/// board stays as it is.
proof fn lemma_paint_step(
    cells: Seq<Seq<u8>>,
    shape: Seq<Seq<bool>>,
    color: u8,
    x: int,
    y: int,
    iy: int,
    ix: int,
)
    requires
        is_board(cells),
        0 <= x,
        0 <= y,
        0 <= iy < shape.len(),
        0 <= ix < width(shape),
    ensures
        painted_until(cells, shape, color, x, y, iy, ix).len() == SIDE,
        forall|r: int|
            0 <= r < SIDE ==> (#[trigger] painted_until(cells, shape, color, x, y, iy, ix)[r]).len()
                == SIDE,
        painted_until(cells, shape, color, x, y, iy, ix + 1) == if shape[shape.len() - 1 - iy][ix]
            && y + iy < SIDE && x + ix < SIDE {
            painted_until(cells, shape, color, x, y, iy, ix).update(
                y + iy,
                painted_until(cells, shape, color, x, y, iy, ix)[y + iy].update(x + ix, color),
            )
        } else {
            painted_until(cells, shape, color, x, y, iy, ix)
        },
{
    let now = painted_until(cells, shape, color, x, y, iy, ix);
    let next = painted_until(cells, shape, color, x, y, iy, ix + 1);
    if shape[shape.len() - 1 - iy][ix] && y + iy < SIDE && x + ix < SIDE {
        assert(covers(shape, x, y, y + iy, x + ix));
        assert(next =~~= now.update(y + iy, now[y + iy].update(x + ix, color)));
    } else {
        assert(next =~~= now);
    }
}

/// When every cell of a row of the piece is done, the row is done.
proof fn lemma_paint_row(
    cells: Seq<Seq<u8>>,
    shape: Seq<Seq<bool>>,
    color: u8,
    x: int,
    y: int,
    iy: int,
)
    ensures
        painted_until(cells, shape, color, x, y, iy, width(shape) as int) == painted_until(
            cells,
            shape,
            color,
            x,
            y,
            iy + 1,
            0,
        ),
{
    assert(painted_until(cells, shape, color, x, y, iy, width(shape) as int) =~~= painted_until(
        cells,
        shape,
        color,
        x,
        y,
        iy + 1,
        0,
    ));
}

/// The rows among the first `scanned` that are not full, in their order.
spec fn kept_rows(cells: Seq<Seq<u8>>, scanned: int) -> Seq<Seq<u8>> {
    cells.take(scanned).filter(|row: Seq<u8>| !full(row))
}

/// The board while its rows are being cleared, after `scanned` of them were
/// looked at: those of them that stay, then the rows not yet looked at, then
/// an empty row for each row taken out.
spec fn sifted(cells: Seq<Seq<u8>>, scanned: int) -> Seq<Seq<u8>> {
    let kept = kept_rows(cells, scanned);
    kept + cells.skip(scanned) + Seq::new((scanned - kept.len()) as nat, |r: int| empty_row())
}

/// Clearing starts from the board as it is and ends with the cleared board.
proof fn lemma_sift_ends(cells: Seq<Seq<u8>>)
    requires
        is_board(cells),
    ensures
        kept_rows(cells, 0).len() == 0,
        sifted(cells, 0) == cells,
        sifted(cells, SIDE as int) == cleared(cells),
{
    let keep = |row: Seq<u8>| !full(row);
    assert(cells.take(0).filter(keep) =~= Seq::<Seq<u8>>::empty());
    assert(sifted(cells, 0) =~= cells);
    assert(cells.take(SIDE as int) =~= cells);
    assert(cells.skip(SIDE as int) =~= Seq::<Seq<u8>>::empty());
    cells.lemma_filter_len(keep);
    assert(sifted(cells, SIDE as int) =~= cleared(cells));
}

/// Looking at one more row: the row stands right above the rows that stay.
/// A full row leaves and an empty row comes in at the top; another row stays
/// where it is.
proof fn lemma_sift_step(cells: Seq<Seq<u8>>, scanned: int)
    requires
        is_board(cells),
        0 <= scanned < SIDE,
    ensures
        kept_rows(cells, scanned).len() <= scanned,
        is_board(sifted(cells, scanned)),
        is_board(sifted(cells, scanned + 1)),
        sifted(cells, scanned)[kept_rows(cells, scanned).len() as int] == cells[scanned],
        full(cells[scanned]) ==> {
            &&& kept_rows(cells, scanned + 1) == kept_rows(cells, scanned)
            &&& sifted(cells, scanned + 1) == sifted(cells, scanned).remove(
                kept_rows(cells, scanned).len() as int,
            ) + seq![empty_row()]
        },
        !full(cells[scanned]) ==> {
            &&& kept_rows(cells, scanned + 1).len() == kept_rows(cells, scanned).len() + 1
            &&& sifted(cells, scanned + 1) == sifted(cells, scanned)
        },
{
    let keep = |row: Seq<u8>| !full(row);
    let kept = kept_rows(cells, scanned);
    let row = cells[scanned];
    let zeros = Seq::new((scanned - kept.len()) as nat, |r: int| empty_row());
    cells.take(scanned).lemma_filter_len(keep);
    assert(cells.take(scanned + 1) =~= cells.take(scanned).push(row));
    cells.take(scanned).lemma_filter_push(row, keep);
    let now = sifted(cells, scanned);
    let next = sifted(cells, scanned + 1);
    assert(now.len() == SIDE);
    assert(next.len() == SIDE);
    assert(now[kept.len() as int] == cells.skip(scanned)[0]);
    assert forall|r: int| 0 <= r < SIDE implies is_board_row(#[trigger] now[r]) by {
        lemma_sifted_row(cells, scanned, r);
    }
    assert forall|r: int| 0 <= r < SIDE implies is_board_row(#[trigger] next[r]) by {
        lemma_sifted_row(cells, scanned + 1, r);
    }
    if full(row) {
        assert(next =~= now.remove(kept.len() as int) + seq![empty_row()]);
    } else {
        assert(next =~= now);
    }
}

/// A row of eight palette colours.
spec fn is_board_row(row: Seq<u8>) -> bool {
    &&& row.len() == SIDE
    &&& forall|c: int| 0 <= c < SIDE ==> #[trigger] row[c] <= MAX_COLOR
}

/// Every row of a board that is being cleared is a row of the board or an
/// empty row.
proof fn lemma_sifted_row(cells: Seq<Seq<u8>>, scanned: int, r: int)
    requires
        is_board(cells),
        0 <= scanned <= SIDE,
        0 <= r < SIDE,
    ensures
        sifted(cells, scanned).len() == SIDE,
        is_board_row(sifted(cells, scanned)[r]),
{
    let keep = |row: Seq<u8>| !full(row);
    let kept = kept_rows(cells, scanned);
    cells.take(scanned).lemma_filter_len(keep);
    if r < kept.len() {
        assert(kept.contains(kept[r]));
        cells.take(scanned).lemma_filter_contains_rev(keep, kept[r]);
        let i = choose|i: int| 0 <= i < cells.take(scanned).len() && cells.take(scanned)[i] == kept[r];
        assert(kept[r] == cells[i]);
        assert(cells[i].len() == SIDE);
        assert forall|c: int| 0 <= c < SIDE implies #[trigger] cells[i][c] <= MAX_COLOR by {}
    } else if r < kept.len() + (SIDE - scanned) {
        let i = scanned + (r - kept.len());
        assert(sifted(cells, scanned)[r] == cells[i]);
        assert(cells[i].len() == SIDE);
        assert forall|c: int| 0 <= c < SIDE implies #[trigger] cells[i][c] <= MAX_COLOR by {}
    } else {
        assert(sifted(cells, scanned)[r] == empty_row());
    }
}

/// On the empty board a piece meets the horizontal bound when it reaches
/// beyond the right edge, and nothing otherwise, whatever its shape and
/// wherever it stands.
pub proof fn lemma_empty_board_collision(shape: Seq<Seq<bool>>, x: int, y: int)
    ensures
        collision(empty_cells(), shape, x, y) == if x + width(shape) > SIDE {
            CollisionResult::CollidesHBound
        } else {
            CollisionResult::Unobstructed
        },
{
    assert forall|r: int, c: int| 0 <= r < SIDE && 0 <= c < SIDE implies !#[trigger] hits(
        empty_cells(),
        shape,
        x,
        y,
        r,
        c,
    ) by {
        assert(empty_cells()[r][c] == 0);
    }
}

/// Whether `height` is one more than the highest occupied row of column
/// `x`, or 0 in an empty column.
pub open spec fn tops_at(cells: Seq<Seq<u8>>, x: int, height: int) -> bool {
    &&& 0 <= height <= SIDE
    &&& height > 0 ==> cells[height - 1][x] != 0
    &&& forall|r: int| height <= r < SIDE ==> (#[trigger] cells[r])[x] == 0
}

/// The height of the stack in a column is one more than the column's
/// highest occupied row, or 0 in an empty column, and no other number is.
pub proof fn lemma_stack_height(cells: Seq<Seq<u8>>, x: int)
    requires
        0 <= x < SIDE,
    ensures
        tops_at(cells, x, stack_height(cells, x)),
        forall|height: int| #[trigger] tops_at(cells, x, height) ==> height == stack_height(cells, x),
{
    lemma_top_below(cells, x, SIDE as int);
}

/// `top_below` finds the highest occupied row below `limit`.
proof fn lemma_top_below(cells: Seq<Seq<u8>>, x: int, limit: int)
    requires
        0 <= limit,
    ensures
        0 <= top_below(cells, x, limit) <= limit,
        top_below(cells, x, limit) > 0 ==> cells[top_below(cells, x, limit) - 1][x] != 0,
        forall|r: int| top_below(cells, x, limit) <= r < limit ==> (#[trigger] cells[r])[x] == 0,
    decreases limit,
{
    if limit > 0 && cells[limit - 1][x] == 0 {
        lemma_top_below(cells, x, limit - 1);
    }
}

/// One more than the highest row below `limit` in which the piece covers
/// column `col`, or 0 when it covers none.
pub open spec fn reach_below(shape: Seq<Seq<bool>>, x: int, y: int, col: int, limit: int) -> int
    decreases limit,
{
    if limit <= 0 {
        0
    } else if covers(shape, x, y, limit - 1, col) {
        limit
    } else {
        reach_below(shape, x, y, col, limit - 1)
    }
}

/// How high the piece reaches on the board in column `col`: one more than
/// the highest of the board's rows in which it covers that column, or 0 when
/// it does not touch the column.
pub open spec fn reach(shape: Seq<Seq<bool>>, x: int, y: int, col: int) -> int {
    reach_below(shape, x, y, col, SIDE as int)
}

proof fn lemma_painted_top(
    cells: Seq<Seq<u8>>,
    shape: Seq<Seq<bool>>,
    color: u8,
    x: int,
    y: int,
    col: int,
    limit: int,
)
    requires
        color != 0,
        0 <= col < SIDE,
        0 <= limit <= SIDE,
    ensures
        0 <= reach_below(shape, x, y, col, limit) <= limit,
        top_below(painted(cells, shape, color, x, y), col, limit) == if top_below(cells, col, limit)
            >= reach_below(shape, x, y, col, limit) {
            top_below(cells, col, limit)
        } else {
            reach_below(shape, x, y, col, limit)
        },
        reach_below(shape, x, y, col, limit) == 0 <==> forall|r: int|
            0 <= r < limit ==> !covers(shape, x, y, r, col),
    decreases limit,
{
    if limit > 0 {
        lemma_painted_top(cells, shape, color, x, y, col, limit - 1);
        lemma_top_below(cells, col, limit - 1);
        lemma_top_below(cells, col, limit);
        assert(painted(cells, shape, color, x, y)[limit - 1][col] == if covers(
            shape,
            x,
            y,
            limit - 1,
            col,
        ) {
            color
        } else {
            cells[limit - 1][col]
        });
    }
}

/// After a piece was painted on the board in a colour other than 0, the
/// stack in each column is as high as the higher of the old stack and the
/// reach of the piece in that column, and that is one more than the highest
/// occupied row of the column.
pub proof fn lemma_painted_heights(
    cells: Seq<Seq<u8>>,
    shape: Seq<Seq<bool>>,
    color: u8,
    x: int,
    y: int,
    col: int,
)
    requires
        color != 0,
        0 <= col < SIDE,
    ensures
        stack_height(painted(cells, shape, color, x, y), col) == if stack_height(cells, col)
            >= reach(shape, x, y, col) {
            stack_height(cells, col)
        } else {
            reach(shape, x, y, col)
        },
        tops_at(
            painted(cells, shape, color, x, y),
            col,
            stack_height(painted(cells, shape, color, x, y), col),
        ),
{
    lemma_painted_top(cells, shape, color, x, y, col, SIDE as int);
    lemma_top_below(cells, col, SIDE as int);
    lemma_stack_height(painted(cells, shape, color, x, y), col);
}

/// A column that the piece does not touch keeps its height when the piece
/// is painted on the board, whatever the colour.
pub proof fn lemma_untouched_column(
    cells: Seq<Seq<u8>>,
    shape: Seq<Seq<bool>>,
    color: u8,
    x: int,
    y: int,
    col: int,
)
    requires
        forall|r: int| 0 <= r < SIDE ==> !covers(shape, x, y, r, col),
    ensures
        stack_height(painted(cells, shape, color, x, y), col) == stack_height(cells, col),
{
    if 0 <= col < SIDE {
        lemma_untouched_top(cells, shape, color, x, y, col, SIDE as int);
    }
}

proof fn lemma_untouched_top(
    cells: Seq<Seq<u8>>,
    shape: Seq<Seq<bool>>,
    color: u8,
    x: int,
    y: int,
    col: int,
    limit: int,
)
    requires
        0 <= col < SIDE,
        0 <= limit <= SIDE,
        forall|r: int| 0 <= r < SIDE ==> !covers(shape, x, y, r, col),
    ensures
        top_below(painted(cells, shape, color, x, y), col, limit) == top_below(cells, col, limit),
    decreases limit,
{
    if limit > 0 {
        lemma_untouched_top(cells, shape, color, x, y, col, limit - 1);
        assert(!covers(shape, x, y, limit - 1, col));
        assert(painted(cells, shape, color, x, y)[limit - 1][col] == cells[limit - 1][col]);
    }
}

/// The anchor that a kick gives is free, lies in the row of the old anchor,
/// and is the old anchor itself whenever that one is free.
pub proof fn lemma_kicked_fits(cells: Seq<Seq<u8>>, shape: Seq<Seq<bool>>, x: int, y: int)
    ensures
        collision(cells, shape, x, y) == CollisionResult::Unobstructed ==> kicked(cells, shape, x, y)
            == Some((x, y)),
        match kicked(cells, shape, x, y) {
            Some((new_x, new_y)) => {
                &&& new_y == y
                &&& collision(cells, shape, new_x, new_y) == CollisionResult::Unobstructed
            },
            None => collision(cells, shape, x, y) != CollisionResult::Unobstructed,
        },
{
    lemma_first_free_left(cells, shape, x, y, 1);
}

proof fn lemma_first_free_left(cells: Seq<Seq<u8>>, shape: Seq<Seq<bool>>, x: int, y: int, from: int)
    ensures
        match first_free_left(cells, shape, x, y, from) {
            Some((new_x, new_y)) => {
                &&& new_y == y
                &&& collision(cells, shape, new_x, new_y) == CollisionResult::Unobstructed
            },
            None => true,
        },
    decreases width(shape) - from,
{
    if from < width(shape) && !(x - from >= 0 && collision(cells, shape, x - from, y)
        == CollisionResult::Unobstructed) {
        lemma_first_free_left(cells, shape, x, y, from + 1);
    }
}

/// The empty board is not topped out.
pub proof fn lemma_empty_not_topped_out()
    ensures
        !topped_out(empty_cells()),
{
    assert forall|x: int| 0 <= x < SIDE implies stack_height(empty_cells(), x) != SIDE by {
        lemma_stack_height(empty_cells(), x);
        assert(empty_cells()[SIDE - 1][x] == 0);
    }
}

/// A board is topped out exactly when its top row holds an occupied cell,
/// that is as soon as one column has reached height 8.
pub proof fn lemma_topped_out(cells: Seq<Seq<u8>>)
    ensures
        topped_out(cells) <==> exists|x: int| 0 <= x < SIDE && #[trigger] cells[SIDE - 1][x] != 0,
{
    if topped_out(cells) {
        let x = choose|x: int| 0 <= x < SIDE && stack_height(cells, x) == SIDE;
        lemma_stack_height(cells, x);
        assert(cells[SIDE - 1][x] != 0);
    }
    if exists|x: int| 0 <= x < SIDE && #[trigger] cells[SIDE - 1][x] != 0 {
        let x = choose|x: int| 0 <= x < SIDE && #[trigger] cells[SIDE - 1][x] != 0;
        lemma_stack_height(cells, x);
        assert(stack_height(cells, x) == SIDE);
    }
}

/// The number of full rows below row `r`.
pub open spec fn full_below(cells: Seq<Seq<u8>>, r: int) -> nat {
    cells.take(r).filter(|row: Seq<u8>| full(row)).len()
}

/// Of the first `n` rows, those that are full and those that stay are `n`
/// together.
proof fn lemma_kept_and_full(cells: Seq<Seq<u8>>, n: int)
    requires
        0 <= n <= cells.len(),
    ensures
        kept_rows(cells, n).len() + full_below(cells, n) == n,
    decreases n,
{
    let keep = |row: Seq<u8>| !full(row);
    let gone = |row: Seq<u8>| full(row);
    if n == 0 {
        assert(cells.take(0).filter(keep) =~= Seq::<Seq<u8>>::empty());
        assert(cells.take(0).filter(gone) =~= Seq::<Seq<u8>>::empty());
    } else {
        lemma_kept_and_full(cells, n - 1);
        assert(cells.take(n) =~= cells.take(n - 1).push(cells[n - 1]));
        cells.take(n - 1).lemma_filter_push(cells[n - 1], keep);
        cells.take(n - 1).lemma_filter_push(cells[n - 1], gone);
    }
}

/// A row that stays is found, among the rows that stay of the first `n`,
/// behind those that stay of the rows below it.
proof fn lemma_kept_position(cells: Seq<Seq<u8>>, r: int, n: int)
    requires
        0 <= r < n <= cells.len(),
        !full(cells[r]),
    ensures
        kept_rows(cells, r).len() < kept_rows(cells, n).len(),
        kept_rows(cells, n)[kept_rows(cells, r).len() as int] == cells[r],
    decreases n,
{
    let keep = |row: Seq<u8>| !full(row);
    assert(cells.take(n) =~= cells.take(n - 1).push(cells[n - 1]));
    cells.take(n - 1).lemma_filter_push(cells[n - 1], keep);
    if n > r + 1 {
        lemma_kept_position(cells, r, n - 1);
    }
}

/// Clearing leaves a board on which no row is full.
pub proof fn lemma_cleared_board(cells: Seq<Seq<u8>>)
    requires
        is_board(cells),
    ensures
        is_board(cleared(cells)),
        forall|r: int| 0 <= r < SIDE ==> !full(#[trigger] cleared(cells)[r]),
{
    let keep = |row: Seq<u8>| !full(row);
    lemma_sift_ends(cells);
    cells.lemma_filter_len(keep);
    assert(cells.take(SIDE as int) =~= cells);
    assert forall|r: int| 0 <= r < SIDE implies is_board_row(#[trigger] cleared(cells)[r]) && !full(
        cleared(cells)[r],
    ) by {
        lemma_sifted_row(cells, SIDE as int, r);
        if r < cells.filter(keep).len() {
            cells.lemma_filter_pred(keep, r);
        } else {
            assert(cleared(cells)[r] == empty_row());
            assert(empty_row()[0] == 0);
        }
    }
}

/// Clearing a board without a full row changes nothing.
pub proof fn lemma_cleared_without_full_row(cells: Seq<Seq<u8>>)
    requires
        is_board(cells),
        forall|r: int| 0 <= r < SIDE ==> !full(#[trigger] cells[r]),
    ensures
        cleared(cells) == cells,
{
    let keep = |row: Seq<u8>| !full(row);
    lemma_kept_and_full(cells, SIDE as int);
    assert(cells.take(SIDE as int) =~= cells);
    cells.lemma_filter_len(keep);
    let gone = cells.filter(|row: Seq<u8>| full(row));
    if gone.len() > 0 {
        cells.lemma_filter_pred(|row: Seq<u8>| full(row), 0);
        assert(gone.contains(gone[0]));
        cells.lemma_filter_contains_rev(|row: Seq<u8>| full(row), gone[0]);
        assert(false);
    }
    assert forall|r: int| 0 <= r < SIDE implies cells.filter(keep)[r] == cells[r] by {
        lemma_kept_and_full(cells, r);
        lemma_kept_position(cells, r, SIDE as int);
        assert(cells.take(r).filter(|row: Seq<u8>| full(row)).len() == 0) by {
            let below = cells.take(r).filter(|row: Seq<u8>| full(row));
            if below.len() > 0 {
                cells.take(r).lemma_filter_pred(|row: Seq<u8>| full(row), 0);
                assert(below.contains(below[0]));
                cells.take(r).lemma_filter_contains_rev(|row: Seq<u8>| full(row), below[0]);
                assert(false);
            }
        }
    }
    assert(cleared(cells) =~= cells);
}

/// Clearing takes out exactly the full rows. Each other row sinks by the
/// number of full rows below it, and above the rows that stay there is an
/// empty row for each row taken out; so the top row is empty whenever some
/// row was full.
pub proof fn lemma_cleared_rows(cells: Seq<Seq<u8>>)
    requires
        is_board(cells),
    ensures
        forall|r: int|
            0 <= r < SIDE && !full(#[trigger] cells[r]) ==> cleared(cells)[r - full_below(cells, r)]
                == cells[r],
        forall|r: int|
            SIDE - full_below(cells, SIDE as int) <= r < SIDE ==> #[trigger] cleared(cells)[r]
                == empty_row(),
        (exists|r: int| 0 <= r < SIDE && full(#[trigger] cells[r])) ==> cleared(cells)[SIDE - 1]
            == empty_row(),
{
    let keep = |row: Seq<u8>| !full(row);
    let gone = |row: Seq<u8>| full(row);
    lemma_kept_and_full(cells, SIDE as int);
    assert(cells.take(SIDE as int) =~= cells);
    cells.lemma_filter_len(keep);
    assert forall|r: int| 0 <= r < SIDE && !full(#[trigger] cells[r]) implies cleared(cells)[r
        - full_below(cells, r)] == cells[r] by {
        lemma_kept_and_full(cells, r);
        lemma_kept_position(cells, r, SIDE as int);
    }
    if exists|r: int| 0 <= r < SIDE && full(#[trigger] cells[r]) {
        let r = choose|r: int| 0 <= r < SIDE && full(#[trigger] cells[r]);
        cells.lemma_filter_contains(gone, r);
        assert(cells.filter(gone).len() > 0);
    }
}

/// Among the first `n` cells of a row, at most `n` are occupied, and all
/// `n` only when none of them is empty.
proof fn lemma_occupied_prefix(row: Seq<u8>, n: int)
    requires
        0 <= n <= row.len(),
    ensures
        occupied(row.take(n)) <= n,
        occupied(row.take(n)) == n <==> forall|c: int| 0 <= c < n ==> row[c] != 0,
    decreases n,
{
    let nonzero = |cell: u8| cell != 0;
    if n == 0 {
        assert(row.take(0).filter(nonzero) =~= Seq::<u8>::empty());
    } else {
        lemma_occupied_prefix(row, n - 1);
        assert(row.take(n) =~= row.take(n - 1).push(row[n - 1]));
        row.take(n - 1).lemma_filter_push(row[n - 1], nonzero);
    }
}

/// A row of eight cells has eight occupied cells exactly when it is full.
pub proof fn lemma_full_row(row: Seq<u8>)
    requires
        row.len() == SIDE,
    ensures
        occupied(row) <= SIDE,
        occupied(row) == SIDE <==> full(row),
{
    lemma_occupied_prefix(row, SIDE as int);
    assert(row.take(SIDE as int) =~= row);
}

} // verus!
