//! Two-dimensional grids.
//!
//! Pieces and boards keep their cells in `array2d::Array2D`. The verifier does
//! not look inside that type; this module declares it, names what a grid
//! holds, and states for each method used what the `array2d` source shows
//! about it. Everything in this module that is marked `external_body` is
//! believed, not proved.

use array2d::Array2D;
use vstd::prelude::*;

verus! {

/// `array2d::Array2D`, a fixed-size grid stored in row-major order.
#[verifier::external_type_specification]
#[verifier::external_body]
#[verifier::reject_recursive_types(T)]
pub struct ExArray2D<T: Clone>(Array2D<T>);

/// The rows of a boolean grid, first row first. Each row holds as many cells
/// as the grid has columns.
pub uninterp spec fn bool_rows(grid: Array2D<bool>) -> Seq<Seq<bool>>;

/// The rows of a byte grid, first row first. Each row holds as many cells as
/// the grid has columns.
pub uninterp spec fn byte_rows(grid: Array2D<u8>) -> Seq<Seq<u8>>;

/// The length of the first row, or zero when there is none.
pub open spec fn width<T>(rows: Seq<Seq<T>>) -> nat {
    if rows.len() == 0 {
        0
    } else {
        rows[0].len()
    }
}

/// Every row is as long as the first.
pub open spec fn rectangular<T>(rows: Seq<Seq<T>>) -> bool {
    forall|i: int| 0 <= i < rows.len() ==> (#[trigger] rows[i]).len() == width(rows)
}

/// The columns of `rows`, first column first: cell `r` of column `c` is cell
/// `c` of row `r`.
pub open spec fn transposed<T>(rows: Seq<Seq<T>>) -> Seq<Seq<T>> {
    Seq::new(width(rows), |c: int| Seq::new(rows.len(), |r: int| rows[r][c]))
}

/// `cells` cut into `num_rows` rows of `num_columns` cells each.
pub open spec fn reshaped<T>(cells: Seq<T>, num_rows: nat, num_columns: nat) -> Seq<Seq<T>> {
    Seq::new(num_rows, |r: int| Seq::new(num_columns, |c: int| cells[r * num_columns + c]))
}

/// `Array2D::from_rows`: the grid whose rows are the given vectors. The call
/// panics unless the rows are equally long.
#[verifier::external_body]
pub(crate) fn bool_grid_from_rows(rows: &Vec<Vec<bool>>) -> (grid: Array2D<bool>)
    requires
        rectangular(rows.deep_view()),
    ensures
        bool_rows(grid) == rows.deep_view(),
{
    Array2D::from_rows(rows)
}

/// `Array2D::from_columns`: the grid whose columns are the given vectors, so
/// that it has as many rows as the first column has cells. The call panics
/// unless the columns are equally long.
#[verifier::external_body]
pub(crate) fn bool_grid_from_columns(columns: &Vec<Vec<bool>>) -> (grid: Array2D<bool>)
    requires
        rectangular(columns.deep_view()),
    ensures
        bool_rows(grid) == transposed(columns.deep_view()),
{
    Array2D::from_columns(columns)
}

/// `Array2D::from_row_major`: the grid of the given dimensions that holds
/// `cells` row after row. The call panics unless the number of cells is the
/// product of the dimensions.
#[verifier::external_body]
pub(crate) fn bool_grid_from_row_major(
    cells: &Vec<bool>,
    num_rows: usize,
    num_columns: usize,
) -> (grid: Array2D<bool>)
    requires
        cells@.len() == num_rows * num_columns,
    ensures
        bool_rows(grid) == reshaped(cells@, num_rows as nat, num_columns as nat),
{
    Array2D::from_row_major(cells, num_rows, num_columns)
}

/// `Array2D::num_rows`: the number of rows.
#[verifier::external_body]
pub(crate) fn bool_grid_num_rows(grid: &Array2D<bool>) -> (n: usize)
    ensures
        n == bool_rows(*grid).len(),
{
    grid.num_rows()
}

/// `Array2D::num_columns`: the number of columns, which is the length of
/// every row. A grid without rows still has a column count, of which the rows
/// tell nothing.
#[verifier::external_body]
pub(crate) fn bool_grid_num_columns(grid: &Array2D<bool>) -> (n: usize)
    ensures
        bool_rows(*grid).len() > 0 ==> n == width(bool_rows(*grid)),
{
    grid.num_columns()
}

/// `Array2D::get`: the cell at `row` and `column`, or `None` when either
/// index is out of bounds.
#[verifier::external_body]
pub(crate) fn bool_grid_get(grid: &Array2D<bool>, row: usize, column: usize) -> (cell: Option<bool>)
    ensures
        cell == (if row < bool_rows(*grid).len() && column < bool_rows(*grid)[row as int].len() {
            Some(bool_rows(*grid)[row as int][column as int])
        } else {
            None
        }),
{
    grid.get(row, column).copied()
}

/// `Array2D::as_rows`: the rows as vectors. The call panics on a grid that
/// has rows but no columns.
#[verifier::external_body]
pub(crate) fn bool_grid_as_rows(grid: &Array2D<bool>) -> (rows: Vec<Vec<bool>>)
    requires
        bool_rows(*grid).len() > 0 ==> width(bool_rows(*grid)) > 0,
    ensures
        rows.deep_view() == bool_rows(*grid),
{
    grid.as_rows()
}

/// `Array2D::as_columns`: the columns as vectors, one for each column of the
/// grid.
#[verifier::external_body]
pub(crate) fn bool_grid_as_columns(grid: &Array2D<bool>) -> (columns: Vec<Vec<bool>>)
    ensures
        bool_rows(*grid).len() > 0 ==> columns.deep_view() == transposed(bool_rows(*grid)),
{
    grid.as_columns()
}

/// `Array2D::as_row_major`: all cells in one vector, row after row.
#[verifier::external_body]
pub(crate) fn bool_grid_as_row_major(grid: &Array2D<bool>) -> (cells: Vec<bool>)
    ensures
        cells@.len() == bool_rows(*grid).len() * width(bool_rows(*grid)),
        forall|r: int, c: int|
            0 <= r < bool_rows(*grid).len() && 0 <= c < width(bool_rows(*grid)) ==> cells@[r
                * width(bool_rows(*grid)) + c] == #[trigger] bool_rows(*grid)[r][c],
{
    grid.as_row_major()
}

/// `Array2D::filled_with`: the grid of the given dimensions that holds
/// `element` in every cell. The call multiplies the dimensions.
#[verifier::external_body]
pub(crate) fn byte_grid_filled_with(element: u8, num_rows: usize, num_columns: usize) -> (grid:
    Array2D<u8>)
    requires
        num_rows * num_columns <= usize::MAX,
    ensures
        byte_rows(grid) == Seq::new(
            num_rows as nat,
            |r: int| Seq::new(num_columns as nat, |c: int| element),
        ),
{
    Array2D::filled_with(element, num_rows, num_columns)
}

/// `Array2D::from_rows`: the grid whose rows are the given vectors. The call
/// panics unless the rows are equally long.
#[verifier::external_body]
pub(crate) fn byte_grid_from_rows(rows: &Vec<Vec<u8>>) -> (grid: Array2D<u8>)
    requires
        rectangular(rows.deep_view()),
    ensures
        byte_rows(grid) == rows.deep_view(),
{
    Array2D::from_rows(rows)
}

/// `Array2D::as_rows`: the rows as vectors. The call panics on a grid that
/// has rows but no columns.
#[verifier::external_body]
pub(crate) fn byte_grid_as_rows(grid: &Array2D<u8>) -> (rows: Vec<Vec<u8>>)
    requires
        byte_rows(*grid).len() > 0 ==> width(byte_rows(*grid)) > 0,
    ensures
        rows.deep_view() == byte_rows(*grid),
{
    grid.as_rows()
}

/// `Array2D::row_iter`: the cells of one row, from first to last. The call
/// panics when the row is out of bounds or the grid has no columns.
#[verifier::external_body]
pub(crate) fn byte_grid_row(grid: &Array2D<u8>, row: usize) -> (cells: Vec<u8>)
    requires
        row < byte_rows(*grid).len(),
        byte_rows(*grid)[row as int].len() > 0,
    ensures
        cells@ == byte_rows(*grid)[row as int],
{
    grid.row_iter(row).copied().collect()
}

/// `Array2D::get`: the cell at `row` and `column`, or `None` when either
/// index is out of bounds.
#[verifier::external_body]
pub(crate) fn byte_grid_get(grid: &Array2D<u8>, row: usize, column: usize) -> (cell: Option<u8>)
    ensures
        cell == (if row < byte_rows(*grid).len() && column < byte_rows(*grid)[row as int].len() {
            Some(byte_rows(*grid)[row as int][column as int])
        } else {
            None
        }),
{
    grid.get(row, column).copied()
}

/// `Array2D::set`: writes `element` at `row` and `column` and reports
/// success, or leaves the grid as it is and reports failure when either
/// index is out of bounds.
#[verifier::external_body]
pub(crate) fn byte_grid_set(
    grid: &mut Array2D<u8>,
    row: usize,
    column: usize,
    element: u8,
) -> (done: bool)
    ensures
        done == (row < byte_rows(*old(grid)).len() && column < byte_rows(
            *old(grid),
        )[row as int].len()),
        byte_rows(*final(grid)) == (if done {
            byte_rows(*old(grid)).update(
                row as int,
                byte_rows(*old(grid))[row as int].update(column as int, element),
            )
        } else {
            byte_rows(*old(grid))
        }),
{
    grid.set(row, column, element).is_ok()
}

/// `<[T]>::reverse`: reverses the order of the elements, in place.
#[verifier::external_body]
pub(crate) fn reverse_in_place<T>(items: &mut Vec<T>)
    ensures
        final(items)@ == old(items)@.reverse(),
{
    items.reverse()
}

} // verus!
