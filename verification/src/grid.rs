use vstd::arithmetic::div_mod::{
    lemma_fundamental_div_mod,
    lemma_fundamental_div_mod_converse,
    lemma_mod_bound,
};
use vstd::prelude::*;

verus! {

/// The number of tiles of side `tile` laid along an axis of `extent`
/// pixels: as many as fit whole, and one more for the rest at the edge.
pub open spec fn tiles_along(extent: int, tile: int) -> int {
    extent / tile + 1
}

/// The tiles laid along an axis are at least one, reach beyond the far edge
/// of the axis, and none of them starts beyond it.
pub proof fn lemma_tiles_cover(extent: int, tile: int)
    requires
        extent >= 0,
        tile >= 1,
    ensures
        tiles_along(extent, tile) >= 1,
        tiles_along(extent, tile) * tile > extent,
        (tiles_along(extent, tile) - 1) * tile <= extent,
{
    lemma_fundamental_div_mod(extent, tile);
    lemma_mod_bound(extent, tile);
    let whole = extent / tile;
    assert(whole >= 0) by (nonlinear_arith)
        requires
            extent == tile * whole + extent % tile,
            0 <= extent % tile < tile,
            extent >= 0,
            tile >= 1,
    ;
    assert((whole + 1) * tile == tile * whole + tile && (whole + 1 - 1) * tile == tile * whole)
        by (nonlinear_arith);
}

/// A tile with a valid number along an axis starts on that axis.
pub proof fn lemma_tile_starts_on_axis(index: int, extent: int, tile: int)
    requires
        extent >= 0,
        tile >= 1,
        0 <= index < tiles_along(extent, tile),
    ensures
        0 <= index * tile <= extent,
{
    lemma_tiles_cover(extent, tile);
    let last = tiles_along(extent, tile) - 1;
    assert(0 <= index * tile <= last * tile) by (nonlinear_arith)
        requires
            0 <= index <= last,
            tile >= 1,
    ;
}

/// Computes `tiles_along` on machine integers.
pub fn tiles_per_axis(extent: u32, tile_size: i32) -> (tiles: u64)
    requires
        tile_size >= 1,
    ensures
        tiles == tiles_along(extent as int, tile_size as int),
        tiles >= 1,
        tiles * tile_size > extent,
        (tiles - 1) * tile_size <= extent,
{
    proof {
        lemma_tiles_cover(extent as int, tile_size as int);
    }
    extent as u64 / tile_size as u64 + 1
}

/// The cells of a grid with `rows` cells per column are numbered column by
/// column: cell `row` of column `column` has number `column * rows + row`.
pub open spec fn cell_number(column: int, row: int, rows: int) -> int {
    column * rows + row
}

/// A cell's number gives back its column and row, and numbers the cells of
/// the grid without gaps.
pub proof fn lemma_cell_number(column: int, row: int, columns: int, rows: int)
    requires
        0 <= column < columns,
        0 <= row < rows,
    ensures
        0 <= cell_number(column, row, rows) < columns * rows,
        cell_number(column, row, rows) / rows == column,
        cell_number(column, row, rows) % rows == row,
        cell_number(column + 1, 0, rows) == cell_number(column, row, rows) + (rows - row),
{
    lemma_fundamental_div_mod_converse(cell_number(column, row, rows), rows, column, row);
    assert(0 <= column * rows && column * rows + rows <= columns * rows && (column + 1) * rows
        == column * rows + rows) by (nonlinear_arith)
        requires
            0 <= column < columns,
            0 < rows,
    ;
}

/// Every number below `columns * rows` is the number of a cell of the grid.
pub proof fn lemma_cell_of_number(number: int, columns: int, rows: int)
    requires
        0 <= number < columns * rows,
        0 <= columns,
        0 <= rows,
    ensures
        rows > 0,
        0 <= number / rows < columns,
        0 <= number % rows < rows,
        cell_number(number / rows, number % rows, rows) == number,
{
    assert(rows > 0) by (nonlinear_arith)
        requires
            0 <= number < columns * rows,
            0 <= rows,
    ;
    lemma_fundamental_div_mod(number, rows);
    lemma_mod_bound(number, rows);
    let column = number / rows;
    assert(0 <= column < columns && rows * column == column * rows) by (nonlinear_arith)
        requires
            number == rows * column + number % rows,
            0 <= number % rows < rows,
            0 <= number < columns * rows,
            0 <= columns,
    ;
}

} // verus!
