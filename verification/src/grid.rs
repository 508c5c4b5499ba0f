use vstd::prelude::*;
use vstd::arithmetic::div_mod::{
    lemma_div_pos_is_pos,
    lemma_fundamental_div_mod,
    lemma_fundamental_div_mod_converse,
    lemma_mod_bound,
    lemma_multiply_divide_lt,
};

verus! {

/// Whether the integer point `(x, y)` names a cell of a grid with `width`
/// columns and `height` rows: the column is held against the width and the
/// row against the height.
pub open spec fn on_grid(x: int, y: int, width: int, height: int) -> bool {
    0 <= x < width && 0 <= y < height
}

/// The row-major index of the cell in column `x` of row `y`.
pub open spec fn cell_index(x: int, y: int, width: int) -> int {
    y * width + x
}

/// A cell of the grid has a row-major index below the number of cells, and
/// the index gives the cell's column and row back.
pub proof fn lemma_cell_index_bound(x: int, y: int, width: int, height: int)
    requires
        on_grid(x, y, width, height),
    ensures
        0 <= cell_index(x, y, width) < width * height,
        cell_index(x, y, width) % width == x,
        cell_index(x, y, width) / width == y,
{
    assert(0 <= y * width) by (nonlinear_arith)
        requires
            0 <= y,
            0 <= width,
    ;
    assert(y * width + width <= width * height) by (nonlinear_arith)
        requires
            0 <= y < height,
            0 <= width,
    ;
    lemma_fundamental_div_mod_converse(y * width + x, width, y, x);
}

/// A row-major index below the number of cells names the cell in column
/// `i % width` of row `i / width`.
pub proof fn lemma_pixel_of_index(i: int, width: int, height: int)
    requires
        0 <= i < width * height,
        0 <= width,
    ensures
        on_grid(i % width, i / width, width, height),
        cell_index(i % width, i / width, width) == i,
{
    assert(width > 0) by (nonlinear_arith)
        requires
            0 <= i < width * height,
            0 <= width,
    ;
    lemma_mod_bound(i, width);
    lemma_div_pos_is_pos(i, width);
    lemma_multiply_divide_lt(i, width, height);
    lemma_fundamental_div_mod(i, width);
    assert(width * (i / width) == (i / width) * width) by (nonlinear_arith);
}

} // verus!
