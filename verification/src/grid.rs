//! The uniform grid: square cells in row-major order.

use crate::geometry::clamp_u32;
use crate::transform::Placement;
use vstd::prelude::*;

verus! {

/// The number of rows that `num_items` items fill at `columns` items a row;
/// a row that is only partly filled counts.
pub open spec fn grid_rows(num_items: int, columns: int) -> int {
    (num_items + columns - 1) / columns
}

/// The place of item `i`: row `i / columns`, column `i % columns`, in cells
/// of `row_height` by `row_height` pixels that hold an item of `item_size`
/// by `item_size`. The top offset saturates at `u32::MAX`.
pub open spec fn grid_placement(
    i: int,
    columns: int,
    row_height: int,
    item_size: int,
) -> Placement {
    Placement {
        width: item_size,
        height: item_size,
        top: clamp_u32((i / columns) * row_height),
        left: (i % columns) * row_height,
    }
}

/// The height of the grid: its rows times the height of a row, saturating at
/// `u32::MAX`.
pub open spec fn grid_height(num_items: int, columns: int, row_height: int) -> int {
    clamp_u32(grid_rows(num_items, columns) * row_height)
}

/// `rows` full rows and `rest` more items are `rows` rows where `rest` is
/// zero, and `rows + 1` rows where it is not.
pub proof fn lemma_grid_rows(rows: int, rest: int, columns: int)
    requires
        0 <= rows,
        0 <= rest < columns,
    ensures
        grid_rows(rows * columns + rest, columns) == if rest == 0 {
            rows
        } else {
            rows + 1
        },
{
    let n = rows * columns + rest + columns - 1;
    if rest == 0 {
        assert(n / columns == rows) by (nonlinear_arith)
            requires
                n == rows * columns + columns - 1,
                columns > 0,
        ;
    } else {
        assert((rows + 1) * columns == rows * columns + columns) by (nonlinear_arith);
        assert(n / columns == rows + 1) by (nonlinear_arith)
            requires
                n == (rows + 1) * columns + (rest - 1),
                0 <= rest - 1 < columns,
        ;
    }
}

/// Item `row * columns + column` stands in row `row` and column `column`.
pub proof fn lemma_grid_cell(row: int, column: int, columns: int)
    requires
        0 <= row,
        0 <= column < columns,
    ensures
        (row * columns + column) / columns == row,
        (row * columns + column) % columns == column,
{
    let i = row * columns + column;
    assert(i / columns == row && i % columns == column) by (nonlinear_arith)
        requires
            i == row * columns + column,
            0 <= column < columns,
    ;
}

/// A grid of whole rows is exactly as high as its rows, and a row that is
/// only partly filled adds one full row height, as long as the height can be
/// stored.
pub proof fn lemma_grid_height_exact(rows: int, rest: int, columns: int, row_height: int)
    requires
        0 <= rows,
        0 <= rest < columns,
        0 <= row_height,
        (if rest == 0 {
            rows
        } else {
            rows + 1
        }) * row_height <= u32::MAX,
    ensures
        grid_height(rows * columns + rest, columns, row_height) == if rest == 0 {
            rows * row_height
        } else {
            (rows + 1) * row_height
        },
{
    lemma_grid_rows(rows, rest, columns);
}

} // verus!
