//! The columns that a container is divided into.

use crate::rounding::{saturating_round_div, DivInt};
use vstd::prelude::*;

verus! {

/// `x`, or `u32::MAX` where `x` is larger: what a sum of offsets is stored as.
pub open spec fn clamp_u32(x: int) -> int {
    if x > u32::MAX {
        u32::MAX as int
    } else {
        x
    }
}

/// The width that a layout is computed for: that of the container, but at
/// least one thumbnail wide.
pub open spec fn effective_width(container_width: u16, thumbnail_size: u16) -> u16 {
    if container_width >= thumbnail_size {
        container_width
    } else {
        thumbnail_size
    }
}

/// The number of columns: the effective width in thumbnails, rounded half up.
pub open spec fn column_count(container_width: u16, thumbnail_size: u16) -> u16 {
    effective_width(container_width, thumbnail_size).div_int_spec(thumbnail_size)
}

/// The width of one column: the effective width divided among the columns,
/// rounded half up.
pub open spec fn column_width(container_width: u16, thumbnail_size: u16) -> u16 {
    effective_width(container_width, thumbnail_size).div_int_spec(
        column_count(container_width, thumbnail_size),
    )
}

/// The width of an item in a column: the column without the padding, and
/// nothing where the padding is wider than the column.
pub open spec fn item_extent(container_width: u16, thumbnail_size: u16, padding: u16) -> int {
    let width = column_width(container_width, thumbnail_size);
    if width >= padding {
        width - padding
    } else {
        0
    }
}

/// With a thumbnail size above zero there is at least one column, however
/// narrow the container, and every column is at least one pixel wide.
pub proof fn lemma_at_least_one_column(container_width: u16, thumbnail_size: u16)
    requires
        thumbnail_size > 0,
    ensures
        1 <= column_count(container_width, thumbnail_size) <= effective_width(
            container_width,
            thumbnail_size,
        ),
        1 <= column_width(container_width, thumbnail_size),
        container_width <= thumbnail_size ==> column_count(container_width, thumbnail_size) == 1,
{
    let wide = effective_width(container_width, thumbnail_size) as int;
    let thumb = thumbnail_size as int;
    let sum = if wide + thumb / 2 > u16::MAX {
        u16::MAX as int
    } else {
        wide + thumb / 2
    };
    let count = sum / thumb;
    assert(count == saturating_round_div(wide, thumb, u16::MAX as int));
    assert(1 <= count <= wide && (wide == thumb ==> count == 1)) by (nonlinear_arith)
        requires
            count == sum / thumb,
            1 <= thumb <= wide,
            thumb <= sum <= wide + thumb / 2,
    {
        assert(count * thumb <= sum < count * thumb + thumb);
        if thumb >= 2 {
            assert(wide + thumb / 2 <= wide * thumb);
        }
    }
    assert(count == column_count(container_width, thumbnail_size));
    let sum2 = if wide + count / 2 > u16::MAX {
        u16::MAX as int
    } else {
        wide + count / 2
    };
    assert(1 <= sum2 / count) by (nonlinear_arith)
        requires
            1 <= count <= sum2,
    ;
    assert(sum2 / count == saturating_round_div(wide, count, u16::MAX as int));
}

/// Divides a container into columns. Returns their number and the width of
/// each.
pub fn divide_into_columns(container_width: u16, thumbnail_size: u16) -> (columns: (u16, u16))
    requires
        thumbnail_size > 0,
    ensures
        columns.0 == column_count(container_width, thumbnail_size),
        columns.1 == column_width(container_width, thumbnail_size),
        columns.0 >= 1,
        columns.1 >= 1,
{
    proof {
        lemma_at_least_one_column(container_width, thumbnail_size);
    }
    let container_width = if container_width >= thumbnail_size {
        container_width
    } else {
        thumbnail_size
    };
    let n_columns = container_width.div_int(thumbnail_size);
    let column_width = container_width.div_int(n_columns);
    (n_columns, column_width)
}

} // verus!
