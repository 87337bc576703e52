//! What holds of the layout store whatever it holds: laws that relate its
//! operations, proved over its model.

use crate::data::Computation;
use crate::geometry::{
    column_count, column_width, effective_width, item_extent, lemma_at_least_one_column,
};
use crate::grid::lemma_grid_height_exact;
use crate::model::LayoutView;
use crate::columns::{is_first_minimum, is_maximum};
use crate::ratio::{lemma_scaled_dimension_bound, lemma_scaled_dimension_exact, AspectRatio};
use crate::rounding::{lemma_saturating_round_div_exact, round_div};
use crate::transform::Placement;
use crate::vertical::{
    column_heights, first_minimum, lemma_column_heights_len, lemma_first_minimum_exists,
    lemma_identical_items_placement, lemma_maximum_exists, turn_is_clear,
};
use vstd::prelude::*;

verus! {

/// A grid layout computed twice in a row is the layout computed once: the
/// second pass changes no geometry and returns the same height.
pub proof fn lemma_grid_idempotent(v: LayoutView, container_width: u16)
    requires
        v.wf(),
    ensures
        v.grid(container_width).grid(container_width) == v.grid(container_width),
        v.grid(container_width).grid_total_height(container_width) == v.grid_total_height(
            container_width,
        ),
{
    let once = v.grid(container_width);
    assert(once.grid(container_width).transforms =~= once.transforms);
}

/// A vertical layout computed twice in a row is the layout computed once.
pub proof fn lemma_vertical_idempotent(v: LayoutView, container_width: u16)
    requires
        v.wf(),
    ensures
        v.vertical(container_width).vertical(container_width) == v.vertical(container_width),
        v.vertical(container_width).vertical_total_height(container_width)
            == v.vertical_total_height(container_width),
{
    let once = v.vertical(container_width);
    assert(once.vertical(container_width).transforms =~= once.transforms);
}

/// A horizontal layout computed twice in a row is the layout computed once.
pub proof fn lemma_horizontal_idempotent(v: LayoutView, container_width: u16)
    requires
        v.wf(),
    ensures
        v.horizontal(container_width).horizontal(container_width) == v.horizontal(
            container_width,
        ),
        v.horizontal(container_width).horizontal_total_height(container_width)
            == v.horizontal_total_height(container_width),
{
    let once = v.horizontal(container_width);
    assert(once.rows(container_width).widths =~= v.rows(container_width).widths);
    assert(once.rows(container_width) == v.rows(container_width));
    assert(once.horizontal(container_width).transforms =~= once.transforms);
}

/// A request served twice in a row leaves the store as the first time and
/// returns the same height.
pub proof fn lemma_execute_idempotent(v: LayoutView, computation: Computation)
    requires
        v.wf(),
    ensures
        v.executed(computation).executed(computation) == v.executed(computation),
        v.executed(computation).executed_height(computation) == v.executed_height(computation),
{
    let configured = v.configured(computation);
    let once = v.executed(computation);
    assert(once.configured(computation) == once);
    lemma_grid_idempotent(configured, computation.width);
    lemma_vertical_idempotent(configured, computation.width);
    lemma_horizontal_idempotent(configured, computation.width);
}

/// No row of a horizontal layout overflows the container.
///
/// An item of a closed row lies within the width that the layout was
/// computed for; the items of the row stand side by side from the left edge,
/// with the padding between them; and the last of them ends at most one
/// pixel for each item of the row before that width, unless no item of the
/// row has any width. That width is the container's, as long as the
/// container is at least one thumbnail wide.
pub proof fn lemma_closed_rows_fit_container(v: LayoutView, container_width: u16, i: int)
    requires
        v.wf(),
        !v.is_degenerate(),
        0 <= i < v.num_items,
        v.rows(container_width).row_end(i) < v.num_items,
    ensures
        ({
            let rows = v.rows(container_width);
            let item = v.horizontal(container_width).transforms[i];
            let wide = effective_width(container_width, v.thumbnail_size);
            &&& 0 <= item.left
            &&& 0 <= item.width
            &&& item.left + item.width <= wide
            &&& container_width >= v.thumbnail_size ==> item.left + item.width <= container_width
            &&& i == rows.row_start(i) ==> item.left == 0
            &&& i == rows.row_end(i) && rows.span(rows.row_start(i), i + 1) > 0 ==> wide - (i + 1
                - rows.row_start(i)) <= item.left + item.width
            &&& i < rows.row_end(i) ==> v.horizontal(container_width).transforms[i + 1].left
                == item.left + item.width + v.padding
        }),
{
    let rows = v.rows(container_width);
    lemma_rows_wf(v, container_width);
    rows.lemma_row_to_end(i);
    rows.lemma_closed_row_fits_limit(i);
}

/// The rows of a store are packed from lengths that are not negative.
pub proof fn lemma_rows_wf(v: LayoutView, container_width: u16)
    requires
        v.wf(),
    ensures
        v.rows(container_width).wf(),
        v.rows(container_width).widths.len() == v.num_items,
{
    let rows = v.rows(container_width);
    assert forall|i: int| 0 <= i < rows.widths.len() implies 0 <= #[trigger] rows.widths[i] by {
        lemma_scaled_dimension_bound(
            v.thumbnail_size as int,
            v.ratios[i].width as int,
            v.ratios[i].height as int,
        );
    }
}

/// Items of one and the same aspect ratio are dealt to the columns of a
/// vertical layout in turn: item `i` stands in column `i % columns`, below
/// the `i / columns` items that came to that column before it.
///
/// This holds of an item whose turn is clear: the column in turn has not
/// grown up to `u32::MAX`. The items have to take room in their column, a
/// height or the padding above zero; without that all of them stand at the
/// top of the first column, which is the column in turn only where
/// `i % columns` is zero, as it always is with one column.
pub proof fn lemma_identical_ratios_round_robin(
    v: LayoutView,
    container_width: u16,
    ratio: AspectRatio,
    i: int,
)
    requires
        v.wf(),
        !v.is_degenerate(),
        0 <= i < v.num_items,
        forall|j: int| 0 <= j < v.num_items ==> #[trigger] v.ratios[j] == ratio,
        ratio.height_for(item_extent(container_width, v.thumbnail_size, v.padding)) + v.padding
            > 0 || i % (column_count(container_width, v.thumbnail_size) as int) == 0,
        turn_is_clear(
            i as nat,
            column_count(container_width, v.thumbnail_size) as nat,
            ratio.height_for(item_extent(container_width, v.thumbnail_size, v.padding))
                + v.padding,
        ),
    ensures
        ({
            let columns = column_count(container_width, v.thumbnail_size) as int;
            let item_width = item_extent(container_width, v.thumbnail_size, v.padding);
            v.vertical(container_width).transforms[i] == (Placement {
                width: item_width,
                height: ratio.height_for(item_width),
                top: (i / columns) * (ratio.height_for(item_width) + v.padding),
                left: (i % columns) * column_width(container_width, v.thumbnail_size),
            })
        }),
{
    lemma_at_least_one_column(container_width, v.thumbnail_size);
    lemma_scaled_dimension_bound(
        item_extent(container_width, v.thumbnail_size, v.padding),
        ratio.height as int,
        ratio.width as int,
    );
    lemma_identical_items_placement(
        v.ratios,
        ratio,
        i,
        column_count(container_width, v.thumbnail_size) as nat,
        column_width(container_width, v.thumbnail_size) as int,
        item_extent(container_width, v.thumbnail_size, v.padding),
        v.padding as int,
    );
}

/// A grid of `rows` full rows is exactly `rows` row heights high, and
/// `rest` more items in a last row add one full row height, as long as that
/// height can be stored in a `u32`.
pub proof fn lemma_grid_height_of_rows(v: LayoutView, container_width: u16, rows: int, rest: int)
    requires
        v.wf(),
        !v.is_degenerate(),
        0 <= rows,
        0 <= rest < column_count(container_width, v.thumbnail_size),
        v.num_items == rows * column_count(container_width, v.thumbnail_size) + rest,
        (if rest == 0 {
            rows
        } else {
            rows + 1
        }) * column_width(container_width, v.thumbnail_size) <= u32::MAX,
    ensures
        v.grid_total_height(container_width) == if rest == 0 {
            rows * column_width(container_width, v.thumbnail_size)
        } else {
            (rows + 1) * column_width(container_width, v.thumbnail_size)
        },
{
    lemma_grid_height_exact(
        rows,
        rest,
        column_count(container_width, v.thumbnail_size) as int,
        column_width(container_width, v.thumbnail_size) as int,
    );
}

/// Slots are never taken away: a store that was resized to `large`, then to
/// a smaller `small`, and to `large` again has the slots it had after the
/// first of these, and they hold what they held.
pub proof fn lemma_resize_keeps_slots(v: LayoutView, large: nat, small: nat)
    requires
        v.wf(),
        small <= large,
    ensures
        v.resized(large).wf(),
        v.resized(large).resized(small).capacity() == v.resized(large).capacity(),
        v.resized(large).resized(small).ratios == v.resized(large).ratios,
        v.resized(large).resized(small).resized(large) == v.resized(large),
{
    let grown = v.resized(large);
    let shrunk = grown.resized(small);
    assert(shrunk.ratios =~= grown.ratios);
    assert(shrunk.transforms =~= grown.transforms);
    assert(shrunk.resized(large).ratios =~= grown.ratios);
    assert(shrunk.resized(large).transforms =~= grown.transforms);
}

/// Resizing keeps every slot and what it holds, and the store has a slot
/// for each of its items afterwards.
pub proof fn lemma_resize_keeps_dimensions(v: LayoutView, new_len: nat, i: int)
    requires
        v.wf(),
        0 <= i < v.capacity(),
    ensures
        v.resized(new_len).wf(),
        v.resized(new_len).capacity() >= v.capacity(),
        v.resized(new_len).capacity() >= new_len,
        v.resized(new_len).ratios[i] == v.ratios[i],
        v.resized(new_len).transforms[i] == v.transforms[i],
{
}

/// However narrow the container, a store with a thumbnail size above zero
/// is laid out in at least one column; with a thumbnail size of zero a
/// layout pass changes nothing and returns the height 0.
pub proof fn lemma_narrow_container(v: LayoutView, container_width: u16)
    requires
        v.wf(),
    ensures
        v.thumbnail_size > 0 ==> column_count(container_width, v.thumbnail_size) >= 1,
        v.thumbnail_size > 0 && container_width <= v.thumbnail_size ==> column_count(
            container_width,
            v.thumbnail_size,
        ) == 1,
        v.thumbnail_size == 0 ==> {
            &&& v.vertical(container_width) == v
            &&& v.vertical_total_height(container_width) == 0
            &&& v.grid(container_width) == v
            &&& v.grid_total_height(container_width) == 0
            &&& v.horizontal(container_width) == v
            &&& v.horizontal_total_height(container_width) == 0
        },
{
    if v.thumbnail_size > 0 {
        lemma_at_least_one_column(container_width, v.thumbnail_size);
    }
}

/// The height that a vertical layout returns is the height of its tallest
/// column: no column is higher, and one is as high.
pub proof fn lemma_vertical_height_is_tallest_column(v: LayoutView, container_width: u16)
    requires
        v.wf(),
        !v.is_degenerate(),
    ensures
        is_maximum(
            column_heights(
                v.ratios,
                v.num_items,
                column_count(container_width, v.thumbnail_size) as nat,
                item_extent(container_width, v.thumbnail_size, v.padding),
                v.padding as int,
            ),
            v.vertical_total_height(container_width) as u32,
        ),
{
    let columns = column_count(container_width, v.thumbnail_size) as nat;
    let heights = column_heights(
        v.ratios,
        v.num_items,
        columns,
        item_extent(container_width, v.thumbnail_size, v.padding),
        v.padding as int,
    );
    lemma_at_least_one_column(container_width, v.thumbnail_size);
    lemma_column_heights_len(
        v.ratios,
        v.num_items,
        columns,
        item_extent(container_width, v.thumbnail_size, v.padding),
        v.padding as int,
    );
    lemma_maximum_exists(heights);
}

/// Every item of a vertical layout stands in one of the columns: in the
/// first of those that are shortest when its turn comes, at that column's
/// height.
pub proof fn lemma_vertical_item_stands_in_shortest_column(
    v: LayoutView,
    container_width: u16,
    i: int,
)
    requires
        v.wf(),
        !v.is_degenerate(),
        0 <= i < v.num_items,
    ensures
        ({
            let columns = column_count(container_width, v.thumbnail_size) as nat;
            let before = column_heights(
                v.ratios,
                i as nat,
                columns,
                item_extent(container_width, v.thumbnail_size, v.padding),
                v.padding as int,
            );
            let item = v.vertical(container_width).transforms[i];
            exists|column: int|
                {
                    &&& #[trigger] is_first_minimum(before, column)
                    &&& 0 <= column < columns
                    &&& item.left == column * column_width(container_width, v.thumbnail_size)
                    &&& item.top == before[column]
                }
        }),
{
    let columns = column_count(container_width, v.thumbnail_size) as nat;
    let before = column_heights(
        v.ratios,
        i as nat,
        columns,
        item_extent(container_width, v.thumbnail_size, v.padding),
        v.padding as int,
    );
    lemma_at_least_one_column(container_width, v.thumbnail_size);
    lemma_column_heights_len(
        v.ratios,
        i as nat,
        columns,
        item_extent(container_width, v.thumbnail_size, v.padding),
        v.padding as int,
    );
    lemma_first_minimum_exists(before);
    assert(is_first_minimum(before, first_minimum(before)));
}

/// The side that an aspect ratio gives an item is the exact quotient,
/// rounded half up, as long as the product and the sum that rounds it stay
/// within `u32::MAX`. In a layout they always do: the other side, a
/// thumbnail or a column, is at most `u16::MAX`.
pub proof fn lemma_item_dimensions_are_exact(ratio: AspectRatio, known: int)
    ensures
        ratio.height > 0 && known * ratio.width + ratio.height / 2 <= u32::MAX
            ==> ratio.width_for(known) == round_div(known * ratio.width, ratio.height as int),
        ratio.width > 0 && known * ratio.height + ratio.width / 2 <= u32::MAX
            ==> ratio.height_for(known) == round_div(known * ratio.height, ratio.width as int),
        known <= u16::MAX ==> {
            &&& known * ratio.width + ratio.height / 2 <= u32::MAX
            &&& known * ratio.height + ratio.width / 2 <= u32::MAX
        },
        ratio.height == 0 ==> ratio.width_for(known) == 0,
        ratio.width == 0 ==> ratio.height_for(known) == 0,
{
    if known <= u16::MAX {
        assert(known * ratio.width <= 0xffff * 0xff && known * ratio.height <= 0xffff * 0xff)
            by (nonlinear_arith)
            requires
                known <= 0xffff,
                0 <= ratio.width <= 0xff,
                0 <= ratio.height <= 0xff,
        ;
    }
    if ratio.height > 0 && known * ratio.width + ratio.height / 2 <= u32::MAX {
        lemma_scaled_dimension_exact(known, ratio.width as int, ratio.height as int);
    }
    if ratio.width > 0 && known * ratio.height + ratio.width / 2 <= u32::MAX {
        lemma_scaled_dimension_exact(known, ratio.height as int, ratio.width as int);
    }
}

/// As long as the container and half a thumbnail together stay within
/// `u16::MAX`, the number of columns is the exact quotient of the width and
/// the thumbnail size, rounded half up.
pub proof fn lemma_column_count_is_exact(container_width: u16, thumbnail_size: u16)
    requires
        thumbnail_size > 0,
        effective_width(container_width, thumbnail_size) + thumbnail_size / 2 <= u16::MAX,
    ensures
        column_count(container_width, thumbnail_size) == round_div(
            effective_width(container_width, thumbnail_size) as int,
            thumbnail_size as int,
        ),
{
    lemma_saturating_round_div_exact(
        effective_width(container_width, thumbnail_size) as int,
        thumbnail_size as int,
        u16::MAX as int,
    );
    lemma_at_least_one_column(container_width, thumbnail_size);
    let wide = effective_width(container_width, thumbnail_size) as int;
    let thumb = thumbnail_size as int;
    assert(0 <= (wide + thumb / 2) / thumb <= wide + thumb / 2) by (nonlinear_arith)
        requires
            0 <= wide,
            0 < thumb,
    ;
}

} // verus!
