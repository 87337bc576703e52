//! The vertical layout: columns of equal width, each item in the column
//! that is shortest when its turn comes.

use crate::columns::{is_first_minimum, is_maximum, lemma_first_minimum_unique};
use crate::geometry::clamp_u32;
use crate::grid::lemma_grid_cell;
use crate::ratio::AspectRatio;
use crate::transform::Placement;
use vstd::prelude::*;

verus! {

/// The first place at which `s` is smallest.
pub open spec fn first_minimum(s: Seq<u32>) -> int {
    choose|i: int| is_first_minimum(s, i)
}

/// The largest value in `s`.
pub open spec fn maximum(s: Seq<u32>) -> u32 {
    choose|m: u32| is_maximum(s, m)
}

/// Whoever finds the first minimum has found `first_minimum`.
pub proof fn lemma_first_minimum_is(s: Seq<u32>, i: int)
    requires
        is_first_minimum(s, i),
    ensures
        first_minimum(s) == i,
{
    lemma_first_minimum_unique(s, i, first_minimum(s));
}

/// The first place at which the first `n` values of `s` are smallest.
proof fn lemma_prefix_minimum(s: Seq<u32>, n: int) -> (i: int)
    requires
        0 < n <= s.len(),
    ensures
        0 <= i < n,
        forall|j: int| 0 <= j < n ==> s[i] <= #[trigger] s[j],
        forall|j: int| 0 <= j < i ==> s[i] < #[trigger] s[j],
    decreases n,
{
    if n == 1 {
        0
    } else {
        let m = lemma_prefix_minimum(s, n - 1);
        if s[n - 1] < s[m] {
            n - 1
        } else {
            m
        }
    }
}

/// A sequence that is not empty has a first minimum.
pub proof fn lemma_first_minimum_exists(s: Seq<u32>)
    requires
        s.len() > 0,
    ensures
        is_first_minimum(s, first_minimum(s)),
{
    let i = lemma_prefix_minimum(s, s.len() as int);
    assert(is_first_minimum(s, i));
}

/// Whoever finds the largest value has found `maximum`.
pub proof fn lemma_maximum_is(s: Seq<u32>, m: u32)
    requires
        is_maximum(s, m),
    ensures
        maximum(s) == m,
{
    let other = maximum(s);
    assert(is_maximum(s, other));
    let at = choose|j: int| 0 <= j < s.len() && #[trigger] s[j] == m;
    let at_other = choose|j: int| 0 <= j < s.len() && #[trigger] s[j] == other;
    assert(s[at] <= other);
    assert(s[at_other] <= m);
}

/// The largest of the first `n` values of `s`.
proof fn lemma_prefix_maximum(s: Seq<u32>, n: int) -> (i: int)
    requires
        0 < n <= s.len(),
    ensures
        0 <= i < n,
        forall|j: int| 0 <= j < n ==> #[trigger] s[j] <= s[i],
    decreases n,
{
    if n == 1 {
        0
    } else {
        let m = lemma_prefix_maximum(s, n - 1);
        if s[n - 1] > s[m] {
            n - 1
        } else {
            m
        }
    }
}

/// A sequence that is not empty has a largest value.
pub proof fn lemma_maximum_exists(s: Seq<u32>)
    requires
        s.len() > 0,
    ensures
        is_maximum(s, maximum(s)),
{
    let i = lemma_prefix_maximum(s, s.len() as int);
    assert(is_maximum(s, s[i]));
}

/// `a + b` as a column stores it: saturating at `u32::MAX`.
pub open spec fn saturating_sum(a: int, b: int) -> u32 {
    clamp_u32(a + b) as u32
}

/// The heights of the columns after the first `placed` items have been
/// placed: all zero at first; each item then adds its height and the padding
/// to the column that is the first shortest at that moment.
pub open spec fn column_heights(
    ratios: Seq<AspectRatio>,
    placed: nat,
    columns: nat,
    item_width: int,
    padding: int,
) -> Seq<u32>
    decreases placed,
{
    if placed == 0 {
        Seq::new(columns, |c: int| 0u32)
    } else {
        let before = column_heights(ratios, (placed - 1) as nat, columns, item_width, padding);
        let column = first_minimum(before);
        before.update(
            column,
            saturating_sum(
                before[column] as int,
                ratios[placed - 1].height_for(item_width) + padding,
            ),
        )
    }
}

/// The place of item `i`: in the column that is the first shortest once the
/// items before it are placed, below what that column holds. Its left offset
/// is the column's number times the column width.
pub open spec fn vertical_placement(
    ratios: Seq<AspectRatio>,
    i: int,
    columns: nat,
    column_width: int,
    item_width: int,
    padding: int,
) -> Placement {
    let before = column_heights(ratios, i as nat, columns, item_width, padding);
    let column = first_minimum(before);
    Placement {
        width: item_width,
        height: ratios[i].height_for(item_width),
        top: before[column] as int,
        left: column * column_width,
    }
}

/// The height of the layout: that of the tallest column once all items are
/// placed.
pub open spec fn vertical_height(
    ratios: Seq<AspectRatio>,
    num_items: nat,
    columns: nat,
    item_width: int,
    padding: int,
) -> int {
    maximum(column_heights(ratios, num_items, columns, item_width, padding)) as int
}

/// There are as many heights as columns, however many items are placed.
pub proof fn lemma_column_heights_len(
    ratios: Seq<AspectRatio>,
    placed: nat,
    columns: nat,
    item_width: int,
    padding: int,
)
    requires
        columns > 0,
    ensures
        column_heights(ratios, placed, columns, item_width, padding).len() == columns,
    decreases placed,
{
    if placed > 0 {
        lemma_column_heights_len(ratios, (placed - 1) as nat, columns, item_width, padding);
        lemma_first_minimum_exists(
            column_heights(ratios, (placed - 1) as nat, columns, item_width, padding),
        );
    }
}

/// The heights of the columns after `placed` items that each add `step` to
/// a column and take the columns in turn: every column has had
/// `placed / columns` items, and the first `placed % columns` one more. A
/// height saturates at `u32::MAX`.
pub open spec fn heights_in_turn(placed: nat, columns: nat, step: int) -> Seq<u32> {
    Seq::new(
        columns,
        |c: int|
            clamp_u32(
                (placed / columns + if c < placed % columns {
                    1int
                } else {
                    0int
                }) * step,
            ) as u32,
    )
}

/// Whether the column whose turn it is after `placed` items can be told
/// from the columns before it, which hold one item more: its height has not
/// saturated, and is below `u32::MAX` unless it is the first column.
pub open spec fn turn_is_clear(placed: nat, columns: nat, step: int) -> bool {
    &&& (placed / columns) * step <= u32::MAX
    &&& placed % columns > 0 ==> (placed / columns) * step < u32::MAX
}

/// Where the turn of an item is clear, so was the turn of the item before it.
proof fn lemma_turn_before_is_clear(placed: nat, columns: nat, step: int)
    requires
        columns > 0,
        placed > 0,
        0 <= step,
        turn_is_clear(placed, columns, step),
    ensures
        turn_is_clear((placed - 1) as nat, columns, step),
{
    let k = (placed - 1) as nat;
    let rounds = (k / columns) as int;
    let next = (k % columns) as int;
    assert(k == rounds * columns + next && 0 <= next < columns && 0 <= rounds)
        by (nonlinear_arith)
        requires
            rounds == k / columns,
            next == k % columns,
            columns > 0,
    ;
    if next + 1 < columns {
        lemma_grid_cell(rounds, next + 1, columns as int);
    } else {
        assert((rounds + 1) * columns == rounds * columns + columns) by (nonlinear_arith);
        lemma_grid_cell(rounds + 1, 0, columns as int);
        assert(rounds * step <= (rounds + 1) * step && (step > 0 ==> rounds * step < (rounds + 1)
            * step) && (step == 0 ==> rounds * step == 0)) by (nonlinear_arith)
            requires
                0 <= step,
        ;
    }
}

/// Where the columns were taken in turn, the next column in turn is the first
/// shortest.
proof fn lemma_next_in_turn(placed: nat, columns: nat, step: int)
    requires
        columns > 0,
        0 <= step,
        step > 0 || placed % columns == 0,
        turn_is_clear(placed, columns, step),
    ensures
        is_first_minimum(heights_in_turn(placed, columns, step), (placed % columns) as int),
{
    let heights = heights_in_turn(placed, columns, step);
    let rounds = (placed / columns) as int;
    let next = (placed % columns) as int;
    assert(0 <= rounds && 0 <= next < columns) by (nonlinear_arith)
        requires
            rounds == placed / columns,
            next == placed % columns,
            columns > 0,
    ;
    assert(0 <= rounds * step <= (rounds + 1) * step && (step > 0 ==> rounds * step < (rounds
        + 1) * step)) by (nonlinear_arith)
        requires
            0 <= rounds,
            0 <= step,
    ;
    assert(heights[next] == rounds * step);
    assert forall|j: int| 0 <= j < heights.len() implies heights[next] <= #[trigger] heights[j] by {
    }
    assert forall|j: int| 0 <= j < next implies heights[next] < #[trigger] heights[j] by {
        assert(heights[j] == clamp_u32((rounds + 1) * step));
    }
}

/// Items of one and the same aspect ratio take the columns in turn.
///
/// Each of them adds the same `step` to its column, so that the column in
/// turn is the first shortest, as long as its turn is clear. Items that add
/// nothing all go to the first column.
pub proof fn lemma_identical_items_take_turns(
    ratios: Seq<AspectRatio>,
    ratio: AspectRatio,
    placed: nat,
    columns: nat,
    item_width: int,
    padding: int,
)
    requires
        columns > 0,
        placed <= ratios.len(),
        forall|j: int| 0 <= j < placed ==> #[trigger] ratios[j] == ratio,
        0 <= ratio.height_for(item_width) + padding,
        turn_is_clear(placed, columns, ratio.height_for(item_width) + padding),
    ensures
        column_heights(ratios, placed, columns, item_width, padding) == heights_in_turn(
            placed,
            columns,
            ratio.height_for(item_width) + padding,
        ),
        ratio.height_for(item_width) + padding > 0 || placed % columns == 0 ==> first_minimum(
            column_heights(ratios, placed, columns, item_width, padding),
        ) == placed % columns,
    decreases placed,
{
    let step = ratio.height_for(item_width) + padding;
    if placed > 0 {
        let k = (placed - 1) as nat;
        let rounds = (k / columns) as int;
        let next = (k % columns) as int;
        assert(k == rounds * columns + next && 0 <= next < columns && 0 <= rounds)
            by (nonlinear_arith)
            requires
                rounds == k / columns,
                next == k % columns,
                columns > 0,
        ;
        lemma_turn_before_is_clear(placed, columns, step);
        lemma_identical_items_take_turns(ratios, ratio, k, columns, item_width, padding);
        let before = column_heights(ratios, k, columns, item_width, padding);
        assert(before == heights_in_turn(k, columns, step));
        assert(ratios[placed - 1] == ratio);
        assert(rounds * step + step == (rounds + 1) * step && 0 <= rounds * step
            && (step == 0 ==> rounds * step == 0)) by (nonlinear_arith)
            requires
                0 <= rounds,
                0 <= step,
        ;
        let after = column_heights(ratios, placed, columns, item_width, padding);
        if next + 1 < columns {
            lemma_grid_cell(rounds, next + 1, columns as int);
        } else {
            assert((rounds + 1) * columns == rounds * columns + columns) by (nonlinear_arith);
            lemma_grid_cell(rounds + 1, 0, columns as int);
        }
        if step > 0 {
            assert(first_minimum(before) == next);
            assert(before[next] == rounds * step);
            assert(after == before.update(next, clamp_u32((rounds + 1) * step) as u32));
            assert(after =~= heights_in_turn(placed, columns, step));
        } else {
            // Items that add nothing leave every column as it is.
            lemma_first_minimum_exists(before);
            let column = first_minimum(before);
            assert(before[column] == 0) by {
                assert((k / columns + if column < k % columns {
                    1int
                } else {
                    0int
                }) * step == 0) by (nonlinear_arith)
                    requires
                        step == 0,
                ;
            }
            assert forall|c: int| 0 <= c < columns implies #[trigger] heights_in_turn(
                placed,
                columns,
                step,
            )[c] == before[c] by {
                assert((placed / columns + if c < placed % columns {
                    1int
                } else {
                    0int
                }) * step == 0 && (k / columns + if c < k % columns {
                    1int
                } else {
                    0int
                }) * step == 0) by (nonlinear_arith)
                    requires
                        step == 0,
                ;
            }
            assert(after =~= heights_in_turn(placed, columns, step));
        }
    } else {
        assert(0nat / columns == 0 && 0nat % columns == 0) by (nonlinear_arith)
            requires
                columns > 0,
        ;
        assert(column_heights(ratios, placed, columns, item_width, padding) =~= heights_in_turn(
            placed,
            columns,
            step,
        )) by {
            assert(0 * step == 0);
        }
    }
    if step > 0 || placed % columns == 0 {
        lemma_next_in_turn(placed, columns, step);
        lemma_first_minimum_is(heights_in_turn(placed, columns, step), (placed % columns) as int);
    }
}

/// The place of an item among items of one and the same aspect ratio: item
/// `i` stands in column `i % columns`, below the `i / columns` items that
/// came to that column before it.
///
/// This holds of an item whose turn is clear. The items have to take room in
/// their column, a height or the padding above zero; without that all of
/// them stand at the top of the first column, which is the column in turn
/// only where `i % columns` is zero.
pub proof fn lemma_identical_items_placement(
    ratios: Seq<AspectRatio>,
    ratio: AspectRatio,
    i: int,
    columns: nat,
    column_width: int,
    item_width: int,
    padding: int,
)
    requires
        columns > 0,
        0 <= i < ratios.len(),
        forall|j: int| 0 <= j <= i ==> #[trigger] ratios[j] == ratio,
        0 <= ratio.height_for(item_width) + padding,
        ratio.height_for(item_width) + padding > 0 || i % (columns as int) == 0,
        turn_is_clear(i as nat, columns, ratio.height_for(item_width) + padding),
    ensures
        vertical_placement(ratios, i, columns, column_width, item_width, padding) == (Placement {
            width: item_width,
            height: ratio.height_for(item_width),
            top: (i / (columns as int)) * (ratio.height_for(item_width) + padding),
            left: (i % (columns as int)) * column_width,
        }),
{
    let step = ratio.height_for(item_width) + padding;
    lemma_identical_items_take_turns(ratios, ratio, i as nat, columns, item_width, padding);
    let rounds = i / (columns as int);
    assert(0 <= rounds && 0 <= i % (columns as int) < columns) by (nonlinear_arith)
        requires
            rounds == i / (columns as int),
            0 <= i,
            columns > 0,
    ;
    assert(0 <= rounds * step) by (nonlinear_arith)
        requires
            0 <= rounds,
            0 <= step,
    ;
}

} // verus!
