//! The layout store: the items' aspect ratios, their computed geometry, and
//! the three layout passes.

use crate::geometry::{
    clamp_u32, column_count, column_width, divide_into_columns, item_extent,
};
use crate::columns::ColumnHeights;
use crate::grid::{lemma_grid_cell, lemma_grid_rows};
use crate::horizontal::{rescale, rescale_down, Rows};
use crate::model::{unset_ratio, zero_placement, LayoutView, MAX_THUMBNAIL_SIZE};
use crate::ratio::{lemma_scaled_dimension_bound, AspectRatio};
use crate::transform::{Placement, Transform};
use crate::vertical::{column_heights, lemma_first_minimum_is, lemma_maximum_is};
use vstd::prelude::*;

verus! {

/// The least number of slots of a store: small collections then grow and
/// shrink without the buffers being rebuilt.
pub const MIN_ITEMS_CAPACITY: usize = 1_000;

/// The layout store.
///
/// It owns, for each item, the aspect ratio that was set and the geometry
/// that the last layout pass computed, in two buffers addressed by the item's
/// index. The buffers only grow. Its view is a `LayoutView`.
pub struct Layout {
    num_items: usize,
    transforms: Vec<Transform>,
    aspect_ratios: Vec<AspectRatio>,
    thumbnail_size: u16,
    padding: u16,
}

impl View for Layout {
    type V = LayoutView;

    closed spec fn view(&self) -> LayoutView {
        LayoutView {
            num_items: self.num_items as nat,
            thumbnail_size: self.thumbnail_size,
            padding: self.padding,
            ratios: self.aspect_ratios@,
            transforms: self.transforms@.map_values(|t: Transform| t@),
        }
    }
}

/// `len` slots without a geometry.
fn empty_transforms(len: usize) -> (transforms: Vec<Transform>)
    ensures
        transforms@.len() == len,
        forall|i: int| 0 <= i < len ==> (#[trigger] transforms@[i])@ == zero_placement(),
{
    let mut transforms: Vec<Transform> = Vec::new();
    let mut i: usize = 0;
    while i < len
        invariant
            i <= len,
            transforms@.len() == i,
            forall|j: int| 0 <= j < i ==> (#[trigger] transforms@[j])@ == zero_placement(),
        decreases len - i,
    {
        transforms.push(Transform::default());
        i += 1;
    }
    transforms
}

/// `len` slots without a ratio.
fn empty_ratios(len: usize) -> (ratios: Vec<AspectRatio>)
    ensures
        ratios@ == Seq::new(len as nat, |i: int| unset_ratio()),
{
    let mut ratios: Vec<AspectRatio> = Vec::new();
    let mut i: usize = 0;
    while i < len
        invariant
            i <= len,
            ratios@ == Seq::new(i as nat, |j: int| unset_ratio()),
        decreases len - i,
    {
        ratios.push(AspectRatio::default());
        i += 1;
        assert(ratios@ =~= Seq::new(i as nat, |j: int| unset_ratio()));
    }
    ratios
}

impl Layout {
    /// The buffers have one slot each for every item, and as many ratios as
    /// geometries.
    pub closed spec fn wf(&self) -> bool {
        &&& self.num_items <= self.transforms@.len()
        &&& self.transforms@.len() == self.aspect_ratios@.len()
    }

    /// The view of a well-formed store is well-formed.
    pub proof fn lemma_view_wf(&self)
        requires
            self.wf(),
        ensures
            self@.wf(),
    {
    }

    /// A store for `num_items` items with the given configuration. It has
    /// `num_items` slots, and `MIN_ITEMS_CAPACITY` where that is more; no
    /// slot has a ratio or a geometry.
    pub fn new(num_items: usize, thumbnail_size: u16, padding: u16) -> (layout: Layout)
        ensures
            layout.wf(),
            layout@.num_items == num_items,
            layout@.thumbnail_size == thumbnail_size,
            layout@.padding == padding,
            layout@.capacity() == if num_items >= MIN_ITEMS_CAPACITY {
                num_items
            } else {
                MIN_ITEMS_CAPACITY
            },
            layout@.ratios == Seq::new(layout@.capacity(), |i: int| unset_ratio()),
            layout@.transforms == Seq::new(layout@.capacity(), |i: int| zero_placement()),
    {
        let capacity = if num_items >= MIN_ITEMS_CAPACITY {
            num_items
        } else {
            MIN_ITEMS_CAPACITY
        };
        let layout = Layout {
            num_items,
            transforms: empty_transforms(capacity),
            aspect_ratios: empty_ratios(capacity),
            thumbnail_size,
            padding,
        };
        assert(layout@.transforms =~= Seq::new(layout@.capacity(), |i: int| zero_placement()));
        layout
    }

    /// The number of items.
    pub fn num_items(&self) -> (num_items: usize)
        ensures
            num_items == self@.num_items,
    {
        self.num_items
    }

    /// The number of slots. It never goes down.
    pub fn capacity(&self) -> (capacity: usize)
        ensures
            capacity == self@.capacity(),
    {
        self.aspect_ratios.len()
    }

    /// The thumbnail size that layouts are computed for.
    pub fn thumbnail_size(&self) -> (thumbnail_size: u16)
        ensures
            thumbnail_size == self@.thumbnail_size,
    {
        self.thumbnail_size
    }

    /// The gap that layouts leave between items.
    pub fn padding(&self) -> (padding: u16)
        ensures
            padding == self@.padding,
    {
        self.padding
    }

    /// The geometry of item `index`, or `None` where there is no such item.
    pub fn get_transform(&self, index: usize) -> (transform: Option<&Transform>)
        requires
            self.wf(),
        ensures
            index < self@.num_items ==> (transform matches Some(t) && t@
                == self@.transforms[index as int]),
            index >= self@.num_items ==> transform is None,
    {
        if index < self.num_items {
            Some(&self.transforms[index])
        } else {
            None
        }
    }

    /// Stores the aspect ratio of a source of `src_width` by `src_height`
    /// pixels in slot `index`. Without such a slot nothing happens.
    pub fn set_dimension(&mut self, index: usize, src_width: u16, src_height: u16)
        requires
            old(self).wf(),
        ensures
            final(self).wf(),
            final(self)@ == old(self)@.with_dimension(index as int, src_width, src_height),
    {
        if index < self.aspect_ratios.len() {
            let mut ratio = self.aspect_ratios[index];
            ratio.set(src_width, src_height);
            self.aspect_ratios[index] = ratio;
        }
    }

    /// Sets the thumbnail size, cut down to `MAX_THUMBNAIL_SIZE`.
    pub fn set_thumbnail_size(&mut self, thumbnail_size: u16)
        requires
            old(self).wf(),
        ensures
            final(self).wf(),
            final(self)@ == old(self)@.with_thumbnail_size(thumbnail_size),
    {
        // Above this size a hundred thumbnails no longer fit in a `u16`.
        self.thumbnail_size = if thumbnail_size <= MAX_THUMBNAIL_SIZE {
            thumbnail_size
        } else {
            MAX_THUMBNAIL_SIZE
        };
    }

    /// Sets the gap between items.
    pub fn set_padding(&mut self, padding: u16)
        requires
            old(self).wf(),
        ensures
            final(self).wf(),
            final(self)@ == old(self)@.with_padding(padding),
    {
        self.padding = padding;
    }

    /// Sets the number of items. Slots are added where there are too few and
    /// never taken away, so that a collection that shrinks and grows again
    /// finds its slots, and what they hold, still there.
    pub fn resize(&mut self, new_len: usize)
        requires
            old(self).wf(),
        ensures
            final(self).wf(),
            final(self)@ == old(self)@.resized(new_len as nat),
    {
        let ghost before = self@;
        let len = self.transforms.len();
        if new_len > len {
            let mut i: usize = len;
            while i < new_len
                invariant
                    len <= i <= new_len,
                    before.ratios.len() == len,
                    before.transforms.len() == len,
                    self.transforms@.len() == i,
                    self.aspect_ratios@.len() == i,
                    self.num_items == before.num_items,
                    self.thumbnail_size == before.thumbnail_size,
                    self.padding == before.padding,
                    forall|j: int|
                        0 <= j < len ==> (#[trigger] self.transforms@[j])@ == before.transforms[j],
                    forall|j: int|
                        0 <= j < len ==> #[trigger] self.aspect_ratios@[j] == before.ratios[j],
                    forall|j: int|
                        len <= j < i ==> (#[trigger] self.transforms@[j])@ == zero_placement(),
                    forall|j: int|
                        len <= j < i ==> #[trigger] self.aspect_ratios@[j] == unset_ratio(),
                decreases new_len - i,
            {
                self.transforms.push(Transform::default());
                self.aspect_ratios.push(AspectRatio::default());
                i += 1;
            }
        }
        self.num_items = new_len;
        assert(self@.ratios =~= before.resized(new_len as nat).ratios);
        assert(self@.transforms =~= before.resized(new_len as nat).transforms);
    }

    /// Lays the items out in rows and returns the height of the rows.
    ///
    /// Every item is first as high as a thumbnail and as wide as its aspect
    /// ratio then makes it. The items fill a row from the left, each followed
    /// by the padding, until one of them overflows the container, which
    /// counts as at least one thumbnail wide. That item is the last of its
    /// row. The row is then rescaled to the width of the container: every
    /// item by the one factor that takes the widths of the row to the width
    /// of the container without the padding between the items, which stays
    /// as it is. The widths are rounded down, so that no row overflows the
    /// container; the height of the row is rounded half up. The next row
    /// starts below it and the padding. A last row that never overflows
    /// keeps the thumbnail's height and adds no padding below. Without items
    /// or with a thumbnail size of zero nothing changes and the height is 0.
    pub fn compute_horizontal(&mut self, container_width: u16) -> (height: u32)
        requires
            old(self).wf(),
        ensures
            final(self).wf(),
            final(self)@ == old(self)@.horizontal(container_width),
            height == old(self)@.horizontal_total_height(container_width),
    {
        if self.is_empty() || self.thumbnail_size == 0 {
            return 0;
        }
        let ghost before = self@;
        let ghost rows = before.rows(container_width);
        let limit = if container_width >= self.thumbnail_size {
            container_width
        } else {
            self.thumbnail_size
        } as u32;
        let height = self.thumbnail_size as u32;
        let padding = self.padding as u32;
        let num_items = self.num_items;
        proof {
            assert forall|i: int| 0 <= i < rows.widths.len() implies 0 <= #[trigger] rows.widths[i]
                <= 0xffff * 0xff + 0x7f by {
                lemma_scaled_dimension_bound(
                    height as int,
                    before.ratios[i].width as int,
                    before.ratios[i].height as int,
                );
            }
        }

        let mut top: u32 = 0;
        let mut row_width: u32 = 0;
        let mut row_items: u32 = 0;
        let mut start: usize = 0;
        let mut end: usize = 0;
        while end < num_items
            invariant
                self.wf(),
                num_items == self.num_items == before.num_items,
                self.thumbnail_size == before.thumbnail_size == height,
                self.padding == before.padding == padding,
                self.aspect_ratios@ == before.ratios,
                self.transforms@.len() == before.transforms.len(),
                rows == before.rows(container_width),
                rows.wf(),
                rows.widths.len() == num_items,
                rows.limit == limit <= u16::MAX,
                rows.padding == padding,
                rows.thumbnail_size == height,
                forall|i: int|
                    0 <= i < rows.widths.len() ==> 0 <= #[trigger] rows.widths[i] <= 0xffff * 0xff
                        + 0x7f,
                start <= end <= num_items,
                start == rows.row_start(end as int),
                row_width == rows.padded_span(start as int, end as int),
                row_items == rows.span(start as int, end as int),
                row_items <= row_width <= limit,
                0 <= rows.top_before(end as int),
                top == clamp_u32(rows.top_before(end as int)),
                forall|j: int|
                    #![trigger rows.row_start(j)]
                    #![trigger rows.closes_row(j)]
                    #![trigger rows.top_before(j)]
                    start <= j < end ==> {
                        &&& rows.row_start(j) == start
                        &&& !rows.closes_row(j)
                        &&& rows.top_before(j) == rows.top_before(end as int)
                    },
                forall|j: int|
                    start <= j < end ==> (#[trigger] self.transforms@[j])@ == (Placement {
                        width: rows.widths[j],
                        height: height as int,
                        top: top as int,
                        left: rows.padded_span(start as int, j),
                    }),
                forall|j: int|
                    0 <= j < start ==> (#[trigger] self.transforms@[j])@ == rows.placement(j),
                forall|j: int|
                    end <= j < self.transforms@.len() ==> (#[trigger] self.transforms@[j])@
                        == before.transforms[j],
            decreases num_items - end,
        {
            // Correct the aspect ratio of very wide and very narrow images.
            let width = self.aspect_ratios[end].correct_width(height);
            assert(width == rows.widths[end as int]);
            self.transforms[end] = Transform::new(width, height, top, row_width);

            proof {
                rows.lemma_span_grows(start as int, end as int);
                rows.lemma_padded_span_grows(start as int, end as int);
            }
            let gaps = row_width - row_items;
            row_width = row_width + width + padding;
            row_items = row_items + width;

            // Does this image overflow the row?
            if row_width > limit {
                // It does: the row is rescaled to the width of the container
                // and a new row is started.
                let avail = limit - gaps;
                let row_height = rescale(height, avail, row_items);
                proof {
                    rows.lemma_row_closes(start as int, end as int);
                    rows.lemma_row_height_bounds(start as int, end as int);
                    assert forall|j: int| start <= j <= end implies #[trigger] rows.row_end(j)
                        == end by {
                        rows.lemma_row_end_closed(j, end as int);
                    }
                }
                self.close_row(start, end, avail, row_items, row_height, top, Ghost(rows));
                top = top.saturating_add(row_height).saturating_add(padding);
                row_width = 0;
                row_items = 0;
                start = end + 1;
                proof {
                    rows.lemma_padded_span_grows(start as int, start as int);
                }
            } else {
                proof {
                    rows.lemma_row_goes_on(start as int, end as int);
                }
            }
            end += 1;
        }
        proof {
            assert forall|j: int| start <= j < num_items implies #[trigger] rows.row_end(j)
                == num_items by {
                rows.lemma_row_end_open(j);
            }
            assert(self@.transforms =~= before.horizontal(container_width).transforms);
        }
        // The height of the container: a row that was left open counts with
        // the height of a thumbnail and without padding below.
        if start < num_items {
            top.saturating_add(height)
        } else {
            top
        }
    }

    /// Rescales the row `start..=end`, whose items hold their own widths, so
    /// that its `total` width becomes at most `avail`, and puts the padding
    /// back between the items.
    fn close_row(
        &mut self,
        start: usize,
        end: usize,
        avail: u32,
        total: u32,
        row_height: u32,
        top: u32,
        Ghost(rows): Ghost<Rows>,
    )
        requires
            old(self).wf(),
            start <= end < old(self).num_items,
            rows.wf(),
            rows.widths.len() == old(self).num_items,
            rows.padding == old(self).padding,
            total == rows.span(start as int, end + 1),
            avail == rows.available(start as int, end as int),
            avail <= u16::MAX,
            (end - start) * rows.padding <= u16::MAX,
            forall|j: int|
                start <= j <= end ==> (#[trigger] old(self).transforms@[j])@.width
                    == rows.widths[j],
        ensures
            final(self).wf(),
            final(self).num_items == old(self).num_items,
            final(self).thumbnail_size == old(self).thumbnail_size,
            final(self).padding == old(self).padding,
            final(self).aspect_ratios@ == old(self).aspect_ratios@,
            final(self).transforms@.len() == old(self).transforms@.len(),
            forall|j: int|
                start <= j <= end ==> (#[trigger] final(self).transforms@[j])@ == (Placement {
                    width: rows.item_width(start as int, end as int, j),
                    height: row_height as int,
                    top: top as int,
                    left: rows.scaled_span(start as int, end as int, j) + (j - start)
                        * rows.padding,
                }),
            forall|j: int|
                0 <= j < final(self).transforms@.len() && !(start <= j <= end)
                    ==> #[trigger] final(self).transforms@[j] == old(self).transforms@[j],
    {
        let padding = self.padding as u32;
        // The rescaled widths of the items so far, and the padding between
        // them.
        let mut filled: u32 = 0;
        let mut offset: u32 = 0;
        let mut j: usize = start;
        proof {
            assert((start - start) * rows.padding == 0) by (nonlinear_arith);
        }
        while j <= end
            invariant
                self.wf(),
                self.num_items == old(self).num_items,
                self.thumbnail_size == old(self).thumbnail_size,
                self.padding == old(self).padding == padding,
                self.aspect_ratios@ == old(self).aspect_ratios@,
                self.transforms@.len() == old(self).transforms@.len(),
                start <= j <= end + 1,
                end < self.num_items,
                rows.wf(),
                rows.widths.len() == self.num_items,
                rows.padding == padding,
                total == rows.span(start as int, end + 1),
                avail == rows.available(start as int, end as int),
                avail <= u16::MAX,
                (end - start) * rows.padding <= u16::MAX,
                filled == rows.scaled_span(start as int, end as int, j as int),
                offset == (j - start) * rows.padding,
                forall|k: int|
                    j <= k <= end ==> (#[trigger] self.transforms@[k])@.width == rows.widths[k],
                forall|k: int|
                    start <= k < j ==> (#[trigger] self.transforms@[k])@ == (Placement {
                        width: rows.item_width(start as int, end as int, k),
                        height: row_height as int,
                        top: top as int,
                        left: rows.scaled_span(start as int, end as int, k) + (k - start)
                            * rows.padding,
                    }),
                forall|k: int|
                    0 <= k < self.transforms@.len() && !(start <= k <= end)
                        ==> #[trigger] self.transforms@[k] == old(self).transforms@[k],
            decreases end + 1 - j,
        {
            let own = self.transforms[j].width();
            proof {
                rows.lemma_scaled_span_bounds(start as int, end as int, j as int);
                rows.lemma_scaled_span_bounds(start as int, end as int, j + 1);
                assert((j - start) * rows.padding <= (end - start) * rows.padding
                    && (j + 1 - start) * rows.padding == (j - start) * rows.padding
                    + rows.padding) by (nonlinear_arith)
                    requires
                        start <= j <= end,
                        0 <= rows.padding,
                ;
            }
            let width = rescale_down(own, avail, total);
            self.transforms[j] = Transform::new(width, row_height, top, filled + offset);
            filled = filled + width;
            offset = offset + padding;
            j += 1;
        }
    }

    /// Lays the items out in columns of equal width and returns the height
    /// of the tallest column.
    ///
    /// The container is divided into columns as `divide_into_columns` says.
    /// Every item is as wide as a column without the padding, and as high as
    /// its aspect ratio then makes it. The items are placed in order, each in
    /// the column that is shortest at that moment, the first of them where
    /// several are; the column grows by the item's height and the padding.
    /// Without items or with a thumbnail size of zero nothing changes and the
    /// height is 0.
    pub fn compute_vertical(&mut self, container_width: u16) -> (height: u32)
        requires
            old(self).wf(),
        ensures
            final(self).wf(),
            final(self)@ == old(self)@.vertical(container_width),
            height == old(self)@.vertical_total_height(container_width),
    {
        if self.is_empty() || self.thumbnail_size == 0 {
            return 0;
        }
        let ghost before = self@;
        let (n_columns, cell) = divide_into_columns(container_width, self.thumbnail_size);
        let mut columns = ColumnHeights::new(n_columns as usize);
        let cell = cell as u32;
        let padding = self.padding as u32;
        let item_width = cell.saturating_sub(padding);
        let num_items = self.num_items;

        let mut i: usize = 0;
        while i < num_items
            invariant
                self.wf(),
                num_items == self.num_items == before.num_items,
                self.thumbnail_size == before.thumbnail_size,
                self.padding == before.padding == padding,
                self.aspect_ratios@ == before.ratios,
                self.transforms@.len() == before.transforms.len(),
                n_columns >= 1,
                n_columns == column_count(container_width, before.thumbnail_size),
                cell == column_width(container_width, before.thumbnail_size),
                item_width == item_extent(container_width, before.thumbnail_size, before.padding),
                i <= num_items,
                columns.wf(),
                columns.columns() == n_columns,
                columns@ == column_heights(
                    before.ratios,
                    i as nat,
                    n_columns as nat,
                    item_width as int,
                    padding as int,
                ),
                forall|j: int|
                    0 <= j < i ==> (#[trigger] self.transforms@[j])@ == before.vertical_item(
                        container_width,
                        j,
                    ),
                forall|j: int|
                    i <= j < self.transforms@.len() ==> (#[trigger] self.transforms@[j])@
                        == before.transforms[j],
            decreases num_items - i,
        {
            let height = self.aspect_ratios[i].correct_height(item_width);
            let (top, shortest) = columns.min_column();
            proof {
                columns.lemma_view_len();
                lemma_first_minimum_is(columns@, shortest as int);
                assert(shortest * cell <= 0xffff * 0xffff) by (nonlinear_arith)
                    requires
                        0 <= shortest <= 0xffff,
                        0 <= cell <= 0xffff,
                ;
            }
            let left = shortest * cell;
            columns.set_min_column(shortest, top.saturating_add(height).saturating_add(padding));
            self.transforms[i] = Transform::new(item_width, height, top, left);
            i += 1;
        }
        let height = columns.max_height();
        proof {
            lemma_maximum_is(columns@, height);
            assert(self@.transforms =~= before.vertical(container_width).transforms);
        }
        height
    }

    /// Lays the items out in a uniform grid and returns its height.
    ///
    /// The container is divided into columns as `divide_into_columns` says.
    /// Every item gets a square cell, in row-major order; the aspect ratios
    /// play no part. A last row that is only partly filled counts as a row.
    /// Without items or with a thumbnail size of zero nothing changes and the
    /// height is 0.
    pub fn compute_grid(&mut self, container_width: u16) -> (height: u32)
        requires
            old(self).wf(),
        ensures
            final(self).wf(),
            final(self)@ == old(self)@.grid(container_width),
            height == old(self)@.grid_total_height(container_width),
    {
        if self.is_empty() || self.thumbnail_size == 0 {
            return 0;
        }
        let ghost before = self@;
        let (n_columns, cell) = divide_into_columns(container_width, self.thumbnail_size);
        let row_height = cell as u32;
        let item_size = row_height.saturating_sub(self.padding as u32);
        let num_items = self.num_items;

        let mut top: u32 = 0;
        let mut left: u32 = 0;
        let mut column: u16 = 0;
        let ghost mut row: int = 0;
        let mut i: usize = 0;
        while i < num_items
            invariant
                self.wf(),
                num_items == self.num_items == before.num_items,
                self.thumbnail_size == before.thumbnail_size,
                self.padding == before.padding,
                self.aspect_ratios@ == before.ratios,
                self.transforms@.len() == before.transforms.len(),
                n_columns >= 1,
                n_columns == column_count(container_width, before.thumbnail_size),
                row_height == column_width(container_width, before.thumbnail_size),
                item_size == item_extent(container_width, before.thumbnail_size, before.padding),
                i <= num_items,
                0 <= row,
                0 <= column < n_columns,
                i == row * n_columns + column,
                top == clamp_u32(row * row_height),
                left == column * row_height,
                forall|j: int|
                    0 <= j < i ==> (#[trigger] self.transforms@[j])@ == before.grid_item(
                        container_width,
                        j,
                    ),
                forall|j: int|
                    i <= j < self.transforms@.len() ==> (#[trigger] self.transforms@[j])@
                        == before.transforms[j],
            decreases num_items - i,
        {
            proof {
                lemma_grid_cell(row, column as int, n_columns as int);
            }
            self.transforms[i] = Transform::new(item_size, item_size, top, left);
            i += 1;
            column += 1;
            proof {
                assert((column - 1) * row_height + row_height == column * row_height
                    && column * row_height <= 0xffff * 0xffff) by (nonlinear_arith)
                    requires
                        1 <= column <= 0xffff,
                        0 <= row_height <= 0xffff,
                ;
            }
            left += row_height;
            if column == n_columns {
                proof {
                    assert((row + 1) * n_columns == row * n_columns + n_columns
                        && (row + 1) * row_height == row * row_height + row_height
                        && 0 <= row * row_height) by (nonlinear_arith)
                        requires
                            0 <= row,
                            0 <= row_height,
                    ;
                    row = row + 1;
                }
                column = 0;
                left = 0;
                top = top.saturating_add(row_height);
            }
        }
        proof {
            lemma_grid_rows(row, column as int, n_columns as int);
            assert((row + 1) * row_height == row * row_height + row_height && 0 <= row
                * row_height) by (nonlinear_arith)
                requires
                    0 <= row,
                    0 <= row_height,
            ;
            assert(self@.transforms =~= before.grid(container_width).transforms);
        }
        // A row that is only partly filled is as high as a full one.
        if column > 0 {
            top.saturating_add(row_height)
        } else {
            top
        }
    }

    /// Whether the store has no items.
    pub fn is_empty(&self) -> (empty: bool)
        ensures
            empty == (self@.num_items == 0),
    {
        self.num_items == 0
    }
}

} // verus!
