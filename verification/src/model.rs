//! The mathematical model of the layout store, and what each operation does
//! to it.

use crate::geometry::{column_count, column_width, effective_width, item_extent};
use crate::grid::{grid_height, grid_placement};
use crate::horizontal::Rows;
use crate::ratio::{corrected_ratio, AspectRatio};
use crate::transform::Placement;
use crate::vertical::{vertical_height, vertical_placement};
use vstd::prelude::*;

verus! {

/// The largest thumbnail size that `set_thumbnail_size` stores: a hundred
/// times it still fits in a `u16`.
pub const MAX_THUMBNAIL_SIZE: u16 = u16::MAX / 100;

/// The ratio of an item whose dimension was never set.
pub open spec fn unset_ratio() -> AspectRatio {
    AspectRatio { width: 0, height: 0 }
}

/// The geometry of an item that was never laid out.
pub open spec fn zero_placement() -> Placement {
    Placement { width: 0, height: 0, top: 0, left: 0 }
}

/// The value of a layout store: its configuration, and for each slot the
/// aspect ratio that was set and the geometry that was last computed. The
/// first `num_items` slots are the items; the others are kept for later use.
#[verifier::ext_equal]
pub struct LayoutView {
    pub num_items: nat,
    pub thumbnail_size: u16,
    pub padding: u16,
    pub ratios: Seq<AspectRatio>,
    pub transforms: Seq<Placement>,
}

impl LayoutView {
    /// Every item has a slot, and every slot a ratio and a geometry.
    pub open spec fn wf(self) -> bool {
        &&& self.num_items <= self.ratios.len()
        &&& self.ratios.len() == self.transforms.len()
    }

    /// The number of slots.
    pub open spec fn capacity(self) -> nat {
        self.ratios.len()
    }

    /// The store after `resize(new_len)`: it has `new_len` items. Slots are
    /// added, with no ratio and no geometry, where there are too few; none
    /// is ever taken away, and what the slots hold stays.
    pub open spec fn resized(self, new_len: nat) -> LayoutView {
        let missing = if new_len > self.capacity() {
            (new_len - self.capacity()) as nat
        } else {
            0nat
        };
        LayoutView {
            num_items: new_len,
            ratios: self.ratios + Seq::new(missing, |i: int| unset_ratio()),
            transforms: self.transforms + Seq::new(missing, |i: int| zero_placement()),
            ..self
        }
    }

    /// The store after `set_dimension(index, src_width, src_height)`: slot
    /// `index`, if there is one, holds the corrected ratio of the source.
    pub open spec fn with_dimension(
        self,
        index: int,
        src_width: u16,
        src_height: u16,
    ) -> LayoutView {
        if 0 <= index < self.capacity() {
            let ratio = corrected_ratio(src_width as int, src_height as int);
            LayoutView {
                ratios: self.ratios.update(
                    index,
                    AspectRatio { width: ratio.0 as u8, height: ratio.1 as u8 },
                ),
                ..self
            }
        } else {
            self
        }
    }

    /// The store after `set_thumbnail_size(size)`: the size is stored, cut
    /// down to `MAX_THUMBNAIL_SIZE`.
    pub open spec fn with_thumbnail_size(self, size: u16) -> LayoutView {
        LayoutView {
            thumbnail_size: if size <= MAX_THUMBNAIL_SIZE {
                size
            } else {
                MAX_THUMBNAIL_SIZE
            },
            ..self
        }
    }

    /// The store after `set_padding(padding)`.
    pub open spec fn with_padding(self, padding: u16) -> LayoutView {
        LayoutView { padding, ..self }
    }

    /// Whether there is nothing to lay out: no items, or a thumbnail size of
    /// zero. A layout pass then changes nothing and returns the height 0.
    pub open spec fn is_degenerate(self) -> bool {
        self.num_items == 0 || self.thumbnail_size == 0
    }

    /// The store with the geometry of every item replaced by `place` of its
    /// index. The slots behind the items are left as they are.
    pub open spec fn placed(self, place: spec_fn(int) -> Placement) -> LayoutView {
        LayoutView {
            transforms: Seq::new(
                self.transforms.len(),
                |i: int|
                    if i < self.num_items {
                        place(i)
                    } else {
                        self.transforms[i]
                    },
            ),
            ..self
        }
    }

    /// The place of item `i` in the grid layout for `container_width`.
    pub open spec fn grid_item(self, container_width: u16, i: int) -> Placement {
        grid_placement(
            i,
            column_count(container_width, self.thumbnail_size) as int,
            column_width(container_width, self.thumbnail_size) as int,
            item_extent(container_width, self.thumbnail_size, self.padding),
        )
    }

    /// The store after `compute_grid(container_width)`.
    pub open spec fn grid(self, container_width: u16) -> LayoutView {
        if self.is_degenerate() {
            self
        } else {
            self.placed(|i: int| self.grid_item(container_width, i))
        }
    }

    /// The height that `compute_grid(container_width)` returns.
    pub open spec fn grid_total_height(self, container_width: u16) -> int {
        if self.is_degenerate() {
            0
        } else {
            grid_height(
                self.num_items as int,
                column_count(container_width, self.thumbnail_size) as int,
                column_width(container_width, self.thumbnail_size) as int,
            )
        }
    }

    /// The place of item `i` in the vertical layout for `container_width`.
    pub open spec fn vertical_item(self, container_width: u16, i: int) -> Placement {
        vertical_placement(
            self.ratios,
            i,
            column_count(container_width, self.thumbnail_size) as nat,
            column_width(container_width, self.thumbnail_size) as int,
            item_extent(container_width, self.thumbnail_size, self.padding),
            self.padding as int,
        )
    }

    /// The store after `compute_vertical(container_width)`.
    pub open spec fn vertical(self, container_width: u16) -> LayoutView {
        if self.is_degenerate() {
            self
        } else {
            self.placed(|i: int| self.vertical_item(container_width, i))
        }
    }

    /// The height that `compute_vertical(container_width)` returns.
    pub open spec fn vertical_total_height(self, container_width: u16) -> int {
        if self.is_degenerate() {
            0
        } else {
            vertical_height(
                self.ratios,
                self.num_items,
                column_count(container_width, self.thumbnail_size) as nat,
                item_extent(container_width, self.thumbnail_size, self.padding),
                self.padding as int,
            )
        }
    }

    /// What the rows of the horizontal layout for `container_width` are
    /// packed from: each item as wide as its aspect ratio makes it at the
    /// height of a thumbnail, and the container at least one thumbnail wide.
    pub open spec fn rows(self, container_width: u16) -> Rows {
        Rows {
            widths: Seq::new(
                self.num_items,
                |i: int| self.ratios[i].width_for(self.thumbnail_size as int),
            ),
            thumbnail_size: self.thumbnail_size as int,
            padding: self.padding as int,
            limit: effective_width(container_width, self.thumbnail_size) as int,
        }
    }

    /// The place of item `i` in the horizontal layout for `container_width`.
    pub open spec fn horizontal_item(self, container_width: u16, i: int) -> Placement {
        self.rows(container_width).placement(i)
    }

    /// The store after `compute_horizontal(container_width)`.
    pub open spec fn horizontal(self, container_width: u16) -> LayoutView {
        if self.is_degenerate() {
            self
        } else {
            self.placed(|i: int| self.horizontal_item(container_width, i))
        }
    }

    /// The height that `compute_horizontal(container_width)` returns.
    pub open spec fn horizontal_total_height(self, container_width: u16) -> int {
        if self.is_degenerate() {
            0
        } else {
            self.rows(container_width).height()
        }
    }
}

} // verus!
