//! The horizontal (masonry) layout: rows of equal height, each filled until
//! it overflows and then rescaled to the width of the container.

use crate::geometry::clamp_u32;
use crate::rounding::round_div;
use crate::transform::Placement;
use vstd::prelude::*;

verus! {

/// `value * avail / total`, rounded half up: the height of a row rescaled
/// so that the row's `total` becomes `avail`. A row without any width is left
/// as it is.
pub open spec fn scale(value: int, avail: int, total: int) -> int {
    if total > 0 {
        round_div(value * avail, total)
    } else {
        value
    }
}

/// `value * avail / total`, rounded down: the width of an item rescaled so
/// that the row's `total` becomes `avail`. Rounded down, the widths of a row
/// never add up to more than `avail`. A row without any width is left as it
/// is.
pub open spec fn scale_down(value: int, avail: int, total: int) -> int {
    if total > 0 {
        (value * avail) / total
    } else {
        value
    }
}

/// A part of the total is rescaled to a part of what is available: times
/// the total it is at most the part times what is available, and it falls
/// short of that by less than the total.
pub proof fn lemma_scale_down_part(value: int, avail: int, total: int)
    requires
        0 <= value <= total,
        0 <= avail,
        0 < total,
    ensures
        0 <= scale_down(value, avail, total) <= avail,
        scale_down(value, avail, total) * total <= value * avail,
        value * avail < scale_down(value, avail, total) * total + total,
{
    let x = value * avail;
    let q = x / total;
    assert(0 <= x <= total * avail) by (nonlinear_arith)
        requires
            x == value * avail,
            0 <= value <= total,
            0 <= avail,
    ;
    assert(q * total <= x < q * total + total && 0 <= q <= avail) by (nonlinear_arith)
        requires
            q == x / total,
            0 <= x <= total * avail,
            0 < total,
    ;
}

/// A rescaled length is at most the length times what is available.
pub proof fn lemma_scale_at_most(value: int, avail: int, total: int)
    requires
        0 <= value,
        0 <= avail,
        0 < total,
    ensures
        0 <= scale(value, avail, total) <= value * avail,
{
    let x = value * avail;
    let half = total / 2;
    assert(0 <= x) by (nonlinear_arith)
        requires
            x == value * avail,
            0 <= value,
            0 <= avail,
    ;
    assert(0 <= (x + half) / total <= x) by (nonlinear_arith)
        requires
            0 <= x,
            0 < total,
            half == total / 2,
    {
        if total == 1 {
            assert(half == 0);
        } else {
            assert(half <= total - 1);
            if x >= 1 {
                assert(x + half <= x * total);
            } else {
                assert(x + half < total);
            }
        }
    }
}

/// Rescales the height `value` so that `total` becomes `avail`, rounding
/// half up. The result saturates at `u32::MAX`.
pub fn rescale(value: u32, avail: u32, total: u32) -> (scaled: u32)
    ensures
        scaled == clamp_u32(scale(value as int, avail as int, total as int)),
{
    if total == 0 {
        return value;
    }
    assert(value * avail <= 0xffff_ffff * 0xffff_ffff) by (nonlinear_arith)
        requires
            0 <= value <= 0xffff_ffff,
            0 <= avail <= 0xffff_ffff,
    ;
    let product = (value as u64) * (avail as u64);
    let quotient = (product + (total / 2) as u64) / (total as u64);
    if quotient > u32::MAX as u64 {
        u32::MAX
    } else {
        quotient as u32
    }
}

/// Rescales the width `value` so that `total` becomes `avail`, rounding
/// down. The result saturates at `u32::MAX`.
pub fn rescale_down(value: u32, avail: u32, total: u32) -> (scaled: u32)
    ensures
        scaled == clamp_u32(scale_down(value as int, avail as int, total as int)),
{
    if total == 0 {
        return value;
    }
    assert(value * avail <= 0xffff_ffff * 0xffff_ffff) by (nonlinear_arith)
        requires
            0 <= value <= 0xffff_ffff,
            0 <= avail <= 0xffff_ffff,
    ;
    let product = (value as u64) * (avail as u64);
    let quotient = product / (total as u64);
    if quotient > u32::MAX as u64 {
        u32::MAX
    } else {
        quotient as u32
    }
}

/// What the rows are packed from: the width of each item at the height of a
/// thumbnail, that height, the gap between items, and the width to fill.
pub struct Rows {
    pub widths: Seq<int>,
    pub thumbnail_size: int,
    pub padding: int,
    pub limit: int,
}

impl Rows {
    /// No length is negative.
    pub open spec fn wf(self) -> bool {
        &&& 0 <= self.thumbnail_size
        &&& 0 <= self.padding
        &&& 0 <= self.limit
        &&& forall|i: int| 0 <= i < self.widths.len() ==> 0 <= #[trigger] self.widths[i]
    }

    /// The widths of the items `from..to`, added up.
    pub open spec fn span(self, from: int, to: int) -> int
        decreases to - from,
    {
        if to <= from {
            0
        } else {
            self.span(from, to - 1) + self.widths[to - 1]
        }
    }

    /// The room that the items `from..to` take side by side, each followed
    /// by the padding.
    pub open spec fn padded_span(self, from: int, to: int) -> int {
        self.span(from, to) + (to - from) * self.padding
    }

    /// The first item of the row that item `i` stands in. A row ends with
    /// the first item with which it, the padding behind that item included,
    /// takes more room than `limit`; the next item starts a new row.
    pub open spec fn row_start(self, i: int) -> int
        decreases i,
    {
        if i <= 0 {
            0
        } else {
            let start = self.row_start(i - 1);
            if self.padded_span(start, i) > self.limit {
                i
            } else {
                start
            }
        }
    }

    /// Whether item `i` is the last of its row.
    pub open spec fn closes_row(self, i: int) -> bool {
        self.padded_span(self.row_start(i), i + 1) > self.limit
    }

    /// The last item of the row that item `i` stands in, or the number of
    /// items where that row never overflows and so stays open.
    pub open spec fn row_end(self, i: int) -> int
        decreases self.widths.len() - i,
    {
        if i >= self.widths.len() {
            self.widths.len() as int
        } else if self.closes_row(i) {
            i
        } else {
            self.row_end(i + 1)
        }
    }

    /// The width that the items of the row `start..=end` share once it is
    /// closed: `limit` without the padding between them, which is not
    /// rescaled.
    pub open spec fn available(self, start: int, end: int) -> int {
        self.limit - (end - start) * self.padding
    }

    /// The width of item `j` of the closed row `start..=end`: its own width,
    /// rescaled by the factor of the row and rounded down.
    pub open spec fn item_width(self, start: int, end: int, j: int) -> int {
        scale_down(self.widths[j], self.available(start, end), self.span(start, end + 1))
    }

    /// The rescaled widths of the items `start..j` of the closed row
    /// `start..=end`, added up.
    pub open spec fn scaled_span(self, start: int, end: int, j: int) -> int
        decreases j - start,
    {
        if j <= start {
            0
        } else {
            self.scaled_span(start, end, j - 1) + self.item_width(start, end, j - 1)
        }
    }

    /// The height of the closed row `start..=end`: the thumbnail size,
    /// rescaled by the factor of the row and rounded half up.
    pub open spec fn row_height(self, start: int, end: int) -> int {
        scale(self.thumbnail_size, self.available(start, end), self.span(start, end + 1))
    }

    /// The top offset of the row that is being filled when item `i` comes:
    /// the heights of the rows closed before it, each with the padding below.
    pub open spec fn top_before(self, i: int) -> int
        decreases i,
    {
        if i <= 0 {
            0
        } else {
            self.top_before(i - 1) + if self.closes_row(i - 1) {
                self.row_height(self.row_start(i - 1), i - 1) + self.padding
            } else {
                0
            }
        }
    }

    /// The place of item `i`.
    ///
    /// In a closed row every item is rescaled by the one factor of the row,
    /// what is available over the widths of the row: its width rounded down,
    /// the height of the row rounded half up. The items then stand side by
    /// side from the left edge, each behind the rescaled widths of those
    /// before it and the padding behind each of them. In the open row at the
    /// end the items keep the thumbnail's height and their own width. The
    /// top offset saturates at `u32::MAX`.
    pub open spec fn placement(self, i: int) -> Placement {
        let start = self.row_start(i);
        let end = self.row_end(i);
        let top = clamp_u32(self.top_before(i));
        if end < self.widths.len() {
            Placement {
                width: self.item_width(start, end, i),
                height: self.row_height(start, end),
                top,
                left: self.scaled_span(start, end, i) + (i - start) * self.padding,
            }
        } else {
            Placement {
                width: self.widths[i],
                height: self.thumbnail_size,
                top,
                left: self.padded_span(start, i),
            }
        }
    }

    /// The height of the layout: the closed rows, each with the padding
    /// below, and the open row, if there is one, without. It saturates at
    /// `u32::MAX`.
    pub open spec fn height(self) -> int {
        let n = self.widths.len() as int;
        clamp_u32(
            self.top_before(n) + if self.row_start(n) < n {
                self.thumbnail_size
            } else {
                0
            },
        )
    }

    /// A span grows by the width of the item that joins it.
    pub proof fn lemma_span_grows(self, from: int, to: int)
        requires
            from <= to,
        ensures
            self.span(from, to + 1) == self.span(from, to) + self.widths[to],
            self.span(from, from) == 0,
    {
    }

    /// No span is negative, and a longer span is not smaller.
    pub proof fn lemma_span_monotonic(self, from: int, mid: int, to: int)
        requires
            self.wf(),
            0 <= from <= mid <= to <= self.widths.len(),
        ensures
            0 <= self.span(from, mid) <= self.span(from, to),
        decreases to - from,
    {
        if mid < to {
            self.lemma_span_monotonic(from, mid, to - 1);
        } else if from < mid {
            self.lemma_span_monotonic(from, mid - 1, to - 1);
        }
    }

    /// The room that a span takes grows by the width of the item that joins
    /// it and the padding behind that item.
    pub proof fn lemma_padded_span_grows(self, from: int, to: int)
        requires
            from <= to,
        ensures
            self.padded_span(from, to + 1) == self.padded_span(from, to) + self.widths[to]
                + self.padding,
            self.padded_span(from, from) == 0,
            self.padded_span(from, to) - self.span(from, to) == (to - from) * self.padding,
    {
        assert((to + 1 - from) * self.padding == (to - from) * self.padding + self.padding)
            by (nonlinear_arith);
        assert((from - from) * self.padding == 0) by (nonlinear_arith);
    }

    /// An item that leaves room in its row does not close it: the next item
    /// joins the same row, at the same top offset.
    pub proof fn lemma_row_goes_on(self, start: int, i: int)
        requires
            0 <= i,
            start == self.row_start(i),
            self.padded_span(start, i + 1) <= self.limit,
        ensures
            !self.closes_row(i),
            self.row_start(i + 1) == start,
            self.top_before(i + 1) == self.top_before(i),
    {
    }

    /// An item that overflows its row closes it: the next item starts a new
    /// row, below the closed one and the padding.
    pub proof fn lemma_row_closes(self, start: int, i: int)
        requires
            0 <= i,
            start == self.row_start(i),
            self.padded_span(start, i + 1) > self.limit,
        ensures
            self.closes_row(i),
            self.row_start(i + 1) == i + 1,
            self.top_before(i + 1) == self.top_before(i) + self.row_height(start, i)
                + self.padding,
    {
    }

    /// The height of a closed row is not negative and can be stored.
    pub proof fn lemma_row_height_bounds(self, start: int, end: int)
        requires
            self.wf(),
            self.thumbnail_size <= u16::MAX,
            0 <= self.available(start, end) <= u16::MAX,
            0 <= start <= end < self.widths.len(),
        ensures
            0 <= self.row_height(start, end) <= u32::MAX,
    {
        let total = self.span(start, end + 1);
        let avail = self.available(start, end);
        self.lemma_span_monotonic(start, start, end + 1);
        if total > 0 {
            lemma_scale_at_most(self.thumbnail_size, avail, total);
            assert(self.thumbnail_size * avail <= 0xffff * 0xffff) by (nonlinear_arith)
                requires
                    0 <= self.thumbnail_size <= 0xffff,
                    0 <= avail <= 0xffff,
            ;
        }
    }

    /// The rescaled widths of a closed row fit in what is available: no
    /// width is negative, and those of the items `start..j` add up to at most
    /// their share of it, and fall short of that share by at most one pixel
    /// for each item.
    pub proof fn lemma_scaled_span_bounds(self, start: int, end: int, j: int)
        requires
            self.wf(),
            0 <= self.available(start, end),
            0 <= start <= j <= end + 1 <= self.widths.len(),
        ensures
            0 <= self.scaled_span(start, end, j) <= self.available(start, end),
            j <= end ==> 0 <= self.item_width(start, end, j) <= self.available(start, end),
            self.span(start, end + 1) > 0 ==> {
                &&& self.scaled_span(start, end, j) * self.span(start, end + 1) <= self.span(
                    start,
                    j,
                ) * self.available(start, end)
                &&& self.span(start, j) * self.available(start, end) <= self.scaled_span(
                    start,
                    end,
                    j,
                ) * self.span(start, end + 1) + (j - start) * self.span(start, end + 1)
            },
            self.span(start, end + 1) == 0 ==> self.scaled_span(start, end, j) == 0,
        decreases j - start,
    {
        let total = self.span(start, end + 1);
        let avail = self.available(start, end);
        self.lemma_span_monotonic(start, j, end + 1);
        if j <= end {
            self.lemma_span_monotonic(start, j, j + 1);
            self.lemma_span_monotonic(start, j + 1, end + 1);
            if total > 0 {
                lemma_scale_down_part(self.widths[j], avail, total);
            }
        }
        if j > start {
            self.lemma_scaled_span_bounds(start, end, j - 1);
            let before = self.scaled_span(start, end, j - 1);
            let width = self.item_width(start, end, j - 1);
            let part = self.span(start, j - 1);
            let own = self.widths[j - 1];
            self.lemma_span_monotonic(start, j - 1, j);
            assert(0 <= own && part + own == self.span(start, j) && part + own <= total);
            if total > 0 {
                lemma_scale_down_part(own, avail, total);
                assert((before + width) * total == before * total + width * total && (part + own)
                    * avail == part * avail + own * avail && (j - start) * total == (j - 1
                    - start) * total + total) by (nonlinear_arith);
                assert(before + width <= avail) by (nonlinear_arith)
                    requires
                        (before + width) * total <= (part + own) * avail,
                        part + own <= total,
                        0 <= avail,
                        0 < total,
                {
                    assert((part + own) * avail <= total * avail);
                }
            }
        } else {
            assert((j - start) * total == 0) by (nonlinear_arith)
                requires
                    j == start,
            ;
            assert(self.span(start, j) * avail == 0) by (nonlinear_arith)
                requires
                    self.span(start, j) == 0,
            ;
            assert(self.scaled_span(start, end, j) * total == 0) by (nonlinear_arith)
                requires
                    self.scaled_span(start, end, j) == 0,
            ;
        }
    }

    /// The items from `j` on up to `end`, none of which closes its row while
    /// `end` closes its own, stand in the row that ends with `end`.
    pub proof fn lemma_row_end_closed(self, j: int, end: int)
        requires
            0 <= j <= end < self.widths.len(),
            forall|k: int| j <= k < end ==> !#[trigger] self.closes_row(k),
            self.closes_row(end),
        ensures
            self.row_end(j) == end,
        decreases end - j,
    {
        if j < end {
            assert(!self.closes_row(j));
            self.lemma_row_end_closed(j + 1, end);
        }
    }

    /// The items from `j` on, none of which closes its row, stand in the
    /// open row.
    pub proof fn lemma_row_end_open(self, j: int)
        requires
            0 <= j <= self.widths.len(),
            forall|k: int| j <= k < self.widths.len() ==> !#[trigger] self.closes_row(k),
        ensures
            self.row_end(j) == self.widths.len(),
        decreases self.widths.len() - j,
    {
        if j < self.widths.len() {
            assert(!self.closes_row(j));
            self.lemma_row_end_open(j + 1);
        }
    }

    /// What holds of the row that item `i` stands in, up to that item: it
    /// starts at or before `i`, all its items so far stand in it, none of
    /// them has closed it, and they fit in `limit`.
    pub proof fn lemma_row_so_far(self, i: int)
        requires
            self.wf(),
            0 <= i,
        ensures
            0 <= self.row_start(i) <= i,
            self.padded_span(self.row_start(i), i) <= self.limit,
            forall|j: int|
                self.row_start(i) <= j <= i ==> #[trigger] self.row_start(j) == self.row_start(i),
            forall|j: int| self.row_start(i) <= j < i ==> !#[trigger] self.closes_row(j),
        decreases i,
    {
        if i > 0 {
            self.lemma_row_so_far(i - 1);
            let start = self.row_start(i - 1);
            if self.padded_span(start, i) > self.limit {
                self.lemma_padded_span_grows(i, i);
            } else {
                self.lemma_row_goes_on(start, i - 1);
            }
        } else {
            self.lemma_padded_span_grows(0, 0);
        }
    }

    /// What holds of the row that item `i` stands in, from that item on: it
    /// ends at or behind `i`, no item before its end closes it, the item at
    /// its end does, and all of them stand in the row of `i`.
    pub proof fn lemma_row_to_end(self, i: int)
        requires
            self.wf(),
            0 <= i < self.widths.len(),
        ensures
            i <= self.row_end(i) <= self.widths.len(),
            forall|j: int| i <= j < self.row_end(i) ==> !#[trigger] self.closes_row(j),
            forall|j: int|
                i <= j <= self.row_end(i) ==> #[trigger] self.row_start(j) == self.row_start(i),
            forall|j: int|
                i <= j < self.row_end(i) ==> #[trigger] self.row_end(j) == self.row_end(i),
            self.row_end(i) < self.widths.len() ==> self.closes_row(self.row_end(i)),
        decreases self.widths.len() - i,
    {
        if !self.closes_row(i) {
            self.lemma_row_goes_on(self.row_start(i), i);
            if i + 1 < self.widths.len() {
                self.lemma_row_to_end(i + 1);
            } else {
                assert(self.row_end(i + 1) == self.widths.len());
            }
        }
    }

    /// No closed row overflows the container, and each nearly fills it.
    ///
    /// For an item `i` of a row that was closed: the item lies within
    /// `limit`; the first item of the row stands at the left edge; each
    /// further item stands behind the one before it and the padding. So the
    /// widths of the items and the padding between them add up to at most
    /// `limit`. They fall short of it by at most one pixel for each item of
    /// the row, unless no item of the row has any width.
    pub proof fn lemma_closed_row_fits_limit(self, i: int)
        requires
            self.wf(),
            0 <= i < self.widths.len(),
            self.row_end(i) < self.widths.len(),
        ensures
            0 <= self.placement(i).left,
            0 <= self.placement(i).width,
            self.placement(i).left + self.placement(i).width <= self.limit,
            i == self.row_start(i) ==> self.placement(i).left == 0,
            i < self.row_end(i) ==> self.placement(i + 1).left == self.placement(i).left
                + self.placement(i).width + self.padding,
            i == self.row_end(i) && self.span(self.row_start(i), i + 1) > 0 ==> self.limit - (i
                + 1 - self.row_start(i)) <= self.placement(i).left + self.placement(i).width,
    {
        let start = self.row_start(i);
        let end = self.row_end(i);
        self.lemma_row_so_far(i);
        self.lemma_row_to_end(i);
        assert(self.row_start(end) == start);
        self.lemma_row_so_far(end);
        self.lemma_span_monotonic(start, start, end);
        self.lemma_padded_span_grows(start, end);
        // The padding between the items fits in the limit, so that what is
        // available to the items is not negative.
        assert(0 <= self.available(start, end));
        self.lemma_scaled_span_bounds(start, end, i);
        self.lemma_scaled_span_bounds(start, end, i + 1);
        assert(0 <= (i - start) * self.padding <= (end - start) * self.padding
            && (i + 1 - start) * self.padding == (i - start) * self.padding + self.padding
            && (start - start) * self.padding == 0) by (nonlinear_arith)
            requires
                start <= i <= end,
                0 <= self.padding,
        ;
        if i < end {
            assert(self.row_start(i + 1) == start);
            assert(self.row_end(i) == self.row_end(i + 1));
        }
        let total = self.span(start, end + 1);
        if i == end && total > 0 {
            let filled = self.scaled_span(start, end, end + 1);
            let avail = self.available(start, end);
            let count = end + 1 - start;
            assert(avail - count <= filled) by (nonlinear_arith)
                requires
                    total * avail <= filled * total + count * total,
                    0 < total,
            {
                assert((avail - count) * total <= filled * total);
            }
        }
    }

    /// The rows stand below each other. An item that does not close its row
    /// has the next item beside it, at the same top offset and of the same
    /// height; an item that closes its row has the next item at the left
    /// edge, below the closed row and the padding.
    pub proof fn lemma_rows_stack(self, i: int)
        requires
            self.wf(),
            0 <= i,
            i + 1 < self.widths.len(),
        ensures
            !self.closes_row(i) ==> {
                &&& self.placement(i + 1).top == self.placement(i).top
                &&& self.placement(i + 1).height == self.placement(i).height
            },
            self.closes_row(i) ==> {
                &&& self.placement(i + 1).left == 0
                &&& self.placement(i + 1).top == clamp_u32(
                    self.top_before(i) + self.placement(i).height + self.padding,
                )
            },
    {
        self.lemma_row_so_far(i);
        self.lemma_row_to_end(i);
        self.lemma_row_to_end(i + 1);
        if self.closes_row(i) {
            self.lemma_row_closes(self.row_start(i), i);
            let start = i + 1;
            self.lemma_padded_span_grows(start, start);
            assert((start - start) * self.padding == 0) by (nonlinear_arith);
        } else {
            self.lemma_row_goes_on(self.row_start(i), i);
        }
    }
}

} // verus!
