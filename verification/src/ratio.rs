//! Aspect ratios of the items, with extreme ratios cut back.

use crate::rounding::{round_div, saturating_round_div, DivInt};
use vstd::prelude::*;

verus! {

/// The smallest share, in hundredths, that the shorter side of an item may
/// have of its longer side: no item counts as more than about three times as
/// wide as it is tall, or the other way round.
pub const MIN_ASPECT_RATIO: u32 = 33;

/// The aspect ratio of one item: its width relates to its height as `width`
/// to `height`. Both are zero for an item whose dimension was never set.
#[derive(Clone, Copy, Debug)]
pub struct AspectRatio {
    pub width: u8,
    pub height: u8,
}

/// The larger of two integers.
pub open spec fn max_int(a: int, b: int) -> int {
    if a >= b {
        a
    } else {
        b
    }
}

/// The ratio stored for a source of `w` by `h` pixels.
///
/// A side of no pixels counts as one pixel. The longer side becomes 100 and
/// the shorter side its share of the longer one in hundredths, rounded half
/// up and never under `MIN_ASPECT_RATIO`. A square source becomes 1 to 1.
pub open spec fn corrected_ratio(w: int, h: int) -> (int, int) {
    let w = max_int(w, 1);
    let h = max_int(h, 1);
    if w > h {
        (100, max_int(round_div(100 * h, w), MIN_ASPECT_RATIO as int))
    } else if h > w {
        (max_int(round_div(100 * w, h), MIN_ASPECT_RATIO as int), 100)
    } else {
        (1, 1)
    }
}

/// A corrected ratio is 1 to 1, or has 100 on its longer side and between
/// `MIN_ASPECT_RATIO` and 100 on the other: neither side is more than three
/// times the other, but for one hundredth of rounding.
pub proof fn lemma_corrected_ratio_bounds(w: int, h: int)
    ensures
        ({
            let (rw, rh) = corrected_ratio(w, h);
            &&& max_int(w, 1) == max_int(h, 1) ==> rw == 1 && rh == 1
            &&& max_int(w, 1) > max_int(h, 1) ==> rw == 100 && MIN_ASPECT_RATIO <= rh <= 100
            &&& max_int(w, 1) < max_int(h, 1) ==> rh == 100 && MIN_ASPECT_RATIO <= rw <= 100
            &&& 1 <= rw <= 3 * rh + 1
            &&& 1 <= rh <= 3 * rw + 1
        }),
{
    let w = max_int(w, 1);
    let h = max_int(h, 1);
    if w > h {
        lemma_share_at_most_100(h, w);
    } else if h > w {
        lemma_share_at_most_100(w, h);
    }
}

/// The share of a shorter side in a longer one is at most 100 hundredths.
proof fn lemma_share_at_most_100(short: int, long: int)
    requires
        0 <= short < long,
    ensures
        0 <= round_div(100 * short, long) <= 100,
{
    let n = 100 * short + long / 2;
    assert(n < 101 * long);
    assert(0 <= n / long <= 100) by (nonlinear_arith)
        requires
            0 <= n < 101 * long,
            long > 0,
    ;
}

/// Corrects the aspect ratio of a source of `w` by `h` pixels: a very wide or
/// very narrow source is treated as if it were cropped to about three to one.
/// Returns the ratio as `(width, height)`.
pub fn correct_aspect_ratio(w: u16, h: u16) -> (ratio: (u8, u8))
    ensures
        ratio.0 == corrected_ratio(w as int, h as int).0,
        ratio.1 == corrected_ratio(w as int, h as int).1,
{
    proof {
        lemma_corrected_ratio_bounds(w as int, h as int);
    }
    // A side of no pixels counts as one, so that no ratio has a term of zero.
    let w = if w == 0 {
        1
    } else {
        w
    };
    let h = if h == 0 {
        1
    } else {
        h
    };
    if w > h {
        let share = (100 * (h as u32)).div_int(w as u32);
        let height = if share >= MIN_ASPECT_RATIO {
            share
        } else {
            MIN_ASPECT_RATIO
        };
        (100, height as u8)
    } else if h > w {
        let share = (100 * (w as u32)).div_int(h as u32);
        let width = if share >= MIN_ASPECT_RATIO {
            share
        } else {
            MIN_ASPECT_RATIO
        };
        (width as u8, 100)
    } else {
        (1, 1)
    }
}

/// One side of an item, given the other side and the two terms of its ratio:
/// `known * ratio_other / ratio_known`, rounded half up. The product and the
/// sum that rounds it saturate at `u32::MAX`; an item without a ratio
/// (`ratio_known` zero) has no extent.
pub open spec fn scaled_dimension(known: int, ratio_other: int, ratio_known: int) -> int {
    if ratio_known <= 0 {
        0
    } else {
        saturating_round_div(
            if known * ratio_other > u32::MAX {
                u32::MAX as int
            } else {
                known * ratio_other
            },
            ratio_known,
            u32::MAX as int,
        )
    }
}

/// Below the machine's limit the scaled dimension is the exact rounded
/// quotient.
pub proof fn lemma_scaled_dimension_exact(known: int, ratio_other: int, ratio_known: int)
    requires
        ratio_known > 0,
        known * ratio_other + ratio_known / 2 <= u32::MAX,
    ensures
        scaled_dimension(known, ratio_other, ratio_known) == round_div(
            known * ratio_other,
            ratio_known,
        ),
{
}

/// A side of up to `u16::MAX` pixels, scaled by a ratio of `u8` terms, stays
/// far below `u32::MAX`.
pub proof fn lemma_scaled_dimension_bound(known: int, ratio_other: int, ratio_known: int)
    requires
        0 <= known <= u16::MAX,
        0 <= ratio_other <= u8::MAX,
        0 <= ratio_known <= u8::MAX,
    ensures
        0 <= scaled_dimension(known, ratio_other, ratio_known) <= 0xffff * 0xff + 0x7f,
{
    if ratio_known > 0 {
        let product = known * ratio_other;
        assert(0 <= product <= 0xffff * 0xff) by (nonlinear_arith)
            requires
                product == known * ratio_other,
                0 <= known <= 0xffff,
                0 <= ratio_other <= 0xff,
        ;
        let sum = product + ratio_known / 2;
        assert(0 <= sum / ratio_known <= sum) by (nonlinear_arith)
            requires
                0 <= sum,
                0 < ratio_known,
        ;
    }
}

impl AspectRatio {
    /// The width that this ratio gives an item of height `height`.
    pub open spec fn width_for(self, height: int) -> int {
        scaled_dimension(height, self.width as int, self.height as int)
    }

    /// The height that this ratio gives an item of width `width`.
    pub open spec fn height_for(self, width: int) -> int {
        scaled_dimension(width, self.height as int, self.width as int)
    }

    /// Stores the corrected ratio of a source of `src_width` by `src_height`
    /// pixels.
    pub fn set(&mut self, src_width: u16, src_height: u16)
        ensures
            final(self).width == corrected_ratio(src_width as int, src_height as int).0,
            final(self).height == corrected_ratio(src_width as int, src_height as int).1,
    {
        let (width, height) = correct_aspect_ratio(src_width, src_height);
        self.width = width;
        self.height = height;
    }

    /// The width term of the ratio.
    pub fn width(&self) -> (width: u32)
        ensures
            width == self.width,
    {
        self.width as u32
    }

    /// The height term of the ratio.
    pub fn height(&self) -> (height: u32)
        ensures
            height == self.height,
    {
        self.height as u32
    }

    /// The width of the item at height `height`.
    pub fn correct_width(&self, height: u32) -> (width: u32)
        ensures
            width == self.width_for(height as int),
    {
        scale(height, self.width(), self.height())
    }

    /// The height of the item at width `width`.
    pub fn correct_height(&self, width: u32) -> (height: u32)
        ensures
            height == self.height_for(width as int),
    {
        scale(width, self.height(), self.width())
    }
}

/// `known * ratio_other / ratio_known`, rounded half up, saturating.
fn scale(known: u32, ratio_other: u32, ratio_known: u32) -> (other: u32)
    ensures
        other == scaled_dimension(known as int, ratio_other as int, ratio_known as int),
{
    if ratio_known == 0 {
        return 0;
    }
    let product = match known.checked_mul(ratio_other) {
        Some(product) => product,
        None => u32::MAX,
    };
    product.div_int(ratio_known)
}

impl Default for AspectRatio {
    fn default() -> (ratio: AspectRatio)
        ensures
            ratio.width == 0,
            ratio.height == 0,
    {
        AspectRatio { width: 0, height: 0 }
    }
}

} // verus!
