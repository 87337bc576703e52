//! Round-half-up integer division.

use vstd::prelude::*;

verus! {

/// `n / d` rounded to the nearest integer, halves rounded up.
///
/// Meant for `n >= 0` and `d > 0`.
pub open spec fn round_div(n: int, d: int) -> int {
    (n + d / 2) / d
}

/// `round_div` as a machine computes it in an unsigned type whose largest
/// value is `max`: the sum `n + d / 2` saturates at `max` before it is
/// divided.
pub open spec fn saturating_round_div(n: int, d: int, max: int) -> int {
    (if n + d / 2 > max {
        max
    } else {
        n + d / 2
    }) / d
}

/// Where the sum does not saturate, the machine's quotient is the exact one.
pub proof fn lemma_saturating_round_div_exact(n: int, d: int, max: int)
    requires
        n + d / 2 <= max,
    ensures
        saturating_round_div(n, d, max) == round_div(n, d),
{
}

/// Division that rounds to the nearest integer instead of truncating.
pub trait DivInt: Sized {
    /// Whether `self.div_int(rhs)` may be called.
    spec fn div_int_requires(self, rhs: Self) -> bool;

    /// The quotient that `div_int` returns.
    spec fn div_int_spec(self, rhs: Self) -> Self;

    fn div_int(self, rhs: Self) -> (quotient: Self)
        requires
            self.div_int_requires(rhs),
        ensures
            quotient == self.div_int_spec(rhs),
    ;
}

impl DivInt for u16 {
    open spec fn div_int_requires(self, rhs: u16) -> bool {
        rhs != 0
    }

    open spec fn div_int_spec(self, rhs: u16) -> u16 {
        saturating_round_div(self as int, rhs as int, u16::MAX as int) as u16
    }

    #[inline]
    fn div_int(self, rhs: u16) -> (quotient: u16) {
        assert(rhs >> 1 == rhs / 2) by (bit_vector);
        (self.saturating_add(rhs >> 1)) / rhs
    }
}

impl DivInt for u32 {
    open spec fn div_int_requires(self, rhs: u32) -> bool {
        rhs != 0
    }

    open spec fn div_int_spec(self, rhs: u32) -> u32 {
        saturating_round_div(self as int, rhs as int, u32::MAX as int) as u32
    }

    #[inline]
    fn div_int(self, rhs: u32) -> (quotient: u32) {
        assert(rhs >> 1 == rhs / 2) by (bit_vector);
        (self.saturating_add(rhs >> 1)) / rhs
    }
}

} // verus!
