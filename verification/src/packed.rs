//! Four `u32` lanes handled as one value.

use vstd::prelude::*;

verus! {

/// Four unsigned 32-bit lanes. Its view is the sequence of the four lanes.
#[derive(Clone, Copy)]
pub struct U32x4([u32; 4]);

impl View for U32x4 {
    type V = Seq<u32>;

    closed spec fn view(&self) -> Seq<u32> {
        self.0@
    }
}

/// Every value has exactly four lanes.
pub broadcast proof fn lemma_four_lanes(x: U32x4)
    ensures
        #[trigger] x@.len() == 4,
{
}

/// The bits of `a` where `mask` is set, those of `b` elsewhere.
pub open spec fn select_bits(a: u32, b: u32, mask: u32) -> u32 {
    (a & mask) | (b & !mask)
}

/// A mask of all ones selects the first operand, a mask of zeros the second.
pub proof fn lemma_select_bits_whole(a: u32, b: u32)
    ensures
        select_bits(a, b, u32::MAX) == a,
        select_bits(a, b, 0) == b,
{
    assert((a & 0xffff_ffffu32) | (b & !0xffff_ffffu32) == a) by (bit_vector);
    assert((a & 0u32) | (b & !0u32) == b) by (bit_vector);
}

impl U32x4 {
    /// The value whose lanes are `a`, `b`, `c`, `d`, in this order.
    pub fn new(a: u32, b: u32, c: u32, d: u32) -> (lanes: U32x4)
        ensures
            lanes@ == seq![a, b, c, d],
    {
        let lanes = U32x4([a, b, c, d]);
        assert(lanes@ =~= seq![a, b, c, d]);
        lanes
    }

    /// The value whose lanes are all zero.
    pub fn zero() -> (lanes: U32x4)
        ensures
            lanes@ == seq![0u32, 0u32, 0u32, 0u32],
    {
        U32x4::new(0, 0, 0, 0)
    }

    /// The smaller of the two values, lane by lane.
    pub fn min(self, other: U32x4) -> (lanes: U32x4)
        ensures
            lanes@.len() == 4,
            forall|i: int|
                0 <= i < 4 ==> #[trigger] lanes@[i] == if self@[i] <= other@[i] {
                    self@[i]
                } else {
                    other@[i]
                },
    {
        let a = self.0;
        let b = other.0;
        U32x4(
            [
                if a[0] <= b[0] { a[0] } else { b[0] },
                if a[1] <= b[1] { a[1] } else { b[1] },
                if a[2] <= b[2] { a[2] } else { b[2] },
                if a[3] <= b[3] { a[3] } else { b[3] },
            ],
        )
    }

    /// The larger of the two values, lane by lane.
    pub fn max(self, other: U32x4) -> (lanes: U32x4)
        ensures
            lanes@.len() == 4,
            forall|i: int|
                0 <= i < 4 ==> #[trigger] lanes@[i] == if self@[i] >= other@[i] {
                    self@[i]
                } else {
                    other@[i]
                },
    {
        let a = self.0;
        let b = other.0;
        U32x4(
            [
                if a[0] >= b[0] { a[0] } else { b[0] },
                if a[1] >= b[1] { a[1] } else { b[1] },
                if a[2] >= b[2] { a[2] } else { b[2] },
                if a[3] >= b[3] { a[3] } else { b[3] },
            ],
        )
    }

    /// Bit by bit, `self` where `mask` is set and `other` where it is not.
    pub fn blend(self, other: U32x4, mask: U32x4) -> (lanes: U32x4)
        ensures
            lanes@.len() == 4,
            forall|i: int|
                0 <= i < 4 ==> #[trigger] lanes@[i] == select_bits(self@[i], other@[i], mask@[i]),
    {
        let a = self.0;
        let b = other.0;
        let m = mask.0;
        proof {
            lemma_blend_lane(a[0], b[0], m[0]);
            lemma_blend_lane(a[1], b[1], m[1]);
            lemma_blend_lane(a[2], b[2], m[2]);
            lemma_blend_lane(a[3], b[3], m[3]);
        }
        U32x4(
            [
                b[0] ^ ((b[0] ^ a[0]) & m[0]),
                b[1] ^ ((b[1] ^ a[1]) & m[1]),
                b[2] ^ ((b[2] ^ a[2]) & m[2]),
                b[3] ^ ((b[3] ^ a[3]) & m[3]),
            ],
        )
    }

    /// Lane `N`.
    pub fn get<const N: usize>(&self) -> (value: u32)
        requires
            N < 4,
        ensures
            value == self@[N as int],
    {
        self.0[N]
    }

    /// `self` with lane `N` replaced by `value`.
    #[must_use]
    pub fn set<const N: usize>(self, value: u32) -> (lanes: U32x4)
        requires
            N < 4,
        ensures
            lanes@ == self@.update(N as int, value),
    {
        let mut lanes = self;
        lanes.0[N] = value;
        assert(lanes@ =~= self@.update(N as int, value));
        lanes
    }

    /// Compares lanes with `<`: all ones where `self` is less, zero elsewhere.
    pub fn less_than(self, other: U32x4) -> (lanes: U32x4)
        ensures
            lanes@.len() == 4,
            forall|i: int|
                0 <= i < 4 ==> #[trigger] lanes@[i] == if self@[i] < other@[i] {
                    u32::MAX
                } else {
                    0u32
                },
    {
        let a = self.0;
        let b = other.0;
        U32x4(
            [
                if a[0] < b[0] { u32::MAX } else { 0 },
                if a[1] < b[1] { u32::MAX } else { 0 },
                if a[2] < b[2] { u32::MAX } else { 0 },
                if a[3] < b[3] { u32::MAX } else { 0 },
            ],
        )
    }

    /// The four lanes as an array.
    pub fn to_array(self) -> (lanes: [u32; 4])
        ensures
            lanes@ == self@,
    {
        self.0
    }

    /// Adds `rhs` lane by lane; a lane that overflows wraps around.
    pub fn add_assign(&mut self, rhs: U32x4)
        ensures
            final(self)@.len() == 4,
            forall|i: int|
                0 <= i < 4 ==> #[trigger] final(self)@[i] == (old(self)@[i] + rhs@[i])
                    % 0x1_0000_0000,
    {
        let a = self.0;
        let b = rhs.0;
        self.0 = [
            a[0].wrapping_add(b[0]),
            a[1].wrapping_add(b[1]),
            a[2].wrapping_add(b[2]),
            a[3].wrapping_add(b[3]),
        ];
    }
}

proof fn lemma_blend_lane(a: u32, b: u32, m: u32)
    ensures
        b ^ ((b ^ a) & m) == select_bits(a, b, m),
{
    assert(b ^ ((b ^ a) & m) == (a & m) | (b & !m)) by (bit_vector);
}

impl Default for U32x4 {
    fn default() -> (lanes: U32x4)
        ensures
            lanes@ == seq![0u32, 0u32, 0u32, 0u32],
    {
        U32x4::zero()
    }
}

impl From<u32> for U32x4 {
    fn from(value: u32) -> (lanes: U32x4) {
        let lanes = U32x4([value, value, value, value]);
        lanes
    }
}

impl vstd::std_specs::convert::FromSpecImpl<u32> for U32x4 {
    open spec fn obeys_from_spec() -> bool {
        true
    }

    open spec fn from_spec(value: u32) -> U32x4 {
        splat(value)
    }
}

/// The value whose four lanes all hold `value`: what `U32x4::from` returns.
pub closed spec fn splat(value: u32) -> U32x4 {
    U32x4([value, value, value, value])
}

/// Each lane of `splat(value)` is `value`.
pub broadcast proof fn lemma_splat_lanes(value: u32)
    ensures
        #[trigger] splat(value)@ == seq![value, value, value, value],
{
    assert(splat(value)@ =~= seq![value, value, value, value]);
}

} // verus!
