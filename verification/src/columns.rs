//! The heights of the columns of a vertical layout, and the search for the
//! shortest of them.
//!
//! The heights are kept four to a group, so that one comparison handles four
//! columns. Where the number of columns is no multiple of four, the last group
//! is filled up with lanes that hold `u32::MAX` and so never win the search.

use crate::packed::{lemma_four_lanes, lemma_select_bits_whole, lemma_splat_lanes, U32x4};
use vstd::prelude::*;

verus! {

/// The largest number of columns: with the lanes that fill up the last group,
/// every lane can still be numbered in a `u32`.
pub const MAX_COLUMNS: usize = 0xffff_fffc;

/// `i` is the first place at which `s` is smallest.
pub open spec fn is_first_minimum(s: Seq<u32>, i: int) -> bool {
    &&& 0 <= i < s.len()
    &&& forall|j: int| 0 <= j < s.len() ==> s[i] <= #[trigger] s[j]
    &&& forall|j: int| 0 <= j < i ==> s[i] < #[trigger] s[j]
}

/// `m` is the largest value in `s`.
pub open spec fn is_maximum(s: Seq<u32>, m: u32) -> bool {
    &&& forall|j: int| 0 <= j < s.len() ==> #[trigger] s[j] <= m
    &&& exists|j: int| 0 <= j < s.len() && #[trigger] s[j] == m
}

/// A sequence has at most one first minimum.
pub proof fn lemma_first_minimum_unique(s: Seq<u32>, i: int, j: int)
    requires
        is_first_minimum(s, i),
        is_first_minimum(s, j),
    ensures
        i == j,
{
    if i < j {
        assert(s[j] < s[i]);
        assert(s[i] <= s[j]);
    } else if j < i {
        assert(s[i] < s[j]);
        assert(s[j] <= s[i]);
    }
}

/// How many lanes of the last group stand for a column, read off the mask of
/// the lanes that do not.
spec fn real_lanes(mask: Seq<u32>) -> int {
    if mask[1] != 0 {
        1
    } else if mask[2] != 0 {
        2
    } else if mask[3] != 0 {
        3
    } else {
        4
    }
}

/// A mask of the filling lanes: zero in the lanes that stand for a column,
/// all ones in those behind them. The first lane always stands for a column.
spec fn is_padding_mask(mask: Seq<u32>) -> bool {
    &&& mask.len() == 4
    &&& mask[0] == 0
    &&& forall|j: int| 0 <= j < 4 ==> #[trigger] mask[j] == (if j < real_lanes(mask) {
        0u32
    } else {
        u32::MAX
    })
}

/// Of two pairs of a height and a column, the one with the smaller height,
/// and with the smaller column where the heights are equal.
fn shorter(a: (u32, u32), b: (u32, u32)) -> (winner: (u32, u32))
    ensures
        winner == if b.0 < a.0 || (b.0 == a.0 && b.1 < a.1) {
            b
        } else {
            a
        },
{
    if b.0 < a.0 || (b.0 == a.0 && b.1 < a.1) {
        b
    } else {
        a
    }
}

/// The accumulated height of each column. Its view is the sequence of the
/// heights, one for each column.
pub struct ColumnHeights {
    heights: Vec<U32x4>,
    padding_mask: U32x4,
}

impl View for ColumnHeights {
    type V = Seq<u32>;

    closed spec fn view(&self) -> Seq<u32> {
        Seq::new(self.columns(), |c: int| self.lane(c))
    }
}

impl ColumnHeights {
    /// The number of columns.
    pub closed spec fn columns(&self) -> nat {
        (4 * (self.heights@.len() - 1) + real_lanes(self.padding_mask@)) as nat
    }

    /// Lane `j` of group `g`.
    closed spec fn group_lane(&self, g: int, j: int) -> u32 {
        self.heights@[g]@[j]
    }

    /// Lane `i`, counted through all groups.
    closed spec fn lane(&self, i: int) -> u32 {
        self.group_lane(i / 4, i % 4)
    }

    /// The groups hold at least one column, every lane has a number, and the
    /// filling lanes hold `u32::MAX`.
    pub closed spec fn wf(&self) -> bool {
        &&& self.heights@.len() >= 1
        &&& 4 * self.heights@.len() <= u32::MAX
        &&& is_padding_mask(self.padding_mask@)
        &&& forall|i: int|
            self.columns() <= i < 4 * self.heights@.len() ==> #[trigger] self.lane(i) == u32::MAX
    }

    /// The view has one height for each column.
    pub proof fn lemma_view_len(&self)
        ensures
            self@.len() == self.columns(),
    {
    }

    /// `columns` columns of height zero.
    pub fn new(columns: usize) -> (heights: ColumnHeights)
        requires
            0 < columns <= MAX_COLUMNS,
        ensures
            heights.wf(),
            heights.columns() == columns,
            heights@ == Seq::new(columns as nat, |c: int| 0u32),
    {
        broadcast use lemma_four_lanes, lemma_splat_lanes;
        // Where the number of columns is no multiple of four, the last group
        // is filled up with `u32::MAX`, which never wins the search in
        // `min_column`.

        let rest = columns % 4;
        let (len, padding_mask) = if rest == 0 {
            (columns / 4, U32x4::zero())
        } else {
            ((columns / 4) + 1, U32x4::from(rest as u32).less_than(U32x4::new(1, 2, 3, 4)))
        };
        assert(is_padding_mask(padding_mask@) && real_lanes(padding_mask@) == (if rest == 0 {
            4
        } else {
            rest as int
        })) by {
            assert(padding_mask@[0] == 0);
            assert(padding_mask@[1] == if rest == 1 { u32::MAX } else { 0u32 });
            assert(padding_mask@[2] == if 1 <= rest <= 2 { u32::MAX } else { 0u32 });
            assert(padding_mask@[3] == if 1 <= rest <= 3 { u32::MAX } else { 0u32 });
        }
        let mut heights: Vec<U32x4> = Vec::new();
        let mut k: usize = 1;
        while k < len
            invariant
                1 <= k <= len,
                heights@.len() == k - 1,
                forall|g: int|
                    0 <= g < k - 1 ==> #[trigger] heights@[g]@ == seq![0u32, 0u32, 0u32, 0u32],
            decreases len - k,
        {
            heights.push(U32x4::zero());
            k += 1;
        }
        heights.push(padding_mask);
        let result = ColumnHeights { heights, padding_mask };
        proof {
            assert(result.heights@.len() == len);
            assert(result.columns() == columns);
            assert forall|i: int| 0 <= i < 4 * len implies #[trigger] result.lane(i) == (if i
                < columns {
                0u32
            } else {
                u32::MAX
            }) by {
                let g = i / 4;
                if g < len - 1 {
                    assert(result.heights@[g]@ == seq![0u32, 0u32, 0u32, 0u32]);
                } else {
                    assert(result.heights@[g]@ == padding_mask@);
                }
            }
            assert(result@ =~= Seq::new(columns as nat, |c: int| 0u32));
        }
        result
    }

    /// Returns the shortest column as a pair of its height and its number. Of
    /// several shortest columns it is the first.
    pub fn min_column(&self) -> (shortest: (u32, u32))
        requires
            self.wf(),
        ensures
            is_first_minimum(self@, shortest.1 as int),
            shortest.0 == self@[shortest.1 as int],
    {
        broadcast use lemma_four_lanes, lemma_splat_lanes;

        let len = self.heights.len();
        let mut indices = U32x4::new(0, 1, 2, 3);
        let increment = U32x4::from(4);

        let mut min_values = self.heights[0];
        let mut min_indices = U32x4::new(0, 1, 2, 3);
        // The group in which each lane of `min_values` was found.
        let ghost mut found: Seq<int> = seq![0int, 0int, 0int, 0int];

        let mut k: usize = 1;
        while k < len
            invariant
                1 <= k <= len,
                len == self.heights@.len(),
                4 * len <= u32::MAX,
                increment@ == seq![4u32, 4u32, 4u32, 4u32],
                found.len() == 4,
                forall|j: int| 0 <= j < 4 ==> #[trigger] indices@[j] == 4 * (k - 1) + j,
                forall|j: int|
                    0 <= j < 4 ==> {
                        &&& 0 <= #[trigger] found[j] < k
                        &&& min_indices@[j] == 4 * found[j] + j
                        &&& self.group_lane(found[j], j) == min_values@[j]
                    },
                forall|g: int, j: int|
                    0 <= g < k && 0 <= j < 4 ==> min_values@[j] <= #[trigger] self.group_lane(g, j),
                forall|g: int, j: int|
                    0 <= j < 4 && 0 <= g < found[j] ==> min_values@[j] < #[trigger] self.group_lane(
                        g,
                        j,
                    ),
            decreases len - k,
        {
            let values = self.heights[k];
            let ghost old_values = min_values;
            let ghost old_indices = min_indices;
            let ghost old_found = found;
            indices.add_assign(increment);

            // compare
            let less = values.less_than(min_values);

            // update
            min_values = values.min(min_values);
            min_indices = indices.blend(min_indices, less);

            proof {
                found = Seq::new(
                    4,
                    |j: int|
                        if values@[j] < old_values@[j] {
                            k as int
                        } else {
                            old_found[j]
                        },
                );
                assert forall|j: int| 0 <= j < 4 implies {
                    &&& #[trigger] indices@[j] == 4 * k + j
                    &&& 0 <= found[j] < k + 1
                    &&& min_indices@[j] == 4 * found[j] + j
                    &&& self.group_lane(found[j], j) == min_values@[j]
                } by {
                    lemma_select_bits_whole(indices@[j], old_indices@[j]);
                    assert(0 <= old_found[j] < k);
                    assert(values@[j] == self.group_lane(k as int, j));
                }
                assert forall|g: int, j: int| 0 <= g < k + 1 && 0 <= j < 4 implies min_values@[j]
                    <= #[trigger] self.group_lane(g, j) by {
                    assert(0 <= old_found[j] < k);
                    if g < k {
                        assert(old_values@[j] <= self.group_lane(g, j));
                    }
                }
                assert forall|g: int, j: int| 0 <= j < 4 && 0 <= g < found[j] implies min_values@[j]
                    < #[trigger] self.group_lane(g, j) by {
                    assert(0 <= old_found[j] < k);
                    if values@[j] < old_values@[j] {
                        assert(old_values@[j] <= self.group_lane(g, j));
                    } else {
                        assert(old_values@[j] < self.group_lane(g, j));
                    }
                }
            }
            k += 1;
        }

        let values = min_values.to_array();
        let numbers = min_indices.to_array();
        let first = shorter((values[0], numbers[0]), (values[1], numbers[1]));
        let second = shorter(first, (values[2], numbers[2]));
        let shortest = shorter(second, (values[3], numbers[3]));

        proof {
            let b = shortest.1 as int;
            let jb = choose|j: int|
                0 <= j < 4 && min_values@[j] == shortest.0 && min_indices@[j] == b;
            assert(0 <= found[jb] < len);
            assert(b == 4 * found[jb] + jb);
            assert(self.lane(b) == self.group_lane(found[jb], jb));
            assert forall|i: int| 0 <= i < 4 * len implies shortest.0 <= #[trigger] self.lane(
                i,
            ) by {
                let j = i % 4;
                assert(min_values@[j] <= self.group_lane(i / 4, j));
            }
            assert forall|i: int| 0 <= i < b implies shortest.0 < #[trigger] self.lane(i) by {
                let j = i % 4;
                let g = i / 4;
                assert(0 <= found[j] < len);
                assert(min_values@[j] <= self.group_lane(g, j));
                if min_values@[j] == shortest.0 {
                    assert(b <= min_indices@[j]);
                    assert(g < found[j]);
                    assert(min_values@[j] < self.group_lane(g, j));
                }
            }
            if b >= self.columns() {
                assert(self.lane(b) == u32::MAX);
                assert(shortest.0 < self.lane(0));
            }
            assert(is_first_minimum(self@, b));
        }
        shortest
    }

    /// Sets the height of column `index` to `value`.
    pub fn set_min_column(&mut self, index: u32, value: u32)
        requires
            old(self).wf(),
            index < old(self).columns(),
        ensures
            final(self).wf(),
            final(self).columns() == old(self).columns(),
            final(self)@ == old(self)@.update(index as int, value),
    {
        broadcast use lemma_four_lanes;

        let group = (index / 4) as usize;
        let lane = index % 4;
        let lanes = self.heights[group];
        let updated = if lane == 0 {
            lanes.set::<0>(value)
        } else if lane == 1 {
            lanes.set::<1>(value)
        } else if lane == 2 {
            lanes.set::<2>(value)
        } else {
            lanes.set::<3>(value)
        };
        self.heights[group] = updated;
        proof {
            assert(updated@ == lanes@.update(lane as int, value));
            assert forall|i: int| 0 <= i < 4 * self.heights@.len() implies #[trigger] self.lane(i)
                == (if i == index {
                value
            } else {
                old(self).lane(i)
            }) by {
                if i / 4 == group as int {
                    assert(self.heights@[i / 4]@ == updated@);
                } else {
                    assert(self.heights@[i / 4] == old(self).heights@[i / 4]);
                }
            }
            assert(self@ =~= old(self)@.update(index as int, value));
        }
    }

    /// The height of the tallest column.
    pub fn max_height(self) -> (tallest: u32)
        requires
            self.wf(),
        ensures
            is_maximum(self@, tallest),
    {
        broadcast use lemma_four_lanes;

        let padding_mask = self.padding_mask;
        let mut heights = self.heights;
        let len = heights.len();
        // Set the filling lanes to zero: they hold `u32::MAX`, which would
        // else be the maximum.
        let last = heights[len - 1];
        let cleared = U32x4::zero().blend(last, padding_mask);
        heights[len - 1] = cleared;
        proof {
            assert forall|j: int| 0 <= j < 4 implies #[trigger] cleared@[j] == (if j < real_lanes(
                padding_mask@,
            ) {
                last@[j]
            } else {
                0u32
            }) by {
                lemma_select_bits_whole(0u32, last@[j]);
            }
        }
        let ghost lane_of = |i: int| heights@[i / 4]@[i % 4];
        proof {
            assert forall|i: int| 0 <= i < 4 * len implies #[trigger] lane_of(i) == (if i
                < self.columns() {
                self.lane(i)
            } else {
                0u32
            }) by {
                if i / 4 == len - 1 {
                    assert(heights@[i / 4]@ == cleared@);
                    assert(self.heights@[i / 4]@ == last@);
                } else {
                    assert(heights@[i / 4] == self.heights@[i / 4]);
                }
            }
        }

        let mut max_values = heights[0];
        let ghost mut found: Seq<int> = seq![0int, 1int, 2int, 3int];
        let mut k: usize = 1;
        while k < len
            invariant
                1 <= k <= len,
                len == heights@.len(),
                lane_of == |i: int| heights@[i / 4]@[i % 4],
                found.len() == 4,
                forall|j: int|
                    0 <= j < 4 ==> 0 <= #[trigger] found[j] < 4 * k && lane_of(found[j])
                        == max_values@[j],
                forall|i: int| 0 <= i < 4 * k ==> #[trigger] lane_of(i) <= max_values@[i % 4],
            decreases len - k,
        {
            let values = heights[k];
            let ghost old_values = max_values;
            let ghost old_found = found;
            max_values = max_values.max(values);
            proof {
                found = Seq::new(
                    4,
                    |j: int|
                        if old_values@[j] >= values@[j] {
                            old_found[j]
                        } else {
                            4 * k + j
                        },
                );
                assert forall|j: int| 0 <= j < 4 implies 0 <= #[trigger] found[j] < 4 * (k + 1)
                    && lane_of(found[j]) == max_values@[j] by {
                    assert(0 <= old_found[j] < 4 * k);
                    assert((4 * k + j) / 4 == k && (4 * k + j) % 4 == j);
                    assert(max_values@[j] == if old_values@[j] >= values@[j] {
                        old_values@[j]
                    } else {
                        values@[j]
                    });
                }
                assert forall|i: int| 0 <= i < 4 * (k + 1) implies #[trigger] lane_of(i)
                    <= max_values@[i % 4] by {
                    let j = i % 4;
                    assert(max_values@[j] == if old_values@[j] >= values@[j] {
                        old_values@[j]
                    } else {
                        values@[j]
                    });
                    if i >= 4 * k {
                        assert(i == 4 * k + j);
                    }
                }
            }
            k += 1;
        }

        let values = max_values.to_array();
        let mut tallest = values[0];
        let ghost mut at: int = found[0];
        if values[1] > tallest {
            tallest = values[1];
            proof {
                at = found[1];
            }
        }
        if values[2] > tallest {
            tallest = values[2];
            proof {
                at = found[2];
            }
        }
        if values[3] > tallest {
            tallest = values[3];
            proof {
                at = found[3];
            }
        }
        proof {
            assert(0 <= at < 4 * len && lane_of(at) == tallest);
            assert forall|i: int| 0 <= i < 4 * len implies #[trigger] lane_of(i) <= tallest by {
                let j = i % 4;
                assert(lane_of(i) <= max_values@[j]);
            }
            assert forall|c: int| 0 <= c < self@.len() implies #[trigger] self@[c] <= tallest by {
                assert(lane_of(c) == self.lane(c));
            }
            let c = if at < self.columns() {
                at
            } else {
                0
            };
            assert(lane_of(0) <= tallest);
            assert(lane_of(c) == self.lane(c));
            assert(self@[c] == tallest);
        }
        tallest
    }
}

} // verus!
