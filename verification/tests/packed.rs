use masonry::packed::U32x4;
use masonry::util::UnwrapOrAbort;

#[test]
fn new_and_to_array_keep_the_lanes_in_order() {
    assert_eq!(U32x4::new(1, 2, 3, 4).to_array(), [1, 2, 3, 4]);
    assert_eq!(U32x4::zero().to_array(), [0, 0, 0, 0]);
    assert_eq!(U32x4::default().to_array(), [0, 0, 0, 0]);
}

#[test]
fn from_fills_every_lane() {
    assert_eq!(U32x4::from(7).to_array(), [7, 7, 7, 7]);
}

#[test]
fn min_and_max_go_lane_by_lane() {
    let a = U32x4::new(1, 20, 3, u32::MAX);
    let b = U32x4::new(10, 2, 3, 0);
    assert_eq!(a.min(b).to_array(), [1, 2, 3, 0]);
    assert_eq!(a.max(b).to_array(), [10, 20, 3, u32::MAX]);
}

#[test]
fn less_than_gives_a_mask() {
    let a = U32x4::new(1, 20, 3, 0);
    let b = U32x4::new(10, 2, 3, u32::MAX);
    assert_eq!(a.less_than(b).to_array(), [u32::MAX, 0, 0, u32::MAX]);
}

#[test]
fn blend_selects_by_mask() {
    let a = U32x4::new(1, 2, 3, 4);
    let b = U32x4::new(10, 20, 30, 40);
    let mask = U32x4::new(u32::MAX, 0, u32::MAX, 0);
    assert_eq!(a.blend(b, mask).to_array(), [1, 20, 3, 40]);
}

#[test]
fn blend_selects_bit_by_bit() {
    let a = U32x4::new(0b1100, 0xffff_0000, 0, u32::MAX);
    let b = U32x4::new(0b1010, 0x0000_ffff, u32::MAX, 0);
    let mask = U32x4::new(0b0110, 0xff00_ff00, 0x0f0f_0f0f, 0x8000_0001);
    assert_eq!(
        a.blend(b, mask).to_array(),
        [0b1100, 0xff00_00ff, 0xf0f0_f0f0, 0x8000_0001]
    );
}

#[test]
fn get_and_set_address_one_lane() {
    let lanes = U32x4::new(1, 2, 3, 4);
    assert_eq!(lanes.get::<0>(), 1);
    assert_eq!(lanes.get::<1>(), 2);
    assert_eq!(lanes.get::<2>(), 3);
    assert_eq!(lanes.get::<3>(), 4);
    assert_eq!(lanes.set::<2>(9).to_array(), [1, 2, 9, 4]);
    assert_eq!(lanes.set::<0>(9).set::<3>(8).to_array(), [9, 2, 3, 8]);
    // `set` returns a new value: `lanes` itself is as it was.
    assert_eq!(lanes.to_array(), [1, 2, 3, 4]);
}

#[test]
fn add_assign_wraps() {
    let mut lanes = U32x4::new(1, 2, u32::MAX, 0);
    lanes.add_assign(U32x4::new(10, 20, 1, 0));
    assert_eq!(lanes.to_array(), [11, 22, 0, 0]);
    lanes.add_assign(U32x4::from(u32::MAX));
    assert_eq!(lanes.to_array(), [10, 21, u32::MAX, u32::MAX]);
}

#[test]
fn unwrap_or_abort_takes_the_value_out() {
    assert_eq!(Some(5).unwrap_or_abort(), 5);
    let ok: Result<u8, ()> = Ok(7);
    assert_eq!(ok.unwrap_or_abort(), 7);
}
