use masonry::data::{execute, Computation, MasonryConfig, MasonryType};
use masonry::layout::Layout;
use masonry::transform::Transform;

fn geometry(layout: &Layout, index: usize) -> (u32, u32, u32, u32) {
    match layout.get_transform(index) {
        Some(transform) => (
            transform.width(),
            transform.height(),
            transform.top(),
            transform.left(),
        ),
        None => panic!("item {} has no transform", index),
    }
}

fn all_geometry(layout: &Layout) -> Vec<(u32, u32, u32, u32)> {
    (0..layout.num_items()).map(|i| geometry(layout, i)).collect()
}

fn with_dimensions(thumbnail_size: u16, padding: u16, dimensions: &[(u16, u16)]) -> Layout {
    let mut layout = Layout::new(dimensions.len(), thumbnail_size, padding);
    for (index, (width, height)) in dimensions.iter().enumerate() {
        layout.set_dimension(index, *width, *height);
    }
    layout
}

const MIXED: [(u16, u16); 7] = [
    (400, 300),
    (300, 400),
    (1000, 100),
    (100, 1000),
    (640, 480),
    (50, 50),
    (1920, 1080),
];

#[test]
fn new_store_has_a_floor_of_slots() {
    let layout = Layout::new(5, 100, 10);
    assert_eq!(layout.num_items(), 5);
    assert_eq!(layout.capacity(), 1000);
    assert_eq!(layout.thumbnail_size(), 100);
    assert_eq!(layout.padding(), 10);
    assert!(!layout.is_empty());
    assert!(Layout::new(0, 100, 10).is_empty());
    assert_eq!(Layout::new(1000, 1, 1).capacity(), 1000);
    assert_eq!(Layout::new(1001, 1, 1).capacity(), 1001);
}

#[test]
fn new_store_is_zeroed() {
    let layout = Layout::new(3, 100, 10);
    assert_eq!(all_geometry(&layout), vec![(0, 0, 0, 0); 3]);
}

#[test]
fn new_store_keeps_the_thumbnail_size_as_given() {
    assert_eq!(Layout::new(1, 1000, 0).thumbnail_size(), 1000);
}

#[test]
fn get_transform_knows_only_the_items() {
    let layout = Layout::new(3, 100, 10);
    assert!(layout.get_transform(0).is_some());
    assert!(layout.get_transform(2).is_some());
    // Slot 3 exists, but holds no item.
    assert!(layout.get_transform(3).is_none());
    assert!(layout.get_transform(999).is_none());
    assert!(layout.get_transform(1000).is_none());
    assert!(layout.get_transform(usize::MAX).is_none());
}

#[test]
fn set_thumbnail_size_is_cut_down() {
    let mut layout = Layout::new(1, 100, 10);
    layout.set_thumbnail_size(300);
    assert_eq!(layout.thumbnail_size(), 300);
    layout.set_thumbnail_size(655);
    assert_eq!(layout.thumbnail_size(), 655);
    layout.set_thumbnail_size(656);
    assert_eq!(layout.thumbnail_size(), 655);
    layout.set_thumbnail_size(u16::MAX);
    assert_eq!(layout.thumbnail_size(), 655);
    layout.set_thumbnail_size(0);
    assert_eq!(layout.thumbnail_size(), 0);
}

#[test]
fn set_padding_stores_the_padding() {
    let mut layout = Layout::new(1, 100, 10);
    layout.set_padding(u16::MAX);
    assert_eq!(layout.padding(), u16::MAX);
    layout.set_padding(0);
    assert_eq!(layout.padding(), 0);
}

#[test]
fn set_dimension_without_a_slot_does_nothing() {
    let mut layout = with_dimensions(100, 10, &[(100, 100); 3]);
    layout.set_dimension(1000, 300, 100);
    layout.set_dimension(usize::MAX, 300, 100);
    assert_eq!(layout.num_items(), 3);
    assert_eq!(layout.capacity(), 1000);
    assert_eq!(layout.compute_horizontal(1000), 100);
    assert_eq!(
        all_geometry(&layout),
        vec![(100, 100, 0, 0), (100, 100, 0, 110), (100, 100, 0, 220)]
    );
}

#[test]
fn set_dimension_reaches_slots_behind_the_items() {
    let mut layout = Layout::new(1, 100, 10);
    layout.set_dimension(0, 100, 100);
    // Slot 1 holds no item yet, but keeps the ratio for when it does.
    layout.set_dimension(1, 200, 100);
    layout.resize(2);
    assert_eq!(layout.compute_horizontal(1000), 100);
    assert_eq!(
        all_geometry(&layout),
        vec![(100, 100, 0, 0), (200, 100, 0, 110)]
    );
}

#[test]
fn resize_never_takes_slots_away() {
    let mut layout = Layout::new(10, 100, 10);
    assert_eq!(layout.capacity(), 1000);
    layout.resize(2000);
    assert_eq!(layout.num_items(), 2000);
    assert_eq!(layout.capacity(), 2000);
    layout.resize(5);
    assert_eq!(layout.num_items(), 5);
    assert_eq!(layout.capacity(), 2000);
    layout.resize(2000);
    assert_eq!(layout.num_items(), 2000);
    assert_eq!(layout.capacity(), 2000);
    layout.resize(0);
    assert!(layout.is_empty());
    assert_eq!(layout.capacity(), 2000);
    layout.resize(2001);
    assert_eq!(layout.capacity(), 2001);
}

#[test]
fn resize_keeps_the_dimensions() {
    let mut layout = Layout::new(1500, 10, 0);
    for index in 0..1500 {
        layout.set_dimension(index, 100, 100);
    }
    layout.set_dimension(2, 200, 100);
    layout.set_dimension(1400, 300, 100);
    layout.resize(3);
    layout.resize(1500);
    assert_eq!(layout.compute_horizontal(u16::MAX), 10);
    assert_eq!(geometry(&layout, 1), (10, 10, 0, 10));
    assert_eq!(geometry(&layout, 2), (20, 10, 0, 20));
    assert_eq!(geometry(&layout, 3), (10, 10, 0, 40));
    // 1399 items of 10 pixels and one of 20 stand before item 1400, which
    // is 10 * 100 / 33 = 30.3 pixels wide.
    assert_eq!(geometry(&layout, 1400), (30, 10, 0, 14_010));
}

#[test]
fn resize_gives_new_items_no_ratio() {
    let mut layout = with_dimensions(100, 10, &[(100, 100); 2]);
    layout.resize(1002);
    assert_eq!(layout.compute_horizontal(u16::MAX), 100);
    assert_eq!(geometry(&layout, 1), (100, 100, 0, 110));
    assert_eq!(geometry(&layout, 2), (0, 100, 0, 220));
    assert_eq!(geometry(&layout, 1001), (0, 100, 0, 220 + 999 * 10));
}

#[test]
fn stale_transforms_are_out_of_sight_after_shrinking() {
    let mut layout = with_dimensions(100, 10, &[(100, 100); 5]);
    layout.compute_grid(250);
    layout.resize(2);
    assert!(layout.get_transform(1).is_some());
    assert!(layout.get_transform(2).is_none());
    // Growing again brings back what the slots held.
    layout.resize(5);
    assert_eq!(geometry(&layout, 4), (73, 73, 83, 83));
}

#[test]
fn grid_of_five_items() {
    let mut layout = Layout::new(5, 100, 10);
    // Three columns of 83 pixels: 250 / 100 = 2.5 -> 3, 250 / 3 = 83.3 -> 83.
    assert_eq!(layout.compute_grid(250), 166);
    assert_eq!(
        all_geometry(&layout),
        vec![
            (73, 73, 0, 0),
            (73, 73, 0, 83),
            (73, 73, 0, 166),
            (73, 73, 83, 0),
            (73, 73, 83, 83),
        ]
    );
}

#[test]
fn grid_ignores_the_aspect_ratios() {
    let mut plain = Layout::new(7, 200, 8);
    let mut mixed = with_dimensions(200, 8, &MIXED);
    assert_eq!(plain.compute_grid(1000), mixed.compute_grid(1000));
    assert_eq!(all_geometry(&plain), all_geometry(&mixed));
}

#[test]
fn grid_height_is_rows_times_row_height() {
    // Three columns, rows of 83 pixels.
    for rows in 1..=4usize {
        let mut layout = Layout::new(rows * 3, 100, 10);
        assert_eq!(layout.compute_grid(250), rows as u32 * 83);
        for rest in 1..3usize {
            let mut layout = Layout::new(rows * 3 + rest, 100, 10);
            assert_eq!(layout.compute_grid(250), (rows as u32 + 1) * 83);
        }
    }
    let mut layout = Layout::new(1, 100, 10);
    assert_eq!(layout.compute_grid(250), 83);
}

#[test]
fn grid_places_items_in_row_major_order() {
    let mut layout = Layout::new(23, 300, 8);
    // 1280 / 300 = 4.27 -> 4 columns of 320.
    assert_eq!(layout.compute_grid(1280), 6 * 320);
    for index in 0..23u32 {
        assert_eq!(
            geometry(&layout, index as usize),
            (312, 312, (index / 4) * 320, (index % 4) * 320)
        );
    }
}

#[test]
fn grid_with_padding_wider_than_a_column() {
    let mut layout = Layout::new(4, 100, 200);
    assert_eq!(layout.compute_grid(250), 166);
    assert_eq!(
        all_geometry(&layout),
        vec![(0, 0, 0, 0), (0, 0, 0, 83), (0, 0, 0, 166), (0, 0, 83, 0)]
    );
}

#[test]
fn grid_top_offset_saturates() {
    // One column of 65535 pixels: row 65537 would start beyond u32::MAX.
    let mut layout = Layout::new(65_540, u16::MAX, 0);
    assert_eq!(layout.compute_grid(u16::MAX), u32::MAX);
    assert_eq!(geometry(&layout, 0), (65_535, 65_535, 0, 0));
    assert_eq!(geometry(&layout, 65_536), (65_535, 65_535, 65_536 * 65_535, 0));
    assert_eq!(geometry(&layout, 65_537), (65_535, 65_535, u32::MAX, 0));
    assert_eq!(geometry(&layout, 65_539), (65_535, 65_535, u32::MAX, 0));
}

#[test]
fn vertical_of_identical_items_takes_the_columns_in_turn() {
    let mut layout = with_dimensions(100, 10, &[(100, 100); 5]);
    assert_eq!(layout.compute_vertical(250), 166);
    assert_eq!(
        all_geometry(&layout),
        vec![
            (73, 73, 0, 0),
            (73, 73, 0, 83),
            (73, 73, 0, 166),
            (73, 73, 83, 0),
            (73, 73, 83, 83),
        ]
    );
}

#[test]
fn vertical_round_robin_over_many_items() {
    let mut layout = with_dimensions(300, 8, &[(300, 200); 103]);
    // 4 columns of 320, items of 312 by 209 (312 * 67 / 100 = 209.04).
    let height = layout.compute_vertical(1280);
    assert_eq!(height, 26 * 217);
    for index in 0..103u32 {
        assert_eq!(
            geometry(&layout, index as usize),
            (312, 209, (index / 4) * 217, (index % 4) * 320)
        );
    }
}

#[test]
fn vertical_round_robin_needs_items_that_take_room() {
    // Without a height and without padding no column ever grows: every item
    // goes to the first column.
    let mut layout = Layout::new(4, 100, 0);
    assert_eq!(layout.compute_vertical(250), 0);
    assert_eq!(all_geometry(&layout), vec![(83, 0, 0, 0); 4]);
}

#[test]
fn vertical_single_column_takes_every_item() {
    // With one column every item is in turn there, whether it takes room or
    // not.
    let mut layout = Layout::new(3, 100, 0);
    assert_eq!(layout.compute_vertical(100), 0);
    assert_eq!(all_geometry(&layout), vec![(100, 0, 0, 0); 3]);
    let mut layout = with_dimensions(100, 5, &[(200, 100); 3]);
    // 95 * 50 / 100 = 47.5 -> 48, and 5 of padding
    assert_eq!(layout.compute_vertical(100), 159);
    assert_eq!(
        all_geometry(&layout),
        vec![(95, 48, 0, 0), (95, 48, 53, 0), (95, 48, 106, 0)]
    );
}

#[test]
fn vertical_of_mixed_items_fills_the_shortest_column() {
    let mut layout = with_dimensions(200, 8, &MIXED);
    assert_eq!(layout.compute_vertical(1000), 590);
    assert_eq!(
        all_geometry(&layout),
        vec![
            (192, 144, 0, 0),
            (192, 256, 0, 200),
            (192, 63, 0, 400),
            (192, 582, 0, 600),
            (192, 144, 0, 800),
            (192, 192, 71, 400),
            (192, 108, 152, 0),
        ]
    );
}

#[test]
fn vertical_of_other_mixed_items() {
    let mut layout = with_dimensions(
        300,
        8,
        &[(300, 200), (200, 300), (100, 100), (300, 100), (300, 200)],
    );
    assert_eq!(layout.compute_vertical(1280), 474);
    assert_eq!(
        all_geometry(&layout),
        vec![
            (312, 209, 0, 0),
            (312, 466, 0, 320),
            (312, 312, 0, 640),
            (312, 103, 0, 960),
            (312, 209, 111, 960),
        ]
    );
}

#[test]
fn vertical_in_a_narrow_container_has_one_column() {
    let mut layout = with_dimensions(100, 10, &[(100, 100); 3]);
    assert_eq!(layout.compute_vertical(40), 300);
    assert_eq!(
        all_geometry(&layout),
        vec![(90, 90, 0, 0), (90, 90, 100, 0), (90, 90, 200, 0)]
    );
    let mut layout = with_dimensions(100, 10, &[(100, 100); 3]);
    assert_eq!(layout.compute_vertical(0), 300);
    assert_eq!(geometry(&layout, 2), (90, 90, 200, 0));
}

#[test]
fn vertical_with_padding_wider_than_a_column() {
    let mut layout = with_dimensions(100, 200, &[(100, 100); 4]);
    assert_eq!(layout.compute_vertical(250), 400);
    assert_eq!(
        all_geometry(&layout),
        vec![(0, 0, 0, 0), (0, 0, 0, 83), (0, 0, 0, 166), (0, 0, 200, 0)]
    );
}

#[test]
fn vertical_of_items_without_ratio() {
    let mut layout = Layout::new(3, 100, 10);
    assert_eq!(layout.compute_vertical(250), 10);
    assert_eq!(
        all_geometry(&layout),
        vec![(73, 0, 0, 0), (73, 0, 0, 83), (73, 0, 0, 166)]
    );
}

#[test]
fn vertical_column_heights_saturate() {
    // One column; every item adds 65535 + 65535 to it.
    let mut layout = with_dimensions(u16::MAX, u16::MAX, &[(100, 100); 40_000]);
    // The column is 65535 wide, the padding takes all of it: items of no
    // width and no height, 65535 apart.
    assert_eq!(layout.compute_vertical(u16::MAX), 40_000 * 65_535);
    let mut layout = with_dimensions(u16::MAX, u16::MAX, &[(100, 100); 70_000]);
    assert_eq!(layout.compute_vertical(u16::MAX), u32::MAX);
    assert_eq!(geometry(&layout, 65_537).2, u32::MAX);
    assert_eq!(geometry(&layout, 69_999).2, u32::MAX);
}

#[test]
fn horizontal_scenario_of_five_squares() {
    let mut layout = with_dimensions(100, 10, &[(100, 100); 5]);
    // The third square overflows 250 pixels and is the last of its row:
    // 300 pixels of items are rescaled to 250 - 2 * 10 = 230. A width of
    // 76.67 is rounded down, the height of 76.67 half up.
    assert_eq!(layout.compute_horizontal(250), 187);
    assert_eq!(
        all_geometry(&layout),
        vec![
            (76, 77, 0, 0),
            (76, 77, 0, 86),
            (76, 77, 0, 172),
            (100, 100, 87, 0),
            (100, 100, 87, 110),
        ]
    );
}

#[test]
fn horizontal_row_of_three_squares_without_padding() {
    let mut layout = with_dimensions(100, 0, &[(100, 100); 3]);
    // The third square overflows 250 pixels: the row is rescaled by 250 / 300.
    assert_eq!(layout.compute_horizontal(250), 83);
    assert_eq!(
        all_geometry(&layout),
        vec![(83, 83, 0, 0), (83, 83, 0, 83), (83, 83, 0, 166)]
    );
}

#[test]
fn horizontal_items_of_one_ratio_have_one_width_in_a_row() {
    let mut layout = with_dimensions(120, 7, &[(300, 200); 40]);
    layout.compute_horizontal(1000);
    let items = all_geometry(&layout);
    for pair in items.windows(2) {
        if pair[0].2 == pair[1].2 {
            assert_eq!(pair[0].0, pair[1].0);
            assert_eq!(pair[0].1, pair[1].1);
            assert_eq!(pair[1].3, pair[0].3 + pair[0].0 + 7);
        }
    }
}

#[test]
fn horizontal_of_mixed_items() {
    let mut layout = with_dimensions(200, 8, &MIXED);
    assert_eq!(layout.compute_horizontal(1000), 400);
    assert_eq!(
        all_geometry(&layout),
        vec![
            (256, 192, 0, 0),
            (144, 192, 0, 264),
            (582, 192, 0, 416),
            (66, 200, 200, 0),
            (267, 200, 200, 74),
            (200, 200, 200, 349),
            (357, 200, 200, 557),
        ]
    );
}

#[test]
fn horizontal_at_the_largest_thumbnail_size() {
    let mut layout = with_dimensions(655, 8, &[(300, 200); 4]);
    assert_eq!(layout.compute_horizontal(1920), 1296);
    assert_eq!(
        all_geometry(&layout),
        vec![
            (956, 640, 0, 0),
            (956, 640, 0, 964),
            (956, 640, 648, 0),
            (956, 640, 648, 964),
        ]
    );
}

#[test]
fn horizontal_row_that_closes_last_has_padding_below() {
    let mut layout = with_dimensions(100, 10, &[(100, 100); 3]);
    // Every square overflows a container of 100 pixels by its padding.
    assert_eq!(layout.compute_horizontal(40), 330);
    assert_eq!(
        all_geometry(&layout),
        vec![(100, 100, 0, 0), (100, 100, 110, 0), (100, 100, 220, 0)]
    );
}

#[test]
fn horizontal_open_row_has_no_padding_below() {
    let mut layout = with_dimensions(100, 10, &[(100, 100); 2]);
    assert_eq!(layout.compute_horizontal(250), 100);
    assert_eq!(
        all_geometry(&layout),
        vec![(100, 100, 0, 0), (100, 100, 0, 110)]
    );
}

#[test]
fn horizontal_with_padding_wider_than_the_container() {
    let mut layout = with_dimensions(100, 200, &[(100, 100); 4]);
    assert_eq!(layout.compute_horizontal(250), 1800);
    assert_eq!(
        all_geometry(&layout),
        vec![
            (250, 250, 0, 0),
            (250, 250, 450, 0),
            (250, 250, 900, 0),
            (250, 250, 1350, 0),
        ]
    );
}

#[test]
fn horizontal_of_items_without_ratio() {
    let mut layout = Layout::new(3, 100, 10);
    assert_eq!(layout.compute_horizontal(250), 100);
    assert_eq!(
        all_geometry(&layout),
        vec![(0, 100, 0, 0), (0, 100, 0, 10), (0, 100, 0, 20)]
    );
    let mut layout = Layout::new(3, 100, 0);
    assert_eq!(layout.compute_horizontal(250), 100);
    assert_eq!(all_geometry(&layout), vec![(0, 100, 0, 0); 3]);
}

#[test]
fn horizontal_row_without_width_is_closed_by_its_padding() {
    // 26 items without width: the 26th overflows 250 pixels by padding alone.
    let mut layout = Layout::new(27, 100, 10);
    assert_eq!(layout.compute_horizontal(250), 210);
    assert_eq!(geometry(&layout, 0), (0, 100, 0, 0));
    assert_eq!(geometry(&layout, 25), (0, 100, 0, 250));
    assert_eq!(geometry(&layout, 26), (0, 100, 110, 0));
}

#[test]
fn horizontal_with_some_items_without_ratio() {
    let mut layout = Layout::new(4, 100, 10);
    layout.set_dimension(1, 200, 100);
    layout.set_dimension(3, 100, 100);
    assert_eq!(layout.compute_horizontal(250), 83);
    assert_eq!(
        all_geometry(&layout),
        vec![(0, 73, 0, 0), (146, 73, 0, 10), (0, 73, 0, 166), (73, 73, 0, 176)]
    );
}

#[test]
fn horizontal_closed_rows_fit_the_container() {
    let dimensions: Vec<(u16, u16)> = (0..200u16)
        .map(|i| (100 + (i * 37) % 400, 100 + (i * 91) % 300))
        .collect();
    for (thumbnail_size, padding, container_width) in
        [(100u16, 10u16, 250u16), (200, 8, 1000), (300, 0, 1920), (50, 3, 333), (655, 20, 700)]
    {
        let mut layout = with_dimensions(thumbnail_size, padding, &dimensions);
        let height = layout.compute_horizontal(container_width);
        let items = all_geometry(&layout);
        let mut index = 0;
        let mut rows = 0;
        while index < items.len() {
            let top = items[index].2;
            let row_height = items[index].1;
            let mut next = index;
            let mut right = 0;
            let mut count = 0;
            while next < items.len() && items[next].2 == top {
                count += 1;
                let (width, item_height, _, left) = items[next];
                assert_eq!(item_height, row_height);
                if next == index {
                    assert_eq!(left, 0);
                } else {
                    assert_eq!(left, right + u32::from(padding));
                }
                right = left + width;
                next += 1;
            }
            assert!(right <= u32::from(container_width));
            if next < items.len() {
                // A closed row falls short of the container by less than a
                // pixel for each of its items.
                assert!(right + count > u32::from(container_width));
                assert_eq!(items[next].2, top + row_height + u32::from(padding));
            } else {
                // The last row is closed, with the padding below, or open,
                // as high as a thumbnail and without.
                let closed = height == top + row_height + u32::from(padding);
                let open = row_height == u32::from(thumbnail_size) && height == top + row_height;
                assert!(closed || open);
            }
            index = next;
            rows += 1;
        }
        assert!(rows > 1);
    }
}

#[test]
fn horizontal_top_offset_saturates() {
    // Every item closes a row of 65535 + 65535 pixels.
    let mut layout = with_dimensions(u16::MAX, u16::MAX, &[(100, 100); 40_000]);
    assert_eq!(layout.compute_horizontal(u16::MAX), u32::MAX);
    assert_eq!(geometry(&layout, 0), (65_535, 65_535, 0, 0));
    assert_eq!(geometry(&layout, 1), (65_535, 65_535, 131_070, 0));
    assert_eq!(geometry(&layout, 32_768), (65_535, 65_535, 32_768 * 131_070, 0));
    assert_eq!(geometry(&layout, 32_769), (65_535, 65_535, u32::MAX, 0));
    assert_eq!(geometry(&layout, 39_999), (65_535, 65_535, u32::MAX, 0));
}

#[test]
fn layout_passes_are_idempotent() {
    let mut layout = with_dimensions(200, 8, &MIXED);
    let height = layout.compute_horizontal(1000);
    let items = all_geometry(&layout);
    assert_eq!(layout.compute_horizontal(1000), height);
    assert_eq!(all_geometry(&layout), items);

    let height = layout.compute_vertical(1000);
    let items = all_geometry(&layout);
    assert_eq!(layout.compute_vertical(1000), height);
    assert_eq!(all_geometry(&layout), items);

    let height = layout.compute_grid(1000);
    let items = all_geometry(&layout);
    assert_eq!(layout.compute_grid(1000), height);
    assert_eq!(all_geometry(&layout), items);
}

#[test]
fn layout_passes_do_not_depend_on_each_other() {
    let mut fresh = with_dimensions(200, 8, &MIXED);
    let mut used = with_dimensions(200, 8, &MIXED);
    used.compute_grid(500);
    used.compute_vertical(700);
    assert_eq!(used.compute_horizontal(1000), fresh.compute_horizontal(1000));
    assert_eq!(all_geometry(&used), all_geometry(&fresh));
}

#[test]
fn nothing_to_lay_out_gives_height_zero() {
    let mut layout = Layout::new(0, 100, 10);
    assert_eq!(layout.compute_horizontal(250), 0);
    assert_eq!(layout.compute_vertical(250), 0);
    assert_eq!(layout.compute_grid(250), 0);
}

#[test]
fn thumbnail_size_zero_gives_height_zero_and_changes_nothing() {
    let mut layout = with_dimensions(100, 10, &[(100, 100); 5]);
    layout.compute_grid(250);
    let items = all_geometry(&layout);
    layout.set_thumbnail_size(0);
    assert_eq!(layout.compute_horizontal(250), 0);
    assert_eq!(layout.compute_vertical(250), 0);
    assert_eq!(layout.compute_grid(250), 0);
    assert_eq!(layout.compute_vertical(0), 0);
    assert_eq!(all_geometry(&layout), items);
}

#[test]
fn layout_leaves_the_slots_behind_the_items_alone() {
    let mut layout = with_dimensions(100, 10, &[(100, 100); 5]);
    layout.compute_grid(250);
    layout.resize(2);
    layout.compute_horizontal(1000);
    layout.resize(5);
    assert_eq!(
        all_geometry(&layout),
        vec![
            (100, 100, 0, 0),
            (100, 100, 0, 110),
            (73, 73, 0, 166),
            (73, 73, 83, 0),
            (73, 73, 83, 83),
        ]
    );
}

#[test]
fn transform_keeps_its_four_values() {
    let transform = Transform::new(1, 2, 3, 4);
    assert_eq!(transform.width(), 1);
    assert_eq!(transform.height(), 2);
    assert_eq!(transform.top(), 3);
    assert_eq!(transform.left(), 4);
    assert_eq!(transform.lanes().to_array(), [1, 2, 3, 4]);
    assert_eq!(Transform::default().lanes().to_array(), [0, 0, 0, 0]);
}

#[test]
fn execute_sets_the_configuration_and_computes() {
    let mut layout = with_dimensions(1, 1, &[(100, 100); 5]);
    let request = Computation::new(250, MasonryConfig::new(MasonryType::Horizontal, 100, 10));
    assert_eq!(execute(request, &mut layout), 187);
    assert_eq!(layout.thumbnail_size(), 100);
    assert_eq!(layout.padding(), 10);
    assert_eq!(geometry(&layout, 1), (76, 77, 0, 86));

    let request = Computation::new(250, MasonryConfig::new(MasonryType::Vertical, 100, 10));
    assert_eq!(execute(request, &mut layout), 166);
    assert_eq!(geometry(&layout, 4), (73, 73, 83, 83));

    let request = Computation::new(250, MasonryConfig::new(MasonryType::Grid, 100, 200));
    assert_eq!(execute(request, &mut layout), 166);
    assert_eq!(layout.padding(), 200);
    assert_eq!(geometry(&layout, 3), (0, 0, 83, 0));
}

#[test]
fn execute_cuts_the_thumbnail_size_down() {
    let mut layout = Layout::new(6, 100, 10);
    let request = Computation::new(1920, MasonryConfig::new(MasonryType::Grid, 1000, 8));
    // Thumbnails of 655: 1920 / 655 = 2.93 -> 3 columns of 640.
    assert_eq!(execute(request, &mut layout), 1280);
    assert_eq!(layout.thumbnail_size(), 655);
    assert_eq!(geometry(&layout, 5), (632, 632, 640, 1280));
}

#[test]
fn default_configuration() {
    assert_eq!(MasonryConfig::DEFAULT_THUMBNAIL_SIZE, 300);
    assert_eq!(MasonryConfig::DEFAULT_PADDING, 8);
    let config = MasonryConfig::new(MasonryType::Grid, 300, 8);
    assert_eq!(config.kind, MasonryType::Grid);
    assert_eq!(config.thumbnail_size, 300);
    assert_eq!(config.padding, 8);
}
