use tilemap_render::atlas::{atlas_index, TileCell};

#[test]
fn gid_one_maps_to_first_column_bottom_row() {
    assert_eq!(atlas_index(1, 14, 9), TileCell { col: 0, row: 8 });
}

#[test]
fn gid_zero_is_the_empty_sentinel() {
    assert_eq!(atlas_index(0, 14, 9), TileCell { col: 0, row: 0 });
    assert_eq!(atlas_index(0, 2, 2), TileCell { col: 0, row: 0 });
    assert_eq!(atlas_index(0, 1, 1), TileCell { col: 0, row: 0 });
}

#[test]
fn gid_mapping_wraps_rows_and_flips_vertically() {
    // 2x2 atlas: gid 1 -> (0,1), 2 -> (1,1), 3 -> (0,0), 4 -> (1,1)'s row 0.
    assert_eq!(atlas_index(1, 2, 2), TileCell { col: 0, row: 1 });
    assert_eq!(atlas_index(2, 2, 2), TileCell { col: 1, row: 1 });
    assert_eq!(atlas_index(3, 2, 2), TileCell { col: 0, row: 0 });
    assert_eq!(atlas_index(4, 2, 2), TileCell { col: 1, row: 0 });
}

#[test]
fn last_gid_of_the_atlas_stays_in_range() {
    let cell = atlas_index(14 * 9, 14, 9);
    assert!(cell.col < 14);
    assert!(cell.row < 9);
    assert_eq!(cell, TileCell { col: 13, row: 0 });
}

#[test]
fn every_valid_gid_lands_inside_a_small_atlas() {
    let (w, h) = (5, 3);
    for gid in 0..=(w * h) {
        let cell = atlas_index(gid, w, h);
        assert!(cell.col < w);
        assert!(cell.row < h);
    }
}
