use tilemap_render::atlas::TileCell;
use tilemap_render::tile_map::{TileLayer, TileMap};
use tilemap_render::tilemap::{
    build_tilemap_bundle, generate_tile_data, TilemapError, TilemapTiles,
};

fn small_map(width: u32, height: u32, rows: Vec<Vec<u32>>) -> TileMap {
    TileMap {
        width,
        height,
        tile_width: 16,
        tile_height: 16,
        layers: vec![TileLayer { tiles: rows }],
    }
}

#[test]
fn table_covers_every_cell_once() {
    let map = small_map(3, 2, vec![vec![1, 2, 3], vec![4, 1, 2]]);
    let table = generate_tile_data(&map, 2, 2).unwrap();
    assert_eq!(table.tiles.len(), 3 * 2);
}

#[test]
fn end_to_end_two_by_two_table() {
    // A 2x2 map with tile ids [1, 2, 0, 3] over a 2x2 atlas.
    let map = small_map(2, 2, vec![vec![1, 2], vec![0, 3]]);
    let table = generate_tile_data(&map, 2, 2).unwrap();
    assert_eq!(
        table.tiles,
        vec![
            TileCell { col: 0, row: 1 },
            TileCell { col: 1, row: 1 },
            TileCell { col: 0, row: 0 },
            TileCell { col: 0, row: 0 },
        ]
    );
}

#[test]
fn over_capacity_map_fails_with_its_dimensions() {
    // 65 * 64 = 4160 cells, over the 4096-entry shader buffer.
    let map = TileMap {
        width: 65,
        height: 64,
        tile_width: 16,
        tile_height: 16,
        layers: vec![],
    };
    assert_eq!(
        generate_tile_data(&map, 2, 2),
        Err(TilemapError::CapacityExceeded {
            width: 65,
            height: 64
        })
    );
}

#[test]
fn map_at_exact_capacity_builds() {
    let rows = vec![vec![0u32; 64]; 64];
    let map = small_map(64, 64, rows);
    let table = generate_tile_data(&map, 2, 2).unwrap();
    assert_eq!(table.tiles.len(), 4096);
    assert!(table
        .tiles
        .iter()
        .all(|c| *c == TileCell { col: 0, row: 0 }));
}

#[test]
fn misshapen_layer_is_rejected() {
    let map = small_map(2, 2, vec![vec![1, 2], vec![3]]);
    assert_eq!(
        generate_tile_data(&map, 2, 2),
        Err(TilemapError::MalformedLayer)
    );
}

#[test]
fn gid_outside_the_atlas_is_rejected() {
    // A 2x2 atlas has gids 1..=4; 5 names no cell.
    let map = small_map(2, 2, vec![vec![1, 5], vec![0, 3]]);
    assert_eq!(
        generate_tile_data(&map, 2, 2),
        Err(TilemapError::GidOutOfRange)
    );
}

#[test]
fn later_layers_overwrite_where_nonzero() {
    let map = TileMap {
        width: 2,
        height: 1,
        tile_width: 16,
        tile_height: 16,
        layers: vec![
            TileLayer {
                tiles: vec![vec![1, 2]],
            },
            TileLayer {
                tiles: vec![vec![4, 0]],
            },
        ],
    };
    let table = generate_tile_data(&map, 2, 2).unwrap();
    // Cell 0 takes the upper layer's tile 4; cell 1 keeps the lower
    // layer's tile 2 because the upper layer is empty there.
    assert_eq!(
        table.tiles,
        vec![TileCell { col: 1, row: 0 }, TileCell { col: 1, row: 1 }]
    );
}

#[test]
fn building_twice_yields_identical_tables() {
    let map = small_map(2, 2, vec![vec![1, 2], vec![0, 3]]);
    let first: TilemapTiles = generate_tile_data(&map, 2, 2).unwrap();
    let second: TilemapTiles = generate_tile_data(&map, 2, 2).unwrap();
    assert_eq!(first, second);
}

#[test]
fn bundle_assembles_consistent_parts() {
    let map = small_map(2, 2, vec![vec![1, 2], vec![0, 3]]);
    // A 32x32 image of 16px tiles is a 2x2 atlas.
    let bundle = build_tilemap_bundle(&map, 32, 32).unwrap();
    assert_eq!(bundle.dimensions.width, 2);
    assert_eq!(bundle.dimensions.height, 2);
    assert_eq!(bundle.tilesheet.width, 2);
    assert_eq!(bundle.tilesheet.height, 2);
    assert_eq!(
        bundle.tiles.tiles.len() as u64,
        bundle.dimensions.width as u64 * bundle.dimensions.height as u64
    );
    assert_eq!(bundle.mesh.len(), 2 * 2 * 6);
    assert_eq!(bundle.translation_x, 16);
    assert_eq!(bundle.translation_y, 16);
    assert_eq!(bundle.tiles.tiles[0], TileCell { col: 0, row: 1 });
}

#[test]
fn bundle_rejects_an_empty_map() {
    let map = TileMap {
        width: 0,
        height: 2,
        tile_width: 16,
        tile_height: 16,
        layers: vec![],
    };
    assert_eq!(build_tilemap_bundle(&map, 32, 32), Err(TilemapError::EmptyMap));
}

#[test]
fn bundle_rejects_an_image_smaller_than_one_tile() {
    let map = small_map(2, 2, vec![vec![0, 0], vec![0, 0]]);
    assert_eq!(
        build_tilemap_bundle(&map, 8, 8),
        Err(TilemapError::EmptyAtlas)
    );
}

#[test]
fn bundle_built_twice_is_bit_identical() {
    let map = small_map(2, 2, vec![vec![1, 2], vec![0, 3]]);
    let first = build_tilemap_bundle(&map, 32, 32).unwrap();
    let second = build_tilemap_bundle(&map, 32, 32).unwrap();
    assert_eq!(first, second);
}
